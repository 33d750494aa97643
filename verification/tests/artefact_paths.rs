use lunatic_distributed::artefact::{compiled_binary_path, get_target_dir};

#[test]
fn target_dir_sits_beside_the_config_file() {
    assert_eq!(
        get_target_dir(&b"/home/me/project/lunatic.toml".to_vec()),
        b"/home/me/project/target".to_vec()
    );
}

#[test]
fn target_dir_of_a_bare_file_name() {
    assert_eq!(get_target_dir(&b"lunatic.toml".to_vec()), b"target".to_vec());
}

#[test]
fn target_dir_of_a_root_file() {
    assert_eq!(get_target_dir(&b"/lunatic.toml".to_vec()), b"/target".to_vec());
}

#[test]
fn release_binary_path() {
    assert_eq!(
        compiled_binary_path(
            &b"/p/target".to_vec(),
            &b"wasm32-wasi".to_vec(),
            true,
            &b"app.wasm".to_vec()
        ),
        b"/p/target/wasm32-wasi/release/app.wasm".to_vec()
    );
}

#[test]
fn debug_binary_path() {
    assert_eq!(
        compiled_binary_path(
            &b"/p/target".to_vec(),
            &b"wasm32-wasi".to_vec(),
            false,
            &b"app.wasm".to_vec()
        ),
        b"/p/target/wasm32-wasi/debug/app.wasm".to_vec()
    );
}
