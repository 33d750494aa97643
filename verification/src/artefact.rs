//! Locating a compiled binary artefact under a project's build
//! directory. The file system is the caller's business; the path
//! arithmetic is here, on paths as byte strings with `/` as the
//! separator.

use vstd::prelude::*;

verus! {

/// The path separator.
pub const PATH_SEPARATOR: u8 = 47;

/// The name of the build directory beside the project configuration
/// file.
pub open spec fn spec_target_component() -> Seq<u8> {
    seq![116u8, 97u8, 114u8, 103u8, 101u8, 116u8]
}

/// The release build directory.
pub open spec fn spec_release_component() -> Seq<u8> {
    seq![114u8, 101u8, 108u8, 101u8, 97u8, 115u8, 101u8]
}

/// The debug build directory.
pub open spec fn spec_debug_component() -> Seq<u8> {
    seq![100u8, 101u8, 98u8, 117u8, 103u8]
}

/// Everything up to and including the last separator of a path; empty
/// when the path has none.
pub open spec fn spec_dir_prefix(path: Seq<u8>) -> Seq<u8>
    decreases path.len(),
{
    if path.len() == 0 {
        Seq::empty()
    } else if path.last() == PATH_SEPARATOR {
        path
    } else {
        spec_dir_prefix(path.drop_last())
    }
}

/// The build directory beside a configuration file: the file's
/// directory with `target` joined onto it.
pub open spec fn spec_target_dir(config_path: Seq<u8>) -> Seq<u8> {
    spec_dir_prefix(config_path) + spec_target_component()
}

/// Joining one further component onto a path.
pub open spec fn spec_join(base: Seq<u8>, component: Seq<u8>) -> Seq<u8> {
    base + seq![PATH_SEPARATOR] + component
}

/// Where a compiled binary lives under the build directory: the build
/// target, then `release` or `debug`, then the binary's name.
pub open spec fn spec_compiled_binary_path(
    target_dir: Seq<u8>,
    target: Seq<u8>,
    is_release: bool,
    binary_name: Seq<u8>,
) -> Seq<u8> {
    spec_join(
        spec_join(
            spec_join(target_dir, target),
            if is_release {
                spec_release_component()
            } else {
                spec_debug_component()
            },
        ),
        binary_name,
    )
}

/// Appends the bytes of `src` to `out`.
fn append_bytes(out: &mut Vec<u8>, src: &Vec<u8>)
    ensures
        final(out)@ == old(out)@ + src@,
{
    let n = src.len();
    let mut i: usize = 0;
    while i < n
        invariant
            i <= n,
            n == src@.len(),
            out@ == old(out)@ + src@.subrange(0, i as int),
        decreases n - i,
    {
        out.push(src[i]);
        assert(out@ =~= old(out)@ + src@.subrange(0, i + 1));
        i = i + 1;
    }
    assert(old(out)@ + src@.subrange(0, n as int) =~= old(out)@ + src@);
}

/// Appends the `target` component.
fn append_target_component(out: &mut Vec<u8>)
    ensures
        final(out)@ == old(out)@ + spec_target_component(),
{
    out.push(116u8);
    out.push(97u8);
    out.push(114u8);
    out.push(103u8);
    out.push(101u8);
    out.push(116u8);
    assert(out@ =~= old(out)@ + spec_target_component());
}

/// The project's build directory, derived from the path of its
/// configuration file: the file's own directory with `target` joined
/// onto it.
pub fn get_target_dir(config_path: &Vec<u8>) -> (r: Vec<u8>)
    ensures
        r@ == spec_target_dir(config_path@),
{
    let mut end = config_path.len();
    proof {
        assert(config_path@.take(end as int) =~= config_path@);
    }
    loop
        invariant
            end <= config_path.len(),
            spec_dir_prefix(config_path@) == spec_dir_prefix(config_path@.take(end as int)),
        ensures
            end <= config_path.len(),
            spec_dir_prefix(config_path@) == spec_dir_prefix(config_path@.take(end as int)),
            end == 0 || config_path@[end - 1] == PATH_SEPARATOR,
        decreases end,
    {
        if end == 0 {
            break ;
        }
        if config_path[end - 1] == PATH_SEPARATOR {
            break ;
        }
        proof {
            assert(config_path@.take(end as int).drop_last() =~= config_path@.take(end - 1));
        }
        end = end - 1;
    }
    let mut out: Vec<u8> = Vec::new();
    let mut i: usize = 0;
    while i < end
        invariant
            i <= end,
            end <= config_path@.len(),
            out@ == config_path@.subrange(0, i as int),
        decreases end - i,
    {
        out.push(config_path[i]);
        assert(out@ =~= config_path@.subrange(0, i + 1));
        i = i + 1;
    }
    proof {
        assert(config_path@.take(end as int) =~= config_path@.subrange(0, end as int));
        if end > 0 {
            assert(config_path@.take(end as int).last() == PATH_SEPARATOR);
            assert(spec_dir_prefix(config_path@.take(end as int)) == config_path@.take(
                end as int,
            ));
        } else {
            assert(spec_dir_prefix(config_path@.take(0)) =~= Seq::<u8>::empty());
            assert(out@ =~= Seq::<u8>::empty());
        }
    }
    append_target_component(&mut out);
    out
}

/// The path of a compiled binary under the project's build directory:
/// the build target's directory, then `release` or `debug` after the
/// build profile, then the binary's name. Whether a file is there is
/// the caller's business.
pub fn compiled_binary_path(
    target_dir: &Vec<u8>,
    target: &Vec<u8>,
    is_release: bool,
    binary_name: &Vec<u8>,
) -> (r: Vec<u8>)
    ensures
        r@ == spec_compiled_binary_path(target_dir@, target@, is_release, binary_name@),
{
    let mut out: Vec<u8> = Vec::new();
    append_bytes(&mut out, target_dir);
    out.push(PATH_SEPARATOR);
    append_bytes(&mut out, target);
    out.push(PATH_SEPARATOR);
    if is_release {
        out.push(114u8);
        out.push(101u8);
        out.push(108u8);
        out.push(101u8);
        out.push(97u8);
        out.push(115u8);
        out.push(101u8);
    } else {
        out.push(100u8);
        out.push(101u8);
        out.push(98u8);
        out.push(117u8);
        out.push(103u8);
    }
    out.push(PATH_SEPARATOR);
    append_bytes(&mut out, binary_name);
    assert(out@ =~= spec_compiled_binary_path(target_dir@, target@, is_release, binary_name@));
    out
}

} // verus!
