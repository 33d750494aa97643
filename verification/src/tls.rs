//! Mutually authenticating transport configurations, built from a
//! validated [`Identity`](crate::identity::Identity).
//!
//! The client configuration trusts only the given CA and presents the
//! given certificate and key; the server configuration requires every
//! connecting client to present a certificate chaining to the given CA,
//! presents the given certificate and key itself, and disables inbound
//! unidirectional streams — the protocol uses bidirectional streams
//! exclusively.

use crate::identity::{CredentialError, Identity};
use vstd::prelude::*;

verus! {

/// Transport-level client configuration of the underlying QUIC stack.
#[verifier::external_type_specification]
#[verifier::external_body]
pub struct ExClientConfig(quinn::ClientConfig);

/// Transport-level server configuration of the underlying QUIC stack.
#[verifier::external_type_specification]
#[verifier::external_body]
pub struct ExServerConfig(quinn::ServerConfig);

/// Whether the TLS stack accepts these DER bytes as a trust anchor: a
/// pure function of the bytes.
pub uninterp spec fn trust_anchor_accepted(ca_der: Seq<u8>) -> bool;

/// Whether the TLS stack accepts these DER bytes as a supported private
/// key (RSA, ECDSA, or Ed25519): a pure function of the bytes.
pub uninterp spec fn private_key_accepted(key_der: Seq<u8>) -> bool;

/// Whether the TLS stack accepts an identity's credential material: the
/// CA as a trust anchor and the key as a private key.
pub open spec fn spec_tls_accepted(identity: crate::identity::IdentityModel) -> bool {
    trust_anchor_accepted(identity.ca_der) && private_key_accepted(identity.key_der)
}

/// Which error a refused identity earns: the CA is added to the root
/// store first, so its rejection wins.
pub open spec fn spec_tls_error(identity: crate::identity::IdentityModel) -> CredentialError {
    if !trust_anchor_accepted(identity.ca_der) {
        CredentialError::RejectedCaCertificate
    } else {
        CredentialError::RejectedPrivateKey
    }
}

/// Relies on rustls: RootCertStore::add accepts or rejects the CA DER
/// as a function of its bytes alone; the client ConfigBuilder with safe
/// defaults, the root store, and with_single_cert fails exactly when
/// the key DER is not a supported private key (its documentation:
/// "This function fails if key_der is invalid"); and on
/// quinn::ClientConfig::new, which never fails.
#[verifier::external_body]
fn build_client_config(identity: &Identity) -> (r: Result<quinn::ClientConfig, CredentialError>)
    ensures
        (match r {
            Ok(_) => trust_anchor_accepted(identity.ca_der@) && private_key_accepted(
                identity.key_der@,
            ),
            Err(e) => !(trust_anchor_accepted(identity.ca_der@) && private_key_accepted(
                identity.key_der@,
            )) && e == (if !trust_anchor_accepted(identity.ca_der@) {
                CredentialError::RejectedCaCertificate
            } else {
                CredentialError::RejectedPrivateKey
            }),
        }),
{
    let mut roots = rustls::RootCertStore::empty();
    if roots.add(&rustls::Certificate(identity.ca_der.clone())).is_err() {
        return Err(CredentialError::RejectedCaCertificate);
    }
    let certs = vec![rustls::Certificate(identity.cert_der.clone())];
    let key = rustls::PrivateKey(identity.key_der.clone());
    match rustls::ClientConfig::builder().with_safe_defaults().with_root_certificates(
        roots,
    ).with_single_cert(certs, key) {
        Ok(crypto) => Ok(quinn::ClientConfig::new(std::sync::Arc::new(crypto))),
        Err(_) => Err(CredentialError::RejectedPrivateKey),
    }
}

/// Relies on rustls: RootCertStore::add as in the client build;
/// AllowAnyAuthenticatedClient::new, which never fails; the server
/// ConfigBuilder's with_single_cert, which fails exactly when the key
/// DER is not a supported private key; and on
/// quinn::ServerConfig::with_crypto and
/// TransportConfig::max_concurrent_uni_streams, which never fail.
#[verifier::external_body]
fn build_server_config(identity: &Identity) -> (r: Result<quinn::ServerConfig, CredentialError>)
    ensures
        (match r {
            Ok(_) => trust_anchor_accepted(identity.ca_der@) && private_key_accepted(
                identity.key_der@,
            ),
            Err(e) => !(trust_anchor_accepted(identity.ca_der@) && private_key_accepted(
                identity.key_der@,
            )) && e == (if !trust_anchor_accepted(identity.ca_der@) {
                CredentialError::RejectedCaCertificate
            } else {
                CredentialError::RejectedPrivateKey
            }),
        }),
{
    let mut roots = rustls::RootCertStore::empty();
    if roots.add(&rustls::Certificate(identity.ca_der.clone())).is_err() {
        return Err(CredentialError::RejectedCaCertificate);
    }
    let verifier = rustls::server::AllowAnyAuthenticatedClient::new(roots);
    let certs = vec![rustls::Certificate(identity.cert_der.clone())];
    let key = rustls::PrivateKey(identity.key_der.clone());
    let crypto = rustls::ServerConfig::builder().with_safe_defaults().with_client_cert_verifier(
        verifier,
    ).with_single_cert(certs, key).map_err(|_| CredentialError::RejectedPrivateKey)?;
    let mut config = quinn::ServerConfig::with_crypto(std::sync::Arc::new(crypto));
    std::sync::Arc::get_mut(&mut config.transport).unwrap().max_concurrent_uni_streams(0_u8.into());
    Ok(config)
}

/// A mutually authenticating client configuration from an identity:
/// `Ok` exactly when the TLS stack accepts the CA as a trust anchor and
/// the key as a private key, the errors telling the two apart.
pub fn client_config(identity: &Identity) -> (r: Result<quinn::ClientConfig, CredentialError>)
    ensures
        r is Ok <==> spec_tls_accepted(identity@),
        r is Err ==> r == Err::<quinn::ClientConfig, CredentialError>(spec_tls_error(identity@)),
{
    build_client_config(identity)
}

/// A mutually authenticating server configuration from an identity,
/// with inbound unidirectional streams disabled: `Ok` exactly when the
/// TLS stack accepts the CA as a trust anchor and the key as a private
/// key, the errors telling the two apart.
pub fn server_config(identity: &Identity) -> (r: Result<quinn::ServerConfig, CredentialError>)
    ensures
        r is Ok <==> spec_tls_accepted(identity@),
        r is Err ==> r == Err::<quinn::ServerConfig, CredentialError>(spec_tls_error(identity@)),
{
    build_server_config(identity)
}

} // verus!
