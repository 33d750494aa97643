//! Credential ingestion: PEM-encoded inputs are parsed and classified,
//! and only the expected item kinds are accepted. An input whose first
//! PEM block is absent, ill-formed, or of an unexpected kind is refused
//! with an error naming which artifact was invalid — a fatal startup
//! condition, never retried.

use vstd::prelude::*;

verus! {

/// What the first PEM block of an input text is.
pub enum PemItem {
    /// A DER-encoded x509 certificate.
    Certificate(Vec<u8>),
    /// A DER-encoded PKCS#8 private key.
    Pkcs8Key(Vec<u8>),
    /// A recognised block of some other kind (an RSA or EC key, a
    /// revocation list).
    OtherItem,
    /// No PEM block at all.
    NoItem,
    /// A block that is not well formed enough to decode.
    Malformed,
}

/// Mathematical model of a [`PemItem`].
pub enum PemItemModel {
    Certificate(Seq<u8>),
    Pkcs8Key(Seq<u8>),
    OtherItem,
    NoItem,
    Malformed,
}

impl View for PemItem {
    type V = PemItemModel;

    open spec fn view(&self) -> PemItemModel {
        match self {
            PemItem::Certificate(der) => PemItemModel::Certificate(der@),
            PemItem::Pkcs8Key(der) => PemItemModel::Pkcs8Key(der@),
            PemItem::OtherItem => PemItemModel::OtherItem,
            PemItem::NoItem => PemItemModel::NoItem,
            PemItem::Malformed => PemItemModel::Malformed,
        }
    }
}

/// The first PEM item of an input text: a pure function of the text
/// alone.
pub uninterp spec fn pem_first_item(input: Seq<char>) -> PemItemModel;

/// Relies on rustls_pemfile::read_one: it scans the text for its first
/// PEM section and base64-decodes it, a deterministic function of the
/// text alone. Certificates and PKCS#8 keys are told apart from other
/// recognised sections, from the absence of any section, and from
/// ill-formed input.
#[verifier::external_body]
fn read_pem_item(input: &str) -> (r: PemItem)
    ensures
        r@ == pem_first_item(input@),
{
    let mut reader = input.as_bytes();
    match rustls_pemfile::read_one(&mut reader) {
        Ok(Some(rustls_pemfile::Item::X509Certificate(der))) => PemItem::Certificate(der),
        Ok(Some(rustls_pemfile::Item::PKCS8Key(der))) => PemItem::Pkcs8Key(der),
        Ok(Some(_)) => PemItem::OtherItem,
        Ok(None) => PemItem::NoItem,
        Err(_) => PemItem::Malformed,
    }
}

/// Why credentials were refused.
#[derive(Clone, Copy, PartialEq, Eq, Structural, Debug)]
pub enum CredentialError {
    /// The CA input's first PEM block is missing or not a certificate.
    InvalidCaCertificate,
    /// The certificate input's first PEM block is missing or not a
    /// certificate.
    InvalidCertificate,
    /// The key input's first PEM block is missing or not a PKCS#8 key.
    InvalidPrivateKey,
    /// The TLS stack refused the CA certificate's DER bytes as a trust
    /// anchor.
    RejectedCaCertificate,
    /// The TLS stack refused the private key's DER bytes.
    RejectedPrivateKey,
}

/// The certificate bytes a PEM item yields: only a certificate block is
/// accepted.
pub open spec fn spec_certificate_der(item: PemItemModel) -> Option<Seq<u8>> {
    match item {
        PemItemModel::Certificate(der) => Some(der),
        _ => None,
    }
}

/// The key bytes a PEM item yields: only a PKCS#8 key block is
/// accepted.
pub open spec fn spec_private_key_der(item: PemItemModel) -> Option<Seq<u8>> {
    match item {
        PemItemModel::Pkcs8Key(der) => Some(der),
        _ => None,
    }
}

/// Accepts a PEM item only when it is a certificate, handing out its
/// DER bytes.
pub fn classify_certificate(item: PemItem) -> (r: Option<Vec<u8>>)
    ensures
        match r {
            Some(der) => spec_certificate_der(item@) == Some(der@),
            None => spec_certificate_der(item@) is None,
        },
{
    match item {
        PemItem::Certificate(der) => Some(der),
        _ => None,
    }
}

/// Accepts a PEM item only when it is a PKCS#8 private key, handing out
/// its DER bytes.
pub fn classify_private_key(item: PemItem) -> (r: Option<Vec<u8>>)
    ensures
        match r {
            Some(der) => spec_private_key_der(item@) == Some(der@),
            None => spec_private_key_der(item@) is None,
        },
{
    match item {
        PemItem::Pkcs8Key(der) => Some(der),
        _ => None,
    }
}

/// Parses a PEM text whose first block must be a certificate.
pub fn certificate_der(pem: &str) -> (r: Option<Vec<u8>>)
    ensures
        match r {
            Some(der) => spec_certificate_der(pem_first_item(pem@)) == Some(der@),
            None => spec_certificate_der(pem_first_item(pem@)) is None,
        },
{
    classify_certificate(read_pem_item(pem))
}

/// Parses a PEM text whose first block must be a PKCS#8 private key.
pub fn private_key_der(pem: &str) -> (r: Option<Vec<u8>>)
    ensures
        match r {
            Some(der) => spec_private_key_der(pem_first_item(pem@)) == Some(der@),
            None => spec_private_key_der(pem_first_item(pem@)) is None,
        },
{
    classify_private_key(read_pem_item(pem))
}

/// Validated credential material: the DER bytes of the cluster CA
/// certificate, the node's own certificate, and the node's private key.
/// Loaded once at startup and immutable afterwards.
pub struct Identity {
    pub ca_der: Vec<u8>,
    pub cert_der: Vec<u8>,
    pub key_der: Vec<u8>,
}

/// Mathematical model of an [`Identity`].
pub struct IdentityModel {
    pub ca_der: Seq<u8>,
    pub cert_der: Seq<u8>,
    pub key_der: Seq<u8>,
}

impl View for Identity {
    type V = IdentityModel;

    open spec fn view(&self) -> IdentityModel {
        IdentityModel { ca_der: self.ca_der@, cert_der: self.cert_der@, key_der: self.key_der@ }
    }
}

/// Loading an identity from three classified PEM items: the CA is
/// checked first, then the private key, then the certificate; the first
/// unexpected item decides the error.
pub open spec fn spec_load_identity(
    ca: PemItemModel,
    cert: PemItemModel,
    key: PemItemModel,
) -> Result<IdentityModel, CredentialError> {
    match ca {
        PemItemModel::Certificate(ca_der) => match key {
            PemItemModel::Pkcs8Key(key_der) => match cert {
                PemItemModel::Certificate(cert_der) => Ok(
                    IdentityModel { ca_der, cert_der, key_der },
                ),
                _ => Err(CredentialError::InvalidCertificate),
            },
            _ => Err(CredentialError::InvalidPrivateKey),
        },
        _ => Err(CredentialError::InvalidCaCertificate),
    }
}

/// Parses and validates the three PEM inputs of a node: CA certificate,
/// node certificate, private key.
pub fn load_identity(ca_pem: &str, cert_pem: &str, key_pem: &str) -> (r: Result<
    Identity,
    CredentialError,
>)
    ensures
        ({
            let model = spec_load_identity(
                pem_first_item(ca_pem@),
                pem_first_item(cert_pem@),
                pem_first_item(key_pem@),
            );
            match r {
                Ok(identity) => model == Ok::<IdentityModel, CredentialError>(identity@),
                Err(e) => model == Err::<IdentityModel, CredentialError>(e),
            }
        }),
{
    let ca_der = match certificate_der(ca_pem) {
        Some(der) => der,
        None => {
            return Err(CredentialError::InvalidCaCertificate);
        },
    };
    let key_der = match private_key_der(key_pem) {
        Some(der) => der,
        None => {
            return Err(CredentialError::InvalidPrivateKey);
        },
    };
    let cert_der = match certificate_der(cert_pem) {
        Some(der) => der,
        None => {
            return Err(CredentialError::InvalidCertificate);
        },
    };
    Ok(Identity { ca_der, cert_der, key_der })
}

/// Credential validation: an input whose first PEM block is of an
/// unexpected kind is refused with an explicit error that names the
/// invalid artifact — never silently accepted — and an identity is
/// produced exactly when all three inputs are of the expected kinds.
pub proof fn lemma_credential_validation(ca: PemItemModel, cert: PemItemModel, key: PemItemModel)
    ensures
        !(ca matches PemItemModel::Certificate(_)) ==> spec_load_identity(ca, cert, key)
            == Err::<IdentityModel, CredentialError>(CredentialError::InvalidCaCertificate),
        (ca matches PemItemModel::Certificate(_) && !(key matches PemItemModel::Pkcs8Key(_)))
            ==> spec_load_identity(ca, cert, key) == Err::<IdentityModel, CredentialError>(
            CredentialError::InvalidPrivateKey,
        ),
        (ca matches PemItemModel::Certificate(_) && key matches PemItemModel::Pkcs8Key(_) && !(
        cert matches PemItemModel::Certificate(_))) ==> spec_load_identity(ca, cert, key)
            == Err::<IdentityModel, CredentialError>(CredentialError::InvalidCertificate),
        (ca matches PemItemModel::Certificate(_) && key matches PemItemModel::Pkcs8Key(_)
            && cert matches PemItemModel::Certificate(_)) ==> spec_load_identity(ca, cert, key)
            is Ok,
{
}

} // verus!
