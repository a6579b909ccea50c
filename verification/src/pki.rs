//! What the PEM, X.509 and TLS crates make of certificates and keys.
use rustls::pki_types::{
    CertificateDer, PrivateKeyDer, PrivatePkcs1KeyDer, PrivatePkcs8KeyDer, PrivateSec1KeyDer,
};
use vstd::prelude::*;
use x509_parser::prelude::FromDer;

verus! {

/// A private key in one of the encodings that a PEM file can hold.
#[derive(Clone, Debug, PartialEq, Eq)]
pub enum PrivateKey {
    Pkcs1(Vec<u8>),
    Sec1(Vec<u8>),
    Pkcs8(Vec<u8>),
}

/// Model of [`PrivateKey`].
pub enum PrivateKeyView {
    Pkcs1(Seq<u8>),
    Sec1(Seq<u8>),
    Pkcs8(Seq<u8>),
}

impl DeepView for PrivateKey {
    type V = PrivateKeyView;

    open spec fn deep_view(&self) -> PrivateKeyView {
        match self {
            PrivateKey::Pkcs1(der) => PrivateKeyView::Pkcs1(der@),
            PrivateKey::Sec1(der) => PrivateKeyView::Sec1(der@),
            PrivateKey::Pkcs8(der) => PrivateKeyView::Pkcs8(der@),
        }
    }
}

/// The certificates in a PEM file, each as DER, or an error text.
pub type Certificates = Result<Vec<Vec<u8>>, String>;

/// The model of the certificates in a PEM file.
pub open spec fn certificates_view(parsed: Certificates) -> Result<Seq<Seq<u8>>, Seq<char>> {
    match parsed {
        Ok(certificates) => Ok(certificates.deep_view()),
        Err(error) => Err(error@),
    }
}

/// What `rustls_pemfile::certs` finds in a PEM file: every certificate, or the text of the
/// first error.
pub uninterp spec fn pem_certificates(pem: Seq<u8>) -> Result<Seq<Seq<u8>>, Seq<char>>;

/// Calls `rustls_pemfile::certs` and collects what it yields.
///
/// The result depends on the bytes alone. Which bytes are well-formed PEM is not said.
#[verifier::external_body]
pub(crate) fn read_certificates(pem: &Vec<u8>) -> (r: Certificates)
    ensures
        certificates_view(r) == pem_certificates(pem@),
{
    let mut reader = std::io::BufReader::new(pem.as_slice());
    rustls_pemfile::certs(&mut reader)
        .map(|found| found.map(|der| der.to_vec()).map_err(|error| error.to_string()))
        .collect()
}

/// The private key in a PEM file, if there is one, or an error text.
pub type FoundKey = Result<Option<PrivateKey>, String>;

/// The model of the private key in a PEM file.
pub open spec fn found_key_view(parsed: FoundKey) -> Result<Option<PrivateKeyView>, Seq<char>> {
    match parsed {
        Ok(key) => Ok(key.deep_view()),
        Err(error) => Err(error@),
    }
}

/// What `rustls_pemfile::private_key` finds in a PEM file: the first private key, if there is
/// one, or the text of an error before it.
pub uninterp spec fn pem_private_key(pem: Seq<u8>) -> Result<Option<PrivateKeyView>, Seq<char>>;

/// Calls `rustls_pemfile::private_key`.
///
/// The result depends on the bytes alone. Which bytes are well-formed PEM is not said. A key in
/// an encoding other than the three of [`PrivateKey`] counts as none; the function yields no
/// such key.
#[verifier::external_body]
pub(crate) fn read_private_key(pem: &Vec<u8>) -> (r: FoundKey)
    ensures
        found_key_view(r) == pem_private_key(pem@),
{
    let mut reader = std::io::BufReader::new(pem.as_slice());
    match rustls_pemfile::private_key(&mut reader) {
        Ok(Some(PrivateKeyDer::Pkcs1(der))) => {
            Ok(Some(PrivateKey::Pkcs1(der.secret_pkcs1_der().to_vec())))
        },
        Ok(Some(PrivateKeyDer::Sec1(der))) => {
            Ok(Some(PrivateKey::Sec1(der.secret_sec1_der().to_vec())))
        },
        Ok(Some(PrivateKeyDer::Pkcs8(der))) => {
            Ok(Some(PrivateKey::Pkcs8(der.secret_pkcs8_der().to_vec())))
        },
        Ok(_) => Ok(None),
        Err(error) => Err(error.to_string()),
    }
}

/// When a certificate is valid, from and to, in seconds since the Unix epoch, or an error text.
pub type Validity = Result<(i64, i64), String>;

/// The model of the validity of a certificate.
pub open spec fn validity_view(validity: Validity) -> Result<(i64, i64), Seq<char>> {
    match validity {
        Ok(period) => Ok(period),
        Err(error) => Err(error@),
    }
}

/// What `x509_parser::certificate::X509Certificate::from_der` reads as the validity of a
/// certificate: its two ends as Unix timestamps, or the text of the error.
pub uninterp spec fn certificate_validity(der: Seq<u8>) -> Result<(i64, i64), Seq<char>>;

/// Calls `x509_parser::certificate::X509Certificate::from_der` and takes the two ends of the
/// validity as Unix timestamps.
///
/// The result depends on the bytes alone. Which bytes are an X.509 certificate is not said.
#[verifier::external_body]
pub(crate) fn read_validity(der: &Vec<u8>) -> (r: Validity)
    ensures
        validity_view(r) == certificate_validity(der@),
{
    match x509_parser::certificate::X509Certificate::from_der(der.as_slice()) {
        Ok((_, certificate)) => {
            let validity = certificate.validity();
            Ok((validity.not_before.timestamp(), validity.not_after.timestamp()))
        },
        Err(error) => Err(error.to_string()),
    }
}

/// Whether `rustls::RootCertStore` takes a certificate as a trust anchor.
pub uninterp spec fn is_trust_anchor(der: Seq<u8>) -> bool;

/// How many of the certificates are trust anchors.
pub open spec fn trust_anchors(certificates: Seq<Seq<u8>>) -> nat {
    certificates.filter(|der: Seq<u8>| is_trust_anchor(der)).len()
}

/// Calls `rustls::RootCertStore::add_parsable_certificates` on an empty store.
///
/// Each certificate is looked at by itself: the first number counts those that are trust
/// anchors, the second one the others. Which certificates are trust anchors is not said.
#[verifier::external_body]
pub(crate) fn count_trust_anchors(certificates: &Vec<Vec<u8>>) -> (r: (usize, usize))
    ensures
        r.0 == certificates.deep_view().filter(|der: Seq<u8>| is_trust_anchor(der)).len(),
        r.0 + r.1 == certificates.len(),
{
    rustls::RootCertStore::empty().add_parsable_certificates(
        certificates.iter().map(|der| CertificateDer::from(der.as_slice())),
    )
}

/// Nothing where certificates and a key make up a client identity, or an error text.
pub type IdentityCheck = Result<(), String>;

/// The model of the check of a client identity.
pub open spec fn identity_check_view(check: IdentityCheck) -> Result<(), Seq<char>> {
    match check {
        Ok(_) => Ok(()),
        Err(error) => Err(error@),
    }
}

/// Whether `rustls` takes a certificate chain and a key as a client identity, or the text of
/// the error.
pub uninterp spec fn client_identity(
    certificates: Seq<Seq<u8>>,
    key: PrivateKeyView,
) -> Result<(), Seq<char>>;

/// Calls `with_client_auth_cert` on a `rustls::ClientConfig` builder with the `aws_lc_rs`
/// provider, the default protocol versions and no trust anchors.
///
/// The result depends on the certificates and the key alone. Which keys match which
/// certificates is not said.
#[verifier::external_body]
pub(crate) fn check_client_identity(
    certificates: &Vec<Vec<u8>>,
    key: &PrivateKey,
) -> (r: IdentityCheck)
    ensures
        identity_check_view(r) == client_identity(certificates.deep_view(), key.deep_view()),
{
    let provider = std::sync::Arc::new(rustls::crypto::aws_lc_rs::default_provider());
    let key = match key {
        PrivateKey::Pkcs1(der) => PrivateKeyDer::from(PrivatePkcs1KeyDer::from(der.clone())),
        PrivateKey::Sec1(der) => PrivateKeyDer::from(PrivateSec1KeyDer::from(der.clone())),
        PrivateKey::Pkcs8(der) => PrivateKeyDer::from(PrivatePkcs8KeyDer::from(der.clone())),
    };
    let chain = certificates.iter().map(|der| CertificateDer::from(der.clone())).collect();
    rustls::ClientConfig::builder_with_provider(provider)
        .with_safe_default_protocol_versions()
        .map(|builder| builder.with_root_certificates(rustls::RootCertStore::empty()))
        .and_then(|builder| builder.with_client_auth_cert(chain, key))
        .map(|_| ())
        .map_err(|error| error.to_string())
}

} // verus!
