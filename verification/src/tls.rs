//! The rules that the material of an mTLS profile is held to.
use crate::pki::{
    certificate_validity, certificates_view, check_client_identity, client_identity,
    count_trust_anchors, found_key_view, identity_check_view, pem_certificates, pem_private_key,
    read_certificates, read_private_key, read_validity, trust_anchors, validity_view, Certificates,
    FoundKey, IdentityCheck, PrivateKey, PrivateKeyView, Validity,
};
use crate::text::{append_unsigned, decimal};
use crate::tls_error::{TlsError, TlsErrorView, TlsMaterialKind};
use vstd::prelude::*;
use vstd::string::StringExecFns;

verus! {

/// Where the material of an mTLS profile lies, and the name that the server must have.
#[derive(Clone, Debug, PartialEq, Eq)]
pub struct MtlsProfileConfig {
    pub ca_cert_path: std::path::PathBuf,
    pub client_cert_path: std::path::PathBuf,
    pub client_key_path: std::path::PathBuf,
    pub tls_server_name: Option<String>,
}

/// Model of [`MtlsProfileConfig`].
pub struct MtlsProfileConfigView {
    pub ca_cert_path: std::path::PathBuf,
    pub client_cert_path: std::path::PathBuf,
    pub client_key_path: std::path::PathBuf,
    pub tls_server_name: Option<Seq<char>>,
}

impl DeepView for MtlsProfileConfig {
    type V = MtlsProfileConfigView;

    open spec fn deep_view(&self) -> MtlsProfileConfigView {
        MtlsProfileConfigView {
            ca_cert_path: self.ca_cert_path,
            client_cert_path: self.client_cert_path,
            client_key_path: self.client_key_path,
            tls_server_name: self.tls_server_name.deep_view(),
        }
    }
}

impl MtlsProfileConfigView {
    /// The path of the file with a role.
    pub open spec fn path(self, kind: TlsMaterialKind) -> std::path::PathBuf {
        match kind {
            TlsMaterialKind::CaBundle => self.ca_cert_path,
            TlsMaterialKind::ClientCertificate => self.client_cert_path,
            TlsMaterialKind::ClientKey => self.client_key_path,
        }
    }
}

/// The bytes of the three files of an mTLS profile.
#[derive(Clone, Debug, PartialEq, Eq)]
pub struct TlsMaterial {
    pub ca_pem: Vec<u8>,
    pub client_cert_pem: Vec<u8>,
    pub client_key_pem: Vec<u8>,
}

/// Model of [`TlsMaterial`].
pub struct TlsMaterialView {
    pub ca_pem: Seq<u8>,
    pub client_cert_pem: Seq<u8>,
    pub client_key_pem: Seq<u8>,
}

impl DeepView for TlsMaterial {
    type V = TlsMaterialView;

    open spec fn deep_view(&self) -> TlsMaterialView {
        TlsMaterialView {
            ca_pem: self.ca_pem@,
            client_cert_pem: self.client_cert_pem@,
            client_key_pem: self.client_key_pem@,
        }
    }
}

/// A timestamp stands for seconds since the epoch: it differs from them by a multiple of the
/// number of 64-bit values. Without seconds it is the epoch.
pub open spec fn stands_for_seconds(timestamp: i64, since_epoch: Option<u64>) -> bool {
    match since_epoch {
        Some(seconds) => seconds == timestamp || seconds == timestamp + 0x1_0000_0000_0000_0000,
        None => timestamp == 0,
    }
}

/// The timestamp of seconds since the epoch is the only one that stands for them, and up to the
/// largest timestamp it is the seconds themselves.
pub proof fn lemma_one_timestamp(a: i64, b: i64, since_epoch: Option<u64>)
    requires
        stands_for_seconds(a, since_epoch),
        stands_for_seconds(b, since_epoch),
    ensures
        a == b,
        since_epoch matches Some(seconds) ==> (seconds < 0x8000_0000_0000_0000 ==> a == seconds),
{
}

/// The time as a Unix timestamp, given the seconds since the epoch. A clock that is set before
/// the epoch counts as the epoch. Seconds beyond the largest timestamp wrap to negative ones.
pub fn unix_timestamp(since_epoch: Option<u64>) -> (r: i64)
    ensures
        stands_for_seconds(r, since_epoch),
        r == (match since_epoch {
            Some(seconds) => if seconds <= i64::MAX {
                seconds as int
            } else {
                seconds - 0x1_0000_0000_0000_0000
            },
            None => 0,
        }),
{
    match since_epoch {
        Some(seconds) => {
            assert(seconds > 0x7fff_ffff_ffff_ffff ==> seconds as i64 == seconds
                - 0x1_0000_0000_0000_0000) by (bit_vector);
            seconds as i64
        },
        None => 0,
    }
}

/// Space, tab, line feed, form feed, carriage return.
pub open spec fn is_white_space(byte: u8) -> bool {
    byte == 32 || byte == 9 || byte == 10 || byte == 12 || byte == 13
}

/// Nothing but white space.
pub open spec fn is_blank(data: Seq<u8>) -> bool {
    forall|i: int| 0 <= i < data.len() ==> is_white_space(#[trigger] data[i])
}

/// Whether there is nothing but white space.
fn all_white_space(data: &Vec<u8>) -> (r: bool)
    ensures
        r == is_blank(data@),
{
    let mut i: usize = 0;
    while i < data.len()
        invariant
            i <= data.len(),
            forall|k: int| 0 <= k < i ==> is_white_space(#[trigger] data@[k]),
        decreases data.len() - i,
    {
        let byte: u8 = data[i];
        if byte != 32 && byte != 9 && byte != 10 && byte != 12 && byte != 13 {
            assert(!is_white_space(data@[i as int]));
            return false;
        }
        i = i + 1;
    }
    true
}

/// Takes the bytes of a file, unless it could not be read or holds nothing but white space.
pub fn read_material(
    kind: TlsMaterialKind,
    path: &std::path::PathBuf,
    read: Result<Vec<u8>, String>,
) -> (r: Result<Vec<u8>, TlsError>)
    ensures
        match read {
            Err(source) => r matches Err(error) && error.deep_view() == (TlsErrorView::Read {
                kind,
                path: *path,
                source: source@,
            }),
            Ok(data) => if is_blank(data@) {
                r matches Err(error) && error.deep_view() == (TlsErrorView::Empty {
                    kind,
                    path: *path,
                })
            } else {
                r matches Ok(taken) && taken@ == data@
            },
        },
{
    match read {
        Err(source) => Err(TlsError::Read { kind, path: path.clone(), source }),
        Ok(data) => if all_white_space(&data) {
            Err(TlsError::Empty { kind, path: path.clone() })
        } else {
            Ok(data)
        },
    }
}

/// What is wrong with the certificates that were found in a file.
pub open spec fn certificates_error(
    kind: TlsMaterialKind,
    path: std::path::PathBuf,
    parsed: Result<Seq<Seq<u8>>, Seq<char>>,
) -> Option<TlsErrorView> {
    match parsed {
        Err(message) => Some(TlsErrorView::Parse { kind, path, message }),
        Ok(certificates) => if certificates.len() == 0 {
            Some(
                TlsErrorView::Parse { kind, path, message: "no certificate PEM blocks found"@ },
            )
        } else {
            None
        },
    }
}

/// Takes the certificates that were found in a file: there must be one at least.
pub fn accept_certificates(
    kind: TlsMaterialKind,
    path: &std::path::PathBuf,
    parsed: Certificates,
) -> (r: Result<Vec<Vec<u8>>, TlsError>)
    ensures
        match certificates_error(kind, *path, certificates_view(parsed)) {
            Some(expected) => r matches Err(error) && error.deep_view() == expected,
            None => r matches Ok(certificates) && certificates.deep_view()
                == certificates_view(parsed)->Ok_0,
        },
{
    match parsed {
        Err(message) => Err(TlsError::Parse { kind, path: path.clone(), message }),
        Ok(certificates) => if certificates.len() == 0 {
            Err(
                TlsError::Parse {
                    kind,
                    path: path.clone(),
                    message: "no certificate PEM blocks found".to_owned(),
                },
            )
        } else {
            Ok(certificates)
        },
    }
}

/// The certificates in the bytes of a PEM file.
pub fn parse_certificates(
    kind: TlsMaterialKind,
    path: &std::path::PathBuf,
    pem: &Vec<u8>,
) -> (r: Result<Vec<Vec<u8>>, TlsError>)
    ensures
        match certificates_error(kind, *path, pem_certificates(pem@)) {
            Some(expected) => r matches Err(error) && error.deep_view() == expected,
            None => r matches Ok(certificates) && certificates.deep_view()
                == pem_certificates(pem@)->Ok_0,
        },
{
    accept_certificates(kind, path, read_certificates(pem))
}

/// What is wrong with the private key that was found in a file.
pub open spec fn key_error(
    path: std::path::PathBuf,
    parsed: Result<Option<PrivateKeyView>, Seq<char>>,
) -> Option<TlsErrorView> {
    match parsed {
        Err(message) => Some(
            TlsErrorView::Parse { kind: TlsMaterialKind::ClientKey, path, message },
        ),
        Ok(None) => Some(
            TlsErrorView::Parse {
                kind: TlsMaterialKind::ClientKey,
                path,
                message: "no supported private key PEM block found"@,
            },
        ),
        Ok(Some(_)) => None,
    }
}

/// Takes the private key that was found in a file: there must be one.
pub fn accept_private_key(path: &std::path::PathBuf, parsed: FoundKey) -> (r: Result<
    PrivateKey,
    TlsError,
>)
    ensures
        match key_error(*path, found_key_view(parsed)) {
            Some(expected) => r matches Err(error) && error.deep_view() == expected,
            None => r matches Ok(key) && key.deep_view() == found_key_view(parsed)->Ok_0->0,
        },
{
    match parsed {
        Err(message) => Err(
            TlsError::Parse { kind: TlsMaterialKind::ClientKey, path: path.clone(), message },
        ),
        Ok(None) => Err(
            TlsError::Parse {
                kind: TlsMaterialKind::ClientKey,
                path: path.clone(),
                message: "no supported private key PEM block found".to_owned(),
            },
        ),
        Ok(Some(key)) => Ok(key),
    }
}

/// The private key in the bytes of a PEM file.
pub fn parse_private_key(path: &std::path::PathBuf, pem: &Vec<u8>) -> (r: Result<
    PrivateKey,
    TlsError,
>)
    ensures
        match key_error(*path, pem_private_key(pem@)) {
            Some(expected) => r matches Err(error) && error.deep_view() == expected,
            None => r matches Ok(key) && key.deep_view() == pem_private_key(pem@)->Ok_0->0,
        },
{
    accept_private_key(path, read_private_key(pem))
}

/// What is wrong with the validity of a certificate at a time.
pub open spec fn validity_error(
    kind: TlsMaterialKind,
    path: std::path::PathBuf,
    validity: Result<(i64, i64), Seq<char>>,
    now: i64,
) -> Option<TlsErrorView> {
    match validity {
        Err(error) => Some(
            TlsErrorView::Parse { kind, path, message: "invalid X.509 certificate: "@ + error },
        ),
        Ok((not_before, not_after)) => if now < not_before {
            Some(TlsErrorView::NotYetValid { kind, path, not_before })
        } else if now > not_after {
            Some(TlsErrorView::Expired { kind, path, not_after })
        } else {
            None
        },
    }
}

/// Holds the validity of a certificate against a time.
pub fn check_validity(
    kind: TlsMaterialKind,
    path: &std::path::PathBuf,
    validity: Validity,
    now: i64,
) -> (r: Result<(), TlsError>)
    ensures
        match validity_error(kind, *path, validity_view(validity), now) {
            Some(expected) => r matches Err(error) && error.deep_view() == expected,
            None => r is Ok,
        },
{
    match validity {
        Err(error) => Err(
            TlsError::Parse {
                kind,
                path: path.clone(),
                message: "invalid X.509 certificate: ".to_owned().concat(error.as_str()),
            },
        ),
        Ok((not_before, not_after)) => if now < not_before {
            Err(TlsError::NotYetValid { kind, path: path.clone(), not_before })
        } else if now > not_after {
            Err(TlsError::Expired { kind, path: path.clone(), not_after })
        } else {
            Ok(())
        },
    }
}

/// What is wrong with the first certificate that is not valid at a time.
pub open spec fn times_error(
    kind: TlsMaterialKind,
    path: std::path::PathBuf,
    certificates: Seq<Seq<u8>>,
    now: i64,
) -> Option<TlsErrorView>
    decreases certificates.len(),
{
    if certificates.len() == 0 {
        None
    } else {
        match validity_error(kind, path, certificate_validity(certificates[0]), now) {
            Some(error) => Some(error),
            None => times_error(kind, path, certificates.skip(1), now),
        }
    }
}

/// Holds the validity of every certificate of a file against a time.
pub fn validate_certificate_times(
    kind: TlsMaterialKind,
    path: &std::path::PathBuf,
    certificates: &Vec<Vec<u8>>,
    now: i64,
) -> (r: Result<(), TlsError>)
    ensures
        match times_error(kind, *path, certificates.deep_view(), now) {
            Some(expected) => r matches Err(error) && error.deep_view() == expected,
            None => r is Ok,
        },
{
    let ghost views = certificates.deep_view();
    let mut i: usize = 0;
    assert(views.skip(0) =~= views);
    while i < certificates.len()
        invariant
            views == certificates.deep_view(),
            i <= certificates.len(),
            times_error(kind, *path, views, now) == times_error(
                kind,
                *path,
                views.skip(i as int),
                now,
            ),
        decreases certificates.len() - i,
    {
        let certificate = &certificates[i];
        assert(views.skip(i as int)[0] == certificate@);
        assert(views.skip(i as int).skip(1) =~= views.skip(i + 1));
        if let Err(error) = check_validity(kind, path, read_validity(certificate), now) {
            return Err(error);
        }
        i = i + 1;
    }
    Ok(())
}

/// What is wrong with a CA bundle in which so many certificates are trust anchors and so many
/// are not.
pub open spec fn anchors_error(
    path: std::path::PathBuf,
    accepted: nat,
    ignored: nat,
) -> Option<TlsErrorView> {
    if accepted == 0 {
        Some(TlsErrorView::NoTrustedCa { path })
    } else if ignored != 0 {
        Some(
            TlsErrorView::Parse {
                kind: TlsMaterialKind::CaBundle,
                path,
                message: decimal(ignored as int)
                    + " certificate(s) could not be used as trust anchors"@,
            },
        )
    } else {
        None
    }
}

/// A CA bundle must hold trust anchors, and nothing else.
pub fn check_trust_anchors(
    path: &std::path::PathBuf,
    accepted: usize,
    ignored: usize,
) -> (r: Result<(), TlsError>)
    ensures
        match anchors_error(*path, accepted as nat, ignored as nat) {
            Some(expected) => r matches Err(error) && error.deep_view() == expected,
            None => r is Ok,
        },
{
    if accepted == 0 {
        return Err(TlsError::NoTrustedCa { path: path.clone() });
    }
    if ignored != 0 {
        let mut message = String::new();
        append_unsigned(&mut message, ignored as u64);
        message.append(" certificate(s) could not be used as trust anchors");
        return Err(
            TlsError::Parse { kind: TlsMaterialKind::CaBundle, path: path.clone(), message },
        );
    }
    Ok(())
}

/// What is wrong with the certificates of a CA bundle as trust anchors.
pub open spec fn roots_error(
    path: std::path::PathBuf,
    certificates: Seq<Seq<u8>>,
) -> Option<TlsErrorView> {
    anchors_error(
        path,
        trust_anchors(certificates),
        (certificates.len() - trust_anchors(certificates)) as nat,
    )
}

/// Every certificate of a CA bundle must be a trust anchor.
pub fn validate_root_store(
    path: &std::path::PathBuf,
    certificates: &Vec<Vec<u8>>,
) -> (r: Result<(), TlsError>)
    ensures
        match roots_error(*path, certificates.deep_view()) {
            Some(expected) => r matches Err(error) && error.deep_view() == expected,
            None => r is Ok,
        },
{
    let (accepted, ignored) = count_trust_anchors(certificates);
    check_trust_anchors(path, accepted, ignored)
}

/// What is wrong with a client identity.
pub open spec fn identity_error(check: Result<(), Seq<char>>) -> Option<TlsErrorView> {
    match check {
        Err(source) => Some(TlsErrorView::InvalidIdentity { source }),
        Ok(_) => None,
    }
}

/// Takes the outcome of the check of a client identity.
pub fn accept_client_identity(check: IdentityCheck) -> (r: Result<(), TlsError>)
    ensures
        match identity_error(identity_check_view(check)) {
            Some(expected) => r matches Err(error) && error.deep_view() == expected,
            None => r is Ok,
        },
{
    match check {
        Err(source) => Err(TlsError::InvalidIdentity { source }),
        Ok(_) => Ok(()),
    }
}

/// The client certificates and the client key must make up an identity.
pub fn validate_client_identity(certificates: &Vec<Vec<u8>>, key: &PrivateKey) -> (r: Result<
    (),
    TlsError,
>)
    ensures
        match identity_error(client_identity(certificates.deep_view(), key.deep_view())) {
            Some(expected) => r matches Err(error) && error.deep_view() == expected,
            None => r is Ok,
        },
{
    accept_client_identity(check_client_identity(certificates, key))
}

/// What is wrong with certificates and a key that were parsed, at a time. The validity comes
/// first, that of the CA bundle before that of the client certificate.
pub open spec fn parsed_error(
    config: MtlsProfileConfigView,
    ca: Seq<Seq<u8>>,
    client: Seq<Seq<u8>>,
    key: PrivateKeyView,
    now: i64,
) -> Option<TlsErrorView> {
    if let Some(error) = times_error(TlsMaterialKind::CaBundle, config.ca_cert_path, ca, now) {
        Some(error)
    } else if let Some(error) = times_error(
        TlsMaterialKind::ClientCertificate,
        config.client_cert_path,
        client,
        now,
    ) {
        Some(error)
    } else if let Some(error) = roots_error(config.ca_cert_path, ca) {
        Some(error)
    } else {
        identity_error(client_identity(client, key))
    }
}

/// What is wrong with the material of a profile at a time. What cannot be parsed comes first,
/// in the order of CA bundle, client certificate and client key.
pub open spec fn material_error(
    config: MtlsProfileConfigView,
    material: TlsMaterialView,
    now: i64,
) -> Option<TlsErrorView> {
    let ca = pem_certificates(material.ca_pem);
    let client = pem_certificates(material.client_cert_pem);
    let key = pem_private_key(material.client_key_pem);
    if let Some(error) = certificates_error(TlsMaterialKind::CaBundle, config.ca_cert_path, ca) {
        Some(error)
    } else if let Some(error) = certificates_error(
        TlsMaterialKind::ClientCertificate,
        config.client_cert_path,
        client,
    ) {
        Some(error)
    } else if let Some(error) = key_error(config.client_key_path, key) {
        Some(error)
    } else {
        parsed_error(config, ca->Ok_0, client->Ok_0, key->Ok_0->0, now)
    }
}

/// Holds the material of a profile to the rules, at a time. Material that keeps them all is
/// handed back as it is.
pub fn validate_material(
    config: &MtlsProfileConfig,
    material: TlsMaterial,
    now: i64,
) -> (r: Result<TlsMaterial, TlsError>)
    ensures
        match material_error(config.deep_view(), material.deep_view(), now) {
            Some(expected) => r matches Err(error) && error.deep_view() == expected,
            None => r == Ok::<TlsMaterial, TlsError>(material),
        },
{
    let ca_certs = match parse_certificates(
        TlsMaterialKind::CaBundle,
        &config.ca_cert_path,
        &material.ca_pem,
    ) {
        Ok(certificates) => certificates,
        Err(error) => {
            return Err(error);
        },
    };
    let client_certs = match parse_certificates(
        TlsMaterialKind::ClientCertificate,
        &config.client_cert_path,
        &material.client_cert_pem,
    ) {
        Ok(certificates) => certificates,
        Err(error) => {
            return Err(error);
        },
    };
    let client_key = match parse_private_key(&config.client_key_path, &material.client_key_pem) {
        Ok(key) => key,
        Err(error) => {
            return Err(error);
        },
    };
    if let Err(error) = validate_certificate_times(
        TlsMaterialKind::CaBundle,
        &config.ca_cert_path,
        &ca_certs,
        now,
    ) {
        return Err(error);
    }
    if let Err(error) = validate_certificate_times(
        TlsMaterialKind::ClientCertificate,
        &config.client_cert_path,
        &client_certs,
        now,
    ) {
        return Err(error);
    }
    if let Err(error) = validate_root_store(&config.ca_cert_path, &ca_certs) {
        return Err(error);
    }
    if let Err(error) = validate_client_identity(&client_certs, &client_key) {
        return Err(error);
    }
    Ok(material)
}

} // verus!
