//! What an HTTP client needs of an mTLS profile.
use crate::pki::pem_certificates;
use crate::tls::{
    material_error, validate_material, MtlsProfileConfig, MtlsProfileConfigView, TlsMaterial,
    TlsMaterialView,
};
use crate::tls_error::{TlsError, TlsErrorView};
use crate::tls_laws::lemma_error_names_its_file;
use vstd::prelude::*;

verus! {

/// A CA certificate of the HTTP client.
#[verifier::external_type_specification]
#[verifier::external_body]
pub struct ExHttpCertificate(reqwest::Certificate);

/// The client identity of the HTTP client.
#[verifier::external_type_specification]
#[verifier::external_body]
pub struct ExHttpIdentity(reqwest::Identity);

/// The settings that an HTTP client is built from.
#[verifier::external_type_specification]
#[verifier::external_body]
pub struct ExHttpClientBuilder(reqwest::ClientBuilder);

/// The bytes of one file behind the bytes of another, on a new line.
pub open spec fn joined_pem(first: Seq<u8>, second: Seq<u8>) -> Seq<u8> {
    first.push(10) + second
}

/// The client certificate and the client key in one PEM text.
pub fn identity_pem(material: &TlsMaterial) -> (r: Vec<u8>)
    ensures
        r@ == joined_pem(material.client_cert_pem@, material.client_key_pem@),
{
    let mut pem: Vec<u8> = Vec::new();
    pem.extend_from_slice(material.client_cert_pem.as_slice());
    pem.push(10);
    pem.extend_from_slice(material.client_key_pem.as_slice());
    assert(pem@ =~= joined_pem(material.client_cert_pem@, material.client_key_pem@));
    pem
}

/// The CA certificates of the HTTP client, or an error text.
pub type HttpCaBundle = Result<Vec<reqwest::Certificate>, String>;

/// The client identity of the HTTP client, or an error text.
pub type HttpIdentity = Result<reqwest::Identity, String>;

/// The model of the CA certificates of the HTTP client.
pub open spec fn http_ca_view(bundle: HttpCaBundle) -> Result<
    Seq<reqwest::Certificate>,
    Seq<char>,
> {
    match bundle {
        Ok(certificates) => Ok(certificates@),
        Err(error) => Err(error@),
    }
}

/// The model of the client identity of the HTTP client.
pub open spec fn http_identity_view(identity: HttpIdentity) -> Result<
    reqwest::Identity,
    Seq<char>,
> {
    match identity {
        Ok(identity) => Ok(identity),
        Err(error) => Err(error@),
    }
}

/// What `reqwest::Certificate::from_pem_bundle` makes of a PEM file: CA certificates, or the
/// text of the error.
pub uninterp spec fn http_ca_certificates(pem: Seq<u8>) -> Result<
    Seq<reqwest::Certificate>,
    Seq<char>,
>;

/// Calls `reqwest::Certificate::from_pem_bundle`.
///
/// The result depends on the bytes alone. Sections of a PEM file are read as `rustls_pemfile`
/// reads them, and every certificate among them is taken as it is. Which bytes are well-formed
/// PEM is not said.
#[verifier::external_body]
fn read_http_ca_certificates(pem: &Vec<u8>) -> (r: HttpCaBundle)
    ensures
        http_ca_view(r) == http_ca_certificates(pem@),
        pem_certificates(pem@) is Ok ==> r is Ok,
{
    reqwest::Certificate::from_pem_bundle(pem.as_slice()).map_err(|error| error.to_string())
}

/// What `reqwest::Identity::from_pem` makes of a PEM text: a client identity, or the text of
/// the error.
pub uninterp spec fn http_client_identity(pem: Seq<u8>) -> Result<reqwest::Identity, Seq<char>>;

/// Calls `reqwest::Identity::from_pem`.
///
/// The result depends on the bytes alone. Which bytes are taken is not said.
#[verifier::external_body]
fn read_http_client_identity(pem: &Vec<u8>) -> (r: HttpIdentity)
    ensures
        http_identity_view(r) == http_client_identity(pem@),
{
    reqwest::Identity::from_pem(pem.as_slice()).map_err(|error| error.to_string())
}

/// What an HTTP client is built with.
pub struct HttpCredentials {
    pub ca_certs: Vec<reqwest::Certificate>,
    pub identity: reqwest::Identity,
}

/// Model of [`HttpCredentials`].
pub struct HttpCredentialsView {
    pub ca_certs: Seq<reqwest::Certificate>,
    pub identity: reqwest::Identity,
}

impl DeepView for HttpCredentials {
    type V = HttpCredentialsView;

    open spec fn deep_view(&self) -> HttpCredentialsView {
        HttpCredentialsView { ca_certs: self.ca_certs@, identity: self.identity }
    }
}

/// The credentials, or what is wrong with them. The CA bundle comes first.
pub open spec fn credentials(
    ca: Result<Seq<reqwest::Certificate>, Seq<char>>,
    identity: Result<reqwest::Identity, Seq<char>>,
) -> Result<HttpCredentialsView, TlsErrorView> {
    match (ca, identity) {
        (Err(source), _) => Err(TlsErrorView::HttpCaBundle { source }),
        (_, Err(source)) => Err(TlsErrorView::HttpIdentity { source }),
        (Ok(ca_certs), Ok(identity)) => Ok(HttpCredentialsView { ca_certs, identity }),
    }
}

/// Puts the credentials together. The CA bundle comes first.
pub fn accept_credentials(ca: HttpCaBundle, identity: HttpIdentity) -> (r: Result<
    HttpCredentials,
    TlsError,
>)
    ensures
        match credentials(http_ca_view(ca), http_identity_view(identity)) {
            Ok(expected) => r matches Ok(found) && found.deep_view() == expected,
            Err(expected) => r matches Err(error) && error.deep_view() == expected,
        },
{
    match ca {
        Err(source) => Err(TlsError::HttpCaBundle { source }),
        Ok(ca_certs) => match identity {
            Err(source) => Err(TlsError::HttpIdentity { source }),
            Ok(identity) => Ok(HttpCredentials { ca_certs, identity }),
        },
    }
}

/// The credentials for an HTTP client: the CA bundle to trust, and the identity made of the
/// client certificate and the client key.
pub fn http_credentials(material: &TlsMaterial) -> (r: Result<HttpCredentials, TlsError>)
    ensures
        match credentials(
            http_ca_certificates(material.ca_pem@),
            http_client_identity(
                joined_pem(material.client_cert_pem@, material.client_key_pem@),
            ),
        ) {
            Ok(expected) => r matches Ok(found) && found.deep_view() == expected,
            Err(expected) => r matches Err(error) && error.deep_view() == expected,
        },
        pem_certificates(material.ca_pem@) is Ok ==> (r matches Err(error) ==> !(
        error is HttpCaBundle)),
{
    accept_credentials(
        read_http_ca_certificates(&material.ca_pem),
        read_http_client_identity(&identity_pem(material)),
    )
}

/// What an HTTP client is set to: how long a request may take, the CA certificates that were
/// added, whether those alone are trusted, the identity that it presents, and whether its TLS is
/// that of `rustls`.
pub struct HttpSettingsView {
    pub timeout: Option<std::time::Duration>,
    pub ca_certs: Seq<reqwest::Certificate>,
    pub ca_certs_only: bool,
    pub identity: Option<reqwest::Identity>,
    pub rustls: bool,
}

/// What a `reqwest::ClientBuilder` holds.
pub uninterp spec fn http_settings(builder: reqwest::ClientBuilder) -> HttpSettingsView;

/// Calls `reqwest::Client::builder`: there is no time limit, no CA certificate is added, other
/// ones are trusted, and no identity is presented. Nothing is said of the TLS.
#[verifier::external_body]
fn empty_http_settings() -> (r: reqwest::ClientBuilder)
    ensures
        http_settings(r) == (HttpSettingsView {
            timeout: None,
            ca_certs: Seq::empty(),
            ca_certs_only: false,
            identity: None,
            rustls: http_settings(r).rustls,
        }),
{
    reqwest::Client::builder()
}

/// Calls `reqwest::ClientBuilder::timeout`: a request may take this long.
#[verifier::external_body]
fn with_timeout(
    builder: reqwest::ClientBuilder,
    timeout: std::time::Duration,
) -> (r: reqwest::ClientBuilder)
    ensures
        http_settings(r) == (HttpSettingsView {
            timeout: Some(timeout),
            ..http_settings(builder)
        }),
{
    builder.timeout(timeout)
}

/// Calls `reqwest::ClientBuilder::tls_backend_rustls`: the TLS is that of `rustls`.
#[verifier::external_body]
fn with_rustls(builder: reqwest::ClientBuilder) -> (r: reqwest::ClientBuilder)
    ensures
        http_settings(r) == (HttpSettingsView { rustls: true, ..http_settings(builder) }),
{
    builder.tls_backend_rustls()
}

/// Calls `reqwest::ClientBuilder::tls_certs_only`: these CA certificates are added, and only
/// those that are added are trusted.
#[verifier::external_body]
fn with_ca_certs_only(
    builder: reqwest::ClientBuilder,
    ca_certs: Vec<reqwest::Certificate>,
) -> (r: reqwest::ClientBuilder)
    ensures
        http_settings(r) == (HttpSettingsView {
            ca_certs: http_settings(builder).ca_certs + ca_certs@,
            ca_certs_only: true,
            ..http_settings(builder)
        }),
{
    builder.tls_certs_only(ca_certs)
}

/// Calls `reqwest::ClientBuilder::identity`: the client presents this identity.
#[verifier::external_body]
fn with_client_identity(
    builder: reqwest::ClientBuilder,
    identity: reqwest::Identity,
) -> (r: reqwest::ClientBuilder)
    ensures
        http_settings(r) == (HttpSettingsView {
            identity: Some(identity),
            ..http_settings(builder)
        }),
{
    builder.identity(identity)
}

/// The settings for an HTTP client with credentials: a request may take so long, only the CA
/// certificates are trusted, and the identity is presented, all by `rustls`.
pub open spec fn client_settings(
    credentials: HttpCredentialsView,
    timeout: std::time::Duration,
) -> HttpSettingsView {
    HttpSettingsView {
        timeout: Some(timeout),
        ca_certs: credentials.ca_certs,
        ca_certs_only: true,
        identity: Some(credentials.identity),
        rustls: true,
    }
}

/// The settings for an HTTP client with credentials.
pub fn http_client_settings(
    credentials: HttpCredentials,
    timeout: std::time::Duration,
) -> (r: reqwest::ClientBuilder)
    ensures
        http_settings(r) == client_settings(credentials.deep_view(), timeout),
        http_settings(r).timeout == Some(timeout),
        http_settings(r).ca_certs == credentials.ca_certs@,
        http_settings(r).ca_certs_only,
        http_settings(r).identity == Some(credentials.identity),
        http_settings(r).rustls,
{
    let ghost ca_certs = credentials.ca_certs@;
    let builder = with_rustls(with_timeout(empty_http_settings(), timeout));
    assert(Seq::<reqwest::Certificate>::empty() + ca_certs =~= ca_certs);
    with_client_identity(
        with_ca_certs_only(builder, credentials.ca_certs),
        credentials.identity,
    )
}

/// The name whose resolution is overridden, with the address that it resolves to. Without a name
/// or without an address nothing is overridden.
pub open spec fn overridden<A>(
    tls_server_name: Option<Seq<char>>,
    resolve_addr: Option<A>,
) -> Option<(Seq<char>, A)> {
    match (tls_server_name, resolve_addr) {
        (Some(name), Some(addr)) => Some((name, addr)),
        _ => None,
    }
}

/// The name whose resolution is overridden, with the address that it resolves to.
///
/// The name is for server name indication and for the verification of the certificate. It is
/// bound to the known address, so that the client still connects there. Without a name or
/// without an address nothing is overridden.
pub fn resolve_override<A>(tls_server_name: &Option<String>, resolve_addr: Option<A>) -> (r:
    Option<(String, A)>)
    ensures
        resolution_view(r) == overridden(tls_server_name.deep_view(), resolve_addr),
{
    match (tls_server_name, resolve_addr) {
        (Some(name), Some(addr)) => Some((name.clone(), addr)),
        _ => None,
    }
}

/// The model of the resolution that is overridden.
pub open spec fn resolution_view<A>(resolution: Option<(String, A)>) -> Option<(Seq<char>, A)> {
    match resolution {
        Some((name, addr)) => Some((name@, addr)),
        None => None,
    }
}

/// What an HTTP client is made of: its settings, and the name whose resolution is to be
/// overridden in them, with the address of type `A` that it resolves to.
pub struct HttpClientParts<A> {
    pub settings: reqwest::ClientBuilder,
    pub resolution: Option<(String, A)>,
}

/// Model of [`HttpClientParts`].
pub struct HttpClientView<A> {
    pub settings: HttpSettingsView,
    pub resolution: Option<(Seq<char>, A)>,
}

impl<A> HttpClientParts<A> {
    /// The model of the parts.
    pub open spec fn model(self) -> HttpClientView<A> {
        HttpClientView {
            settings: http_settings(self.settings),
            resolution: resolution_view(self.resolution),
        }
    }
}

/// What an HTTP client that uses the material of a profile at a time is made of, or what is
/// wrong: first with the material by its rules, then with the credentials made of it.
pub open spec fn http_client<A>(
    config: MtlsProfileConfigView,
    material: TlsMaterialView,
    now: i64,
    timeout: std::time::Duration,
    resolve_addr: Option<A>,
) -> Result<HttpClientView<A>, TlsErrorView> {
    match material_error(config, material, now) {
        Some(error) => Err(error),
        None => match credentials(
            http_ca_certificates(material.ca_pem),
            http_client_identity(joined_pem(material.client_cert_pem, material.client_key_pem)),
        ) {
            Ok(found) => Ok(
                HttpClientView {
                    settings: client_settings(found, timeout),
                    resolution: overridden(config.tls_server_name, resolve_addr),
                },
            ),
            Err(error) => Err(error),
        },
    }
}

/// What an HTTP client is made of, by the material of a profile as it is now.
///
/// Each call holds the material that it is given to the rules. Nothing is kept from earlier
/// calls. The CA bundle of material that keeps the rules is one that the HTTP client takes.
pub fn reqwest_client<A>(
    config: &MtlsProfileConfig,
    material: TlsMaterial,
    now: i64,
    timeout: std::time::Duration,
    resolve_addr: Option<A>,
) -> (r: Result<HttpClientParts<A>, TlsError>)
    ensures
        match http_client(
            config.deep_view(),
            material.deep_view(),
            now,
            timeout,
            resolve_addr,
        ) {
            Ok(expected) => r matches Ok(parts) && parts.model() == expected,
            Err(expected) => r matches Err(error) && error.deep_view() == expected,
        },
        r matches Err(error) ==> !(error is HttpCaBundle),
        r matches Ok(parts) ==> {
            &&& http_ca_certificates(material.ca_pem@) == Ok::<
                Seq<reqwest::Certificate>,
                Seq<char>,
            >(http_settings(parts.settings).ca_certs)
            &&& http_settings(parts.settings).ca_certs_only
            &&& http_settings(parts.settings).timeout == Some(timeout)
            &&& http_settings(parts.settings).rustls
            &&& parts.resolution is Some <==> config.tls_server_name is Some && resolve_addr
                is Some
            &&& parts.resolution matches Some((name, addr)) ==> Some(name@)
                == config.tls_server_name.deep_view() && Some(addr) == resolve_addr
        },
{
    proof {
        lemma_error_names_its_file(config.deep_view(), material.deep_view(), now);
    }
    let material = match validate_material(config, material, now) {
        Ok(material) => material,
        Err(error) => {
            return Err(error);
        },
    };
    match http_credentials(&material) {
        Ok(found) => Ok(
            HttpClientParts {
                settings: http_client_settings(found, timeout),
                resolution: resolve_override(&config.tls_server_name, resolve_addr),
            },
        ),
        Err(error) => Err(error),
    }
}

} // verus!
