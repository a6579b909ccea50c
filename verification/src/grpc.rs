//! What a gRPC client needs of an mTLS profile.
use crate::tls::{
    material_error, validate_material, MtlsProfileConfig, MtlsProfileConfigView, TlsMaterial,
    TlsMaterialView,
};
use crate::tls_error::{TlsError, TlsErrorView};
use vstd::prelude::*;

verus! {

/// The TLS configuration of the gRPC client.
#[verifier::external_type_specification]
#[verifier::external_body]
pub struct ExClientTlsConfig(tonic::transport::ClientTlsConfig);

/// What a TLS configuration of the gRPC client holds: the PEM texts of the trusted CA
/// certificates, the client certificate and key, and the name that the server must have.
pub struct GrpcTlsView {
    pub ca_certificates: Seq<Seq<u8>>,
    pub identity: Option<(Seq<u8>, Seq<u8>)>,
    pub domain_name: Option<Seq<char>>,
}

/// What a `tonic::transport::ClientTlsConfig` holds.
pub uninterp spec fn grpc_tls(config: tonic::transport::ClientTlsConfig) -> GrpcTlsView;

/// Calls `tonic::transport::ClientTlsConfig::new`: the configuration holds nothing.
#[verifier::external_body]
fn empty_grpc_tls() -> (r: tonic::transport::ClientTlsConfig)
    ensures
        grpc_tls(r) == (GrpcTlsView {
            ca_certificates: Seq::empty(),
            identity: None,
            domain_name: None,
        }),
{
    tonic::transport::ClientTlsConfig::new()
}

/// Calls `tonic::transport::ClientTlsConfig::ca_certificate`: one more CA certificate is
/// trusted.
#[verifier::external_body]
fn with_ca_certificate(
    config: tonic::transport::ClientTlsConfig,
    pem: &Vec<u8>,
) -> (r: tonic::transport::ClientTlsConfig)
    ensures
        grpc_tls(r) == (GrpcTlsView {
            ca_certificates: grpc_tls(config).ca_certificates.push(pem@),
            ..grpc_tls(config)
        }),
{
    config.ca_certificate(tonic::transport::Certificate::from_pem(pem))
}

/// Calls `tonic::transport::ClientTlsConfig::identity`: the client presents this certificate
/// and key.
#[verifier::external_body]
fn with_identity(
    config: tonic::transport::ClientTlsConfig,
    cert_pem: &Vec<u8>,
    key_pem: &Vec<u8>,
) -> (r: tonic::transport::ClientTlsConfig)
    ensures
        grpc_tls(r) == (GrpcTlsView {
            identity: Some((cert_pem@, key_pem@)),
            ..grpc_tls(config)
        }),
{
    config.identity(tonic::transport::Identity::from_pem(cert_pem, key_pem))
}

/// Calls `tonic::transport::ClientTlsConfig::domain_name`: the server must have this name.
#[verifier::external_body]
fn with_domain_name(
    config: tonic::transport::ClientTlsConfig,
    name: &String,
) -> (r: tonic::transport::ClientTlsConfig)
    ensures
        grpc_tls(r) == (GrpcTlsView { domain_name: Some(name@), ..grpc_tls(config) }),
{
    config.domain_name(name.clone())
}

/// The TLS configuration for a gRPC client: it trusts the CA bundle, presents the client
/// certificate and key, and expects the name of the profile, if there is one.
pub open spec fn client_tls(
    tls_server_name: Option<Seq<char>>,
    material: TlsMaterialView,
) -> GrpcTlsView {
    GrpcTlsView {
        ca_certificates: seq![material.ca_pem],
        identity: Some((material.client_cert_pem, material.client_key_pem)),
        domain_name: tls_server_name,
    }
}

/// The TLS configuration for a gRPC client with the material of a profile.
pub fn grpc_tls_config(tls_server_name: &Option<String>, material: &TlsMaterial) -> (r:
    tonic::transport::ClientTlsConfig)
    ensures
        grpc_tls(r) == client_tls(tls_server_name.deep_view(), material.deep_view()),
        grpc_tls(r).ca_certificates == seq![material.ca_pem@],
        grpc_tls(r).identity == Some((material.client_cert_pem@, material.client_key_pem@)),
        grpc_tls(r).domain_name == tls_server_name.deep_view(),
{
    let tls_config = with_identity(
        with_ca_certificate(empty_grpc_tls(), &material.ca_pem),
        &material.client_cert_pem,
        &material.client_key_pem,
    );
    assert(Seq::<Seq<u8>>::empty().push(material.ca_pem@) =~= seq![material.ca_pem@]);
    match tls_server_name {
        Some(name) => with_domain_name(tls_config, name),
        None => tls_config,
    }
}

/// The TLS configuration for a gRPC client that uses the material of a profile at a time, or what
/// is wrong with the material.
pub open spec fn grpc_client(
    config: MtlsProfileConfigView,
    material: TlsMaterialView,
    now: i64,
) -> Result<GrpcTlsView, TlsErrorView> {
    match material_error(config, material, now) {
        Some(error) => Err(error),
        None => Ok(client_tls(config.tls_server_name, material)),
    }
}

/// The TLS configuration for a gRPC client, made of the material of a profile as it is now.
///
/// Each call holds the material that it is given to the rules. Nothing is kept from earlier
/// calls.
pub fn tonic_tls_config(
    config: &MtlsProfileConfig,
    material: TlsMaterial,
    now: i64,
) -> (r: Result<tonic::transport::ClientTlsConfig, TlsError>)
    ensures
        match grpc_client(config.deep_view(), material.deep_view(), now) {
            Ok(expected) => r matches Ok(tls_config) && grpc_tls(tls_config) == expected,
            Err(expected) => r matches Err(error) && error.deep_view() == expected,
        },
{
    match validate_material(config, material, now) {
        Ok(material) => Ok(grpc_tls_config(&config.tls_server_name, &material)),
        Err(error) => Err(error),
    }
}

} // verus!
