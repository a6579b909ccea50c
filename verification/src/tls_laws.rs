//! What holds of the material that the rules accept, and of the errors otherwise.
use crate::grpc::{client_tls, grpc_client, GrpcTlsView};
use crate::http::{
    client_settings, http_ca_certificates, http_ca_view, http_client, http_client_identity,
    http_identity_view, joined_pem, overridden, HttpCaBundle, HttpClientView, HttpCredentialsView,
    HttpIdentity,
};
use crate::paths::path_text;
use crate::pki::{
    certificate_validity, certificates_view, client_identity, found_key_view, identity_check_view,
    is_trust_anchor, pem_certificates, pem_private_key, trust_anchors, validity_view, Certificates,
    FoundKey, IdentityCheck, PrivateKey, PrivateKeyView, Validity,
};
use crate::text::{decimal, ends_with, holds, lemma_longer_holds, lemma_parts};
use crate::tls::{
    certificates_error, is_blank, is_white_space, key_error, material_error, roots_error,
    times_error, validity_error, MtlsProfileConfig, MtlsProfileConfigView, TlsMaterial,
    TlsMaterialView,
};
use crate::tls_error::{TlsError, TlsErrorView, TlsMaterialKind};
use vstd::prelude::*;

verus! {

/// A certificate is valid at a time.
pub open spec fn valid_at(der: Seq<u8>, now: i64) -> bool {
    certificate_validity(der) matches Ok((not_before, not_after)) && not_before <= now
        <= not_after
}

/// There is a certificate, and every one of them is valid at a time.
pub open spec fn all_valid_at(certificates: Seq<Seq<u8>>, now: i64) -> bool {
    &&& certificates.len() > 0
    &&& forall|i: int| 0 <= i < certificates.len() ==> valid_at(#[trigger] certificates[i], now)
}

/// Material that can be used at a time: all certificates are valid, those of the CA bundle are
/// trust anchors, and the client certificates and the client key make up an identity.
pub open spec fn usable_at(material: TlsMaterialView, now: i64) -> bool {
    match (
        pem_certificates(material.ca_pem),
        pem_certificates(material.client_cert_pem),
        pem_private_key(material.client_key_pem),
    ) {
        (Ok(ca), Ok(client), Ok(Some(key))) => {
            &&& all_valid_at(ca, now)
            &&& all_valid_at(client, now)
            &&& forall|i: int| 0 <= i < ca.len() ==> is_trust_anchor(#[trigger] ca[i])
            &&& client_identity(client, key) is Ok
        },
        _ => false,
    }
}

/// The times of certificates are accepted where each of them is valid.
pub proof fn lemma_times_accepted(
    kind: TlsMaterialKind,
    path: std::path::PathBuf,
    certificates: Seq<Seq<u8>>,
    now: i64,
)
    ensures
        times_error(kind, path, certificates, now) is None <==> forall|i: int|
            0 <= i < certificates.len() ==> valid_at(#[trigger] certificates[i], now),
    decreases certificates.len(),
{
    if certificates.len() > 0 {
        let rest = certificates.skip(1);
        lemma_times_accepted(kind, path, rest, now);
        if times_error(kind, path, certificates, now) is None {
            assert forall|i: int| 0 <= i < certificates.len() implies valid_at(
                #[trigger] certificates[i],
                now,
            ) by {
                if i > 0 {
                    assert(certificates[i] == rest[i - 1]);
                }
            }
        } else if forall|i: int|
            0 <= i < certificates.len() ==> valid_at(#[trigger] certificates[i], now) {
            assert(valid_at(certificates[0], now));
            assert forall|i: int| 0 <= i < rest.len() implies valid_at(
                #[trigger] rest[i],
                now,
            ) by {
                assert(rest[i] == certificates[i + 1]);
            }
        }
    }
}

/// A CA bundle consists of trust anchors where none of its certificates is left out.
pub proof fn lemma_all_trust_anchors(certificates: Seq<Seq<u8>>)
    ensures
        trust_anchors(certificates) <= certificates.len(),
        trust_anchors(certificates) == certificates.len() <==> forall|i: int|
            0 <= i < certificates.len() ==> is_trust_anchor(#[trigger] certificates[i]),
    decreases certificates.len(),
{
    reveal(Seq::filter);
    if certificates.len() > 0 {
        let rest = certificates.drop_last();
        lemma_all_trust_anchors(rest);
        if forall|i: int| 0 <= i < rest.len() ==> is_trust_anchor(#[trigger] rest[i]) {
            assert forall|i: int| 0 <= i < certificates.len() - 1 implies is_trust_anchor(
                #[trigger] certificates[i],
            ) by {
                assert(rest[i] == certificates[i]);
            }
        }
        if forall|i: int|
            0 <= i < certificates.len() ==> is_trust_anchor(#[trigger] certificates[i]) {
            assert forall|i: int| 0 <= i < rest.len() implies is_trust_anchor(
                #[trigger] rest[i],
            ) by {
                assert(rest[i] == certificates[i]);
            }
        }
    }
}

/// Material is accepted exactly where it can be used.
pub proof fn lemma_accepted_is_usable(
    config: MtlsProfileConfigView,
    material: TlsMaterialView,
    now: i64,
)
    ensures
        material_error(config, material, now) is None <==> usable_at(material, now),
{
    if let (Ok(ca), Ok(client)) = (
        pem_certificates(material.ca_pem),
        pem_certificates(material.client_cert_pem),
    ) {
        lemma_times_accepted(TlsMaterialKind::CaBundle, config.ca_cert_path, ca, now);
        lemma_times_accepted(
            TlsMaterialKind::ClientCertificate,
            config.client_cert_path,
            client,
            now,
        );
        lemma_all_trust_anchors(ca);
    }
}

/// Material that is accepted at two times is accepted at every time between them.
pub proof fn lemma_accepted_between(
    config: MtlsProfileConfigView,
    material: TlsMaterialView,
    earlier: i64,
    now: i64,
    later: i64,
)
    requires
        earlier <= now <= later,
        material_error(config, material, earlier) is None,
        material_error(config, material, later) is None,
    ensures
        material_error(config, material, now) is None,
{
    lemma_accepted_is_usable(config, material, earlier);
    lemma_accepted_is_usable(config, material, now);
    lemma_accepted_is_usable(config, material, later);
    let ca = pem_certificates(material.ca_pem)->Ok_0;
    let client = pem_certificates(material.client_cert_pem)->Ok_0;
    assert forall|i: int| 0 <= i < ca.len() implies valid_at(#[trigger] ca[i], now) by {
        assert(valid_at(ca[i], earlier) && valid_at(ca[i], later));
    }
    assert forall|i: int| 0 <= i < client.len() implies valid_at(#[trigger] client[i], now) by {
        assert(valid_at(client[i], earlier) && valid_at(client[i], later));
    }
}

/// Where a certificate has expired, some certificate is invalid ever after.
proof fn lemma_expired_stays_invalid(
    kind: TlsMaterialKind,
    path: std::path::PathBuf,
    certificates: Seq<Seq<u8>>,
    now: i64,
    later: i64,
)
    requires
        now <= later,
        times_error(kind, path, certificates, now) matches Some(error) && error is Expired,
    ensures
        times_error(kind, path, certificates, later) is Some,
    decreases certificates.len(),
{
    if validity_error(kind, path, certificate_validity(certificates[0]), now) is None {
        lemma_expired_stays_invalid(kind, path, certificates.skip(1), now, later);
    }
}

/// Material that has expired is refused ever after.
pub proof fn lemma_expired_stays_refused(
    config: MtlsProfileConfigView,
    material: TlsMaterialView,
    now: i64,
    later: i64,
)
    requires
        now <= later,
        material_error(config, material, now) matches Some(error) && error is Expired,
    ensures
        material_error(config, material, later) is Some,
{
    let ca = pem_certificates(material.ca_pem)->Ok_0;
    let client = pem_certificates(material.client_cert_pem)->Ok_0;
    let kind = TlsMaterialKind::CaBundle;
    if times_error(kind, config.ca_cert_path, ca, now) is Some {
        lemma_expired_stays_invalid(kind, config.ca_cert_path, ca, now, later);
    } else {
        lemma_expired_stays_invalid(
            TlsMaterialKind::ClientCertificate,
            config.client_cert_path,
            client,
            now,
            later,
        );
    }
}

/// The times of the certificates of a file are wrong in the name of that file.
proof fn lemma_times_error_names_file(
    kind: TlsMaterialKind,
    path: std::path::PathBuf,
    certificates: Seq<Seq<u8>>,
    now: i64,
)
    ensures
        times_error(kind, path, certificates, now) matches Some(error) ==> error.file() == Some(
            (kind, path),
        ),
    decreases certificates.len(),
{
    if certificates.len() > 0 {
        lemma_times_error_names_file(kind, path, certificates.skip(1), now);
    }
}

/// An error is about the client identity as a whole, or it names the file that is at fault, by
/// its role and by the path that the profile has for it.
pub proof fn lemma_error_names_its_file(
    config: MtlsProfileConfigView,
    material: TlsMaterialView,
    now: i64,
)
    ensures
        material_error(config, material, now) matches Some(error) ==> match error.file() {
            Some((kind, path)) => path == config.path(kind),
            None => error is InvalidIdentity,
        },
{
    lemma_times_error_names_file(
        TlsMaterialKind::CaBundle,
        config.ca_cert_path,
        pem_certificates(material.ca_pem)->Ok_0,
        now,
    );
    lemma_times_error_names_file(
        TlsMaterialKind::ClientCertificate,
        config.client_cert_path,
        pem_certificates(material.client_cert_pem)->Ok_0,
        now,
    );
}

/// A client that is built again uses the material as it is then, whatever was there before: it is
/// built exactly where that material can be used, and, for HTTP, the HTTP client takes the
/// credentials made of it.
pub proof fn lemma_changed_material_is_used<A>(
    config: MtlsProfileConfigView,
    material: TlsMaterialView,
    now: i64,
    timeout: std::time::Duration,
    resolve_addr: Option<A>,
)
    ensures
        grpc_client(config, material, now) is Ok <==> usable_at(material, now),
        grpc_client(config, material, now) matches Ok(tls) ==> tls == client_tls(
            config.tls_server_name,
            material,
        ),
        ({
            let ca = http_ca_certificates(material.ca_pem);
            let identity = http_client_identity(
                joined_pem(material.client_cert_pem, material.client_key_pem),
            );
            let built = http_client(config, material, now, timeout, resolve_addr);
            &&& built is Ok <==> usable_at(material, now) && ca is Ok && identity is Ok
            &&& built matches Ok(client) ==> client == (HttpClientView {
                settings: client_settings(
                    HttpCredentialsView { ca_certs: ca->Ok_0, identity: identity->Ok_0 },
                    timeout,
                ),
                resolution: overridden(config.tls_server_name, resolve_addr),
            })
        }),
{
    lemma_accepted_is_usable(config, material, now);
}

/// Where material was accepted before, its certificates are still valid, and the client key alone
/// is replaced by a well-formed one that does not belong to the client certificate, no client is
/// built: the error says that certificate and key do not match.
pub proof fn lemma_changed_key_is_refused<A>(
    config: MtlsProfileConfigView,
    material: TlsMaterialView,
    earlier: i64,
    client_key_pem: Seq<u8>,
    now: i64,
    timeout: std::time::Duration,
    resolve_addr: Option<A>,
)
    requires
        material_error(config, material, earlier) is None,
        all_valid_at(pem_certificates(material.ca_pem)->Ok_0, now),
        all_valid_at(pem_certificates(material.client_cert_pem)->Ok_0, now),
        pem_private_key(client_key_pem) matches Ok(Some(key)) && client_identity(
            pem_certificates(material.client_cert_pem)->Ok_0,
            key,
        ) is Err,
    ensures
        ({
            let changed = TlsMaterialView { client_key_pem, ..material };
            let error = TlsErrorView::InvalidIdentity {
                source: client_identity(
                    pem_certificates(material.client_cert_pem)->Ok_0,
                    pem_private_key(client_key_pem)->Ok_0->0,
                )->Err_0,
            };
            &&& material_error(config, changed, now) == Some(error)
            &&& http_client(config, changed, now, timeout, resolve_addr)
                == Err::<HttpClientView<A>, TlsErrorView>(error)
            &&& grpc_client(config, changed, now) == Err::<GrpcTlsView, TlsErrorView>(error)
        }),
{
    let ca = pem_certificates(material.ca_pem)->Ok_0;
    let client = pem_certificates(material.client_cert_pem)->Ok_0;
    lemma_accepted_is_usable(config, material, earlier);
    lemma_times_accepted(TlsMaterialKind::CaBundle, config.ca_cert_path, ca, now);
    lemma_times_accepted(
        TlsMaterialKind::ClientCertificate,
        config.client_cert_path,
        client,
        now,
    );
    lemma_all_trust_anchors(ca);
}

/// Text is blank exactly where every byte is a space, a tab, a line feed, a form feed or a carriage
/// return. So two texts are blank together where each of them is.
pub proof fn lemma_blank_bytes(data: Seq<u8>, more: Seq<u8>)
    ensures
        is_blank(data) <==> forall|i: int|
            0 <= i < data.len() ==> set![0x20u8, 0x09u8, 0x0au8, 0x0cu8, 0x0du8].contains(
                #[trigger] data[i],
            ),
        is_blank(data + more) <==> is_blank(data) && is_blank(more),
{
    if is_blank(data + more) {
        assert forall|i: int| 0 <= i < data.len() implies is_white_space(#[trigger] data[i]) by {
            assert((data + more)[i] == data[i]);
        }
        assert forall|i: int| 0 <= i < more.len() implies is_white_space(#[trigger] more[i]) by {
            assert((data + more)[data.len() + i] == more[i]);
        }
    }
    assert forall|b: u8| set![0x20u8, 0x09u8, 0x0au8, 0x0cu8, 0x0du8].contains(b)
        <==> #[trigger] is_white_space(b) by {}
    if is_blank(data) {
        assert forall|i: int| 0 <= i < data.len() implies set![
            0x20u8,
            0x09u8,
            0x0au8,
            0x0cu8,
            0x0du8,
        ].contains(#[trigger] data[i]) by {
            assert(is_white_space(data[i]));
        }
    }
}

/// A PEM file without certificates, or one that cannot be read, is a parse error of that file.
pub proof fn lemma_certificates_errors(
    kind: TlsMaterialKind,
    path: std::path::PathBuf,
    parsed: Result<Seq<Seq<u8>>, Seq<char>>,
)
    ensures
        certificates_error(kind, path, parsed) is None <==> parsed is Ok && parsed->Ok_0.len() >= 1,
        certificates_error(kind, path, parsed) matches Some(error) ==> (error matches
            TlsErrorView::Parse { kind: k, path: p, message } && k == kind && p == path && (
        parsed is Err ==> message == parsed->Err_0) && (parsed is Ok ==> message
            == "no certificate PEM blocks found"@)),
{
}

/// A PEM file without a private key, or one that cannot be read, is a parse error of the key file.
pub proof fn lemma_key_errors(
    path: std::path::PathBuf,
    parsed: Result<Option<PrivateKeyView>, Seq<char>>,
)
    ensures
        key_error(path, parsed) is None <==> parsed is Ok && parsed->Ok_0 is Some,
        key_error(path, parsed) matches Some(error) ==> (error matches TlsErrorView::Parse {
            kind,
            path: p,
            message,
        } && kind == TlsMaterialKind::ClientKey && p == path && (parsed is Err ==> message
            == parsed->Err_0) && (parsed is Ok ==> message
            == "no supported private key PEM block found"@)),
{
}

/// A certificate is refused before the start of its validity with that start, after the end with
/// that end, and where it cannot be read with the reason.
pub proof fn lemma_validity_errors(
    kind: TlsMaterialKind,
    path: std::path::PathBuf,
    validity: Result<(i64, i64), Seq<char>>,
    now: i64,
)
    ensures
        ({
            let found = validity_error(kind, path, validity, now);
            &&& found is None <==> validity is Ok && validity->Ok_0.0 <= now <= validity->Ok_0.1
            &&& validity is Ok && now < validity->Ok_0.0 ==> (found matches Some(
                TlsErrorView::NotYetValid { kind: k, path: p, not_before },
            ) && k == kind && p == path && not_before == validity->Ok_0.0)
            &&& validity is Ok && validity->Ok_0.0 <= now && validity->Ok_0.1 < now ==> (
            found matches Some(TlsErrorView::Expired { kind: k, path: p, not_after }) && k == kind
                && p == path && not_after == validity->Ok_0.1)
            &&& validity is Err ==> (found matches Some(
                TlsErrorView::Parse { kind: k, path: p, message },
            ) && k == kind && p == path && message == "invalid X.509 certificate: "@
                + validity->Err_0)
        }),
{
}

/// The certificate that is reported is the first one that is not valid.
pub proof fn lemma_first_invalid_is_reported(
    kind: TlsMaterialKind,
    path: std::path::PathBuf,
    certificates: Seq<Seq<u8>>,
    now: i64,
    i: int,
)
    requires
        0 <= i < certificates.len(),
        !valid_at(certificates[i], now),
        forall|j: int| 0 <= j < i ==> valid_at(#[trigger] certificates[j], now),
    ensures
        times_error(kind, path, certificates, now) == validity_error(
            kind,
            path,
            certificate_validity(certificates[i]),
            now,
        ),
        times_error(kind, path, certificates, now) is Some,
    decreases i,
{
    lemma_validity_errors(kind, path, certificate_validity(certificates[0]), now);
    if i > 0 {
        let rest = certificates.skip(1);
        assert(valid_at(certificates[0], now));
        assert(rest[i - 1] == certificates[i]);
        assert forall|j: int| 0 <= j < i - 1 implies valid_at(#[trigger] rest[j], now) by {
            assert(rest[j] == certificates[j + 1]);
        }
        lemma_first_invalid_is_reported(kind, path, rest, now, i - 1);
    }
}

/// A CA bundle without trust anchors is refused as such. One with other certificates among its
/// trust anchors is refused with their number.
pub proof fn lemma_anchor_errors(path: std::path::PathBuf, certificates: Seq<Seq<u8>>)
    ensures
        ({
            let found = roots_error(path, certificates);
            let anchors = certificates.filter(|der: Seq<u8>| is_trust_anchor(der)).len();
            &&& anchors == 0 ==> (found matches Some(TlsErrorView::NoTrustedCa { path: p })
                && p == path)
            &&& 0 < anchors < certificates.len() ==> (found matches Some(
                TlsErrorView::Parse { kind, path: p, message },
            ) && kind == TlsMaterialKind::CaBundle && p == path && message == decimal(
                certificates.len() - anchors,
            ) + " certificate(s) could not be used as trust anchors"@)
            &&& anchors >= 1 && anchors == certificates.len() ==> found is None
        }),
{
    lemma_all_trust_anchors(certificates);
}

/// What is wrong with material is told in a fixed order: what cannot be parsed, CA bundle, client
/// certificate and client key; the times of the CA bundle, then of the client certificate; the
/// trust anchors; and at last whether certificate and key match.
pub proof fn lemma_errors_come_in_order(
    config: MtlsProfileConfigView,
    material: TlsMaterialView,
    now: i64,
)
    ensures
        ({
            let found = material_error(config, material, now);
            let ca = pem_certificates(material.ca_pem);
            let client = pem_certificates(material.client_cert_pem);
            let key = pem_private_key(material.client_key_pem);
            let ca_parsed = ca is Ok && ca->Ok_0.len() >= 1;
            let client_parsed = client is Ok && client->Ok_0.len() >= 1;
            let key_parsed = key is Ok && key->Ok_0 is Some;
            let parsed = ca_parsed && client_parsed && key_parsed;
            let ca_valid = all_valid_at(ca->Ok_0, now);
            let client_valid = all_valid_at(client->Ok_0, now);
            let anchored = forall|i: int|
                0 <= i < ca->Ok_0.len() ==> is_trust_anchor(#[trigger] ca->Ok_0[i]);
            let identity = client_identity(client->Ok_0, key->Ok_0->0);
            &&& !ca_parsed ==> found == certificates_error(
                TlsMaterialKind::CaBundle,
                config.ca_cert_path,
                ca,
            )
            &&& ca_parsed && !client_parsed ==> found == certificates_error(
                TlsMaterialKind::ClientCertificate,
                config.client_cert_path,
                client,
            )
            &&& ca_parsed && client_parsed && !key_parsed ==> found == key_error(
                config.client_key_path,
                key,
            )
            &&& parsed && !ca_valid ==> found == times_error(
                TlsMaterialKind::CaBundle,
                config.ca_cert_path,
                ca->Ok_0,
                now,
            )
            &&& parsed && ca_valid && !client_valid ==> found == times_error(
                TlsMaterialKind::ClientCertificate,
                config.client_cert_path,
                client->Ok_0,
                now,
            )
            &&& parsed && ca_valid && client_valid && !anchored ==> found == roots_error(
                config.ca_cert_path,
                ca->Ok_0,
            )
            &&& parsed && ca_valid && client_valid && anchored && identity is Err ==> (
            found matches Some(TlsErrorView::InvalidIdentity { source }) && source
                == identity->Err_0)
            &&& parsed && ca_valid && client_valid && anchored && identity is Ok ==> found is None
        }),
{
    let ca = pem_certificates(material.ca_pem);
    let client = pem_certificates(material.client_cert_pem);
    lemma_times_accepted(TlsMaterialKind::CaBundle, config.ca_cert_path, ca->Ok_0, now);
    lemma_times_accepted(
        TlsMaterialKind::ClientCertificate,
        config.client_cert_path,
        client->Ok_0,
        now,
    );
    lemma_all_trust_anchors(ca->Ok_0);
}

/// The text of two files in one: the first, a line feed, the second.
pub proof fn lemma_joined_pem_holds_both(first: Seq<u8>, second: Seq<u8>)
    ensures
        joined_pem(first, second).len() == first.len() + 1 + second.len(),
        joined_pem(first, second).take(first.len() as int) == first,
        joined_pem(first, second)[first.len() as int] == 0x0au8,
        joined_pem(first, second).skip(first.len() as int + 1) == second,
{
    assert(joined_pem(first, second).take(first.len() as int) =~= first);
    assert(joined_pem(first, second).skip(first.len() as int + 1) =~= second);
}

/// An HTTP client that is built trusts all the certificates of the CA bundle, in order, and no
/// others. It presents the identity made of client certificate and client key, its requests have
/// the time limit, and it goes to the address for the server name where both are given.
pub proof fn lemma_http_client_holds_material<A>(
    config: MtlsProfileConfigView,
    material: TlsMaterialView,
    now: i64,
    timeout: std::time::Duration,
    resolve_addr: Option<A>,
    identity_pem: Seq<u8>,
)
    requires
        identity_pem.len() == material.client_cert_pem.len() + 1 + material.client_key_pem.len(),
        identity_pem.take(material.client_cert_pem.len() as int) == material.client_cert_pem,
        identity_pem[material.client_cert_pem.len() as int] == 0x0au8,
        identity_pem.skip(material.client_cert_pem.len() as int + 1) == material.client_key_pem,
    ensures
        http_client(config, material, now, timeout, resolve_addr) matches Ok(client) ==> {
            &&& http_ca_certificates(material.ca_pem) is Ok
            &&& client.settings.ca_certs == http_ca_certificates(material.ca_pem)->Ok_0
            &&& client.settings.ca_certs_only
            &&& client.settings.timeout == Some(timeout)
            &&& client.settings.rustls
            &&& http_client_identity(identity_pem) is Ok
            &&& client.settings.identity == Some(http_client_identity(identity_pem)->Ok_0)
            &&& client.resolution is Some <==> config.tls_server_name is Some && resolve_addr
                is Some
            &&& client.resolution matches Some((name, addr)) ==> config.tls_server_name == Some(
                name,
            ) && resolve_addr == Some(addr)
        },
        http_client(config, material, now, timeout, resolve_addr) matches Err(error) ==> {
            ||| material_error(config, material, now) == Some(error)
            ||| usable_at(material, now) && http_ca_certificates(material.ca_pem) is Err && error
                == (TlsErrorView::HttpCaBundle {
                source: http_ca_certificates(material.ca_pem)->Err_0,
            })
            ||| usable_at(material, now) && http_ca_certificates(material.ca_pem) is Ok
                && http_client_identity(identity_pem) is Err && error == (
            TlsErrorView::HttpIdentity { source: http_client_identity(identity_pem)->Err_0 })
        },
{
    lemma_accepted_is_usable(config, material, now);
    let (cert, key) = (material.client_cert_pem, material.client_key_pem);
    lemma_joined_pem_holds_both(cert, key);
    let at = cert.len() as int;
    assert(identity_pem =~= identity_pem.take(at) + seq![0x0au8] + identity_pem.skip(at + 1));
    assert(joined_pem(cert, key) =~= cert + seq![0x0au8] + key);
}

/// A gRPC client that is built trusts the CA bundle alone, presents client certificate and client
/// key, and expects the name of the profile, if there is one.
pub proof fn lemma_grpc_client_holds_material(
    config: MtlsProfileConfigView,
    material: TlsMaterialView,
    now: i64,
)
    ensures
        grpc_client(config, material, now) matches Ok(client) ==> {
            &&& material_error(config, material, now) is None
            &&& client.ca_certificates.len() == 1
            &&& client.ca_certificates[0] == material.ca_pem
            &&& client.domain_name == config.tls_server_name
            &&& client.identity matches Some((certificate, key))
            &&& certificate == material.client_cert_pem
            &&& key == material.client_key_pem
        },
        grpc_client(config, material, now) matches Err(error) ==> material_error(
            config,
            material,
            now,
        ) == Some(error),
{
}

/// The models of a profile and of material hold what the values hold.
pub proof fn lemma_profile_model(config: MtlsProfileConfig, material: TlsMaterial)
    ensures
        config.deep_view().ca_cert_path == config.ca_cert_path,
        config.deep_view().client_cert_path == config.client_cert_path,
        config.deep_view().client_key_path == config.client_key_path,
        config.deep_view().tls_server_name is Some <==> config.tls_server_name is Some,
        config.tls_server_name is Some ==> config.deep_view().tls_server_name->0
            == config.tls_server_name->0@,
        config.deep_view().path(TlsMaterialKind::CaBundle) == config.ca_cert_path,
        config.deep_view().path(TlsMaterialKind::ClientCertificate) == config.client_cert_path,
        config.deep_view().path(TlsMaterialKind::ClientKey) == config.client_key_path,
        material.deep_view().ca_pem == material.ca_pem@,
        material.deep_view().client_cert_pem == material.client_cert_pem@,
        material.deep_view().client_key_pem == material.client_key_pem@,
{
}

/// The text of an error says what is wrong. Where a file is at fault, it holds the role and the
/// path of the file.
pub proof fn lemma_error_texts_tell(error: TlsErrorView)
    ensures
        match error {
            TlsErrorView::Read { kind, path, source } => holds(
                error.text(),
                "failed to read mTLS profile "@,
            ) && holds(error.text(), kind.text()) && holds(error.text(), path_text(path))
                && ends_with(error.text(), source),
            TlsErrorView::Empty { kind, path } => holds(error.text(), kind.text()) && holds(
                error.text(),
                path_text(path),
            ) && ends_with(error.text(), " is empty"@),
            TlsErrorView::Parse { kind, path, message } => holds(
                error.text(),
                "failed to parse mTLS profile "@,
            ) && holds(error.text(), kind.text()) && holds(error.text(), path_text(path))
                && ends_with(error.text(), message),
            TlsErrorView::NotYetValid { kind, path, not_before } => holds(
                error.text(),
                " is not valid before unix timestamp "@,
            ) && holds(error.text(), kind.text()) && holds(error.text(), path_text(path))
                && ends_with(error.text(), decimal(not_before as int)),
            TlsErrorView::Expired { kind, path, not_after } => holds(
                error.text(),
                " expired at unix timestamp "@,
            ) && holds(error.text(), kind.text()) && holds(error.text(), path_text(path))
                && ends_with(error.text(), decimal(not_after as int)),
            TlsErrorView::NoTrustedCa { path } => holds(error.text(), path_text(path))
                && ends_with(error.text(), " contains no usable trust anchors"@),
            TlsErrorView::InvalidIdentity { source } => ends_with(error.text(), source),
            TlsErrorView::HttpCaBundle { source } => ends_with(error.text(), source),
            TlsErrorView::HttpIdentity { source } => ends_with(error.text(), source),
            TlsErrorView::HttpClient { source } => ends_with(error.text(), source),
        },
{
    let none = Seq::<char>::empty();
    match error {
        TlsErrorView::Read { kind, path, source } => {
            lemma_about_file(
                "failed to read mTLS profile "@,
                kind.text(),
                " at "@,
                path_text(path),
                ": "@,
                source,
            );
        },
        TlsErrorView::Empty { kind, path } => {
            let (start, end) = ("mTLS profile "@, " is empty"@);
            lemma_about_file(start, kind.text(), " at "@, path_text(path), none, end);
            let text = start + kind.text() + " at "@ + path_text(path);
            assert(text + none + end =~= text + end);
        },
        TlsErrorView::Parse { kind, path, message } => {
            lemma_about_file(
                "failed to parse mTLS profile "@,
                kind.text(),
                " at "@,
                path_text(path),
                ": "@,
                message,
            );
        },
        TlsErrorView::NotYetValid { kind, path, not_before } => {
            lemma_about_file(
                "mTLS profile "@,
                kind.text(),
                " certificate at "@,
                path_text(path),
                " is not valid before unix timestamp "@,
                decimal(not_before as int),
            );
        },
        TlsErrorView::Expired { kind, path, not_after } => {
            lemma_about_file(
                "mTLS profile "@,
                kind.text(),
                " certificate at "@,
                path_text(path),
                " expired at unix timestamp "@,
                decimal(not_after as int),
            );
        },
        TlsErrorView::NoTrustedCa { path } => {
            lemma_parts(
                "mTLS profile CA bundle at "@,
                path_text(path),
                " contains no usable trust anchors"@,
            );
        },
        TlsErrorView::InvalidIdentity { source } => {
            assert(error.text().skip(error.text().len() - source.len()) =~= source);
        },
        TlsErrorView::HttpCaBundle { source } => {
            assert(error.text().skip(error.text().len() - source.len()) =~= source);
        },
        TlsErrorView::HttpIdentity { source } => {
            assert(error.text().skip(error.text().len() - source.len()) =~= source);
        },
        TlsErrorView::HttpClient { source } => {
            assert(error.text().skip(error.text().len() - source.len()) =~= source);
        },
    }
}

/// A text about a file holds its parts, and ends with the last one.
proof fn lemma_about_file(
    start: Seq<char>,
    role: Seq<char>,
    link: Seq<char>,
    path: Seq<char>,
    says: Seq<char>,
    end: Seq<char>,
)
    ensures
        holds(start + role + link + path + says + end, start),
        holds(start + role + link + path + says + end, role),
        holds(start + role + link + path + says + end, path),
        holds(start + role + link + path + says + end, says),
        ends_with(start + role + link + path + says + end, end),
{
    let front = start + role + link;
    lemma_parts(start, role, link);
    lemma_longer_holds(front, path, start);
    lemma_longer_holds(front + path, says, start);
    lemma_longer_holds(front + path + says, end, start);
    lemma_longer_holds(front, path, role);
    lemma_longer_holds(front + path, says, role);
    lemma_longer_holds(front + path + says, end, role);
    lemma_parts(front, path, says);
    lemma_longer_holds(front + path + says, end, path);
    lemma_parts(front + path, says, end);
}

/// The roles of files are told apart by their names.
pub proof fn lemma_role_names_differ(a: TlsMaterialKind, b: TlsMaterialKind)
    ensures
        a.text() == b.text() ==> a == b,
        holds(TlsMaterialKind::CaBundle.text(), "CA"@),
        holds(TlsMaterialKind::ClientCertificate.text(), "certificate"@),
        holds(TlsMaterialKind::ClientKey.text(), "key"@),
{
    reveal_strlit("CA bundle");
    reveal_strlit("client certificate");
    reveal_strlit("client key");
    reveal_strlit("CA");
    reveal_strlit("certificate");
    reveal_strlit("key");
    assert("CA bundle"@.len() == 9 && "client certificate"@.len() == 18 && "client key"@.len()
        == 10);
    assert("CA bundle"@.subrange(0, 0int + "CA"@.len()) =~= "CA"@);
    assert("client certificate"@.subrange(7, 7int + "certificate"@.len()) =~= "certificate"@);
    assert("client key"@.subrange(7, 7int + "key"@.len()) =~= "key"@);
}

/// The models of private keys and of errors hold what the values hold.
pub proof fn lemma_tls_models(key: PrivateKey, error: TlsError)
    ensures
        match key {
            PrivateKey::Pkcs1(der) => key.deep_view() == PrivateKeyView::Pkcs1(der@),
            PrivateKey::Sec1(der) => key.deep_view() == PrivateKeyView::Sec1(der@),
            PrivateKey::Pkcs8(der) => key.deep_view() == PrivateKeyView::Pkcs8(der@),
        },
        match error {
            TlsError::Read { kind, path, source } => error.deep_view() == (TlsErrorView::Read {
                kind,
                path,
                source: source@,
            }),
            TlsError::Empty { kind, path } => error.deep_view() == (TlsErrorView::Empty {
                kind,
                path,
            }),
            TlsError::Parse { kind, path, message } => error.deep_view() == (TlsErrorView::Parse {
                kind,
                path,
                message: message@,
            }),
            TlsError::NotYetValid { kind, path, not_before } => error.deep_view() == (
            TlsErrorView::NotYetValid { kind, path, not_before }),
            TlsError::Expired { kind, path, not_after } => error.deep_view() == (
            TlsErrorView::Expired { kind, path, not_after }),
            TlsError::NoTrustedCa { path } => error.deep_view() == (TlsErrorView::NoTrustedCa {
                path,
            }),
            TlsError::InvalidIdentity { source } => error.deep_view() == (
            TlsErrorView::InvalidIdentity { source: source@ }),
            TlsError::HttpCaBundle { source } => error.deep_view() == (TlsErrorView::HttpCaBundle {
                source: source@,
            }),
            TlsError::HttpIdentity { source } => error.deep_view() == (TlsErrorView::HttpIdentity {
                source: source@,
            }),
            TlsError::HttpClient { source } => error.deep_view() == (TlsErrorView::HttpClient {
                source: source@,
            }),
        },
{
}

/// The models of what is found in files hold what was found.
pub proof fn lemma_found_models(
    certificates: Certificates,
    key: FoundKey,
    validity: Validity,
    check: IdentityCheck,
    ca: HttpCaBundle,
    identity: HttpIdentity,
)
    ensures
        certificates matches Ok(found) ==> certificates_view(certificates) == Ok::<
            Seq<Seq<u8>>,
            Seq<char>,
        >(found.deep_view()),
        certificates matches Err(error) ==> certificates_view(certificates) == Err::<
            Seq<Seq<u8>>,
            Seq<char>,
        >(error@),
        key matches Ok(found) ==> found_key_view(key) == Ok::<Option<PrivateKeyView>, Seq<char>>(
            found.deep_view(),
        ),
        key matches Err(error) ==> found_key_view(key) == Err::<Option<PrivateKeyView>, Seq<char>>(
            error@,
        ),
        validity matches Ok((from, to)) ==> validity_view(validity) == Ok::<
            (i64, i64),
            Seq<char>,
        >((from, to)),
        validity matches Err(error) ==> validity_view(validity) == Err::<(i64, i64), Seq<char>>(
            error@,
        ),
        check is Ok <==> identity_check_view(check) is Ok,
        check matches Err(error) ==> identity_check_view(check) == Err::<(), Seq<char>>(error@),
        ca matches Ok(found) ==> http_ca_view(ca) == Ok::<Seq<reqwest::Certificate>, Seq<char>>(
            found@,
        ),
        ca matches Err(error) ==> http_ca_view(ca) == Err::<Seq<reqwest::Certificate>, Seq<char>>(
            error@,
        ),
        identity matches Ok(found) ==> http_identity_view(identity) == Ok::<
            reqwest::Identity,
            Seq<char>,
        >(found),
        identity matches Err(error) ==> http_identity_view(identity) == Err::<
            reqwest::Identity,
            Seq<char>,
        >(error@),
{
}

} // verus!
