use std::collections::HashMap;
use weave_agent::astra::{
    AstraAttachmentStatus, AstraPhase, AstraStatus, SpxAttachmentType,
};
use weave_agent::attachments::{
    astra_attachment_weave_ew_vpc_spec, delete_match_attachment_with_vni_changed,
    find_stale_attachment, settle_match_attachment_deletion,
};
use weave_agent::networks::{find_stale_network, seen_vni_states, settle_known_networks};
use weave_agent::text::{append_signed, append_unsigned};
use weave_agent::weave::{
    AttachmentType, DeleteVirtualNetworkAttachmentRequest, ObjectMetadata, Phase, State,
    VirtualNetwork, VirtualNetworkAttachment, VirtualNetworkAttachmentSpec, VirtualNetworkSpec,
    VirtualNetworkStatus,
};

fn status(mac_address: &str, vni: i32) -> AstraAttachmentStatus {
    AstraAttachmentStatus {
        mac_address: mac_address.to_string(),
        vni,
        subnet_ipv4: "192.0.2.0".to_string(),
        subnet_mask: 24,
        attachment_type: Some(SpxAttachmentType::Physical),
        virtual_function_id: None,
        network_name: None,
        revision: String::new(),
        status: Some(AstraStatus {
            phase: AstraPhase::PhaseReady,
            reason: String::new(),
            message: String::new(),
        }),
    }
}

fn metadata(id: Option<&str>) -> Option<ObjectMetadata> {
    Some(ObjectMetadata {
        id: id.map(|id| id.to_string()),
        creation_timestamp: None,
        deletion_timestamp: None,
        user_data: HashMap::new(),
    })
}

fn attachment(id: Option<&str>, nic_id: &str, vnet_id: &str) -> VirtualNetworkAttachment {
    VirtualNetworkAttachment {
        metadata: metadata(id),
        spec: Some(VirtualNetworkAttachmentSpec {
            vnet_id: vnet_id.to_string(),
            nic_id: nic_id.to_string(),
            attachment_type: AttachmentType::Pf,
            attachment_pf: None,
            attachment_vf: None,
            attachment_ovn: None,
        }),
        status: None,
    }
}

fn network(id: &str, vni: u32, phase: Phase) -> VirtualNetwork {
    VirtualNetwork {
        metadata: metadata(Some(id)),
        spec: Some(VirtualNetworkSpec { vni, subnet_ipv4: None, subnet_ipv6: None }),
        status: Some(VirtualNetworkStatus {
            state: Some(State { phase, reason: String::new(), message: String::new() }),
        }),
    }
}

#[test]
fn a_mismatched_attachment_is_deleted_by_its_id() {
    let before = status("nic", 100);
    let mut after = before.clone();

    let request = delete_match_attachment_with_vni_changed(
        Some(&attachment(Some("old"), "nic", "other")),
        &mut after,
    );

    assert_eq!(request, Some(DeleteVirtualNetworkAttachmentRequest { id: "old".to_string() }));
    assert_eq!(after, before);
}

#[test]
fn a_mismatched_attachment_without_an_id_cannot_be_deleted() {
    for found in [
        None,
        Some(attachment(None, "nic", "other")),
        Some(attachment(Some(""), "nic", "other")),
    ] {
        let mut after = status("nic", 100);

        let request = delete_match_attachment_with_vni_changed(found.as_ref(), &mut after);

        assert_eq!(request, None);
        assert_eq!(
            after.status,
            Some(AstraStatus {
                phase: AstraPhase::PhaseError,
                reason: "Missing Doca Weave attachment ID".to_string(),
                message: "delete_virtual_network_attachment".to_string(),
            })
        );
    }
}

#[test]
fn a_deleted_attachment_is_remembered_once() {
    let request = DeleteVirtualNetworkAttachmentRequest { id: "old".to_string() };
    let mut deleted = Vec::new();
    let mut after = status("nic", 100);

    assert!(settle_match_attachment_deletion(request.clone(), Ok(()), &mut deleted, &mut after));
    assert!(settle_match_attachment_deletion(request.clone(), Ok(()), &mut deleted, &mut after));
    assert_eq!(deleted, vec!["old".to_string()]);
    assert_eq!(after, status("nic", 100));

    let gone = settle_match_attachment_deletion(
        request,
        Err("busy".to_string()),
        &mut deleted,
        &mut after,
    );
    assert!(!gone);
    assert_eq!(deleted.len(), 1);
    assert_eq!(
        after.status,
        Some(AstraStatus {
            phase: AstraPhase::PhaseError,
            reason: "Failed to delete mismatched Doca Weave attachment".to_string(),
            message: "delete_virtual_network_attachment: busy".to_string(),
        })
    );
}

#[test]
fn stale_attachments_are_found_in_order() {
    let listed = vec![
        attachment(Some("wanted"), "nic", "astra-weave-vni-100"),
        attachment(Some("deleted"), "nic", "other"),
        attachment(None, "nic", "other"),
        attachment(Some("stale"), "nic", "other"),
        attachment(Some("detached"), "off", "astra-weave-vni-0"),
    ];
    let statuses = vec![status("nic", 100), status("off", 0)];
    let deleted = vec!["deleted".to_string()];

    let first = find_stale_attachment(&listed, &statuses, &deleted, 0).unwrap();
    assert_eq!((first.0, first.1.id.as_str()), (3, "stale"));
    let second = find_stale_attachment(&listed, &statuses, &deleted, 4).unwrap();
    assert_eq!((second.0, second.1.id.as_str()), (4, "detached"));
    assert_eq!(find_stale_attachment(&listed, &statuses, &deleted, 5), None);
}

#[test]
fn stale_networks_are_found_in_order() {
    let networks = vec![
        network("wanted", 100, Phase::Ready),
        network("zero", 0, Phase::Ready),
        network("stale", 7, Phase::Ready),
    ];
    let statuses = vec![status("nic", 100)];

    let found = find_stale_network(&networks, &statuses, 0).unwrap();
    assert_eq!((found.0, found.1.id.as_str()), (2, "stale"));
    assert_eq!(find_stale_network(&networks, &statuses, 3), None);
}

#[test]
fn the_later_of_two_entries_for_a_vni_counts() {
    let networks =
        vec![network("a", 100, Phase::Pending), network("b", 100, Phase::Ready)];

    let known = seen_vni_states(&networks);

    assert_eq!(known.len(), 1);
    assert_eq!(known[&100].phase, Phase::Ready);
}

#[test]
fn needs_are_looked_at_up_to_the_first_missing_network() {
    let known = seen_vni_states(&vec![network("a", 100, Phase::Pending)]);
    let mut statuses = vec![status("a", 100), status("b", 0), status("c", 5), status("d", 100)];

    assert_eq!(settle_known_networks(&mut statuses, &known, 0), 2);

    let phases: Vec<AstraPhase> =
        statuses.iter().map(|status| status.status.as_ref().unwrap().phase).collect();
    assert_eq!(
        phases,
        vec![
            AstraPhase::PhasePending,
            AstraPhase::PhaseReady,
            AstraPhase::PhaseReady,
            AstraPhase::PhaseReady,
        ]
    );
    assert_eq!(settle_known_networks(&mut statuses, &known, 3), 4);
    assert_eq!(statuses[3].status.as_ref().unwrap().phase, AstraPhase::PhasePending);
}

#[test]
fn a_negative_vni_still_has_an_id() {
    let spec = astra_attachment_weave_ew_vpc_spec(&status("nic", -1)).unwrap();

    assert_eq!(spec.vnet_id, "astra-weave-vni--1");
    assert_eq!(spec.nic_id, "nic");
}

#[test]
fn numbers_are_written_in_decimal() {
    let mut text = "n=".to_string();
    append_unsigned(&mut text, 0);
    text.push(' ');
    append_unsigned(&mut text, u64::MAX);
    text.push(' ');
    append_signed(&mut text, i64::MIN);
    text.push(' ');
    append_signed(&mut text, 1009);

    assert_eq!(text, "n=0 18446744073709551615 -9223372036854775808 1009");
}
