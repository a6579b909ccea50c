use weave_agent::astra::{AstraAttachment, AstraConfig, AstraPhase, SpxAttachmentType};
use weave_agent::status::{
    build_astra_config_status, set_astra_attachment_status_with_weave_ew_vpc_not_ready,
};
use weave_agent::weave::{Phase, State};

fn astra_attachment(mac_address: &str, vni: u32) -> AstraAttachment {
    AstraAttachment {
        mac_address: mac_address.to_string(),
        vni,
        subnet_ipv4: "192.0.2.0".to_string(),
        subnet_mask: 24,
        attachment_type: Some(SpxAttachmentType::Physical),
        virtual_function_id: Some(7),
        network_name: Some("test-network".to_string()),
        revision: "test-revision".to_string(),
    }
}

#[test]
fn test_build_astra_config_status_copies_attachments_and_sets_ready() {
    let astra_config = AstraConfig {
        astra_attachments: vec![
            astra_attachment("00:11:22:33:44:55", 100),
            astra_attachment("00:11:22:33:44:66", 200),
        ],
    };

    let status = build_astra_config_status(&astra_config).unwrap();

    assert_eq!(status.astra_attachments_status.len(), 2);

    let first_status = &status.astra_attachments_status[0];
    assert_eq!(first_status.mac_address, "00:11:22:33:44:55");
    assert_eq!(first_status.vni, 100);
    assert_eq!(first_status.subnet_ipv4, "192.0.2.0");
    assert_eq!(first_status.subnet_mask, 24);
    assert_eq!(first_status.attachment_type, Some(SpxAttachmentType::Physical));
    assert_eq!(first_status.virtual_function_id, Some(7));
    assert_eq!(first_status.network_name.as_deref(), Some("test-network"));
    assert_eq!(first_status.revision, "test-revision");

    let first_phase = first_status.status.as_ref().map(|status| status.phase);
    assert_eq!(first_phase, Some(AstraPhase::PhaseReady));
}

#[test]
fn test_build_astra_config_status_rejects_vni_that_does_not_fit_i32() {
    let astra_config = AstraConfig {
        astra_attachments: vec![astra_attachment("00:11:22:33:44:55", i32::MAX as u32 + 1)],
    };

    let err = build_astra_config_status(&astra_config).unwrap_err();

    assert!(
        err.message().contains("does not fit in i32"),
        "unexpected error: {}",
        err.message()
    );
    assert_eq!(err.message(), "VNI 2147483648 does not fit in i32");
}

#[test]
fn test_update_astra_attachment_status_maps_vpc_phase_to_astra_phase() {
    let cases = [
        (Phase::Ready, AstraPhase::PhaseReady),
        (Phase::Error, AstraPhase::PhaseError),
        (Phase::Pending, AstraPhase::PhasePending),
        (Phase::Deleting, AstraPhase::PhaseDeleting),
        (Phase::Unspecified, AstraPhase::PhaseUnspecified),
    ];

    for (vpc_phase, expected_astra_phase) in cases {
        let mut attachment_status = build_astra_config_status(&AstraConfig {
            astra_attachments: vec![astra_attachment("00:11:22:33:44:55", 100)],
        })
        .unwrap()
        .astra_attachments_status
        .remove(0);

        set_astra_attachment_status_with_weave_ew_vpc_not_ready(
            &mut attachment_status,
            State {
                phase: vpc_phase,
                reason: "weave-ew-vpc-reason".to_string(),
                message: "weave-ew-vpc-message".to_string(),
            },
        );

        let status = attachment_status.status.unwrap();
        assert_eq!(status.phase, expected_astra_phase);
        assert_eq!(status.reason, "weave-ew-vpc-reason");
        assert_eq!(status.message, "weave-ew-vpc-message");
    }
}

#[test]
fn a_phase_that_is_not_recognized_is_reported_as_unspecified() {
    let mut attachment_status = build_astra_config_status(&AstraConfig {
        astra_attachments: vec![astra_attachment("00:11:22:33:44:55", 100)],
    })
    .unwrap()
    .astra_attachments_status
    .remove(0);

    set_astra_attachment_status_with_weave_ew_vpc_not_ready(
        &mut attachment_status,
        State { phase: Phase::Unrecognized(99), reason: String::new(), message: String::new() },
    );

    assert_eq!(attachment_status.status.unwrap().phase, AstraPhase::PhaseUnspecified);
}

#[test]
fn the_first_vni_that_does_not_fit_is_reported() {
    let astra_config = AstraConfig {
        astra_attachments: vec![
            astra_attachment("00:11:22:33:44:55", 100),
            astra_attachment("00:11:22:33:44:66", 4294967295),
            astra_attachment("00:11:22:33:44:77", 2147483648),
        ],
    };

    let err = build_astra_config_status(&astra_config).unwrap_err();

    assert_eq!(err.message(), "VNI 4294967295 does not fit in i32");
}
