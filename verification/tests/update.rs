use std::collections::HashMap;
use weave_agent::astra::{
    AstraAttachment, AstraConfig, AstraConfigStatus, AstraPhase, SpxAttachmentType,
};
use weave_agent::error::UpdateError;
use weave_agent::log::Outcome;
use weave_agent::networks::astra_weave_ew_vpc_virtual_network_id;
use weave_agent::passed_over::{
    detached_attachments, unnamed_conflicts, unnamed_stale_attachments, unnamed_stale_networks,
};
use weave_agent::service::{Reply, Request};
use weave_agent::status::build_astra_config_status;
use weave_agent::update::{update_weave_ew_vpc_astra_config, UpdateStep};
use weave_agent::weave::{
    AttachmentType, CreateVirtualNetworkAttachmentRequest, CreateVirtualNetworkRequest,
    DeleteVirtualNetworkAttachmentRequest, DeleteVirtualNetworkRequest, ObjectMetadata, Phase,
    State, Timestamp, VirtualNetwork, VirtualNetworkAttachment, VirtualNetworkAttachmentSpec,
    VirtualNetworkAttachmentStatus, VirtualNetworkSpec, VirtualNetworkStatus,
};

#[derive(Default)]
struct RecordedCalls {
    list_virtual_networks: usize,
    create_virtual_networks: Vec<CreateVirtualNetworkRequest>,
    delete_virtual_networks: Vec<DeleteVirtualNetworkRequest>,
    list_virtual_network_attachments: usize,
    create_virtual_network_attachments: Vec<CreateVirtualNetworkAttachmentRequest>,
    delete_virtual_network_attachments: Vec<DeleteVirtualNetworkAttachmentRequest>,
}

struct RecordingService {
    virtual_networks: Vec<VirtualNetwork>,
    virtual_network_attachments: Vec<VirtualNetworkAttachment>,
    calls: RecordedCalls,
    create_virtual_network_phase: Phase,
    failing: Option<fn(&Request) -> bool>,
    order: Vec<&'static str>,
    outcomes: Vec<String>,
}

impl RecordingService {
    fn new(
        virtual_networks: Vec<VirtualNetwork>,
        virtual_network_attachments: Vec<VirtualNetworkAttachment>,
    ) -> RecordingService {
        RecordingService {
            virtual_networks,
            virtual_network_attachments,
            calls: RecordedCalls::default(),
            create_virtual_network_phase: Phase::Ready,
            failing: None,
            order: Vec::new(),
            outcomes: Vec::new(),
        }
    }

    fn call(&mut self, request: Request) -> Reply {
        let fails = self.failing.is_some_and(|failing| failing(&request));
        let down = "connection refused".to_string();
        self.order.push(match &request {
            Request::ListVirtualNetworks(_) => "list networks",
            Request::CreateVirtualNetwork(_) => "create network",
            Request::DeleteVirtualNetwork(_) => "delete network",
            Request::ListVirtualNetworkAttachments(_) => "list attachments",
            Request::CreateVirtualNetworkAttachment(_) => "create attachment",
            Request::DeleteVirtualNetworkAttachment(_) => "delete attachment",
        });
        match request {
            Request::ListVirtualNetworks(request) => {
                assert_eq!(request.vni, None);
                self.calls.list_virtual_networks += 1;
                if fails {
                    return Reply::ListVirtualNetworks(Err(down));
                }
                Reply::ListVirtualNetworks(Ok(self.virtual_networks.clone()))
            }
            Request::CreateVirtualNetwork(request) => {
                self.calls.create_virtual_networks.push(request.clone());
                if fails {
                    return Reply::CreateVirtualNetwork(Err(down));
                }
                let virtual_network = VirtualNetwork {
                    metadata: request.metadata,
                    spec: request.spec,
                    status: Some(VirtualNetworkStatus {
                        state: Some(state(self.create_virtual_network_phase)),
                    }),
                };
                self.virtual_networks.push(virtual_network.clone());
                Reply::CreateVirtualNetwork(Ok(Some(virtual_network)))
            }
            Request::DeleteVirtualNetwork(request) => {
                self.calls.delete_virtual_networks.push(request.clone());
                if fails {
                    return Reply::DeleteVirtualNetwork(Err(down));
                }
                self.virtual_networks.retain(|network| {
                    network.metadata.as_ref().and_then(|metadata| metadata.id.as_deref())
                        != Some(request.id.as_str())
                });
                Reply::DeleteVirtualNetwork(Ok(()))
            }
            Request::ListVirtualNetworkAttachments(request) => {
                assert_eq!(request.vnet_id, None);
                assert_eq!(request.nic_id, None);
                self.calls.list_virtual_network_attachments += 1;
                if fails {
                    return Reply::ListVirtualNetworkAttachments(Err(down));
                }
                Reply::ListVirtualNetworkAttachments(Ok(self.virtual_network_attachments.clone()))
            }
            Request::CreateVirtualNetworkAttachment(request) => {
                self.calls.create_virtual_network_attachments.push(request.clone());
                if fails {
                    return Reply::CreateVirtualNetworkAttachment(Err(down));
                }
                let mut metadata = request.metadata.unwrap();
                assert_eq!(metadata.id, None);
                let spec = request.spec.unwrap();
                metadata.id = Some(format!("attachment-{}-{}", spec.nic_id, spec.vnet_id));
                let attachment = VirtualNetworkAttachment {
                    metadata: Some(metadata),
                    spec: Some(spec),
                    status: Some(VirtualNetworkAttachmentStatus {
                        state: Some(state(Phase::Ready)),
                        host_ipv4: None,
                        host_ipv6: None,
                    }),
                };
                self.virtual_network_attachments.push(attachment.clone());
                Reply::CreateVirtualNetworkAttachment(Ok(Some(attachment)))
            }
            Request::DeleteVirtualNetworkAttachment(request) => {
                self.calls.delete_virtual_network_attachments.push(request.clone());
                if fails {
                    return Reply::DeleteVirtualNetworkAttachment(Err(down));
                }
                self.virtual_network_attachments.retain(|attachment| {
                    attachment.metadata.as_ref().and_then(|metadata| metadata.id.as_deref())
                        != Some(request.id.as_str())
                });
                Reply::DeleteVirtualNetworkAttachment(Ok(()))
            }
        }
    }

    fn update(&mut self, config: Option<&AstraConfig>) -> Result<AstraConfigStatus, UpdateError> {
        let mut step = update_weave_ew_vpc_astra_config(config);
        loop {
            match step {
                UpdateStep::Call { update, request } => {
                    assert_eq!(update.request(), request);
                    let reply = self.call(request.clone());
                    assert!(request.is_answered_by(&reply));
                    self.outcomes.extend(update.outcome(&reply).map(outcome_text));
                    step = update.step(reply);
                }
                UpdateStep::Done(status) => return Ok(status),
                UpdateStep::Failed(error) => return Err(error),
            }
        }
    }

    fn writes(&self) -> usize {
        self.calls.create_virtual_networks.len()
            + self.calls.delete_virtual_networks.len()
            + self.calls.create_virtual_network_attachments.len()
            + self.calls.delete_virtual_network_attachments.len()
    }
}

fn outcome_text(outcome: Outcome) -> String {
    let id = |metadata: &Option<ObjectMetadata>| metadata.clone().unwrap().id.unwrap();
    match outcome {
        Outcome::CreatedNetwork(status) => format!("created network {}", status.vni),
        Outcome::CreatedAttachment(status) => format!("created attachment {}", status.mac_address),
        Outcome::DeletedConflict(attachment) => {
            format!("deleted conflict {}", id(&attachment.metadata))
        }
        Outcome::KeptConflict { attachment, error } => {
            format!("kept conflict {}: {error}", id(&attachment.metadata))
        }
        Outcome::DeletedAttachment(attachment) => {
            format!("deleted attachment {}", id(&attachment.metadata))
        }
        Outcome::DeletedNetwork(network) => format!("deleted network {}", id(&network.metadata)),
    }
}

fn state(phase: Phase) -> State {
    State { phase, reason: String::new(), message: String::new() }
}

fn metadata(id: &str) -> ObjectMetadata {
    ObjectMetadata {
        id: Some(id.to_string()),
        creation_timestamp: Some(Timestamp { seconds: 1767225600, nanos: 0 }),
        deletion_timestamp: None,
        user_data: HashMap::new(),
    }
}

fn astra_attachment(mac_address: &str, vni: u32) -> AstraAttachment {
    AstraAttachment {
        mac_address: mac_address.to_string(),
        vni,
        subnet_ipv4: "192.0.2.0".to_string(),
        subnet_mask: 24,
        attachment_type: Some(SpxAttachmentType::Physical),
        virtual_function_id: Some(7),
        network_name: Some("test-network".to_string()),
        revision: "test-revision".to_string(),
    }
}

fn config(attachments: Vec<(&str, u32)>) -> AstraConfig {
    AstraConfig {
        astra_attachments: attachments
            .into_iter()
            .map(|(mac_address, vni)| astra_attachment(mac_address, vni))
            .collect(),
    }
}

fn virtual_network(id: &str, vni: u32) -> VirtualNetwork {
    virtual_network_with_phase(id, vni, Phase::Ready)
}

fn virtual_network_with_phase(id: &str, vni: u32, phase: Phase) -> VirtualNetwork {
    VirtualNetwork {
        metadata: Some(metadata(id)),
        spec: Some(VirtualNetworkSpec {
            vni,
            subnet_ipv4: Some("192.0.2.0/24".to_string()),
            subnet_ipv6: None,
        }),
        status: Some(VirtualNetworkStatus { state: Some(state(phase)) }),
    }
}

fn virtual_network_attachment(id: &str, nic_id: &str, vnet_id: &str) -> VirtualNetworkAttachment {
    VirtualNetworkAttachment {
        metadata: Some(metadata(id)),
        spec: Some(VirtualNetworkAttachmentSpec {
            vnet_id: vnet_id.to_string(),
            nic_id: nic_id.to_string(),
            attachment_type: AttachmentType::Pf,
            attachment_pf: None,
            attachment_vf: None,
            attachment_ovn: None,
        }),
        status: Some(VirtualNetworkAttachmentStatus {
            state: Some(state(Phase::Ready)),
            host_ipv4: None,
            host_ipv6: None,
        }),
    }
}

fn phase(status: &AstraConfigStatus, index: usize) -> AstraPhase {
    status.astra_attachments_status[index].status.as_ref().unwrap().phase
}

fn report(status: &AstraConfigStatus, index: usize) -> (AstraPhase, String, String) {
    let report = status.astra_attachments_status[index].status.as_ref().unwrap();
    (report.phase, report.reason.clone(), report.message.clone())
}

fn error(reason: &str, message: &str) -> (AstraPhase, String, String) {
    (AstraPhase::PhaseError, reason.to_string(), message.to_string())
}

#[test]
fn test_update_weave_ew_vpc_server_astra_config_none_returns_empty_status() {
    let mut service = RecordingService::new(Vec::new(), Vec::new());

    let status = service.update(None).unwrap();

    assert!(status.astra_attachments_status.is_empty());
    assert_eq!(service.calls.list_virtual_networks, 0);
    assert_eq!(service.calls.list_virtual_network_attachments, 0);
    assert_eq!(service.writes(), 0);
}

#[test]
fn test_update_weave_ew_vpc_server_astra_config_adds_missing_vni_and_attachment() {
    let mut service = RecordingService::new(Vec::new(), Vec::new());

    let status = service.update(Some(&config(vec![("02:aa:bb:cc:dd:ee", 100)]))).unwrap();
    let calls = &service.calls;

    assert_eq!(status.astra_attachments_status.len(), 1);
    assert_eq!(calls.list_virtual_networks, 2);
    assert_eq!(calls.list_virtual_network_attachments, 1);
    assert_eq!(calls.create_virtual_networks.len(), 1);
    assert_eq!(calls.create_virtual_networks[0].spec.as_ref().unwrap().vni, 100);
    assert_eq!(calls.create_virtual_network_attachments.len(), 1);
    let spec = calls.create_virtual_network_attachments[0].spec.as_ref().unwrap();
    assert_eq!(spec.vnet_id, "astra-weave-vni-100");
    assert!(spec.attachment_pf.is_some());
    assert!(calls.delete_virtual_networks.is_empty());
    assert!(calls.delete_virtual_network_attachments.is_empty());
}

#[test]
fn a_created_network_carries_id_subnet_and_time() {
    let mut service = RecordingService::new(Vec::new(), Vec::new());

    service.update(Some(&config(vec![("02:aa:bb:cc:dd:ee", 100)]))).unwrap();

    assert_eq!(
        service.calls.create_virtual_networks,
        vec![CreateVirtualNetworkRequest {
            metadata: Some(metadata("astra-weave-vni-100")),
            spec: Some(VirtualNetworkSpec {
                vni: 100,
                subnet_ipv4: Some("192.0.2.0/24".to_string()),
                subnet_ipv6: None,
            }),
        }]
    );
    let created = service.calls.create_virtual_network_attachments[0].metadata.as_ref().unwrap();
    assert_eq!(created.creation_timestamp, Some(Timestamp { seconds: 1767225600, nanos: 0 }));
    assert_eq!(created.deletion_timestamp, None);
    assert!(created.user_data.is_empty());
}

#[test]
fn test_update_weave_ew_vpc_server_astra_config_creates_shared_vni_once() {
    let mut service = RecordingService::new(Vec::new(), Vec::new());

    let status = service
        .update(Some(&config(vec![("02:aa:bb:cc:dd:ee", 100), ("02:aa:bb:cc:dd:ff", 100)])))
        .unwrap();
    let calls = &service.calls;

    assert_eq!(status.astra_attachments_status.len(), 2);
    assert_eq!(calls.create_virtual_networks.len(), 1);
    assert_eq!(calls.create_virtual_networks[0].spec.as_ref().unwrap().vni, 100);
    assert_eq!(calls.create_virtual_network_attachments.len(), 2);
    assert!(calls
        .create_virtual_network_attachments
        .iter()
        .all(|request| request.spec.as_ref().unwrap().vnet_id == "astra-weave-vni-100"));
}

#[test]
fn test_update_weave_ew_vpc_server_astra_config_marks_pending_vni_seen() {
    let mut service = RecordingService::new(Vec::new(), Vec::new());
    service.create_virtual_network_phase = Phase::Pending;

    let status = service
        .update(Some(&config(vec![("02:aa:bb:cc:dd:ee", 100), ("02:aa:bb:cc:dd:ff", 100)])))
        .unwrap();
    let calls = &service.calls;

    assert_eq!(status.astra_attachments_status.len(), 2);
    assert_eq!(phase(&status, 0), AstraPhase::PhasePending);
    assert_eq!(calls.create_virtual_networks.len(), 1);
    assert_eq!(calls.create_virtual_networks[0].spec.as_ref().unwrap().vni, 100);
}

#[test]
fn test_update_weave_ew_vpc_server_astra_config_marks_existing_pending_vni_not_ready() {
    let mut service = RecordingService::new(
        vec![virtual_network_with_phase("pending-vni", 100, Phase::Pending)],
        Vec::new(),
    );

    let status = service
        .update(Some(&config(vec![("02:aa:bb:cc:dd:ee", 100), ("02:aa:bb:cc:dd:ff", 100)])))
        .unwrap();

    assert_eq!(status.astra_attachments_status.len(), 2);
    assert!(status.astra_attachments_status.iter().all(|attachment| {
        attachment.status.as_ref().is_some_and(|status| status.phase == AstraPhase::PhasePending)
    }));
    assert!(service.calls.create_virtual_networks.is_empty());
    assert!(service.calls.create_virtual_network_attachments.is_empty());
}

#[test]
fn test_update_weave_ew_vpc_server_astra_config_deletes_stale_vni_and_attachment() {
    let mut service = RecordingService::new(
        vec![virtual_network("stale-vni", 300)],
        vec![virtual_network_attachment("stale-attachment", "02:aa:bb:cc:dd:ee", "300")],
    );

    let status = service.update(Some(&config(Vec::new()))).unwrap();
    let calls = &service.calls;

    assert!(status.astra_attachments_status.is_empty());
    assert_eq!(calls.list_virtual_networks, 2);
    assert_eq!(calls.list_virtual_network_attachments, 1);
    assert!(calls.create_virtual_networks.is_empty());
    assert!(calls.create_virtual_network_attachments.is_empty());
    assert_eq!(calls.delete_virtual_networks.len(), 1);
    assert_eq!(calls.delete_virtual_networks[0].id, "stale-vni");
    assert_eq!(calls.delete_virtual_network_attachments.len(), 1);
    assert_eq!(calls.delete_virtual_network_attachments[0].id, "stale-attachment");
}

#[test]
fn test_update_weave_ew_vpc_server_astra_config_moves_attachment_to_new_vni() {
    let mut service = RecordingService::new(
        vec![virtual_network("old-vni", 100), virtual_network("new-vni", 200)],
        vec![virtual_network_attachment(
            "old-attachment",
            "02:aa:bb:cc:dd:ee",
            "astra-weave-vni-100",
        )],
    );

    let status = service.update(Some(&config(vec![("02:aa:bb:cc:dd:ee", 200)]))).unwrap();
    let calls = &service.calls;

    assert_eq!(status.astra_attachments_status.len(), 1);
    assert!(calls.create_virtual_networks.is_empty());
    assert_eq!(calls.delete_virtual_networks.len(), 1);
    assert_eq!(calls.delete_virtual_networks[0].id, "old-vni");
    assert_eq!(calls.delete_virtual_network_attachments.len(), 1);
    assert_eq!(calls.delete_virtual_network_attachments[0].id, "old-attachment");
    assert_eq!(calls.create_virtual_network_attachments.len(), 1);
    let spec = calls.create_virtual_network_attachments[0].spec.as_ref().unwrap();
    assert_eq!(spec.nic_id, "02:aa:bb:cc:dd:ee");
    assert_eq!(spec.vnet_id, "astra-weave-vni-200");
    assert!(spec.attachment_pf.is_some());
}

#[test]
fn test_update_weave_ew_vpc_server_astra_config_keeps_matching_vni_and_attachment() {
    let mut service = RecordingService::new(
        vec![virtual_network("matching-vni", 100)],
        vec![virtual_network_attachment(
            "matching-attachment",
            "02:aa:bb:cc:dd:ee",
            "astra-weave-vni-100",
        )],
    );

    let status = service.update(Some(&config(vec![("02:aa:bb:cc:dd:ee", 100)]))).unwrap();
    let calls = &service.calls;

    assert_eq!(status.astra_attachments_status.len(), 1);
    assert!(
        status.astra_attachments_status.iter().all(|attachment_status| {
            attachment_status
                .status
                .as_ref()
                .is_some_and(|status| status.phase == AstraPhase::PhaseReady)
        }),
        "matching Weave EW VPC inventory should keep Astra attachment statuses ready"
    );
    assert_eq!(calls.list_virtual_networks, 2);
    assert_eq!(calls.list_virtual_network_attachments, 1);
    assert!(calls.create_virtual_networks.is_empty());
    assert!(calls.delete_virtual_networks.is_empty());
    assert!(calls.create_virtual_network_attachments.is_empty());
    assert!(calls.delete_virtual_network_attachments.is_empty());
}

#[test]
fn test_update_weave_ew_vpc_server_astra_config_skips_vni_zero_sentinel() {
    let mut service = RecordingService::new(
        vec![virtual_network("invalid-vni-zero", 0)],
        vec![virtual_network_attachment(
            "stale-attachment-for-detached-mac",
            "02:aa:bb:cc:dd:ee",
            "astra-weave-vni-100",
        )],
    );

    let status = service.update(Some(&config(vec![("02:aa:bb:cc:dd:ee", 0)]))).unwrap();
    let calls = &service.calls;

    assert_eq!(status.astra_attachments_status.len(), 1);
    assert_eq!(status.astra_attachments_status[0].vni, 0);
    assert_eq!(calls.list_virtual_networks, 2);
    assert_eq!(calls.list_virtual_network_attachments, 1);
    assert!(calls.create_virtual_networks.is_empty());
    assert!(calls.delete_virtual_networks.is_empty());
    assert!(calls.create_virtual_network_attachments.is_empty());
    assert_eq!(calls.delete_virtual_network_attachments.len(), 1);
    assert_eq!(
        calls.delete_virtual_network_attachments[0].id,
        "stale-attachment-for-detached-mac"
    );
}

#[test]
fn test_update_weave_ew_vpc_server_astra_config_processes_full_config_sequence() {
    let mut service = RecordingService::new(Vec::new(), Vec::new());

    service.update(Some(&config(vec![("aa:bb:cc:dd:ee:10", 100)]))).unwrap();
    {
        let calls = std::mem::take(&mut service.calls);
        assert_eq!(calls.create_virtual_networks.len(), 1);
        assert_eq!(calls.create_virtual_networks[0].spec.as_ref().unwrap().vni, 100);
        assert_eq!(calls.create_virtual_network_attachments.len(), 1);
        assert_eq!(
            calls.create_virtual_network_attachments[0].spec.as_ref().unwrap().nic_id,
            "aa:bb:cc:dd:ee:10"
        );
        assert!(calls.delete_virtual_networks.is_empty());
        assert!(calls.delete_virtual_network_attachments.is_empty());
    }

    service
        .update(Some(&config(vec![("aa:bb:cc:dd:ee:10", 100), ("aa:bb:cc:dd:ee:20", 200)])))
        .unwrap();
    {
        let calls = std::mem::take(&mut service.calls);
        assert_eq!(calls.create_virtual_networks.len(), 1);
        assert_eq!(calls.create_virtual_networks[0].spec.as_ref().unwrap().vni, 200);
        assert_eq!(calls.create_virtual_network_attachments.len(), 1);
        assert_eq!(
            calls.create_virtual_network_attachments[0].spec.as_ref().unwrap().nic_id,
            "aa:bb:cc:dd:ee:20"
        );
        assert!(calls.delete_virtual_networks.is_empty());
        assert!(calls.delete_virtual_network_attachments.is_empty());
    }

    service
        .update(Some(&config(vec![
            ("aa:bb:cc:dd:ee:10", 100),
            ("aa:bb:cc:dd:ee:20", 200),
            ("as:bb:cc:dd:ee:30", 300),
        ])))
        .unwrap();
    {
        let calls = std::mem::take(&mut service.calls);
        assert_eq!(calls.create_virtual_networks.len(), 1);
        assert_eq!(calls.create_virtual_networks[0].spec.as_ref().unwrap().vni, 300);
        assert_eq!(calls.create_virtual_network_attachments.len(), 1);
        assert_eq!(
            calls.create_virtual_network_attachments[0].spec.as_ref().unwrap().nic_id,
            "as:bb:cc:dd:ee:30"
        );
        assert!(calls.delete_virtual_networks.is_empty());
        assert!(calls.delete_virtual_network_attachments.is_empty());
    }

    service
        .update(Some(&config(vec![
            ("aa:bb:cc:dd:ee:10", 100),
            ("aa:bb:cc:dd:ee:20", 400),
            ("as:bb:cc:dd:ee:30", 300),
        ])))
        .unwrap();
    {
        let calls = std::mem::take(&mut service.calls);
        assert_eq!(calls.create_virtual_networks.len(), 1);
        assert_eq!(calls.create_virtual_networks[0].spec.as_ref().unwrap().vni, 400);
        assert_eq!(calls.delete_virtual_networks.len(), 1);
        assert_eq!(calls.delete_virtual_networks[0].id, "astra-weave-vni-200");
        assert_eq!(calls.delete_virtual_network_attachments.len(), 1);
        assert!(calls.delete_virtual_network_attachments[0].id.contains("aa:bb:cc:dd:ee:20"));
        assert_eq!(calls.create_virtual_network_attachments.len(), 1);
        let moved = calls.create_virtual_network_attachments[0].spec.as_ref().unwrap();
        assert_eq!(moved.nic_id, "aa:bb:cc:dd:ee:20");
        assert_eq!(moved.vnet_id, "astra-weave-vni-400");
        assert!(moved.attachment_pf.is_some());
    }

    service
        .update(Some(&config(vec![("aa:bb:cc:dd:ee:20", 400), ("as:bb:cc:dd:ee:30", 300)])))
        .unwrap();
    {
        let calls = &service.calls;
        assert!(calls.create_virtual_networks.is_empty());
        assert!(calls.create_virtual_network_attachments.is_empty());
        assert_eq!(calls.delete_virtual_networks.len(), 1);
        assert_eq!(calls.delete_virtual_networks[0].id, "astra-weave-vni-100");
        assert_eq!(calls.delete_virtual_network_attachments.len(), 1);
        assert!(calls.delete_virtual_network_attachments[0].id.contains("aa:bb:cc:dd:ee:10"));
    }
}

#[test]
fn a_second_update_changes_nothing() {
    let mut service = RecordingService::new(
        vec![virtual_network("old", 7), virtual_network("zero", 0)],
        vec![
            virtual_network_attachment("moved", "02:aa:bb:cc:dd:ee", "astra-weave-vni-7"),
            virtual_network_attachment("gone", "02:aa:bb:cc:dd:00", "astra-weave-vni-7"),
        ],
    );
    let wanted = config(vec![
        ("02:aa:bb:cc:dd:ee", 100),
        ("02:aa:bb:cc:dd:ff", 100),
        ("02:aa:bb:cc:dd:01", 0),
    ]);

    let first = service.update(Some(&wanted)).unwrap();
    assert_eq!(service.writes(), 6);
    assert!((0..3).all(|index| phase(&first, index) == AstraPhase::PhaseReady));
    service.calls = RecordedCalls::default();
    let status = service.update(Some(&wanted)).unwrap();

    assert_eq!(service.writes(), 0);
    assert_eq!(service.calls.list_virtual_networks, 2);
    assert_eq!(service.calls.list_virtual_network_attachments, 1);
    assert_eq!(status, first);
}

#[test]
fn an_attachment_that_is_in_place_need_not_say_how_it_is_bound() {
    let mut service = RecordingService::new(
        vec![virtual_network("hundred", 100)],
        vec![
            virtual_network_attachment("kept", "02:aa:bb:cc:dd:ee", "astra-weave-vni-100"),
            virtual_network_attachment("gone", "02:aa:bb:cc:dd:00", "astra-weave-vni-100"),
        ],
    );
    let mut wanted = config(vec![("02:aa:bb:cc:dd:ee", 100)]);
    wanted.astra_attachments[0].attachment_type = None;

    let first = service.update(Some(&wanted)).unwrap();
    assert_eq!(phase(&first, 0), AstraPhase::PhaseReady);
    assert_eq!(service.calls.delete_virtual_network_attachments[0].id, "gone");
    assert_eq!(service.writes(), 1);
    let second = service.update(Some(&wanted)).unwrap();

    assert_eq!(service.writes(), 1);
    assert_eq!(second, first);
}

#[test]
fn every_change_has_an_outcome() {
    let mut service = RecordingService::new(
        vec![virtual_network("old", 7)],
        vec![
            virtual_network_attachment("moved", "02:aa:bb:cc:dd:ee", "astra-weave-vni-7"),
            virtual_network_attachment("gone", "02:aa:bb:cc:dd:00", "astra-weave-vni-7"),
        ],
    );

    service.update(Some(&config(vec![("02:aa:bb:cc:dd:ee", 100)]))).unwrap();

    assert_eq!(
        service.outcomes,
        vec![
            "created network 100",
            "deleted conflict moved",
            "created attachment 02:aa:bb:cc:dd:ee",
            "deleted attachment gone",
            "deleted network old",
        ]
    );
}

#[test]
fn what_is_not_ready_or_not_done_has_no_outcome() {
    let mut service = RecordingService::new(Vec::new(), Vec::new());
    service.create_virtual_network_phase = Phase::Pending;
    service.update(Some(&config(vec![("02:aa:bb:cc:dd:ee", 100)]))).unwrap();
    assert!(service.outcomes.is_empty());

    let mut service = RecordingService::new(vec![virtual_network("new", 200)], Vec::new());
    service.failing = Some(|request| matches!(request, Request::CreateVirtualNetworkAttachment(_)));
    service.update(Some(&config(vec![("02:aa:bb:cc:dd:ee", 200)]))).unwrap();
    assert!(service.outcomes.is_empty());

    let mut service = RecordingService::new(vec![virtual_network("stale", 300)], Vec::new());
    service.failing = Some(|request| matches!(request, Request::DeleteVirtualNetwork(_)));
    service.update(Some(&config(Vec::new()))).unwrap_err();
    assert!(service.outcomes.is_empty());
}

#[test]
fn a_conflict_that_is_kept_has_an_outcome() {
    let mut service = RecordingService::new(
        vec![virtual_network("new", 200)],
        vec![virtual_network_attachment("old", "02:aa:bb:cc:dd:ee", "astra-weave-vni-100")],
    );
    service.failing = Some(|request| matches!(request, Request::DeleteVirtualNetworkAttachment(_)));

    service.update(Some(&config(vec![("02:aa:bb:cc:dd:ee", 200)]))).unwrap_err();

    assert_eq!(service.outcomes, vec!["kept conflict old: connection refused"]);
}

#[test]
fn the_statuses_of_an_update_can_be_read() {
    let wanted = config(vec![("02:aa:bb:cc:dd:ee", 100), ("02:aa:bb:cc:dd:ff", 200)]);
    let UpdateStep::Call { update, .. } = update_weave_ew_vpc_astra_config(Some(&wanted)) else {
        panic!("there is a configuration");
    };
    assert_eq!(update.statuses().len(), 2);
    assert!(update.statuses().iter().all(|status| status.is_ready()));

    let networks = vec![
        virtual_network_with_phase("hundred", 100, Phase::Pending),
        virtual_network("two-hundred", 200),
    ];
    let UpdateStep::Call { update, .. } = update.step(Reply::ListVirtualNetworks(Ok(networks)))
    else {
        panic!("the attachments are to be listed");
    };
    assert!(!update.statuses()[0].is_ready());
    assert!(update.statuses()[1].is_ready());
}

#[test]
fn objects_that_cannot_be_named_are_found() {
    let status = build_astra_config_status(&config(vec![
        ("02:aa:bb:cc:dd:ee", 100),
        ("02:aa:bb:cc:dd:ff", 0),
    ]))
    .unwrap();
    let mut statuses = status.astra_attachments_status;
    let mut without_metadata = virtual_network("", 300);
    without_metadata.metadata = None;
    let mut without_spec = virtual_network("", 300);
    without_spec.spec = None;
    let networks = vec![
        virtual_network("", 100),
        virtual_network("", 300),
        virtual_network("named", 300),
        virtual_network("", 0),
        without_metadata,
        without_spec,
    ];
    let attachments = vec![
        virtual_network_attachment("", "02:aa:bb:cc:dd:ee", "astra-weave-vni-100"),
        virtual_network_attachment("", "02:aa:bb:cc:dd:ee", "astra-weave-vni-7"),
        virtual_network_attachment("named", "02:aa:bb:cc:dd:ee", "astra-weave-vni-7"),
        virtual_network_attachment("", "02:aa:bb:cc:dd:00", "astra-weave-vni-100"),
        virtual_network_attachment("", "02:aa:bb:cc:dd:ff", "astra-weave-vni-0"),
    ];

    assert_eq!(unnamed_stale_networks(&networks, &statuses), vec![1, 4, 5]);
    assert_eq!(unnamed_stale_attachments(&attachments, &statuses), vec![1, 3, 4]);
    assert_eq!(unnamed_conflicts(&attachments, &statuses[0]), vec![1]);
    assert!(unnamed_conflicts(&attachments, &statuses[1]).is_empty());
    statuses[0].status = None;
    assert!(unnamed_conflicts(&attachments, &statuses[0]).is_empty());
}

#[test]
fn attachments_without_a_network_are_found() {
    let status = build_astra_config_status(&config(vec![
        ("02:aa:bb:cc:dd:ee", 100),
        ("02:aa:bb:cc:dd:ff", 0),
        ("02:aa:bb:cc:dd:01", 0),
        ("02:aa:bb:cc:dd:02", 0),
    ]))
    .unwrap();
    let mut statuses = status.astra_attachments_status;
    statuses[3].status = None;
    let attachments =
        vec![virtual_network_attachment("zero", "02:aa:bb:cc:dd:ff", "astra-weave-vni-0")];

    assert_eq!(detached_attachments(&statuses, &attachments), vec![2]);
    assert_eq!(detached_attachments(&statuses, &Vec::new()), vec![1, 2]);
}

#[test]
fn a_stale_object_has_its_position() {
    let networks = vec![virtual_network("kept", 0), virtual_network("stale", 300)];
    let attachments = vec![
        virtual_network_attachment("", "02:aa:bb:cc:dd:00", "astra-weave-vni-7"),
        virtual_network_attachment("gone", "02:aa:bb:cc:dd:01", "astra-weave-vni-7"),
    ];
    let mut service = RecordingService::new(networks, attachments);
    let mut step = update_weave_ew_vpc_astra_config(Some(&config(Vec::new())));
    let mut positions = Vec::new();
    while let UpdateStep::Call { update, request } = step {
        positions.push(update.stale_position());
        let reply = service.call(request);
        step = update.step(reply);
    }

    assert_eq!(positions, vec![None, None, Some(1), None, Some(1)]);
}

#[test]
fn the_stages_of_an_update_follow_one_another() {
    let mut service = RecordingService::new(
        vec![virtual_network("old", 7)],
        vec![
            virtual_network_attachment("moved", "02:aa:bb:cc:dd:ee", "astra-weave-vni-7"),
            virtual_network_attachment("gone", "02:aa:bb:cc:dd:00", "astra-weave-vni-7"),
        ],
    );

    service.update(Some(&config(vec![("02:aa:bb:cc:dd:ee", 100)]))).unwrap();

    assert_eq!(
        service.order,
        vec![
            "list networks",
            "create network",
            "list attachments",
            "delete attachment",
            "create attachment",
            "delete attachment",
            "list networks",
            "delete network",
        ]
    );
}

#[test]
fn a_finished_update_reports_the_configured_attachments() {
    let mut wanted = config(vec![("02:aa:bb:cc:dd:ee", 100), ("02:aa:bb:cc:dd:ff", 0)]);
    wanted.astra_attachments[0].revision = "first".to_string();
    let mut service = RecordingService::new(Vec::new(), Vec::new());
    service.create_virtual_network_phase = Phase::Deleting;

    let status = service.update(Some(&wanted)).unwrap();

    assert_eq!(status.astra_attachments_status.len(), 2);
    for (status, attachment) in
        status.astra_attachments_status.iter().zip(&wanted.astra_attachments)
    {
        assert_eq!(status.mac_address, attachment.mac_address);
        assert_eq!(status.vni as u32, attachment.vni);
        assert_eq!(status.subnet_ipv4, attachment.subnet_ipv4);
        assert_eq!(status.subnet_mask, attachment.subnet_mask);
        assert_eq!(status.attachment_type, attachment.attachment_type);
        assert_eq!(status.virtual_function_id, attachment.virtual_function_id);
        assert_eq!(status.network_name, attachment.network_name);
        assert_eq!(status.revision, attachment.revision);
    }
    assert_eq!(phase(&status, 0), AstraPhase::PhaseDeleting);
    assert_eq!(phase(&status, 1), AstraPhase::PhaseReady);
}

#[test]
fn an_attachment_that_is_listed_as_pending_is_reported_as_pending() {
    let mut attachment =
        virtual_network_attachment("known", "02:aa:bb:cc:dd:ee", "astra-weave-vni-100");
    attachment.status.as_mut().unwrap().state = Some(state(Phase::Pending));
    let mut service =
        RecordingService::new(vec![virtual_network("known", 100)], vec![attachment]);

    let status = service.update(Some(&config(vec![("02:aa:bb:cc:dd:ee", 100)]))).unwrap();

    assert_eq!(phase(&status, 0), AstraPhase::PhasePending);
    assert_eq!(service.writes(), 0);
}

#[test]
fn a_vni_that_does_not_fit_fails_before_any_call() {
    let mut service = RecordingService::new(Vec::new(), Vec::new());

    let result = service.update(Some(&config(vec![("02:aa:bb:cc:dd:ee", 2147483648)])));

    assert_eq!(result, Err(UpdateError::VniOutOfRange { vni: 2147483648 }));
    assert_eq!(service.calls.list_virtual_networks, 0);
}

#[test]
fn a_failed_listing_of_networks_ends_the_update() {
    let mut service = RecordingService::new(Vec::new(), Vec::new());
    service.failing = Some(|request| matches!(request, Request::ListVirtualNetworks(_)));

    let failed = service.update(Some(&config(vec![("02:aa:bb:cc:dd:ee", 100)]))).unwrap_err();

    assert_eq!(failed.message(), "connection refused");
    assert_eq!(service.calls.list_virtual_networks, 1);
    assert_eq!(service.writes(), 0);
}

#[test]
fn a_failed_listing_of_attachments_ends_the_update() {
    let mut service = RecordingService::new(Vec::new(), Vec::new());
    service.failing =
        Some(|request| matches!(request, Request::ListVirtualNetworkAttachments(_)));

    let failed = service.update(Some(&config(vec![("02:aa:bb:cc:dd:ee", 100)]))).unwrap_err();

    assert_eq!(failed.message(), "connection refused");
    assert_eq!(service.calls.create_virtual_networks.len(), 1);
    assert_eq!(service.calls.list_virtual_networks, 1);
}

#[test]
fn a_failed_creation_of_a_network_is_reported_and_tried_again_for_the_next_attachment() {
    let mut service = RecordingService::new(Vec::new(), Vec::new());
    service.failing = Some(|request| matches!(request, Request::CreateVirtualNetwork(_)));

    let status = service
        .update(Some(&config(vec![("02:aa:bb:cc:dd:ee", 100), ("02:aa:bb:cc:dd:ff", 100)])))
        .unwrap();

    let expected = error("API failure", "create_virtual_network: connection refused");
    assert_eq!(report(&status, 0), expected);
    assert_eq!(report(&status, 1), expected);
    assert_eq!(service.calls.create_virtual_networks.len(), 2);
    assert!(service.calls.create_virtual_network_attachments.is_empty());
}

#[test]
fn a_failed_creation_of_an_attachment_is_reported() {
    let mut service = RecordingService::new(Vec::new(), Vec::new());
    service.failing =
        Some(|request| matches!(request, Request::CreateVirtualNetworkAttachment(_)));

    let status = service.update(Some(&config(vec![("02:aa:bb:cc:dd:ee", 100)]))).unwrap();

    assert_eq!(
        report(&status, 0),
        error("API Failed", "create_virtual_network_attachment: connection refused")
    );
}

#[test]
fn a_failed_deletion_of_a_conflict_is_reported_and_tried_again_at_the_end() {
    let mut service = RecordingService::new(
        vec![virtual_network("new", 200)],
        vec![virtual_network_attachment("old", "02:aa:bb:cc:dd:ee", "astra-weave-vni-100")],
    );
    service.failing =
        Some(|request| matches!(request, Request::DeleteVirtualNetworkAttachment(_)));

    let failed = service.update(Some(&config(vec![("02:aa:bb:cc:dd:ee", 200)]))).unwrap_err();

    assert_eq!(service.calls.delete_virtual_network_attachments.len(), 2);
    assert!(service.calls.create_virtual_network_attachments.is_empty());
    assert_eq!(
        failed.message(),
        "failed to delete stale virtual network attachment from DOCA Weave server: \
         connection refused"
    );
}

#[test]
fn every_conflict_is_deleted_before_the_attachment_is_created() {
    let mut service = RecordingService::new(
        vec![virtual_network("new", 200)],
        vec![
            virtual_network_attachment("a", "02:aa:bb:cc:dd:ee", "astra-weave-vni-100"),
            virtual_network_attachment("b", "02:aa:bb:cc:dd:ee", "astra-weave-vni-101"),
        ],
    );

    let status = service.update(Some(&config(vec![("02:aa:bb:cc:dd:ee", 200)]))).unwrap();

    let deleted: Vec<&str> = service
        .calls
        .delete_virtual_network_attachments
        .iter()
        .map(|request| request.id.as_str())
        .collect();
    assert_eq!(deleted, vec!["a", "b"]);
    assert_eq!(service.calls.create_virtual_network_attachments.len(), 1);
    assert_eq!(phase(&status, 0), AstraPhase::PhaseReady);
}

#[test]
fn a_conflict_without_an_id_is_reported() {
    let mut nameless =
        virtual_network_attachment("", "02:aa:bb:cc:dd:ee", "astra-weave-vni-100");
    let mut service =
        RecordingService::new(vec![virtual_network("new", 200)], vec![nameless.clone()]);

    let status = service.update(Some(&config(vec![("02:aa:bb:cc:dd:ee", 200)]))).unwrap();

    let expected =
        error("Missing Doca Weave attachment ID", "delete_virtual_network_attachment");
    assert_eq!(report(&status, 0), expected);
    assert_eq!(service.writes(), 0);

    nameless.metadata = None;
    let mut service = RecordingService::new(vec![virtual_network("new", 200)], vec![nameless]);
    let status = service.update(Some(&config(vec![("02:aa:bb:cc:dd:ee", 200)]))).unwrap();
    assert_eq!(report(&status, 0), expected);
}

#[test]
fn a_stale_network_that_cannot_be_deleted_ends_the_update() {
    let mut service = RecordingService::new(vec![virtual_network("stale", 300)], Vec::new());
    service.failing = Some(|request| matches!(request, Request::DeleteVirtualNetwork(_)));

    let failed = service.update(Some(&config(Vec::new()))).unwrap_err();

    assert_eq!(
        failed.message(),
        "failed to delete stale virtual network from DOCA Weave server: connection refused"
    );
}

#[test]
fn stale_objects_without_an_id_are_left_alone() {
    let mut network = virtual_network("", 300);
    let mut attachment = virtual_network_attachment("", "02:aa:bb:cc:dd:ee", "300");
    let mut service = RecordingService::new(vec![network.clone()], vec![attachment.clone()]);
    assert!(service.update(Some(&config(Vec::new()))).is_ok());
    assert_eq!(service.writes(), 0);

    network.metadata = None;
    attachment.metadata = None;
    let mut service = RecordingService::new(vec![network], vec![attachment]);
    assert!(service.update(Some(&config(Vec::new()))).is_ok());
    assert_eq!(service.writes(), 0);
}

#[test]
fn a_network_without_a_specification_is_stale() {
    let mut network = virtual_network("odd", 300);
    network.spec = None;
    let mut service = RecordingService::new(vec![network], Vec::new());

    service.update(Some(&config(Vec::new()))).unwrap();

    assert_eq!(service.calls.delete_virtual_networks[0].id, "odd");
}

#[test]
fn a_listed_network_without_a_state_is_not_usable() {
    let mut network = virtual_network("known", 100);
    network.status = None;
    let mut service = RecordingService::new(vec![network], Vec::new());

    let status = service.update(Some(&config(vec![("02:aa:bb:cc:dd:ee", 100)]))).unwrap();

    assert_eq!(report(&status, 0), error("Response is missing state", "list_virtual_networks"));
    assert_eq!(service.writes(), 0);
}

#[test]
fn a_listed_attachment_without_a_state_is_not_usable() {
    let mut attachment =
        virtual_network_attachment("known", "02:aa:bb:cc:dd:ee", "astra-weave-vni-100");
    attachment.status = None;
    let mut service =
        RecordingService::new(vec![virtual_network("known", 100)], vec![attachment]);

    let status = service.update(Some(&config(vec![("02:aa:bb:cc:dd:ee", 100)]))).unwrap();

    assert_eq!(
        report(&status, 0),
        error("Missing Doca Weave Server Status State", "list_virtual_network_attachments")
    );
}

#[test]
fn replies_that_lack_what_they_should_hold_are_reported() {
    let step = |reply: Reply| {
        let wanted = config(vec![("02:aa:bb:cc:dd:ee", 100)]);
        let mut step = update_weave_ew_vpc_astra_config(Some(&wanted));
        let network = Reply::CreateVirtualNetwork(Ok(Some(virtual_network("n", 100))));
        let attachment_reply = matches!(reply, Reply::CreateVirtualNetworkAttachment(_));
        let mut replies = vec![Reply::ListVirtualNetworks(Ok(Vec::new()))];
        if attachment_reply {
            replies.push(network);
            replies.push(Reply::ListVirtualNetworkAttachments(Ok(Vec::new())));
            replies.push(reply);
        } else {
            replies.push(reply);
            replies.push(Reply::ListVirtualNetworkAttachments(Ok(Vec::new())));
        }
        replies.push(Reply::ListVirtualNetworks(Ok(Vec::new())));
        for reply in replies {
            step = match step {
                UpdateStep::Call { update, .. } => update.step(reply),
                _ => panic!("the update ended early"),
            };
        }
        match step {
            UpdateStep::Done(status) => report(&status, 0),
            _ => panic!("the update did not end"),
        }
    };
    let mut stateless = virtual_network("n", 100);
    stateless.status = Some(VirtualNetworkStatus { state: None });
    let mut stateless_attachment = virtual_network_attachment("a", "nic", "vnet");
    stateless_attachment.status = None;

    assert_eq!(
        step(Reply::CreateVirtualNetwork(Ok(None))),
        error("Response is missing virtual network", "create_virtual_network")
    );
    assert_eq!(
        step(Reply::CreateVirtualNetwork(Ok(Some(stateless)))),
        error("Response is missing state", "create_virtual_network")
    );
    assert_eq!(
        step(Reply::CreateVirtualNetworkAttachment(Ok(None))),
        error("Missing Doca Weave Server Status State", "create_virtual_network_attachment")
    );
    assert_eq!(
        step(Reply::CreateVirtualNetworkAttachment(Ok(Some(stateless_attachment)))),
        error("Missing Doca Weave Server Status State", "create_virtual_network_attachment")
    );
}

#[test]
fn a_reply_to_another_call_changes_nothing() {
    let wanted = config(vec![("02:aa:bb:cc:dd:ee", 100)]);
    let UpdateStep::Call { update, request } = update_weave_ew_vpc_astra_config(Some(&wanted))
    else {
        panic!("the update makes a call");
    };
    let stray = Reply::DeleteVirtualNetwork(Ok(()));
    assert!(!request.is_answered_by(&stray));

    let UpdateStep::Call { update, request: again } = update.step(stray) else {
        panic!("the call is still pending");
    };
    assert_eq!(again, request);

    let UpdateStep::Call { request: next, .. } =
        update.step(Reply::ListVirtualNetworks(Ok(Vec::new())))
    else {
        panic!("a network is missing");
    };
    assert!(matches!(next, Request::CreateVirtualNetwork(_)));
}

#[test]
fn attachments_of_every_type_are_created() {
    let mut wanted = config(vec![
        ("02:aa:bb:cc:dd:01", 100),
        ("02:aa:bb:cc:dd:02", 100),
        ("02:aa:bb:cc:dd:03", 100),
    ]);
    wanted.astra_attachments[1].attachment_type = Some(SpxAttachmentType::Virtual);
    wanted.astra_attachments[2].attachment_type = Some(SpxAttachmentType::Ovn);
    let mut service = RecordingService::new(Vec::new(), Vec::new());

    service.update(Some(&wanted)).unwrap();

    let created = &service.calls.create_virtual_network_attachments;
    let physical = created[0].spec.as_ref().unwrap();
    assert_eq!(physical.attachment_type, AttachmentType::Pf);
    assert_eq!(physical.attachment_pf.as_ref().unwrap().pf_id, "02:aa:bb:cc:dd:01");
    let virtual_function = created[1].spec.as_ref().unwrap();
    assert_eq!(virtual_function.attachment_type, AttachmentType::Vf);
    assert_eq!(virtual_function.attachment_vf.as_ref().unwrap().pf_id, "02:aa:bb:cc:dd:02");
    assert_eq!(virtual_function.attachment_vf.as_ref().unwrap().vf_index, 7);
    assert!(virtual_function.attachment_pf.is_none());
    let ovn = created[2].spec.as_ref().unwrap();
    assert_eq!(ovn.attachment_type, AttachmentType::Ovn);
    assert_eq!(ovn.attachment_ovn.as_ref().unwrap().network_name, "test-network");
}

#[test]
fn defects_of_the_configuration_are_reported() {
    let cases: Vec<(fn(&mut AstraAttachment), &str)> = vec![
        (|a| a.attachment_type = None, "Missing Astra SpxAttachmentType"),
        (
            |a| a.attachment_type = Some(SpxAttachmentType::Unrecognized(42)),
            "Unknown Astra SpxAttachmentType",
        ),
        (
            |a| {
                a.attachment_type = Some(SpxAttachmentType::Virtual);
                a.virtual_function_id = None;
            },
            "Missing Astra virtual_function_id",
        ),
        (
            |a| {
                a.attachment_type = Some(SpxAttachmentType::Virtual);
                a.virtual_function_id = Some(-1);
            },
            "Invalid Astra virtual_function_id",
        ),
        (
            |a| {
                a.attachment_type = Some(SpxAttachmentType::Ovn);
                a.network_name = None;
            },
            "Missing Astra OVN network_name",
        ),
        (
            |a| {
                a.attachment_type = Some(SpxAttachmentType::Ovn);
                a.network_name = Some(String::new());
            },
            "Missing Astra OVN network_name",
        ),
    ];

    for (change, reason) in cases {
        let mut wanted = config(vec![("02:aa:bb:cc:dd:ee", 100)]);
        change(&mut wanted.astra_attachments[0]);
        let mut service = RecordingService::new(Vec::new(), Vec::new());
        let status = service.update(Some(&wanted)).unwrap();
        assert_eq!(report(&status, 0), error(reason, "create_virtual_network_attachment"));
        assert!(service.calls.create_virtual_network_attachments.is_empty());
    }
}

#[test]
fn network_ids_tell_vnis_apart() {
    assert_eq!(astra_weave_ew_vpc_virtual_network_id(0), "astra-weave-vni-0");
    assert_eq!(astra_weave_ew_vpc_virtual_network_id(100), "astra-weave-vni-100");
    assert_eq!(astra_weave_ew_vpc_virtual_network_id(i32::MAX), "astra-weave-vni-2147483647");
    assert_eq!(astra_weave_ew_vpc_virtual_network_id(-7), "astra-weave-vni--7");
    assert_eq!(astra_weave_ew_vpc_virtual_network_id(i32::MIN), "astra-weave-vni--2147483648");
}
