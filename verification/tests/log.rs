use weave_agent::astra::{AstraAttachment, AstraConfig};
use weave_agent::log::{
    log_astra_config, log_virtual_network_attachments, log_virtual_networks, LogLine,
};
use weave_agent::weave::{VirtualNetwork, VirtualNetworkAttachment};

fn network(id: usize) -> VirtualNetwork {
    VirtualNetwork {
        metadata: None,
        spec: Some(weave_agent::weave::VirtualNetworkSpec {
            vni: id as u32,
            subnet_ipv4: None,
            subnet_ipv6: None,
        }),
        status: None,
    }
}

#[test]
fn the_networks_of_a_listing_are_logged_in_order() {
    let networks = vec![network(3), network(1)];

    let lines = log_virtual_networks(&networks);

    assert_eq!(lines.len(), 3);
    assert!(matches!(
        lines[0],
        LogLine::Count { message: "List VNI response", count: 2 }
    ));
    for (i, network) in networks.iter().enumerate() {
        assert!(matches!(
            lines[i + 1],
            LogLine::Entry { message: "List VNI response entry", entry } if entry == network
        ));
    }
}

#[test]
fn an_empty_listing_is_logged_as_a_count() {
    let attachments: Vec<VirtualNetworkAttachment> = Vec::new();

    let lines = log_virtual_network_attachments(&attachments);

    assert_eq!(lines.len(), 1);
    assert!(matches!(
        lines[0],
        LogLine::Count { message: "List VNI attachment response", count: 0 }
    ));
}

#[test]
fn the_configuration_is_logged() {
    let config = AstraConfig {
        astra_attachments: vec![AstraAttachment {
            mac_address: "02:aa:bb:cc:dd:ee".to_string(),
            vni: 100,
            subnet_ipv4: "192.0.2.0".to_string(),
            subnet_mask: 24,
            attachment_type: None,
            virtual_function_id: None,
            network_name: None,
            revision: String::new(),
        }],
    };

    let lines = log_astra_config(&config);

    assert!(matches!(lines[0], LogLine::Count { message: "Input Astra config", count: 1 }));
    assert!(matches!(
        lines[1],
        LogLine::Entry { message: "Input Astra config entry", entry } if entry.vni == 100
    ));
}
