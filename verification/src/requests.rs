//! What the requests of an update hold, field by field.
use crate::astra::{AstraAttachmentStatusView, AstraAttachmentView, SpxAttachmentType};
use crate::attachments::attachment_spec;
use crate::calendar::{creation_time, utc_seconds};
use crate::laws::lemma_attachments_kept;
use crate::networks::network_id;
use crate::progress::ProgressView;
use crate::runs::{progress_at, request_at, step_at};
use crate::service::{ReplyView, RequestView};
use crate::status::{initial_status, initial_statuses, vnis_fit};
use crate::text::{decimal, lemma_decimal_injective};
use crate::weave::{
    AttachmentType, CreateVirtualNetworkAttachmentRequestView, CreateVirtualNetworkRequestView,
    ObjectMetadataView, Phase, VirtualNetworkAttachmentSpecView,
};
use vstd::prelude::*;

verus! {

/// The id of the network of a VNI is the decimal number behind a fixed start.
pub open spec fn names_vni(id: Seq<char>, vni: int) -> bool {
    &&& id.len() >= 16
    &&& id.take(16) == seq![
        'a', 's', 't', 'r', 'a', '-', 'w', 'e', 'a', 'v', 'e', '-', 'v', 'n', 'i', '-',
    ]
    &&& id.skip(16) == decimal(vni)
}

/// The id under which a network is created and looked for names its VNI.
pub proof fn lemma_network_id_names_vni(vni: int)
    ensures
        names_vni(network_id(vni), vni),
{
    reveal_strlit("astra-weave-vni-");
    let start = seq![
        'a', 's', 't', 'r', 'a', '-', 'w', 'e', 'a', 'v', 'e', '-', 'v', 'n', 'i', '-',
    ];
    assert(network_id(vni).take(16) =~= start);
    assert(network_id(vni).skip(16) =~= decimal(vni));
}

/// Two ids that name one VNI are the same.
pub proof fn lemma_one_id_for_a_vni(a: Seq<char>, b: Seq<char>, vni: int)
    requires
        names_vni(a, vni),
        names_vni(b, vni),
    ensures
        a == b,
{
    assert(a =~= a.take(16) + a.skip(16));
    assert(b =~= b.take(16) + b.skip(16));
}

/// Metadata of an object that is created: it carries the start of the year 2026 and nothing but,
/// perhaps, an id.
pub open spec fn fresh_metadata(metadata: ObjectMetadataView) -> bool {
    &&& metadata.creation_timestamp matches Some(time) && time.seconds == utc_seconds(
        2026,
        1,
        1,
        0,
        0,
        0,
    ) && time.nanos == 0
    &&& metadata.deletion_timestamp is None
    &&& metadata.user_data.dom() == Set::<String>::empty()
}

/// The request asks for the network of a configured attachment: with its VNI, under the id that
/// names the VNI, and with the subnet written as address, slash and length of the prefix.
pub open spec fn asks_for_network(
    request: CreateVirtualNetworkRequestView,
    attachment: AstraAttachmentView,
) -> bool {
    &&& attachment.vni != 0
    &&& request.metadata matches Some(metadata) && {
        &&& fresh_metadata(metadata)
        &&& metadata.id matches Some(id) && names_vni(id, attachment.vni as int)
    }
    &&& request.spec matches Some(network) && {
        &&& network.vni == attachment.vni
        &&& network.subnet_ipv4 matches Some(subnet) && subnet == attachment.subnet_ipv4 + seq![
            '/',
        ] + decimal(attachment.subnet_mask as int)
        &&& network.subnet_ipv6 is None
    }
}

/// The specification binds the interface of a configured attachment to its network, by the
/// function that the attachment names.
pub open spec fn binds_attachment(
    wanted: VirtualNetworkAttachmentSpecView,
    attachment: AstraAttachmentView,
) -> bool {
    &&& names_vni(wanted.vnet_id, attachment.vni as int)
    &&& wanted.nic_id == attachment.mac_address
    &&& match attachment.attachment_type {
        Some(SpxAttachmentType::Physical) => {
            &&& wanted.attachment_type == AttachmentType::Pf
            &&& wanted.attachment_pf == Some(attachment.mac_address)
            &&& wanted.attachment_vf is None
            &&& wanted.attachment_ovn is None
        },
        Some(SpxAttachmentType::Virtual) => {
            &&& wanted.attachment_type == AttachmentType::Vf
            &&& wanted.attachment_pf is None
            &&& wanted.attachment_vf matches Some(function) && {
                &&& function.pf_id == attachment.mac_address
                &&& attachment.virtual_function_id matches Some(id) && function.vf_index == id
            }
            &&& wanted.attachment_ovn is None
        },
        Some(SpxAttachmentType::Ovn) => {
            &&& wanted.attachment_type == AttachmentType::Ovn
            &&& wanted.attachment_pf is None
            &&& wanted.attachment_vf is None
            &&& wanted.attachment_ovn == attachment.network_name
        },
        _ => false,
    }
}

/// An attachment says how it is to be bound: as a physical function, as the virtual function
/// with a number that is not negative, or by the name of an OVN network that is not empty.
pub open spec fn says_how_to_bind(
    attachment_type: Option<SpxAttachmentType>,
    virtual_function_id: Option<i32>,
    network_name: Option<Seq<char>>,
) -> bool {
    ||| attachment_type == Some(SpxAttachmentType::Physical)
    ||| attachment_type == Some(SpxAttachmentType::Virtual) && (virtual_function_id matches Some(
        id,
    ) && 0 <= id)
    ||| attachment_type == Some(SpxAttachmentType::Ovn) && (network_name matches Some(name)
        && name.len() >= 1)
}

/// There is a specification exactly for an attachment that says how it is to be bound, and it
/// binds the attachment so.
pub proof fn lemma_specification_of_attachment(attachment: AstraAttachmentView)
    requires
        attachment.vni <= i32::MAX,
    ensures
        attachment_spec(initial_status(attachment)) is Ok <==> says_how_to_bind(
            attachment.attachment_type,
            attachment.virtual_function_id,
            attachment.network_name,
        ),
        attachment_spec(initial_status(attachment)) matches Ok(wanted) ==> binds_attachment(
            wanted,
            attachment,
        ),
{
    lemma_network_id_names_vni(attachment.vni as int);
}

/// The specification of an attachment in any state of its report, negative VNIs included.
pub proof fn lemma_specification_of_status(attachment: AstraAttachmentStatusView)
    ensures
        attachment_spec(attachment) is Ok <==> says_how_to_bind(
            attachment.attachment_type,
            attachment.virtual_function_id,
            attachment.network_name,
        ),
        attachment_spec(attachment) matches Ok(wanted) ==> {
            &&& names_vni(wanted.vnet_id, attachment.vni as int)
            &&& wanted.nic_id == attachment.mac_address
            &&& wanted.attachment_pf is Some <==> attachment.attachment_type == Some(
                SpxAttachmentType::Physical,
            )
            &&& wanted.attachment_vf is Some <==> attachment.attachment_type == Some(
                SpxAttachmentType::Virtual,
            )
            &&& wanted.attachment_ovn is Some <==> attachment.attachment_type == Some(
                SpxAttachmentType::Ovn,
            )
            &&& wanted.attachment_pf matches Some(pf_id) ==> pf_id == attachment.mac_address
            &&& wanted.attachment_vf matches Some(function) ==> function.pf_id
                == attachment.mac_address && Some(function.vf_index as int) == (
            match attachment.virtual_function_id {
                Some(id) => Some(id as int),
                None => None,
            })
            &&& wanted.attachment_ovn matches Some(name) ==> attachment.network_name == Some(name)
            &&& wanted.attachment_type == (if wanted.attachment_pf is Some {
                AttachmentType::Pf
            } else if wanted.attachment_vf is Some {
                AttachmentType::Vf
            } else {
                AttachmentType::Ovn
            })
        },
{
    lemma_network_id_names_vni(attachment.vni as int);
}

/// What an attachment lacks that does not say how it is to be bound.
pub open spec fn binding_defect(
    attachment_type: Option<SpxAttachmentType>,
    virtual_function_id: Option<i32>,
) -> Seq<char> {
    match attachment_type {
        None => "Missing Astra SpxAttachmentType"@,
        Some(SpxAttachmentType::Virtual) => if virtual_function_id is None {
            "Missing Astra virtual_function_id"@
        } else {
            "Invalid Astra virtual_function_id"@
        },
        Some(SpxAttachmentType::Ovn) => "Missing Astra OVN network_name"@,
        _ => "Unknown Astra SpxAttachmentType"@,
    }
}

/// An attachment that does not say how it is to be bound has an error that tells what it lacks.
pub proof fn lemma_defect_of_attachment(attachment: AstraAttachmentStatusView)
    ensures
        attachment_spec(attachment) matches Err(state) ==> {
            &&& state.phase == Phase::Error
            &&& state.reason == binding_defect(
                attachment.attachment_type,
                attachment.virtual_function_id,
            )
            &&& state.message == "create_virtual_network_attachment"@
        },
{
}

/// The specification does not depend on what is reported, and attachments that differ in the
/// number of their virtual function have different specifications.
pub proof fn lemma_specifications_differ(
    a: AstraAttachmentStatusView,
    b: AstraAttachmentStatusView,
)
    ensures
        a.same_attachment(b) ==> attachment_spec(a) == attachment_spec(b),
        attachment_spec(a) is Ok && attachment_spec(a) == attachment_spec(b) ==> a.mac_address
            == b.mac_address && a.vni == b.vni && a.attachment_type == b.attachment_type && (
        a.attachment_type == Some(SpxAttachmentType::Virtual) ==> a.virtual_function_id
            == b.virtual_function_id),
{
    lemma_specification_of_status(a);
    lemma_specification_of_status(b);
    if attachment_spec(a) is Ok && attachment_spec(a) == attachment_spec(b) {
        lemma_decimal_injective(a.vni as int, b.vni as int);
    }
}

/// Every creation of a network asks for the network of a configured attachment.
pub proof fn lemma_network_creations_ask_for_networks(
    attachments: Seq<AstraAttachmentView>,
    replies: Seq<ReplyView>,
    n: nat,
    request: CreateVirtualNetworkRequestView,
) -> (k: int)
    requires
        request_at(Some(attachments), replies, n) == Some(
            RequestView::CreateVirtualNetwork(request),
        ),
    ensures
        0 <= k < attachments.len(),
        asks_for_network(request, attachments[k]),
        progress_at(Some(attachments), replies, n) matches Some(
            ProgressView::CreatingNetwork { known, index },
        ) && index == k,
{
    lemma_attachments_kept(attachments, replies, n);
    let update = step_at(Some(attachments), replies, n)->update;
    let k = update.progress->CreatingNetwork_index;
    assert(initial_statuses(attachments)[k].same_attachment(update.statuses[k]));
    assert(attachments[k].vni <= i32::MAX);
    lemma_network_id_names_vni(attachments[k].vni as int);
    lemma_creation_time();
    reveal_strlit("/");
    assert("/"@ =~= seq!['/']);
    k
}

/// The time that is put on objects is the start of the year 2026 in UTC.
proof fn lemma_creation_time()
    ensures
        creation_time().seconds == utc_seconds(2026, 1, 1, 0, 0, 0),
        creation_time().nanos == 0,
{
}

/// Creations of networks that ask for one subnet are for attachments with one address and one
/// length of the prefix, where the addresses are equally long.
pub proof fn lemma_subnets_differ(
    first: CreateVirtualNetworkRequestView,
    a: AstraAttachmentView,
    second: CreateVirtualNetworkRequestView,
    b: AstraAttachmentView,
)
    requires
        asks_for_network(first, a),
        asks_for_network(second, b),
        a.subnet_ipv4.len() == b.subnet_ipv4.len(),
        first.spec->0.subnet_ipv4 == second.spec->0.subnet_ipv4,
    ensures
        a.subnet_ipv4 == b.subnet_ipv4,
        a.subnet_mask == b.subnet_mask,
{
    let subnet = first.spec->0.subnet_ipv4->0;
    let at = a.subnet_ipv4.len() as int;
    assert(subnet.take(at) =~= a.subnet_ipv4);
    assert(subnet.take(at) =~= b.subnet_ipv4);
    assert(subnet.skip(at + 1) =~= decimal(a.subnet_mask as int));
    assert(subnet.skip(at + 1) =~= decimal(b.subnet_mask as int));
    lemma_decimal_injective(a.subnet_mask as int, b.subnet_mask as int);
}

/// Every creation of an attachment binds a configured one that has a network and says how it is
/// to be bound. The server chooses the id.
pub proof fn lemma_attachment_creations_bind_attachments(
    attachments: Seq<AstraAttachmentView>,
    replies: Seq<ReplyView>,
    n: nat,
    request: CreateVirtualNetworkAttachmentRequestView,
) -> (k: int)
    requires
        request_at(Some(attachments), replies, n) == Some(
            RequestView::CreateVirtualNetworkAttachment(request),
        ),
    ensures
        0 <= k < attachments.len(),
        attachments[k].vni != 0,
        request.metadata matches Some(metadata) && fresh_metadata(metadata) && metadata.id is None,
        request.spec matches Some(wanted) && binds_attachment(wanted, attachments[k]),
        progress_at(Some(attachments), replies, n) matches Some(
            ProgressView::CreatingAttachment { listed, deleted, index },
        ) && index == k,
{
    lemma_attachments_kept(attachments, replies, n);
    let update = step_at(Some(attachments), replies, n)->update;
    let k = update.progress->CreatingAttachment_index;
    assert(initial_statuses(attachments)[k].same_attachment(update.statuses[k]));
    assert(attachments[k].vni <= i32::MAX);
    lemma_specification_of_attachment(attachments[k]);
    lemma_creation_time();
    k
}

/// A list call asks for everything.
pub proof fn lemma_listings_ask_for_everything(
    attachments: Seq<AstraAttachmentView>,
    replies: Seq<ReplyView>,
    n: nat,
)
    ensures
        request_at(Some(attachments), replies, n) matches Some(request) ==> {
            &&& request matches RequestView::ListVirtualNetworks(vni) ==> vni is None
            &&& request matches RequestView::ListVirtualNetworkAttachments(filter)
                ==> filter.vnet_id is None && filter.nic_id is None
        },
{
    lemma_attachments_kept(attachments, replies, n);
}

/// An update begins with the list of networks.
pub proof fn lemma_update_begins_with_networks(
    attachments: Seq<AstraAttachmentView>,
    replies: Seq<ReplyView>,
)
    ensures
        (forall|k: int|
            0 <= k < attachments.len() ==> (#[trigger] attachments[k]).vni < 0x8000_0000)
            <==> request_at(Some(attachments), replies, 0) == Some(
            RequestView::ListVirtualNetworks(None),
        ),
{
    reveal(step_at);
    if request_at(Some(attachments), replies, 0) is Some {
        assert forall|k: int| 0 <= k < attachments.len() implies (#[trigger] attachments[k]).vni
            < 0x8000_0000 by {
            assert(vnis_fit(attachments));
        }
    }
}

} // verus!
