//! What an update passes over: objects on the Weave server that ought to be deleted and cannot be
//! named, and attachments for which nothing is to be created.
use crate::astra::{
    AstraAttachmentStatus, AstraAttachmentStatusView, AstraAttachmentView, AstraPhase,
};
use crate::attachments::{
    attachment_wanted, conflicting, exact_attachment, find_exact_state, is_attachment_wanted,
    is_on_network, is_on_nic,
};
use crate::deletions::{
    binding_configured, lemma_stale_network_is_told, lemma_wanted_attachment_is_told,
    vni_configured,
};
use crate::networks::{
    astra_weave_ew_vpc_virtual_network_id, is_network_wanted, network_id, network_wanted,
};
use crate::reports::{about, has_vni};
use crate::status::{initial_statuses, vnis_fit};
use crate::text::holds;
use crate::visits::{
    in_the_way, lemma_exact_attachment_is_last_in_place, lemma_places_are_told, nameless,
    some_in_place,
};
use crate::weave::{
    usable_id, usable_object_id, VirtualNetwork, VirtualNetworkAttachment,
    VirtualNetworkAttachmentView, VirtualNetworkView,
};
use vstd::prelude::*;

verus! {

/// The positions below `len` at which something holds, in order.
pub open spec fn picks(positions: Seq<usize>, len: nat, holds: spec_fn(int) -> bool) -> bool {
    &&& forall|i: int, j: int|
        0 <= i < j < positions.len() ==> #[trigger] positions[i] < #[trigger] positions[j]
    &&& forall|i: int|
        0 <= i < positions.len() ==> (#[trigger] positions[i]) < len && holds(positions[i] as int)
    &&& forall|p: int| 0 <= p < len && #[trigger] holds(p) ==> positions.contains(p as usize)
}

/// A network that no attachment wants, that does not carry the invalid VNI 0, and that cannot be
/// named.
pub open spec fn network_unnamed(
    network: VirtualNetworkView,
    statuses: Seq<AstraAttachmentStatusView>,
) -> bool {
    &&& network.vni() != Some(0u32)
    &&& !network_wanted(network, statuses)
    &&& usable_id(network.metadata) is None
}

/// An attachment that no configured one calls for and that cannot be named.
pub open spec fn attachment_unnamed(
    listed: VirtualNetworkAttachmentView,
    statuses: Seq<AstraAttachmentStatusView>,
) -> bool {
    &&& !attachment_wanted(listed, statuses)
    &&& usable_id(listed.metadata) is None
}

/// An attachment that cannot be named and that conflicts with one that is ready.
pub open spec fn conflict_unnamed(
    listed: VirtualNetworkAttachmentView,
    attachment: AstraAttachmentStatusView,
) -> bool {
    &&& attachment.ready()
    &&& conflicting(listed, attachment)
    &&& usable_id(listed.metadata) is None
}

/// One more position is picked.
proof fn lemma_picked(
    positions: Seq<usize>,
    position: usize,
    holds: spec_fn(int) -> bool,
)
    requires
        picks(positions, position as nat, holds),
        holds(position as int),
    ensures
        picks(positions.push(position), (position + 1) as nat, holds),
{
    let more = positions.push(position);
    assert forall|p: int| 0 <= p < position + 1 && #[trigger] holds(p) implies more.contains(
        p as usize,
    ) by {
        if p == position {
            assert(more[positions.len() as int] == position);
        } else {
            let i = choose|i: int| 0 <= i < positions.len() && positions[i] == p as usize;
            assert(more[i] == p as usize);
        }
    }
}

/// The networks of a listing that ought to be deleted and cannot be named.
pub fn unnamed_stale_networks(
    networks: &Vec<VirtualNetwork>,
    statuses: &Vec<AstraAttachmentStatus>,
) -> (r: Vec<usize>)
    ensures
        picks(
            r@,
            networks.len() as nat,
            |p: int| network_unnamed(networks.deep_view()[p], statuses.deep_view()),
        ),
{
    let ghost holds = |p: int| network_unnamed(networks.deep_view()[p], statuses.deep_view());
    let mut positions: Vec<usize> = Vec::new();
    let mut i: usize = 0;
    while i < networks.len()
        invariant
            i <= networks.len(),
            holds == (|p: int| network_unnamed(networks.deep_view()[p], statuses.deep_view())),
            picks(positions@, i as nat, holds),
        decreases networks.len() - i,
    {
        let network = &networks[i];
        assert(networks.deep_view()[i as int] == network.deep_view());
        let invalid = match &network.spec {
            Some(network_spec) => network_spec.vni == 0,
            None => false,
        };
        if !invalid && !is_network_wanted(network, statuses) && usable_object_id(
            &network.metadata,
        ).is_none() {
            proof {
                lemma_picked(positions@, i, holds);
            }
            positions.push(i);
        }
        i = i + 1;
    }
    positions
}

/// The attachments of a listing that ought to be deleted and cannot be named.
pub fn unnamed_stale_attachments(
    listed: &Vec<VirtualNetworkAttachment>,
    statuses: &Vec<AstraAttachmentStatus>,
) -> (r: Vec<usize>)
    ensures
        picks(
            r@,
            listed.len() as nat,
            |p: int| attachment_unnamed(listed.deep_view()[p], statuses.deep_view()),
        ),
{
    let ghost holds = |p: int| attachment_unnamed(listed.deep_view()[p], statuses.deep_view());
    let mut positions: Vec<usize> = Vec::new();
    let mut i: usize = 0;
    while i < listed.len()
        invariant
            i <= listed.len(),
            holds == (|p: int| attachment_unnamed(listed.deep_view()[p], statuses.deep_view())),
            picks(positions@, i as nat, holds),
        decreases listed.len() - i,
    {
        let attachment = &listed[i];
        assert(listed.deep_view()[i as int] == attachment.deep_view());
        if usable_object_id(&attachment.metadata).is_none() && !is_attachment_wanted(
            attachment,
            statuses,
        ) {
            proof {
                lemma_picked(positions@, i, holds);
            }
            positions.push(i);
        }
        i = i + 1;
    }
    positions
}

/// The attachments of a listing that conflict with one that is ready and cannot be named.
pub fn unnamed_conflicts(
    listed: &Vec<VirtualNetworkAttachment>,
    astra_attachment_status: &AstraAttachmentStatus,
) -> (r: Vec<usize>)
    ensures
        picks(
            r@,
            listed.len() as nat,
            |p: int| conflict_unnamed(listed.deep_view()[p], astra_attachment_status.deep_view()),
        ),
{
    let ghost holds = |p: int|
        conflict_unnamed(listed.deep_view()[p], astra_attachment_status.deep_view());
    let ready = astra_attachment_status.is_ready();
    let vnet_id = astra_weave_ew_vpc_virtual_network_id(astra_attachment_status.vni);
    let mut positions: Vec<usize> = Vec::new();
    let mut i: usize = 0;
    while i < listed.len()
        invariant
            i <= listed.len(),
            ready == astra_attachment_status.deep_view().ready(),
            vnet_id@ == network_id(astra_attachment_status.vni as int),
            holds == (|p: int|
                conflict_unnamed(listed.deep_view()[p], astra_attachment_status.deep_view())),
            picks(positions@, i as nat, holds),
        decreases listed.len() - i,
    {
        let other = &listed[i];
        assert(listed.deep_view()[i as int] == other.deep_view());
        if ready && is_on_nic(other, &astra_attachment_status.mac_address) && !is_on_network(
            other,
            &vnet_id,
        ) && usable_object_id(&other.metadata).is_none() {
            proof {
                lemma_picked(positions@, i, holds);
            }
            positions.push(i);
        }
        i = i + 1;
    }
    positions
}

/// An attachment without a network that is ready and for which none is listed: nothing is to be
/// created.
pub open spec fn attachment_detached(
    attachment: AstraAttachmentStatusView,
    listed: Seq<VirtualNetworkAttachmentView>,
) -> bool {
    &&& attachment.vni == 0
    &&& attachment.ready()
    &&& exact_attachment(listed, attachment) is None
}

/// The attachments for which nothing is to be created, as they have no network.
pub fn detached_attachments(
    statuses: &Vec<AstraAttachmentStatus>,
    listed: &Vec<VirtualNetworkAttachment>,
) -> (r: Vec<usize>)
    ensures
        picks(
            r@,
            statuses.len() as nat,
            |k: int| attachment_detached(statuses.deep_view()[k], listed.deep_view()),
        ),
{
    let ghost holds = |k: int| attachment_detached(statuses.deep_view()[k], listed.deep_view());
    let mut positions: Vec<usize> = Vec::new();
    let mut i: usize = 0;
    while i < statuses.len()
        invariant
            i <= statuses.len(),
            holds == (|k: int| attachment_detached(statuses.deep_view()[k], listed.deep_view())),
            picks(positions@, i as nat, holds),
        decreases statuses.len() - i,
    {
        let status = &statuses[i];
        assert(statuses.deep_view()[i as int] == status.deep_view());
        if status.vni == 0 && status.is_ready() && find_exact_state(listed, status).is_none() {
            proof {
                lemma_picked(positions@, i, holds);
            }
            positions.push(i);
        }
        i = i + 1;
    }
    positions
}

/// The positions are those below `len` at which something holds, each once and in order. So there
/// is only one way to pick them.
pub proof fn lemma_picks_tell(
    a: Seq<usize>,
    b: Seq<usize>,
    len: nat,
    holds: spec_fn(int) -> bool,
)
    requires
        picks(a, len, holds),
        picks(b, len, holds),
    ensures
        forall|p: usize| #[trigger] a.contains(p) <==> b.contains(p),
        forall|i: int, j: int| 0 <= i < j < a.len() ==> #[trigger] a[i] < #[trigger] a[j],
        forall|p: usize| #[trigger] a.contains(p) ==> p < len && holds(p as int),
        forall|p: usize| p < len && #[trigger] holds(p as int) ==> a.contains(p),
{
    assert forall|p: usize| #[trigger] a.contains(p) implies p < len && holds(p as int) by {
        let i = choose|i: int| 0 <= i < a.len() && a[i] == p;
        assert(a[i] < len && holds(a[i] as int));
    }
    assert forall|p: usize| #[trigger] b.contains(p) implies p < len && holds(p as int) by {
        let i = choose|i: int| 0 <= i < b.len() && b[i] == p;
        assert(b[i] < len && holds(b[i] as int));
    }
    assert forall|p: usize| p < len && #[trigger] holds(p as int) implies a.contains(p) by {
        assert(a.contains(p as int as usize));
    }
    assert forall|p: usize| p < len && #[trigger] holds(p as int) implies b.contains(p) by {
        assert(b.contains(p as int as usize));
    }
}

/// A network that is passed over has no id, and a VNI that is neither 0 nor configured.
pub proof fn lemma_unnamed_network_is_told(
    network: VirtualNetworkView,
    attachments: Seq<AstraAttachmentView>,
)
    requires
        vnis_fit(attachments),
    ensures
        network_unnamed(network, initial_statuses(attachments)) <==> !has_vni(network, 0)
            && !vni_configured(network, attachments) && nameless(network.metadata),
{
    lemma_stale_network_is_told(network, attachments);
}

/// An attachment that is passed over has no id, and is in place for no configured one with a
/// network.
pub proof fn lemma_unnamed_attachment_is_told(
    listed: VirtualNetworkAttachmentView,
    attachments: Seq<AstraAttachmentView>,
)
    requires
        vnis_fit(attachments),
    ensures
        attachment_unnamed(listed, initial_statuses(attachments)) <==> !binding_configured(
            listed,
            attachments,
        ) && nameless(listed.metadata),
{
    lemma_wanted_attachment_is_told(listed, attachments);
}

/// A conflict that is passed over has no id and is in the way of an attachment that is reported
/// ready.
pub proof fn lemma_unnamed_conflict_is_told(
    listed: VirtualNetworkAttachmentView,
    attachment: AstraAttachmentView,
    status: AstraAttachmentStatusView,
)
    requires
        about(status, attachment),
    ensures
        conflict_unnamed(listed, status) <==> in_the_way(listed, attachment) && nameless(
            listed.metadata,
        ) && status.status is Some && status.status->0.phase == AstraPhase::PhaseReady,
{
    lemma_places_are_told(listed, attachment, status);
}

/// An attachment for which nothing is created has no network, is reported ready, and none on the
/// server is in its place.
pub proof fn lemma_detached_attachment_is_told(
    listed: Seq<VirtualNetworkAttachmentView>,
    attachment: AstraAttachmentView,
    status: AstraAttachmentStatusView,
)
    requires
        about(status, attachment),
    ensures
        attachment_detached(status, listed) <==> attachment.vni == 0 && !some_in_place(
            listed,
            attachment,
        ) && status.status is Some && status.status->0.phase == AstraPhase::PhaseReady,
{
    lemma_exact_attachment_is_last_in_place(listed, attachment, status);
}

} // verus!
