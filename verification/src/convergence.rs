//! What an update does when the Weave server already holds what is wanted.
use crate::astra::{AstraAttachmentStatusView, AstraAttachmentView};
use crate::attachments::{
    attachment_stale, conflicting, exact_attachment, lemma_exact_whatever_is_reported,
    lemma_next_conflict, lemma_next_stale_attachment, listed_ready, next_conflict,
    next_stale_attachment, unnamed_conflict, visit,
};
use crate::cleanup::lemma_stale_whatever_is_reported;
use crate::laws::lemma_wanted_whatever_is_reported;
use crate::networks::{
    lemma_next_creation, lemma_next_stale_network, listed_states, network_need, network_settled,
    network_stale, networks_settled, next_creation, next_stale_network,
};
use crate::progress::{
    attachments_from, lemma_same_attachments_through, networks_from, same_attachments,
    ProgressView, StepView, UpdateView,
};
use crate::runs::{request_at, step_at};
use crate::service::{ReplyView, RequestView};
use crate::status::{initial_status, initial_statuses, vnis_fit};
use crate::weave::{Phase, StateView, VirtualNetworkAttachmentView, VirtualNetworkView};
use vstd::prelude::*;

verus! {

/// The networks on the server are those that the configuration wants, and they are ready.
pub open spec fn networks_match(
    attachments: Seq<AstraAttachmentView>,
    networks: Seq<VirtualNetworkView>,
) -> bool {
    &&& forall|k: int|
        0 <= k < attachments.len() && (#[trigger] attachments[k]).vni != 0 ==> listed_states(
            networks,
        ).contains_key(attachments[k].vni) && listed_states(networks)[attachments[k].vni].phase
            == Phase::Ready
    &&& forall|p: int|
        0 <= p < networks.len() ==> !network_stale(
            #[trigger] networks[p],
            initial_statuses(attachments),
        )
}

/// The attachments on the server are those that the configuration wants, and they are ready.
pub open spec fn attachments_match(
    attachments: Seq<AstraAttachmentView>,
    listed: Seq<VirtualNetworkAttachmentView>,
) -> bool {
    &&& forall|k: int|
        0 <= k < attachments.len() ==> if (#[trigger] attachments[k]).vni != 0 {
            listed_ready(listed, initial_status(attachments[k]))
        } else {
            exact_attachment(listed, initial_status(attachments[k])) is None
        }
    &&& forall|k: int, p: int|
        0 <= k < attachments.len() && 0 <= p < listed.len() ==> !conflicting(
            #[trigger] listed[p],
            initial_status(#[trigger] attachments[k]),
        )
    &&& forall|p: int|
        0 <= p < listed.len() ==> !attachment_stale(
            #[trigger] listed[p],
            initial_statuses(attachments),
            Seq::empty(),
        )
}

/// Networks that are known to be ready need nothing.
proof fn lemma_ready_networks_need_nothing(
    statuses: Seq<AstraAttachmentStatusView>,
    known: Map<u32, StateView>,
)
    requires
        forall|k: int|
            0 <= k < statuses.len() ==> network_need(#[trigger] statuses[k], known) is Nothing,
    ensures
        networks_from(statuses, known, 0) == (UpdateView {
            statuses,
            progress: ProgressView::ListingAttachments,
        }),
{
    lemma_next_creation(statuses, known, 0);
    assert(next_creation(statuses, known, 0) == statuses.len()) by {
        let next = next_creation(statuses, known, 0);
        if next < statuses.len() {
            assert(network_need(statuses[next], known) is Nothing);
        }
    }
    assert(networks_settled(statuses, known, 0, statuses.len() as int) =~= statuses) by {
        assert forall|k: int| 0 <= k < statuses.len() implies network_settled(
            #[trigger] statuses[k],
            known,
        ) == statuses[k] by {
            assert(network_need(statuses[k], known) is Nothing);
        }
    }
}

/// An attachment without conflicts that is listed as ready, or that is detached and not listed,
/// is settled by a visit and stays ready.
proof fn lemma_visit_of_matching_attachment(
    attachment: AstraAttachmentStatusView,
    listed: Seq<VirtualNetworkAttachmentView>,
)
    requires
        attachment.ready(),
        forall|p: int| 0 <= p < listed.len() ==> !conflicting(#[trigger] listed[p], attachment),
        if attachment.vni != 0 {
            listed_ready(listed, attachment)
        } else {
            exact_attachment(listed, attachment) is None
        },
    ensures
        visit(attachment, listed, 0, true).1 is Settled,
        visit(attachment, listed, 0, true).0.ready(),
        attachment.same_attachment(visit(attachment, listed, 0, true).0),
{
    lemma_next_conflict(listed, attachment, 0);
    let next = next_conflict(listed, attachment, 0);
    assert(next == listed.len()) by {
        if next < listed.len() {
            assert(!conflicting(listed[next], attachment));
        }
    }
    assert(!unnamed_conflict(listed, attachment, 0, next));
}

/// Visiting matching attachments makes no call.
proof fn lemma_matching_attachments_need_nothing(
    attachments: Seq<AstraAttachmentView>,
    statuses: Seq<AstraAttachmentStatusView>,
    listed: Seq<VirtualNetworkAttachmentView>,
    from: int,
)
    requires
        attachments_match(attachments, listed),
        vnis_fit(attachments),
        same_attachments(initial_statuses(attachments), statuses),
        forall|k: int| 0 <= k < statuses.len() ==> (#[trigger] statuses[k]).ready(),
        0 <= from <= statuses.len(),
    ensures
        ({
            let update = attachments_from(statuses, listed, Seq::empty(), from);
            &&& update.progress is RelistingNetworks
            &&& same_attachments(initial_statuses(attachments), update.statuses)
            &&& forall|k: int|
                0 <= k < statuses.len() ==> (#[trigger] update.statuses[k]).ready()
        }),
    decreases statuses.len() - from,
{
    let initial = initial_statuses(attachments);
    if from == statuses.len() {
        lemma_next_stale_attachment(listed, statuses, Seq::empty(), 0);
        let next = next_stale_attachment(listed, statuses, Seq::empty(), 0);
        if next < listed.len() {
            lemma_wanted_whatever_is_reported(listed[next], initial, statuses);
            assert(!attachment_stale(listed[next], initial, Seq::empty()));
        }
    } else {
        let attachment = statuses[from];
        assert(initial[from].same_attachment(attachment));
        assert(attachments[from].vni as i32 == initial[from].vni);
        lemma_exact_whatever_is_reported(listed, initial[from], attachment);
        assert forall|p: int| 0 <= p < listed.len() implies !conflicting(
            #[trigger] listed[p],
            attachment,
        ) by {
            assert(!conflicting(listed[p], initial_status(attachments[from])));
        }
        lemma_visit_of_matching_attachment(attachment, listed);
        let visited = statuses.update(from, visit(attachment, listed, 0, true).0);
        assert(same_attachments(initial, visited)) by {
            lemma_same_attachments_through(initial, statuses, visited);
        }
        lemma_matching_attachments_need_nothing(attachments, visited, listed, from + 1);
    }
}

/// Where the server already holds what the configuration wants, and all of it is ready, an
/// update makes the three list calls and no other, and reports every attachment ready. The two
/// listings of the networks need not agree.
pub proof fn lemma_matching_inventory_is_kept(
    attachments: Seq<AstraAttachmentView>,
    replies: Seq<ReplyView>,
)
    requires
        vnis_fit(attachments),
        replies.len() > 0 ==> (replies[0] matches ReplyView::ListVirtualNetworks(Ok(networks))
            && networks_match(attachments, networks)),
        replies.len() > 1 ==> (replies[1] matches ReplyView::ListVirtualNetworkAttachments(
            Ok(listed),
        ) && attachments_match(attachments, listed)),
        replies.len() > 2 ==> (replies[2] matches ReplyView::ListVirtualNetworks(Ok(networks))
            && networks_match(attachments, networks)),
    ensures
        request_at(Some(attachments), replies, 0) matches Some(
            RequestView::ListVirtualNetworks(_),
        ),
        replies.len() > 0 ==> (request_at(Some(attachments), replies, 1) matches Some(
            RequestView::ListVirtualNetworkAttachments(_),
        )),
        replies.len() > 1 ==> (request_at(Some(attachments), replies, 2) matches Some(
            RequestView::ListVirtualNetworks(_),
        )),
        replies.len() > 2 ==> (step_at(Some(attachments), replies, 3) matches StepView::Done(
            statuses,
        ) && same_attachments(initial_statuses(attachments), statuses) && forall|k: int|
            0 <= k < statuses.len() ==> (#[trigger] statuses[k]).ready()),
{
    reveal_with_fuel(step_at, 4);
    let initial = initial_statuses(attachments);
    if replies.len() > 0 {
        let known = listed_states(replies[0]->ListVirtualNetworks_0->Ok_0);
        assert forall|k: int| 0 <= k < initial.len() implies network_need(
            #[trigger] initial[k],
            known,
        ) is Nothing by {
            assert(attachments[k].vni <= i32::MAX);
        }
        lemma_ready_networks_need_nothing(initial, known);
    }
    if replies.len() > 1 {
        let listed = replies[1]->ListVirtualNetworkAttachments_0->Ok_0;
        lemma_matching_attachments_need_nothing(attachments, initial, listed, 0);
    }
    if replies.len() > 2 {
        let listed = replies[1]->ListVirtualNetworkAttachments_0->Ok_0;
        let relisted = replies[2]->ListVirtualNetworks_0->Ok_0;
        let statuses = attachments_from(initial, listed, Seq::empty(), 0).statuses;
        lemma_next_stale_network(relisted, statuses, 0);
        let next = next_stale_network(relisted, statuses, 0);
        if next < relisted.len() {
            lemma_stale_whatever_is_reported(relisted[next], initial, statuses);
            assert(!network_stale(relisted[next], initial));
        }
    }
}

} // verus!
