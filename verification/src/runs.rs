//! Runs of an update: the steps that a sequence of replies leads through.
use crate::astra::{AstraAttachmentStatusView, AstraAttachmentView};
use crate::attachments::{
    created_attachment_state, lemma_next_stale_attachment, lemma_remembering_keeps_apart,
    remembering, undeleted_conflict_state,
};
use crate::networks::{
    created_network_state, known_after_creation, listed_states, reporting_unready,
};
use crate::progress::{
    attachments_from, conflicts_from, first_step, lemma_attachments_from, lemma_conflicts_from,
    lemma_networks_from, lemma_same_attachments_through, lemma_stale_attachments_from,
    lemma_stale_networks_from, networks_from, same_attachments, step_after, ProgressView, StepView,
    UpdateView,
};
use crate::service::{answers, ReplyView, RequestView};
use crate::status::report_of;
use crate::weave::{usable_id, VirtualNetworkAttachmentView, VirtualNetworkView};
use vstd::prelude::*;

verus! {

/// Where an update stands after the first `n` replies.
#[verifier::opaque]
pub open spec fn step_at(
    config: Option<Seq<AstraAttachmentView>>,
    replies: Seq<ReplyView>,
    n: nat,
) -> StepView
    decreases n,
{
    if n == 0 {
        first_step(config)
    } else {
        match step_at(config, replies, (n - 1) as nat) {
            StepView::Call { update, request } => step_after(update, replies[n - 1]),
            end => end,
        }
    }
}

/// The call that is made after the first `n` replies, if the update has not ended.
pub open spec fn request_at(
    config: Option<Seq<AstraAttachmentView>>,
    replies: Seq<ReplyView>,
    n: nat,
) -> Option<RequestView> {
    match step_at(config, replies, n) {
        StepView::Call { update, request } => Some(request),
        _ => None,
    }
}

/// What the update waits for after the first `n` replies, if it has not ended.
pub open spec fn progress_at(
    config: Option<Seq<AstraAttachmentView>>,
    replies: Seq<ReplyView>,
    n: nat,
) -> Option<ProgressView> {
    match step_at(config, replies, n) {
        StepView::Call { update, request } => Some(update.progress),
        _ => None,
    }
}

impl UpdateView {
    /// How far the update is from its end: the stage, what is left of it, and what is left of
    /// the visit of an attachment.
    pub open spec fn left(self) -> (int, int, int) {
        let attachments = self.statuses.len();
        match self.progress {
            ProgressView::ListingNetworks => (7, 0, 0),
            ProgressView::CreatingNetwork { known, index } => (6, attachments - index, 0),
            ProgressView::ListingAttachments => (5, 0, 0),
            ProgressView::DeletingConflict { listed, deleted, index, conflict, clean } => (
                4,
                attachments - index,
                listed.len() - conflict,
            ),
            ProgressView::CreatingAttachment { listed, deleted, index } => (
                4,
                attachments - index,
                0,
            ),
            ProgressView::DeletingStaleAttachment { listed, deleted, position } => (
                3,
                listed.len() - position,
                0,
            ),
            ProgressView::RelistingNetworks => (2, 0, 0),
            ProgressView::DeletingStaleNetwork { networks, position } => (
                1,
                networks.len() - position,
                0,
            ),
        }
    }
}

/// One triple comes before another in the order of the dictionary.
pub open spec fn before(a: (int, int, int), b: (int, int, int)) -> bool {
    a.0 < b.0 || (a.0 == b.0 && (a.1 < b.1 || (a.1 == b.1 && a.2 < b.2)))
}

/// Every reply to the pending call brings an update nearer to its end. It keeps the
/// attachments and what is well formed about them.
pub proof fn lemma_step(update: UpdateView, reply: ReplyView)
    requires
        update.wf(),
    ensures
        match step_after(update, reply) {
            StepView::Call { update: next, request } => {
                &&& next.wf()
                &&& request == next.request()
                &&& same_attachments(update.statuses, next.statuses)
                &&& answers(reply, update.request()) ==> before(next.left(), update.left())
                &&& !answers(reply, update.request()) ==> next == update
                &&& 0 <= next.left().1 && 0 <= next.left().2
            },
            StepView::Done(statuses) => same_attachments(update.statuses, statuses),
            StepView::Failed(_) => true,
        },
{
    let statuses = update.statuses;
    match (update.progress, reply) {
        (ProgressView::ListingNetworks, ReplyView::ListVirtualNetworks(Ok(networks))) => {
            lemma_networks_from(statuses, listed_states(networks), 0);
        },
        (
            ProgressView::CreatingNetwork { known, index },
            ReplyView::CreateVirtualNetwork(created),
        ) => {
            let recorded = statuses.update(
                index,
                reporting_unready(statuses[index], created_network_state(created)),
            );
            let known = known_after_creation(known, statuses[index].vni as u32, created);
            lemma_networks_from(recorded, known, index + 1);
            lemma_same_attachments_through(
                statuses,
                recorded,
                networks_from(recorded, known, index + 1).statuses,
            );
        },
        (
            ProgressView::ListingAttachments,
            ReplyView::ListVirtualNetworkAttachments(Ok(listed)),
        ) => {
            lemma_attachments_from(statuses, listed, Seq::empty(), 0);
        },
        (
            ProgressView::DeletingConflict { listed, deleted, index, conflict, clean },
            ReplyView::DeleteVirtualNetworkAttachment(gone),
        ) => match gone {
            Ok(_) => {
                lemma_remembering_keeps_apart(deleted, usable_id(listed[conflict].metadata)->0);
                lemma_conflicts_from(
                    statuses,
                    listed,
                    remembering(deleted, usable_id(listed[conflict].metadata)->0),
                    index,
                    conflict + 1,
                    clean,
                );
            },
            Err(error) => {
                let recorded = statuses.update(
                    index,
                    statuses[index].reporting(report_of(undeleted_conflict_state(error))),
                );
                lemma_conflicts_from(recorded, listed, deleted, index, conflict + 1, false);
                lemma_same_attachments_through(
                    statuses,
                    recorded,
                    conflicts_from(recorded, listed, deleted, index, conflict + 1, false).statuses,
                );
            },
        },
        (
            ProgressView::CreatingAttachment { listed, deleted, index },
            ReplyView::CreateVirtualNetworkAttachment(created),
        ) => {
            let recorded = statuses.update(
                index,
                reporting_unready(statuses[index], created_attachment_state(created)),
            );
            lemma_attachments_from(recorded, listed, deleted, index + 1);
            lemma_same_attachments_through(
                statuses,
                recorded,
                attachments_from(recorded, listed, deleted, index + 1).statuses,
            );
        },
        (
            ProgressView::DeletingStaleAttachment { listed, deleted, position },
            ReplyView::DeleteVirtualNetworkAttachment(Ok(_)),
        ) => {
            lemma_stale_attachments_from(statuses, listed, deleted, position + 1);
            lemma_next_stale_attachment(listed, statuses, deleted, position + 1);
        },
        (ProgressView::RelistingNetworks, ReplyView::ListVirtualNetworks(Ok(networks))) => {
            lemma_stale_networks_from(statuses, networks, 0);
        },
        (
            ProgressView::DeletingStaleNetwork { networks, position },
            ReplyView::DeleteVirtualNetwork(Ok(_)),
        ) => {
            lemma_stale_networks_from(statuses, networks, position + 1);
        },
        _ => {},
    }
}

impl ProgressView {
    /// The listing of attachments that the update works on.
    pub open spec fn listed(self) -> Option<Seq<VirtualNetworkAttachmentView>> {
        match self {
            ProgressView::DeletingConflict { listed, deleted, index, conflict, clean } => Some(
                listed,
            ),
            ProgressView::CreatingAttachment { listed, deleted, index } => Some(listed),
            ProgressView::DeletingStaleAttachment { listed, deleted, position } => Some(listed),
            _ => None,
        }
    }

    /// The ids of the conflicting attachments that were deleted.
    pub open spec fn deleted(self) -> Option<Seq<Seq<char>>> {
        match self {
            ProgressView::DeletingConflict { listed, deleted, index, conflict, clean } => Some(
                deleted,
            ),
            ProgressView::CreatingAttachment { listed, deleted, index } => Some(deleted),
            ProgressView::DeletingStaleAttachment { listed, deleted, position } => Some(deleted),
            _ => None,
        }
    }

    /// The listing of networks that the update looks for stale ones in.
    pub open spec fn relisted(self) -> Option<Seq<VirtualNetworkView>> {
        match self {
            ProgressView::DeletingStaleNetwork { networks, position } => Some(networks),
            _ => None,
        }
    }
}

/// An update works on the listing that came last, until it needs none.
pub proof fn lemma_step_keeps_listing(update: UpdateView, reply: ReplyView)
    requires
        update.wf(),
    ensures
        step_after(update, reply) matches StepView::Call { update: next, request } ==> {
            &&& next.progress.listed() matches Some(listed) ==> update.progress.listed() == Some(
                listed,
            ) || (update.progress is ListingAttachments && reply
                == ReplyView::ListVirtualNetworkAttachments(Ok(listed)))
            &&& next.progress.relisted() matches Some(networks) ==> update.progress.relisted()
                == Some(networks) || (update.progress is RelistingNetworks && reply
                == ReplyView::ListVirtualNetworks(Ok(networks)))
        },
{
    let statuses = update.statuses;
    match (update.progress, reply) {
        (
            ProgressView::ListingAttachments,
            ReplyView::ListVirtualNetworkAttachments(Ok(listed)),
        ) => {
            lemma_attachments_from(statuses, listed, Seq::empty(), 0);
        },
        (
            ProgressView::DeletingConflict { listed, deleted, index, conflict, clean },
            ReplyView::DeleteVirtualNetworkAttachment(gone),
        ) => match gone {
            Ok(_) => {
                lemma_conflicts_from(
                    statuses,
                    listed,
                    remembering(deleted, usable_id(listed[conflict].metadata)->0),
                    index,
                    conflict + 1,
                    clean,
                );
            },
            Err(error) => {
                lemma_conflicts_from(
                    statuses.update(
                        index,
                        statuses[index].reporting(report_of(undeleted_conflict_state(error))),
                    ),
                    listed,
                    deleted,
                    index,
                    conflict + 1,
                    false,
                );
            },
        },
        (
            ProgressView::CreatingAttachment { listed, deleted, index },
            ReplyView::CreateVirtualNetworkAttachment(created),
        ) => {
            lemma_attachments_from(
                statuses.update(
                    index,
                    reporting_unready(statuses[index], created_attachment_state(created)),
                ),
                listed,
                deleted,
                index + 1,
            );
        },
        _ => {},
    }
}

/// An update knows the VNIs that were listed, and those that it has created since.
pub proof fn lemma_step_knows_networks(update: UpdateView, reply: ReplyView)
    requires
        update.wf(),
    ensures
        step_after(update, reply) matches StepView::Call { update: next, request } ==> (
        next.progress matches ProgressView::CreatingNetwork { known: after, index: at }
            ==> match update.progress {
            ProgressView::ListingNetworks => match reply {
                ReplyView::ListVirtualNetworks(Ok(networks)) => after == listed_states(networks),
                _ => false,
            },
            ProgressView::CreatingNetwork { known, index } => match reply {
                ReplyView::CreateVirtualNetwork(created) => after == known_after_creation(
                    known,
                    update.statuses[index].vni as u32,
                    created,
                ),
                _ => after == known,
            },
            _ => false,
        }),
{
    lemma_step(update, reply);
}

/// The update keeps what an earlier list reports as not ready, and makes no call for it.
pub open spec fn unready_kept(
    earlier: Seq<AstraAttachmentStatusView>,
    update: UpdateView,
) -> bool {
    &&& earlier.len() == update.statuses.len()
    &&& forall|k: int|
        0 <= k < earlier.len() && !earlier[k].ready() ==> #[trigger] update.statuses[k]
            == earlier[k]
    &&& match update.progress {
        ProgressView::DeletingConflict { listed, deleted, index, conflict, clean } =>
            earlier[index].ready(),
        ProgressView::CreatingAttachment { listed, deleted, index } => earlier[index].ready(),
        _ => true,
    }
}

/// Once the attachments are looked at, one that is not ready is left as it is.
pub proof fn lemma_step_keeps_unready(
    earlier: Seq<AstraAttachmentStatusView>,
    update: UpdateView,
    reply: ReplyView,
)
    requires
        update.wf(),
        !(update.progress is ListingNetworks),
        !(update.progress is CreatingNetwork),
        unready_kept(earlier, update),
    ensures
        match step_after(update, reply) {
            StepView::Call { update: next, request } => unready_kept(earlier, next),
            StepView::Done(statuses) => {
                &&& earlier.len() == statuses.len()
                &&& forall|k: int|
                    0 <= k < earlier.len() && !earlier[k].ready() ==> #[trigger] statuses[k]
                        == earlier[k]
            },
            StepView::Failed(_) => true,
        },
{
    let statuses = update.statuses;
    match (update.progress, reply) {
        (
            ProgressView::ListingAttachments,
            ReplyView::ListVirtualNetworkAttachments(Ok(listed)),
        ) => {
            lemma_attachments_from(statuses, listed, Seq::empty(), 0);
        },
        (
            ProgressView::DeletingConflict { listed, deleted, index, conflict, clean },
            ReplyView::DeleteVirtualNetworkAttachment(gone),
        ) => match gone {
            Ok(_) => {
                lemma_conflicts_from(
                    statuses,
                    listed,
                    remembering(deleted, usable_id(listed[conflict].metadata)->0),
                    index,
                    conflict + 1,
                    clean,
                );
            },
            Err(error) => {
                lemma_conflicts_from(
                    statuses.update(
                        index,
                        statuses[index].reporting(report_of(undeleted_conflict_state(error))),
                    ),
                    listed,
                    deleted,
                    index,
                    conflict + 1,
                    false,
                );
            },
        },
        (
            ProgressView::CreatingAttachment { listed, deleted, index },
            ReplyView::CreateVirtualNetworkAttachment(created),
        ) => {
            lemma_attachments_from(
                statuses.update(
                    index,
                    reporting_unready(statuses[index], created_attachment_state(created)),
                ),
                listed,
                deleted,
                index + 1,
            );
        },
        (
            ProgressView::DeletingStaleAttachment { listed, deleted, position },
            ReplyView::DeleteVirtualNetworkAttachment(Ok(_)),
        ) => {
            lemma_stale_attachments_from(statuses, listed, deleted, position + 1);
        },
        (ProgressView::RelistingNetworks, ReplyView::ListVirtualNetworks(Ok(networks))) => {
            lemma_stale_networks_from(statuses, networks, 0);
        },
        (
            ProgressView::DeletingStaleNetwork { networks, position },
            ReplyView::DeleteVirtualNetwork(Ok(_)),
        ) => {
            lemma_stale_networks_from(statuses, networks, position + 1);
        },
        _ => {},
    }
}

/// What one list does not report ready, the other does not either.
pub open spec fn never_readier(
    earlier: Seq<AstraAttachmentStatusView>,
    later: Seq<AstraAttachmentStatusView>,
) -> bool {
    &&& earlier.len() == later.len()
    &&& forall|k: int|
        0 <= k < earlier.len() && (#[trigger] later[k]).ready() ==> earlier[k].ready()
}

/// No reply makes an attachment ready that was not.
pub proof fn lemma_step_never_readier(update: UpdateView, reply: ReplyView)
    requires
        update.wf(),
    ensures
        match step_after(update, reply) {
            StepView::Call { update: next, request } => never_readier(
                update.statuses,
                next.statuses,
            ),
            StepView::Done(statuses) => never_readier(update.statuses, statuses),
            StepView::Failed(_) => true,
        },
{
    let statuses = update.statuses;
    match (update.progress, reply) {
        (ProgressView::ListingNetworks, ReplyView::ListVirtualNetworks(Ok(networks))) => {
            lemma_networks_from(statuses, listed_states(networks), 0);
        },
        (
            ProgressView::CreatingNetwork { known, index },
            ReplyView::CreateVirtualNetwork(created),
        ) => {
            lemma_networks_from(
                statuses.update(
                    index,
                    reporting_unready(statuses[index], created_network_state(created)),
                ),
                known_after_creation(known, statuses[index].vni as u32, created),
                index + 1,
            );
        },
        _ => {
            if !(update.progress is ListingNetworks) && !(update.progress is CreatingNetwork) {
                lemma_visits_never_readier(update, reply);
            }
        },
    }
}

/// No reply makes an attachment ready that was not, once the attachments are looked at.
pub proof fn lemma_visits_never_readier(update: UpdateView, reply: ReplyView)
    requires
        update.wf(),
        !(update.progress is ListingNetworks),
        !(update.progress is CreatingNetwork),
    ensures
        match step_after(update, reply) {
            StepView::Call { update: next, request } => never_readier(
                update.statuses,
                next.statuses,
            ),
            StepView::Done(statuses) => never_readier(update.statuses, statuses),
            StepView::Failed(_) => true,
        },
{
    let statuses = update.statuses;
    if let ProgressView::DeletingConflict { listed, deleted, index, conflict, clean } =
        update.progress {
        match reply {
            ReplyView::DeleteVirtualNetworkAttachment(Ok(_)) => {
                lemma_conflicts_from(
                    statuses,
                    listed,
                    remembering(deleted, usable_id(listed[conflict].metadata)->0),
                    index,
                    conflict + 1,
                    clean,
                );
            },
            ReplyView::DeleteVirtualNetworkAttachment(Err(error)) => {
                lemma_conflicts_from(
                    statuses.update(
                        index,
                        statuses[index].reporting(report_of(undeleted_conflict_state(error))),
                    ),
                    listed,
                    deleted,
                    index,
                    conflict + 1,
                    false,
                );
            },
            _ => {},
        }
    } else {
        lemma_step_keeps_unready(statuses, update, reply);
    }
}

/// Where an update stands depends on the replies so far alone.
pub proof fn lemma_step_at_prefix(
    config: Option<Seq<AstraAttachmentView>>,
    a: Seq<ReplyView>,
    b: Seq<ReplyView>,
    n: nat,
)
    requires
        forall|i: int| 0 <= i < n ==> #[trigger] a[i] == b[i],
    ensures
        step_at(config, a, n) == step_at(config, b, n),
    decreases n,
{
    reveal(step_at);
    if n > 0 {
        lemma_step_at_prefix(config, a, b, (n - 1) as nat);
        assert(a[n - 1] == b[n - 1]);
    }
}

/// An id that is remembered as deleted stays so, and that of a conflict that is deleted is
/// remembered.
pub proof fn lemma_step_remembers(update: UpdateView, reply: ReplyView)
    requires
        update.wf(),
        update.progress.deleted() is Some,
    ensures
        step_after(update, reply) matches StepView::Call { update: next, request } ==> (
        next.progress.deleted() matches Some(after) ==> {
            &&& forall|id: Seq<char>| #[trigger]
                update.progress.deleted()->0.contains(id) ==> after.contains(id)
            &&& update.progress matches ProgressView::DeletingConflict {
                listed,
                deleted,
                index,
                conflict,
                clean,
            } ==> (reply matches ReplyView::DeleteVirtualNetworkAttachment(Ok(_))
                ==> after.contains(usable_id(listed[conflict].metadata)->0))
        }),
{
    let statuses = update.statuses;
    match (update.progress, reply) {
        (
            ProgressView::DeletingConflict { listed, deleted, index, conflict, clean },
            ReplyView::DeleteVirtualNetworkAttachment(Ok(_)),
        ) => {
            let id = usable_id(listed[conflict].metadata)->0;
            let after = remembering(deleted, id);
            lemma_conflicts_from(statuses, listed, after, index, conflict + 1, clean);
            if !deleted.contains(id) {
                assert(after[deleted.len() as int] == id);
            }
            assert forall|other: Seq<char>| #[trigger] deleted.contains(other) implies after
                .contains(other) by {
                let j = choose|j: int| 0 <= j < deleted.len() && deleted[j] == other;
                assert(after[j] == other);
            }
        },
        (
            ProgressView::DeletingConflict { listed, deleted, index, conflict, clean },
            ReplyView::DeleteVirtualNetworkAttachment(Err(error)),
        ) => {
            lemma_conflicts_from(
                statuses.update(
                    index,
                    statuses[index].reporting(report_of(undeleted_conflict_state(error))),
                ),
                listed,
                deleted,
                index,
                conflict + 1,
                false,
            );
        },
        (
            ProgressView::CreatingAttachment { listed, deleted, index },
            ReplyView::CreateVirtualNetworkAttachment(created),
        ) => {
            lemma_attachments_from(
                statuses.update(
                    index,
                    reporting_unready(statuses[index], created_attachment_state(created)),
                ),
                listed,
                deleted,
                index + 1,
            );
        },
        _ => {},
    }
}

} // verus!
