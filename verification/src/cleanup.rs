//! What a finished update has removed from the Weave server.
use crate::astra::{AstraAttachmentStatusView, AstraAttachmentView};
use crate::attachments::{
    attachment_stale, attachment_wanted, created_attachment_state, lemma_next_stale_attachment,
    lemma_visit, next_stale_attachment, remembering, undeleted_conflict_state, visit,
};
use crate::laws::{
    lemma_attachments_kept, lemma_stages_follow, lemma_update_ends,
    lemma_wanted_whatever_is_reported, unwanted_network,
};
use crate::networks::{
    lemma_next_stale_network, network_stale, network_wanted, next_stale_network, reporting_unready,
};
use crate::progress::{
    attachments_from, conflicts_from, lemma_same_attachments_through, lemma_stale_networks_from,
    same_attachments, stale_attachments_from, step_after, ProgressView, StepView, UpdateView,
};
use crate::runs::{progress_at, request_at, step_at};
use crate::service::{ReplyView, RequestView};
use crate::status::{initial_statuses, report_of};
use crate::weave::{usable_id, VirtualNetworkAttachmentView, VirtualNetworkView};
use vstd::prelude::*;

verus! {

/// The network with this id was deleted by the call after the first `i` replies.
pub open spec fn deletes_network(
    attachments: Seq<AstraAttachmentView>,
    replies: Seq<ReplyView>,
    i: nat,
    id: Seq<char>,
) -> bool {
    &&& request_at(Some(attachments), replies, i) == Some(RequestView::DeleteVirtualNetwork(id))
    &&& replies[i as int] matches ReplyView::DeleteVirtualNetwork(Ok(_))
}

/// The network with this id has been deleted.
pub open spec fn network_deleted(
    attachments: Seq<AstraAttachmentView>,
    replies: Seq<ReplyView>,
    n: nat,
    id: Seq<char>,
) -> bool {
    exists|i: nat| i < n && #[trigger] deletes_network(attachments, replies, i, id)
}

/// The first `count` networks of a listing have been deleted where they are stale.
pub open spec fn networks_cleaned(
    attachments: Seq<AstraAttachmentView>,
    replies: Seq<ReplyView>,
    n: nat,
    networks: Seq<VirtualNetworkView>,
    statuses: Seq<AstraAttachmentStatusView>,
    count: int,
) -> bool {
    forall|p: int|
        0 <= p < count && network_stale(#[trigger] networks[p], statuses) ==> network_deleted(
            attachments,
            replies,
            n,
            usable_id(networks[p].metadata)->0,
        )
}

/// What was deleted after `n` replies is so after one more.
proof fn lemma_network_stays_deleted(
    attachments: Seq<AstraAttachmentView>,
    replies: Seq<ReplyView>,
    n: nat,
)
    ensures
        forall|id: Seq<char>|
            network_deleted(attachments, replies, n, id) ==> #[trigger] network_deleted(
                attachments,
                replies,
                n + 1,
                id,
            ),
        forall|id: Seq<char>|
            deletes_network(attachments, replies, n, id) ==> #[trigger] network_deleted(
                attachments,
                replies,
                n + 1,
                id,
            ),
{
}

/// Passing over networks that are not stale leaves none behind.
proof fn lemma_stale_networks_from_cleaned(
    attachments: Seq<AstraAttachmentView>,
    replies: Seq<ReplyView>,
    n: nat,
    networks: Seq<VirtualNetworkView>,
    statuses: Seq<AstraAttachmentStatusView>,
    from: int,
)
    requires
        0 <= from <= networks.len(),
        networks_cleaned(attachments, replies, n, networks, statuses, from),
    ensures
        networks_cleaned(
            attachments,
            replies,
            n,
            networks,
            statuses,
            next_stale_network(networks, statuses, from),
        ),
{
    lemma_next_stale_network(networks, statuses, from);
}

/// The clean-up of a listing of networks stands at this step.
pub open spec fn step_networks_cleaned(
    attachments: Seq<AstraAttachmentView>,
    replies: Seq<ReplyView>,
    n: nat,
    networks: Seq<VirtualNetworkView>,
    step: StepView,
) -> bool {
    match step {
        StepView::Call { update, request } => update.progress matches
            ProgressView::DeletingStaleNetwork { networks: listed, position } && listed == networks
            && networks_cleaned(attachments, replies, n, networks, update.statuses, position),
        StepView::Done(statuses) => networks_cleaned(
            attachments,
            replies,
            n,
            networks,
            statuses,
            networks.len() as int,
        ),
        StepView::Failed(_) => true,
    }
}

/// The clean-up goes on behind a deleted network.
proof fn lemma_step_networks_cleaned(
    attachments: Seq<AstraAttachmentView>,
    replies: Seq<ReplyView>,
    n: nat,
    update: UpdateView,
    networks: Seq<VirtualNetworkView>,
    position: int,
)
    requires
        step_at(Some(attachments), replies, n) == update.waiting(),
        update.wf(),
        update.progress == (ProgressView::DeletingStaleNetwork { networks, position }),
        networks_cleaned(attachments, replies, n, networks, update.statuses, position),
    ensures
        step_networks_cleaned(
            attachments,
            replies,
            n + 1,
            networks,
            step_after(update, replies[n as int]),
        ),
{
    let statuses = update.statuses;
    assert(networks_cleaned(attachments, replies, n + 1, networks, statuses, position)) by {
        lemma_network_stays_deleted(attachments, replies, n);
    }
    if let ReplyView::DeleteVirtualNetwork(Ok(_)) = replies[n as int] {
        assert(network_deleted(
            attachments,
            replies,
            n + 1,
            usable_id(networks[position].metadata)->0,
        )) by {
            assert(deletes_network(
                attachments,
                replies,
                n,
                usable_id(networks[position].metadata)->0,
            ));
        }
        assert(networks_cleaned(
            attachments,
            replies,
            n + 1,
            networks,
            statuses,
            position + 1,
        ));
        lemma_next_stale_network(networks, statuses, position + 1);
        lemma_stale_networks_from_cleaned(
            attachments,
            replies,
            n + 1,
            networks,
            statuses,
            position + 1,
        );
    }
}

/// Where the clean-up of networks stands after the first `n` replies.
proof fn lemma_networks_cleaned(
    attachments: Seq<AstraAttachmentView>,
    replies: Seq<ReplyView>,
    i: nat,
    networks: Seq<VirtualNetworkView>,
    n: nat,
)
    requires
        i < n <= replies.len(),
        progress_at(Some(attachments), replies, i) == Some(ProgressView::RelistingNetworks),
        replies[i as int] == ReplyView::ListVirtualNetworks(Ok(networks)),
    ensures
        step_networks_cleaned(
            attachments,
            replies,
            n,
            networks,
            step_at(Some(attachments), replies, n),
        ),
    decreases n,
{
    reveal(step_at);
    let before = (n - 1) as nat;
    lemma_attachments_kept(attachments, replies, before);
    if i == before {
        let update = step_at(Some(attachments), replies, before)->update;
        lemma_next_stale_network(networks, update.statuses, 0);
        lemma_stale_networks_from_cleaned(attachments, replies, n, networks, update.statuses, 0);
    } else {
        lemma_networks_cleaned(attachments, replies, i, networks, before);
        if let StepView::Call { update, request } = step_at(Some(attachments), replies, before) {
            lemma_step_networks_cleaned(
                attachments,
                replies,
                before,
                update,
                networks,
                update.progress->DeletingStaleNetwork_position,
            );
        }
    }
}

/// Whether a network is stale does not depend on what is reported.
pub proof fn lemma_stale_whatever_is_reported(
    network: VirtualNetworkView,
    a: Seq<AstraAttachmentStatusView>,
    b: Seq<AstraAttachmentStatusView>,
)
    requires
        same_attachments(a, b),
    ensures
        network_stale(network, a) == network_stale(network, b),
{
    if network_wanted(network, a) {
        let k = choose|k: int|
            0 <= k < a.len() && network.vni() == Some((#[trigger] a[k]).vni as u32);
        assert(a[k].same_attachment(b[k]));
        assert(network.vni() == Some(b[k].vni as u32));
    }
    if network_wanted(network, b) {
        let k = choose|k: int|
            0 <= k < b.len() && network.vni() == Some((#[trigger] b[k]).vni as u32);
        assert(a[k].same_attachment(b[k]));
        assert(network.vni() == Some(a[k].vni as u32));
    }
}

/// A finished update has deleted every network of the last listing that no attachment wants
/// and that can be named, except those with the invalid VNI 0.
pub proof fn lemma_unwanted_networks_are_deleted(
    attachments: Seq<AstraAttachmentView>,
    replies: Seq<ReplyView>,
    i: nat,
    networks: Seq<VirtualNetworkView>,
    n: nat,
    p: int,
    id: Seq<char>,
)
    requires
        i < n <= replies.len(),
        progress_at(Some(attachments), replies, i) == Some(ProgressView::RelistingNetworks),
        replies[i as int] == ReplyView::ListVirtualNetworks(Ok(networks)),
        step_at(Some(attachments), replies, n) is Done,
        0 <= p < networks.len(),
        unwanted_network(networks[p], attachments, id),
    ensures
        network_deleted(attachments, replies, n, id),
{
    lemma_networks_cleaned(attachments, replies, i, networks, n);
    lemma_attachments_kept(attachments, replies, n);
    let initial = initial_statuses(attachments);
    let statuses = step_at(Some(attachments), replies, n)->Done_0;
    if network_wanted(networks[p], initial) {
        let k = choose|k: int|
            0 <= k < initial.len() && networks[p].vni() == Some(
                (#[trigger] initial[k]).vni as u32,
            );
        assert(networks[p].vni() == Some(attachments[k].vni));
    }
    lemma_stale_whatever_is_reported(networks[p], initial, statuses);
}

/// The attachment with this id was deleted by the call after the first `i` replies.
pub open spec fn deletes_attachment(
    attachments: Seq<AstraAttachmentView>,
    replies: Seq<ReplyView>,
    i: nat,
    id: Seq<char>,
) -> bool {
    &&& request_at(Some(attachments), replies, i) == Some(
        RequestView::DeleteVirtualNetworkAttachment(id),
    )
    &&& replies[i as int] matches ReplyView::DeleteVirtualNetworkAttachment(Ok(_))
}

/// The attachment with this id has been deleted.
pub open spec fn attachment_deleted(
    attachments: Seq<AstraAttachmentView>,
    replies: Seq<ReplyView>,
    n: nat,
    id: Seq<char>,
) -> bool {
    exists|i: nat| i < n && #[trigger] deletes_attachment(attachments, replies, i, id)
}

/// The first `count` attachments of a listing have been deleted where no configured one calls
/// for them and they can be named.
pub open spec fn attachments_cleaned(
    attachments: Seq<AstraAttachmentView>,
    replies: Seq<ReplyView>,
    n: nat,
    listed: Seq<VirtualNetworkAttachmentView>,
    count: int,
) -> bool {
    forall|p: int|
        0 <= p < count && !attachment_wanted(
            #[trigger] listed[p],
            initial_statuses(attachments),
        ) && usable_id(listed[p].metadata) is Some ==> attachment_deleted(
            attachments,
            replies,
            n,
            usable_id(listed[p].metadata)->0,
        )
}

/// Every remembered id is that of a deleted attachment.
pub open spec fn remembered_deleted(
    attachments: Seq<AstraAttachmentView>,
    replies: Seq<ReplyView>,
    n: nat,
    deleted: Seq<Seq<char>>,
) -> bool {
    forall|id: Seq<char>| #[trigger]
        deleted.contains(id) ==> attachment_deleted(attachments, replies, n, id)
}

/// What was deleted after `n` replies is so after one more.
proof fn lemma_attachment_stays_deleted(
    attachments: Seq<AstraAttachmentView>,
    replies: Seq<ReplyView>,
    n: nat,
)
    ensures
        forall|id: Seq<char>|
            attachment_deleted(attachments, replies, n, id) ==> #[trigger] attachment_deleted(
                attachments,
                replies,
                n + 1,
                id,
            ),
        forall|id: Seq<char>|
            deletes_attachment(attachments, replies, n, id) ==> #[trigger] attachment_deleted(
                attachments,
                replies,
                n + 1,
                id,
            ),
{
}

/// The clean-up of a listing of attachments stands at this step.
pub open spec fn step_attachments_cleaned(
    attachments: Seq<AstraAttachmentView>,
    replies: Seq<ReplyView>,
    n: nat,
    listed: Seq<VirtualNetworkAttachmentView>,
    step: StepView,
) -> bool {
    match step {
        StepView::Call { update, request } => match update.progress {
            ProgressView::DeletingConflict { listed: l, deleted, index, conflict, clean } => {
                &&& l == listed
                &&& remembered_deleted(attachments, replies, n, deleted)
            },
            ProgressView::CreatingAttachment { listed: l, deleted, index } => {
                &&& l == listed
                &&& remembered_deleted(attachments, replies, n, deleted)
            },
            ProgressView::DeletingStaleAttachment { listed: l, deleted, position } => {
                &&& l == listed
                &&& remembered_deleted(attachments, replies, n, deleted)
                &&& attachments_cleaned(attachments, replies, n, listed, position)
            },
            _ => attachments_cleaned(attachments, replies, n, listed, listed.len() as int),
        },
        StepView::Done(_) => attachments_cleaned(
            attachments,
            replies,
            n,
            listed,
            listed.len() as int,
        ),
        StepView::Failed(_) => true,
    }
}

/// Passing over attachments that are not stale leaves none behind.
proof fn lemma_stale_attachments_from_cleaned(
    attachments: Seq<AstraAttachmentView>,
    replies: Seq<ReplyView>,
    n: nat,
    statuses: Seq<AstraAttachmentStatusView>,
    listed: Seq<VirtualNetworkAttachmentView>,
    deleted: Seq<Seq<char>>,
    from: int,
)
    requires
        0 <= from <= listed.len(),
        same_attachments(initial_statuses(attachments), statuses),
        remembered_deleted(attachments, replies, n, deleted),
        attachments_cleaned(attachments, replies, n, listed, from),
    ensures
        step_attachments_cleaned(
            attachments,
            replies,
            n,
            listed,
            stale_attachments_from(statuses, listed, deleted, from).waiting(),
        ),
{
    lemma_next_stale_attachment(listed, statuses, deleted, from);
    let next = next_stale_attachment(listed, statuses, deleted, from);
    assert forall|p: int|
        0 <= p < next && !attachment_wanted(#[trigger] listed[p], initial_statuses(attachments))
            && usable_id(listed[p].metadata) is Some implies attachment_deleted(
        attachments,
        replies,
        n,
        usable_id(listed[p].metadata)->0,
    ) by {
        if from <= p {
            lemma_wanted_whatever_is_reported(
                listed[p],
                initial_statuses(attachments),
                statuses,
            );
            assert(!attachment_stale(listed[p], statuses, deleted));
            assert(deleted.contains(usable_id(listed[p].metadata)->0));
        }
    }
}

/// Visiting attachments leaves the clean-up for later.
proof fn lemma_attachments_from_cleaned(
    attachments: Seq<AstraAttachmentView>,
    replies: Seq<ReplyView>,
    n: nat,
    statuses: Seq<AstraAttachmentStatusView>,
    listed: Seq<VirtualNetworkAttachmentView>,
    deleted: Seq<Seq<char>>,
    from: int,
)
    requires
        0 <= from <= statuses.len(),
        same_attachments(initial_statuses(attachments), statuses),
        remembered_deleted(attachments, replies, n, deleted),
    ensures
        step_attachments_cleaned(
            attachments,
            replies,
            n,
            listed,
            attachments_from(statuses, listed, deleted, from).waiting(),
        ),
    decreases statuses.len() - from,
{
    if from >= statuses.len() {
        lemma_stale_attachments_from_cleaned(
            attachments,
            replies,
            n,
            statuses,
            listed,
            deleted,
            0,
        );
    } else if !statuses[from].ready() {
        lemma_attachments_from_cleaned(
            attachments,
            replies,
            n,
            statuses,
            listed,
            deleted,
            from + 1,
        );
    } else {
        lemma_visit(statuses[from], listed, 0, true);
        let (attachment, stop) = visit(statuses[from], listed, 0, true);
        let visited = statuses.update(from, attachment);
        if stop is Settled {
            lemma_same_attachments_through(initial_statuses(attachments), statuses, visited);
            lemma_attachments_from_cleaned(
                attachments,
                replies,
                n,
                visited,
                listed,
                deleted,
                from + 1,
            );
        }
    }
}

/// Going on with a visit leaves the clean-up for later.
proof fn lemma_conflicts_from_cleaned(
    attachments: Seq<AstraAttachmentView>,
    replies: Seq<ReplyView>,
    n: nat,
    statuses: Seq<AstraAttachmentStatusView>,
    listed: Seq<VirtualNetworkAttachmentView>,
    deleted: Seq<Seq<char>>,
    index: int,
    from: int,
    clean: bool,
)
    requires
        0 <= index < statuses.len(),
        0 <= from <= listed.len(),
        clean == statuses[index].ready(),
        same_attachments(initial_statuses(attachments), statuses),
        remembered_deleted(attachments, replies, n, deleted),
    ensures
        step_attachments_cleaned(
            attachments,
            replies,
            n,
            listed,
            conflicts_from(statuses, listed, deleted, index, from, clean).waiting(),
        ),
{
    lemma_visit(statuses[index], listed, from, clean);
    let (attachment, stop) = visit(statuses[index], listed, from, clean);
    let visited = statuses.update(index, attachment);
    if stop is Settled {
        lemma_same_attachments_through(initial_statuses(attachments), statuses, visited);
        lemma_attachments_from_cleaned(
            attachments,
            replies,
            n,
            visited,
            listed,
            deleted,
            index + 1,
        );
    }
}

/// What stands after `n` replies stands after one more.
proof fn lemma_attachments_stay_cleaned(
    attachments: Seq<AstraAttachmentView>,
    replies: Seq<ReplyView>,
    n: nat,
    listed: Seq<VirtualNetworkAttachmentView>,
    step: StepView,
)
    requires
        step_attachments_cleaned(attachments, replies, n, listed, step),
    ensures
        step_attachments_cleaned(attachments, replies, n + 1, listed, step),
{
    lemma_attachment_stays_deleted(attachments, replies, n);
}

/// The deletion of a conflict is remembered.
proof fn lemma_deleting_conflict_cleaned(
    attachments: Seq<AstraAttachmentView>,
    replies: Seq<ReplyView>,
    n: nat,
    update: UpdateView,
    gone: Result<(), Seq<char>>,
)
    requires
        step_at(Some(attachments), replies, n) == update.waiting(),
        update.wf(),
        update.progress is DeletingConflict,
        same_attachments(initial_statuses(attachments), update.statuses),
        remembered_deleted(attachments, replies, n, update.progress->DeletingConflict_deleted),
        replies[n as int] == ReplyView::DeleteVirtualNetworkAttachment(gone),
    ensures
        step_attachments_cleaned(
            attachments,
            replies,
            n + 1,
            update.progress->DeletingConflict_listed,
            step_after(update, replies[n as int]),
        ),
{
    if let ProgressView::DeletingConflict { listed, deleted, index, conflict, clean } =
        update.progress {
        assert(remembered_deleted(attachments, replies, n + 1, deleted)) by {
            lemma_attachment_stays_deleted(attachments, replies, n);
        }
        match gone {
            Ok(_) => {
                let id = usable_id(listed[conflict].metadata)->0;
                let remembered = remembering(deleted, id);
                assert(attachment_deleted(attachments, replies, n + 1, id)) by {
                    assert(deletes_attachment(attachments, replies, n, id));
                }
                assert forall|other: Seq<char>| #[trigger]
                    remembered.contains(other) implies attachment_deleted(
                    attachments,
                    replies,
                    n + 1,
                    other,
                ) by {
                    if other != id {
                        let j = choose|j: int|
                            0 <= j < remembered.len() && remembered[j] == other;
                        assert(deleted[j] == other);
                        assert(deleted.contains(other));
                    }
                }
                lemma_conflicts_from_cleaned(
                    attachments,
                    replies,
                    n + 1,
                    update.statuses,
                    listed,
                    remembered,
                    index,
                    conflict + 1,
                    clean,
                );
            },
            Err(error) => {
                let recorded = update.statuses.update(
                    index,
                    update.statuses[index].reporting(report_of(undeleted_conflict_state(error))),
                );
                lemma_same_attachments_through(
                    initial_statuses(attachments),
                    update.statuses,
                    recorded,
                );
                lemma_conflicts_from_cleaned(
                    attachments,
                    replies,
                    n + 1,
                    recorded,
                    listed,
                    deleted,
                    index,
                    conflict + 1,
                    false,
                );
            },
        }
    }
}

/// The clean-up of attachments goes on with each reply.
proof fn lemma_step_attachments_cleaned(
    attachments: Seq<AstraAttachmentView>,
    replies: Seq<ReplyView>,
    n: nat,
    update: UpdateView,
    listed: Seq<VirtualNetworkAttachmentView>,
)
    requires
        step_at(Some(attachments), replies, n) == update.waiting(),
        update.wf(),
        update.left().0 < 5,
        same_attachments(initial_statuses(attachments), update.statuses),
        step_attachments_cleaned(attachments, replies, n, listed, update.waiting()),
    ensures
        step_attachments_cleaned(
            attachments,
            replies,
            n + 1,
            listed,
            step_after(update, replies[n as int]),
        ),
{
    let reply = replies[n as int];
    lemma_attachments_stay_cleaned(attachments, replies, n, listed, update.waiting());
    match (update.progress, reply) {
        (
            ProgressView::DeletingConflict { listed, deleted, index, conflict, clean },
            ReplyView::DeleteVirtualNetworkAttachment(gone),
        ) => {
            lemma_deleting_conflict_cleaned(attachments, replies, n, update, gone);
        },
        (
            ProgressView::CreatingAttachment { listed, deleted, index },
            ReplyView::CreateVirtualNetworkAttachment(created),
        ) => {
            let recorded = update.statuses.update(
                index,
                reporting_unready(update.statuses[index], created_attachment_state(created)),
            );
            lemma_same_attachments_through(
                initial_statuses(attachments),
                update.statuses,
                recorded,
            );
            lemma_attachments_from_cleaned(
                attachments,
                replies,
                n + 1,
                recorded,
                listed,
                deleted,
                index + 1,
            );
        },
        (
            ProgressView::DeletingStaleAttachment { listed, deleted, position },
            ReplyView::DeleteVirtualNetworkAttachment(Ok(_)),
        ) => {
            let id = usable_id(listed[position].metadata)->0;
            assert(attachment_deleted(attachments, replies, n + 1, id)) by {
                assert(deletes_attachment(attachments, replies, n, id));
            }
            lemma_stale_attachments_from_cleaned(
                attachments,
                replies,
                n + 1,
                update.statuses,
                listed,
                deleted,
                position + 1,
            );
        },
        (ProgressView::RelistingNetworks, ReplyView::ListVirtualNetworks(Ok(networks))) => {
            lemma_stale_networks_from(update.statuses, networks, 0);
        },
        (
            ProgressView::DeletingStaleNetwork { networks, position },
            ReplyView::DeleteVirtualNetwork(Ok(_)),
        ) => {
            lemma_stale_networks_from(update.statuses, networks, position + 1);
        },
        _ => {},
    }
}

/// Where the clean-up of attachments stands after the first `n` replies.
proof fn lemma_attachments_cleaned(
    attachments: Seq<AstraAttachmentView>,
    replies: Seq<ReplyView>,
    i: nat,
    listed: Seq<VirtualNetworkAttachmentView>,
    n: nat,
)
    requires
        i < n <= replies.len(),
        progress_at(Some(attachments), replies, i) == Some(ProgressView::ListingAttachments),
        replies[i as int] == ReplyView::ListVirtualNetworkAttachments(Ok(listed)),
    ensures
        step_attachments_cleaned(
            attachments,
            replies,
            n,
            listed,
            step_at(Some(attachments), replies, n),
        ),
    decreases n,
{
    reveal(step_at);
    let before = (n - 1) as nat;
    lemma_attachments_kept(attachments, replies, before);
    if i == before {
        let update = step_at(Some(attachments), replies, before)->update;
        lemma_attachments_from_cleaned(
            attachments,
            replies,
            n,
            update.statuses,
            listed,
            Seq::empty(),
            0,
        );
    } else {
        lemma_attachments_cleaned(attachments, replies, i, listed, before);
        if let StepView::Call { update, request } = step_at(Some(attachments), replies, before) {
            lemma_attachments_kept(attachments, replies, i);
            lemma_attachments_listed_once(attachments, replies, i, before);
            lemma_step_attachments_cleaned(attachments, replies, before, update, listed);
        } else {
            lemma_attachments_stay_cleaned(
                attachments,
                replies,
                before,
                listed,
                step_at(Some(attachments), replies, before),
            );
        }
    }
}

/// Once the attachments are listed, that stage is over.
proof fn lemma_attachments_listed_once(
    attachments: Seq<AstraAttachmentView>,
    replies: Seq<ReplyView>,
    i: nat,
    n: nat,
)
    requires
        i < n <= replies.len(),
        progress_at(Some(attachments), replies, i) == Some(ProgressView::ListingAttachments),
        replies[i as int] is ListVirtualNetworkAttachments,
    ensures
        step_at(Some(attachments), replies, n) matches StepView::Call { update, request } ==>
            update.left().0 < 5,
{
    lemma_stages_follow(attachments, replies, i + 1, n);
    lemma_attachments_kept(attachments, replies, i);
    lemma_update_ends(attachments, replies, i);
}

/// A finished update has deleted every listed attachment that no configured one calls for and
/// that can be named.
pub proof fn lemma_unwanted_attachments_are_deleted(
    attachments: Seq<AstraAttachmentView>,
    replies: Seq<ReplyView>,
    i: nat,
    listed: Seq<VirtualNetworkAttachmentView>,
    n: nat,
    p: int,
    id: Seq<char>,
)
    requires
        i < n <= replies.len(),
        progress_at(Some(attachments), replies, i) == Some(ProgressView::ListingAttachments),
        replies[i as int] == ReplyView::ListVirtualNetworkAttachments(Ok(listed)),
        step_at(Some(attachments), replies, n) is Done,
        0 <= p < listed.len(),
        usable_id(listed[p].metadata) == Some(id),
        !attachment_wanted(listed[p], initial_statuses(attachments)),
    ensures
        attachment_deleted(attachments, replies, n, id),
{
    lemma_attachments_cleaned(attachments, replies, i, listed, n);
}

} // verus!
