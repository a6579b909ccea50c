//! What it means that an attachment is reported ready.
use crate::astra::{AstraAttachmentStatusView, AstraAttachmentView};
use crate::attachments::{
    created_attachment_state, lemma_exact_whatever_is_reported, listed_ready, remembering,
    undeleted_conflict_state, AttachmentCreatedView,
};
use crate::laws::{creates_attachment, lemma_attachments_kept, lemma_listings_are_replies};
use crate::networks::{
    created_network_state, known_after_creation, lemma_next_creation, listed_states, network_need,
    next_creation, reporting_unready, NetworkCreatedView,
};
use crate::progress::{
    attachments_from, conflicts_from, lemma_attachments_from, lemma_conflicts_from,
    lemma_networks_from, lemma_same_attachments_through, networks_from, same_attachments,
    step_after, ProgressView, StepView, UpdateView,
};
use crate::runs::{
    lemma_step, lemma_step_never_readier, lemma_visits_never_readier, never_readier, progress_at,
    request_at, step_at,
};
use crate::service::{ReplyView, RequestView};
use crate::status::{initial_status, initial_statuses, report_of, vnis_fit};
use crate::weave::{usable_id, Phase, StateView, VirtualNetworkAttachmentView, VirtualNetworkView};
use vstd::prelude::*;

verus! {

/// A report other than ready is never taken back.
pub proof fn lemma_unready_stays_unready(
    attachments: Seq<AstraAttachmentView>,
    replies: Seq<ReplyView>,
    m: nat,
    n: nat,
    k: int,
)
    requires
        m <= n <= replies.len(),
        0 <= k < attachments.len(),
        step_at(Some(attachments), replies, m) matches StepView::Call { update, request }
            && !update.statuses[k].ready(),
    ensures
        match step_at(Some(attachments), replies, n) {
            StepView::Call { update, request } => !update.statuses[k].ready(),
            StepView::Done(statuses) => !statuses[k].ready(),
            StepView::Failed(_) => true,
        },
    decreases n,
{
    reveal(step_at);
    if m < n {
        lemma_unready_stays_unready(attachments, replies, m, (n - 1) as nat, k);
        lemma_attachments_kept(attachments, replies, (n - 1) as nat);
        if let StepView::Call { update, request } = step_at(
            Some(attachments),
            replies,
            (n - 1) as nat,
        ) {
            lemma_step_never_readier(update, replies[n - 1]);
        }
    }
}

/// The reply with number `i` shows that the network of a VNI is ready: it is listed as ready,
/// or it was created just then and is ready.
pub open spec fn shows_network_ready(
    attachments: Seq<AstraAttachmentView>,
    replies: Seq<ReplyView>,
    i: nat,
    vni: u32,
) -> bool {
    match (progress_at(Some(attachments), replies, i), replies[i as int]) {
        (Some(ProgressView::ListingNetworks), ReplyView::ListVirtualNetworks(Ok(networks))) => {
            &&& listed_states(networks).contains_key(vni)
            &&& listed_states(networks)[vni].phase == Phase::Ready
        },
        (Some(_), ReplyView::CreateVirtualNetwork(created)) => {
            &&& request_at(Some(attachments), replies, i) matches Some(
                RequestView::CreateVirtualNetwork(request),
            ) && request.spec->0.vni == vni
            &&& created_network_state(created).phase == Phase::Ready
        },
        _ => false,
    }
}

/// One of the first `n` replies shows that the network of a VNI is ready.
pub open spec fn network_shown_ready(
    attachments: Seq<AstraAttachmentView>,
    replies: Seq<ReplyView>,
    n: nat,
    vni: u32,
) -> bool {
    exists|i: nat| i < n && #[trigger] shows_network_ready(attachments, replies, i, vni)
}

/// The first `count` attachments are reported ready only where their networks are.
pub open spec fn networks_truthful(
    attachments: Seq<AstraAttachmentView>,
    replies: Seq<ReplyView>,
    n: nat,
    statuses: Seq<AstraAttachmentStatusView>,
    count: int,
) -> bool {
    forall|k: int|
        0 <= k < count && (#[trigger] statuses[k]).ready() && statuses[k].vni != 0
            ==> network_shown_ready(attachments, replies, n, statuses[k].vni as u32)
}

/// Every VNI that is known to be ready has been shown to be.
pub open spec fn known_truthful(
    attachments: Seq<AstraAttachmentView>,
    replies: Seq<ReplyView>,
    n: nat,
    known: Map<u32, StateView>,
) -> bool {
    forall|vni: u32| #[trigger]
        known.contains_key(vni) && known[vni].phase == Phase::Ready ==> network_shown_ready(
            attachments,
            replies,
            n,
            vni,
        )
}

/// What an update says of networks is truthful after the first `n` replies.
pub open spec fn update_networks_truthful(
    attachments: Seq<AstraAttachmentView>,
    replies: Seq<ReplyView>,
    n: nat,
    update: UpdateView,
) -> bool {
    match update.progress {
        ProgressView::ListingNetworks => true,
        ProgressView::CreatingNetwork { known, index } => {
            &&& known_truthful(attachments, replies, n, known)
            &&& networks_truthful(attachments, replies, n, update.statuses, index)
        },
        _ => networks_truthful(
            attachments,
            replies,
            n,
            update.statuses,
            update.statuses.len() as int,
        ),
    }
}

/// What was shown by `n` replies is shown by one more.
proof fn lemma_network_stays_shown(
    attachments: Seq<AstraAttachmentView>,
    replies: Seq<ReplyView>,
    n: nat,
)
    ensures
        forall|vni: u32|
            network_shown_ready(attachments, replies, n, vni) ==> #[trigger] network_shown_ready(
                attachments,
                replies,
                n + 1,
                vni,
            ),
        forall|vni: u32|
            shows_network_ready(attachments, replies, n, vni) ==> #[trigger] network_shown_ready(
                attachments,
                replies,
                n + 1,
                vni,
            ),
{
}

/// Looking at the needs of networks stays truthful.
proof fn lemma_networks_from_truthful(
    attachments: Seq<AstraAttachmentView>,
    replies: Seq<ReplyView>,
    n: nat,
    statuses: Seq<AstraAttachmentStatusView>,
    known: Map<u32, StateView>,
    from: int,
)
    requires
        0 <= from <= statuses.len(),
        known_truthful(attachments, replies, n, known),
        networks_truthful(attachments, replies, n, statuses, from),
    ensures
        update_networks_truthful(attachments, replies, n, networks_from(statuses, known, from)),
{
    lemma_networks_from(statuses, known, from);
    lemma_next_creation(statuses, known, from);
    let update = networks_from(statuses, known, from);
    let next = next_creation(statuses, known, from);
    assert forall|k: int|
        0 <= k < next && (#[trigger] update.statuses[k]).ready() && update.statuses[k].vni
            != 0 implies network_shown_ready(
        attachments,
        replies,
        n,
        update.statuses[k].vni as u32,
    ) by {
        if from <= k {
            let vni = statuses[k].vni as u32;
            assert(!(network_need(statuses[k], known) is Creation));
            assert(known.contains_key(vni) && known[vni].phase == Phase::Ready);
        } else {
            assert(update.statuses[k] == statuses[k]);
        }
    }
}

/// An attachment is reported ready only where its network is.
proof fn lemma_networks_truthful(
    attachments: Seq<AstraAttachmentView>,
    replies: Seq<ReplyView>,
    n: nat,
)
    ensures
        match step_at(Some(attachments), replies, n) {
            StepView::Call { update, request } => update_networks_truthful(
                attachments,
                replies,
                n,
                update,
            ),
            StepView::Done(statuses) => networks_truthful(
                attachments,
                replies,
                n,
                statuses,
                statuses.len() as int,
            ),
            StepView::Failed(_) => true,
        },
    decreases n,
{
    reveal(step_at);
    if n > 0 {
        let before = (n - 1) as nat;
        lemma_networks_truthful(attachments, replies, before);
        lemma_attachments_kept(attachments, replies, before);
        if let StepView::Call { update, request } = step_at(Some(attachments), replies, before) {
            lemma_network_stays_shown(attachments, replies, before);
            lemma_step_networks_truthful(attachments, replies, before, update);
        }
    }
}

/// What was truthful stays so where nothing becomes ready.
proof fn lemma_networks_truthful_carried(
    attachments: Seq<AstraAttachmentView>,
    replies: Seq<ReplyView>,
    n: nat,
    earlier: Seq<AstraAttachmentStatusView>,
    later: Seq<AstraAttachmentStatusView>,
)
    requires
        networks_truthful(attachments, replies, n, earlier, earlier.len() as int),
        same_attachments(earlier, later),
        never_readier(earlier, later),
    ensures
        networks_truthful(attachments, replies, n + 1, later, later.len() as int),
{
    lemma_network_stays_shown(attachments, replies, n);
    assert forall|k: int|
        0 <= k < later.len() && (#[trigger] later[k]).ready() && later[k].vni != 0 implies
        network_shown_ready(attachments, replies, n + 1, later[k].vni as u32) by {
        assert(earlier[k].same_attachment(later[k]));
    }
}

/// The list of networks keeps what an update says of networks truthful.
proof fn lemma_listing_networks_truthful(
    attachments: Seq<AstraAttachmentView>,
    replies: Seq<ReplyView>,
    n: nat,
    update: UpdateView,
    networks: Seq<VirtualNetworkView>,
)
    requires
        step_at(Some(attachments), replies, n) == update.waiting(),
        update.progress is ListingNetworks,
        replies[n as int] == ReplyView::ListVirtualNetworks(Ok(networks)),
    ensures
        update_networks_truthful(
            attachments,
            replies,
            n + 1,
            networks_from(update.statuses, listed_states(networks), 0),
        ),
{
    let known = listed_states(networks);
    lemma_network_stays_shown(attachments, replies, n);
    assert forall|vni: u32| #[trigger]
        known.contains_key(vni) && known[vni].phase == Phase::Ready implies network_shown_ready(
        attachments,
        replies,
        n + 1,
        vni,
    ) by {
        assert(shows_network_ready(attachments, replies, n, vni));
    }
    lemma_networks_from_truthful(attachments, replies, n + 1, update.statuses, known, 0);
}

/// The creation of a network keeps what an update says of networks truthful.
proof fn lemma_creating_network_truthful(
    attachments: Seq<AstraAttachmentView>,
    replies: Seq<ReplyView>,
    n: nat,
    update: UpdateView,
    created: NetworkCreatedView,
)
    requires
        step_at(Some(attachments), replies, n) == update.waiting(),
        update.progress is CreatingNetwork,
        update.wf(),
        update_networks_truthful(attachments, replies, n, update),
        replies[n as int] == ReplyView::CreateVirtualNetwork(created),
    ensures
        step_after(update, replies[n as int]) matches StepView::Call { update: next, request }
            && update_networks_truthful(attachments, replies, n + 1, next),
{
    let known = update.progress->known;
    let index = update.progress->CreatingNetwork_index;
    let vni = update.statuses[index].vni as u32;
    let recorded = update.statuses.update(
        index,
        reporting_unready(update.statuses[index], created_network_state(created)),
    );
    let after = known_after_creation(known, vni, created);
    lemma_network_stays_shown(attachments, replies, n);
    if created_network_state(created).phase == Phase::Ready {
        assert(shows_network_ready(attachments, replies, n, vni));
    }
    assert forall|k: int|
        0 <= k < index + 1 && (#[trigger] recorded[k]).ready() && recorded[k].vni != 0 implies
        network_shown_ready(attachments, replies, n + 1, recorded[k].vni as u32) by {
        if k < index {
            assert(recorded[k] == update.statuses[k]);
        }
    }
    lemma_networks_from_truthful(attachments, replies, n + 1, recorded, after, index + 1);
}

/// One more reply keeps what an update says of networks truthful.
proof fn lemma_step_networks_truthful(
    attachments: Seq<AstraAttachmentView>,
    replies: Seq<ReplyView>,
    n: nat,
    update: UpdateView,
)
    requires
        step_at(Some(attachments), replies, n) == update.waiting(),
        update.wf(),
        update_networks_truthful(attachments, replies, n, update),
    ensures
        match step_after(update, replies[n as int]) {
            StepView::Call { update: next, request } => update_networks_truthful(
                attachments,
                replies,
                n + 1,
                next,
            ),
            StepView::Done(statuses) => networks_truthful(
                attachments,
                replies,
                n + 1,
                statuses,
                statuses.len() as int,
            ),
            StepView::Failed(_) => true,
        },
{
    let reply = replies[n as int];
    lemma_step(update, reply);
    match update.progress {
        ProgressView::ListingNetworks => {
            if let ReplyView::ListVirtualNetworks(Ok(networks)) = reply {
                lemma_listing_networks_truthful(attachments, replies, n, update, networks);
            }
        },
        ProgressView::CreatingNetwork { known, index } => {
            if let ReplyView::CreateVirtualNetwork(created) = reply {
                lemma_creating_network_truthful(attachments, replies, n, update, created);
            } else {
                lemma_network_stays_shown(attachments, replies, n);
            }
        },
        _ => {
            lemma_visits_never_readier(update, reply);
            match step_after(update, reply) {
                StepView::Call { update: next, request } => {
                    lemma_networks_truthful_carried(
                        attachments,
                        replies,
                        n,
                        update.statuses,
                        next.statuses,
                    );
                },
                StepView::Done(statuses) => {
                    lemma_networks_truthful_carried(
                        attachments,
                        replies,
                        n,
                        update.statuses,
                        statuses,
                    );
                },
                StepView::Failed(_) => {},
            }
        },
    }
}

/// The reply with number `i` shows that the attachment at `k` is ready: it is listed as ready,
/// or it was created just then and is ready.
pub open spec fn shows_attachment_ready(
    attachments: Seq<AstraAttachmentView>,
    replies: Seq<ReplyView>,
    i: nat,
    k: int,
) -> bool {
    match (progress_at(Some(attachments), replies, i), replies[i as int]) {
        (
            Some(ProgressView::ListingAttachments),
            ReplyView::ListVirtualNetworkAttachments(Ok(listed)),
        ) => listed_ready(listed, initial_status(attachments[k])),
        (Some(_), ReplyView::CreateVirtualNetworkAttachment(created)) => {
            &&& request_at(Some(attachments), replies, i) matches Some(request)
                && creates_attachment(request, attachments[k])
            &&& created_attachment_state(created).phase == Phase::Ready
        },
        _ => false,
    }
}

/// One of the first `n` replies shows that the attachment at `k` is ready.
pub open spec fn attachment_shown_ready(
    attachments: Seq<AstraAttachmentView>,
    replies: Seq<ReplyView>,
    n: nat,
    k: int,
) -> bool {
    exists|i: nat| i < n && #[trigger] shows_attachment_ready(attachments, replies, i, k)
}

/// The first `count` attachments are reported ready only where they are.
pub open spec fn attachments_truthful(
    attachments: Seq<AstraAttachmentView>,
    replies: Seq<ReplyView>,
    n: nat,
    statuses: Seq<AstraAttachmentStatusView>,
    count: int,
) -> bool {
    forall|k: int|
        0 <= k < count && (#[trigger] statuses[k]).ready() && statuses[k].vni != 0
            ==> attachment_shown_ready(attachments, replies, n, k)
}

/// What an update says of the attachments that it has visited is truthful after the first `n`
/// replies.
pub open spec fn update_attachments_truthful(
    attachments: Seq<AstraAttachmentView>,
    replies: Seq<ReplyView>,
    n: nat,
    update: UpdateView,
) -> bool {
    match update.progress {
        ProgressView::ListingNetworks => true,
        ProgressView::CreatingNetwork { known, index } => true,
        ProgressView::ListingAttachments => true,
        progress => attachments_truthful(
            attachments,
            replies,
            n,
            update.statuses,
            progress.visited(update.statuses.len()),
        ),
    }
}

/// What was shown by `n` replies is shown by one more.
proof fn lemma_attachment_stays_shown(
    attachments: Seq<AstraAttachmentView>,
    replies: Seq<ReplyView>,
    n: nat,
)
    ensures
        forall|k: int|
            attachment_shown_ready(attachments, replies, n, k)
                ==> #[trigger] attachment_shown_ready(attachments, replies, n + 1, k),
        forall|k: int|
            shows_attachment_ready(attachments, replies, n, k)
                ==> #[trigger] attachment_shown_ready(attachments, replies, n + 1, k),
{
}

/// An attachment that is listed as ready is shown to be ready by the listing.
proof fn lemma_listed_ready_is_shown(
    attachments: Seq<AstraAttachmentView>,
    replies: Seq<ReplyView>,
    n: nat,
    statuses: Seq<AstraAttachmentStatusView>,
    listed: Seq<VirtualNetworkAttachmentView>,
    i: int,
    k: int,
)
    requires
        0 <= i < n,
        replies[i] == ReplyView::ListVirtualNetworkAttachments(Ok(listed)),
        progress_at(Some(attachments), replies, i as nat) == Some(
            ProgressView::ListingAttachments,
        ),
        same_attachments(initial_statuses(attachments), statuses),
        0 <= k < statuses.len(),
        listed_ready(listed, statuses[k]),
    ensures
        attachment_shown_ready(attachments, replies, n, k),
{
    assert(initial_statuses(attachments)[k].same_attachment(statuses[k]));
    lemma_exact_whatever_is_reported(listed, initial_status(attachments[k]), statuses[k]);
    assert(shows_attachment_ready(attachments, replies, i as nat, k));
}

/// Visiting attachments stays truthful.
proof fn lemma_attachments_from_truthful(
    attachments: Seq<AstraAttachmentView>,
    replies: Seq<ReplyView>,
    n: nat,
    statuses: Seq<AstraAttachmentStatusView>,
    listed: Seq<VirtualNetworkAttachmentView>,
    deleted: Seq<Seq<char>>,
    from: int,
    i: int,
)
    requires
        0 <= from <= statuses.len(),
        0 <= i < n,
        replies[i] == ReplyView::ListVirtualNetworkAttachments(Ok(listed)),
        progress_at(Some(attachments), replies, i as nat) == Some(
            ProgressView::ListingAttachments,
        ),
        same_attachments(initial_statuses(attachments), statuses),
        attachments_truthful(attachments, replies, n, statuses, from),
    ensures
        update_attachments_truthful(
            attachments,
            replies,
            n,
            attachments_from(statuses, listed, deleted, from),
        ),
{
    lemma_attachments_from(statuses, listed, deleted, from);
    let update = attachments_from(statuses, listed, deleted, from);
    assert forall|k: int|
        0 <= k < update.progress.visited(statuses.len()) && (#[trigger] update.statuses[k]).ready()
            && update.statuses[k].vni != 0 implies attachment_shown_ready(
        attachments,
        replies,
        n,
        k,
    ) by {
        assert(statuses[k].same_attachment(update.statuses[k]));
        if k < from {
            assert(update.statuses[k] == statuses[k]);
        } else {
            lemma_listed_ready_is_shown(attachments, replies, n, statuses, listed, i, k);
        }
    }
}

/// Going on with a visit stays truthful.
proof fn lemma_conflicts_from_truthful(
    attachments: Seq<AstraAttachmentView>,
    replies: Seq<ReplyView>,
    n: nat,
    statuses: Seq<AstraAttachmentStatusView>,
    listed: Seq<VirtualNetworkAttachmentView>,
    deleted: Seq<Seq<char>>,
    index: int,
    from: int,
    clean: bool,
    i: int,
)
    requires
        0 <= index < statuses.len(),
        0 <= from <= listed.len(),
        clean == statuses[index].ready(),
        0 <= i < n,
        replies[i] == ReplyView::ListVirtualNetworkAttachments(Ok(listed)),
        progress_at(Some(attachments), replies, i as nat) == Some(
            ProgressView::ListingAttachments,
        ),
        same_attachments(initial_statuses(attachments), statuses),
        attachments_truthful(attachments, replies, n, statuses, index),
    ensures
        update_attachments_truthful(
            attachments,
            replies,
            n,
            conflicts_from(statuses, listed, deleted, index, from, clean),
        ),
{
    lemma_conflicts_from(statuses, listed, deleted, index, from, clean);
    let update = conflicts_from(statuses, listed, deleted, index, from, clean);
    assert forall|k: int|
        0 <= k < update.progress.visited(statuses.len()) && (#[trigger] update.statuses[k]).ready()
            && update.statuses[k].vni != 0 implies attachment_shown_ready(
        attachments,
        replies,
        n,
        k,
    ) by {
        assert(statuses[k].same_attachment(update.statuses[k]));
        if k < index {
            assert(update.statuses[k] == statuses[k]);
        } else {
            lemma_listed_ready_is_shown(attachments, replies, n, statuses, listed, i, k);
        }
    }
}

/// The deletion of a conflict keeps what an update says of attachments truthful.
proof fn lemma_deleting_conflict_truthful(
    attachments: Seq<AstraAttachmentView>,
    replies: Seq<ReplyView>,
    n: nat,
    update: UpdateView,
    gone: Result<(), Seq<char>>,
)
    requires
        n < replies.len(),
        step_at(Some(attachments), replies, n) == update.waiting(),
        update.wf(),
        update.progress is DeletingConflict,
        same_attachments(initial_statuses(attachments), update.statuses),
        update_attachments_truthful(attachments, replies, n, update),
        replies[n as int] == ReplyView::DeleteVirtualNetworkAttachment(gone),
    ensures
        step_after(update, replies[n as int]) matches StepView::Call { update: next, request }
            && update_attachments_truthful(attachments, replies, n + 1, next),
{
    if let ProgressView::DeletingConflict { listed, deleted, index, conflict, clean } =
        update.progress {
        let initial = initial_statuses(attachments);
        lemma_attachment_stays_shown(attachments, replies, n);
        lemma_listings_are_replies(attachments, replies, n);
        let i = choose|i: int|
            0 <= i < n && #[trigger] replies[i] == ReplyView::ListVirtualNetworkAttachments(
                Ok(listed),
            ) && progress_at(Some(attachments), replies, i as nat) == Some(
                ProgressView::ListingAttachments,
            );
        match gone {
            Ok(_) => {
                lemma_conflicts_from_truthful(
                    attachments,
                    replies,
                    n + 1,
                    update.statuses,
                    listed,
                    remembering(deleted, usable_id(listed[conflict].metadata)->0),
                    index,
                    conflict + 1,
                    clean,
                    i,
                );
            },
            Err(error) => {
                let recorded = update.statuses.update(
                    index,
                    update.statuses[index].reporting(report_of(undeleted_conflict_state(error))),
                );
                lemma_same_attachments_through(initial, update.statuses, recorded);
                assert(forall|k: int|
                    0 <= k < index ==> #[trigger] recorded[k] == update.statuses[k]);
                lemma_conflicts_from_truthful(
                    attachments,
                    replies,
                    n + 1,
                    recorded,
                    listed,
                    deleted,
                    index,
                    conflict + 1,
                    false,
                    i,
                );
            },
        }
    }
}

/// The creation of an attachment keeps what an update says of attachments truthful.
proof fn lemma_creating_attachment_truthful(
    attachments: Seq<AstraAttachmentView>,
    replies: Seq<ReplyView>,
    n: nat,
    update: UpdateView,
    created: AttachmentCreatedView,
)
    requires
        n < replies.len(),
        vnis_fit(attachments),
        step_at(Some(attachments), replies, n) == update.waiting(),
        update.wf(),
        update.progress is CreatingAttachment,
        same_attachments(initial_statuses(attachments), update.statuses),
        update_attachments_truthful(attachments, replies, n, update),
        replies[n as int] == ReplyView::CreateVirtualNetworkAttachment(created),
    ensures
        step_after(update, replies[n as int]) matches StepView::Call { update: next, request }
            && update_attachments_truthful(attachments, replies, n + 1, next),
{
    if let ProgressView::CreatingAttachment { listed, deleted, index } = update.progress {
        let initial = initial_statuses(attachments);
        lemma_attachment_stays_shown(attachments, replies, n);
        lemma_listings_are_replies(attachments, replies, n);
        let i = choose|i: int|
            0 <= i < n && #[trigger] replies[i] == ReplyView::ListVirtualNetworkAttachments(
                Ok(listed),
            ) && progress_at(Some(attachments), replies, i as nat) == Some(
                ProgressView::ListingAttachments,
            );
        let recorded = update.statuses.update(
            index,
            reporting_unready(update.statuses[index], created_attachment_state(created)),
        );
        lemma_same_attachments_through(initial, update.statuses, recorded);
        if created_attachment_state(created).phase == Phase::Ready {
            assert(initial[index].same_attachment(update.statuses[index]));
            assert(creates_attachment(update.request(), attachments[index]));
            assert(shows_attachment_ready(attachments, replies, n, index));
        }
        assert forall|k: int|
            0 <= k < index + 1 && (#[trigger] recorded[k]).ready() && recorded[k].vni
                != 0 implies attachment_shown_ready(attachments, replies, n + 1, k) by {
            if k < index {
                assert(recorded[k] == update.statuses[k]);
            }
        }
        lemma_attachments_from_truthful(
            attachments,
            replies,
            n + 1,
            recorded,
            listed,
            deleted,
            index + 1,
            i,
        );
    }
}

/// One more reply keeps what an update says of attachments truthful.
proof fn lemma_step_attachments_truthful(
    attachments: Seq<AstraAttachmentView>,
    replies: Seq<ReplyView>,
    n: nat,
    update: UpdateView,
)
    requires
        n < replies.len(),
        vnis_fit(attachments),
        step_at(Some(attachments), replies, n) == update.waiting(),
        update.wf(),
        same_attachments(initial_statuses(attachments), update.statuses),
        update_attachments_truthful(attachments, replies, n, update),
    ensures
        match step_after(update, replies[n as int]) {
            StepView::Call { update: next, request } => update_attachments_truthful(
                attachments,
                replies,
                n + 1,
                next,
            ),
            StepView::Done(statuses) => attachments_truthful(
                attachments,
                replies,
                n + 1,
                statuses,
                statuses.len() as int,
            ),
            StepView::Failed(_) => true,
        },
{
    let reply = replies[n as int];
    lemma_attachment_stays_shown(attachments, replies, n);
    match (update.progress, reply) {
        (
            ProgressView::ListingAttachments,
            ReplyView::ListVirtualNetworkAttachments(Ok(listed)),
        ) => {
            lemma_attachments_from_truthful(
                attachments,
                replies,
                n + 1,
                update.statuses,
                listed,
                Seq::empty(),
                0,
                n as int,
            );
        },
        (
            ProgressView::DeletingConflict { listed, deleted, index, conflict, clean },
            ReplyView::DeleteVirtualNetworkAttachment(gone),
        ) => {
            lemma_deleting_conflict_truthful(attachments, replies, n, update, gone);
        },
        (
            ProgressView::CreatingAttachment { listed, deleted, index },
            ReplyView::CreateVirtualNetworkAttachment(created),
        ) => {
            lemma_creating_attachment_truthful(attachments, replies, n, update, created);
        },
        _ => {},
    }
}

/// What an update says of attachments is truthful.
proof fn lemma_attachments_truthful(
    attachments: Seq<AstraAttachmentView>,
    replies: Seq<ReplyView>,
    n: nat,
)
    requires
        n <= replies.len(),
    ensures
        match step_at(Some(attachments), replies, n) {
            StepView::Call { update, request } => update_attachments_truthful(
                attachments,
                replies,
                n,
                update,
            ),
            StepView::Done(statuses) => attachments_truthful(
                attachments,
                replies,
                n,
                statuses,
                statuses.len() as int,
            ),
            StepView::Failed(_) => true,
        },
    decreases n,
{
    reveal(step_at);
    if n > 0 {
        let before = (n - 1) as nat;
        lemma_attachments_truthful(attachments, replies, before);
        lemma_attachments_kept(attachments, replies, before);
        if let StepView::Call { update, request } = step_at(Some(attachments), replies, before) {
            lemma_step_attachments_truthful(attachments, replies, before, update);
        }
        lemma_attachment_stays_shown(attachments, replies, before);
    }
}

/// An attachment that a finished update reports ready is ready: the server listed its network
/// and itself as ready, or created them and replied that they are.
pub proof fn lemma_reported_ready_is_ready(
    attachments: Seq<AstraAttachmentView>,
    replies: Seq<ReplyView>,
    n: nat,
    statuses: Seq<AstraAttachmentStatusView>,
    k: int,
)
    requires
        n <= replies.len(),
        step_at(Some(attachments), replies, n) == StepView::Done(statuses),
        0 <= k < attachments.len(),
        attachments[k].vni != 0,
        statuses[k].ready(),
    ensures
        network_shown_ready(attachments, replies, n, attachments[k].vni),
        attachment_shown_ready(attachments, replies, n, k),
{
    lemma_attachments_kept(attachments, replies, n);
    lemma_networks_truthful(attachments, replies, n);
    lemma_attachments_truthful(attachments, replies, n);
    assert(initial_statuses(attachments)[k].same_attachment(statuses[k]));
    assert(statuses[k].vni as u32 == attachments[k].vni);
}

} // verus!
