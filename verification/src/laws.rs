//! What holds of every run of an update, whatever the Weave server replies.
use crate::astra::{AstraAttachmentStatusView, AstraAttachmentView};
use crate::attachments::{attachment_creation, attachment_spec, attachment_wanted, exact};
use crate::error::UpdateErrorView;
use crate::networks::{
    lemma_listed_vni_is_known, lemma_network_id_injective, network_creation, network_id,
};
use crate::progress::{
    lemma_same_attachments_through, same_attachments, step_after, ProgressView, StepView,
};
use crate::runs::{
    before, lemma_step, lemma_step_keeps_listing, lemma_step_keeps_unready,
    lemma_step_knows_networks, progress_at, request_at, step_at, unready_kept,
};
use crate::service::{answers, ReplyView, RequestView};
use crate::status::{
    first_misfit, initial_status, initial_statuses, lemma_first_misfit_unique, vnis_fit,
};
use crate::weave::{
    usable_id, CreateVirtualNetworkRequestView, VirtualNetworkAttachmentView, VirtualNetworkView,
};
use vstd::prelude::*;

verus! {

/// Without a configuration no call is ever made, and the status is empty.
pub proof fn lemma_no_configuration(replies: Seq<ReplyView>, n: nat)
    ensures
        step_at(None, replies, n) == StepView::Done(Seq::empty()),
        request_at(None, replies, n) is None,
    decreases n,
{
    reveal(step_at);
    if n > 0 {
        lemma_no_configuration(replies, (n - 1) as nat);
    }
}

/// A configuration with a VNI that cannot be reported fails with the first such VNI, and no
/// call is ever made.
pub proof fn lemma_unreportable_vni(
    attachments: Seq<AstraAttachmentView>,
    replies: Seq<ReplyView>,
    n: nat,
    i: int,
)
    requires
        first_misfit(attachments, i),
    ensures
        step_at(Some(attachments), replies, n) == StepView::Failed(
            UpdateErrorView::VniOutOfRange { vni: attachments[i].vni },
        ),
        request_at(Some(attachments), replies, n) is None,
    decreases n,
{
    reveal(step_at);
    if n > 0 {
        lemma_unreportable_vni(attachments, replies, (n - 1) as nat, i);
    } else {
        assert(attachments[i].vni > i32::MAX);
        lemma_first_misfit_unique(attachments, i, choose|j: int| first_misfit(attachments, j));
    }
}

/// Something is reported about every attachment.
pub open spec fn all_reported(statuses: Seq<AstraAttachmentStatusView>) -> bool {
    forall|k: int| 0 <= k < statuses.len() ==> (#[trigger] statuses[k]).status is Some
}

/// A waiting update is well formed, and every status that an update holds or reports is the
/// status of the configured attachment at the same position, with a report about it.
pub proof fn lemma_attachments_kept(
    attachments: Seq<AstraAttachmentView>,
    replies: Seq<ReplyView>,
    n: nat,
)
    ensures
        match step_at(Some(attachments), replies, n) {
            StepView::Call { update, request } => {
                &&& update.wf()
                &&& request == update.request()
                &&& vnis_fit(attachments)
                &&& same_attachments(initial_statuses(attachments), update.statuses)
                &&& all_reported(update.statuses)
            },
            StepView::Done(statuses) => {
                &&& vnis_fit(attachments)
                &&& same_attachments(initial_statuses(attachments), statuses)
                &&& all_reported(statuses)
            },
            StepView::Failed(_) => true,
        },
    decreases n,
{
    reveal(step_at);
    if n > 0 {
        lemma_attachments_kept(attachments, replies, (n - 1) as nat);
        if let StepView::Call { update, request } = step_at(
            Some(attachments),
            replies,
            (n - 1) as nat,
        ) {
            let reply = replies[n - 1];
            lemma_step(update, reply);
            match step_after(update, reply) {
                StepView::Call { update: next, request } => {
                    lemma_same_attachments_through(
                        initial_statuses(attachments),
                        update.statuses,
                        next.statuses,
                    );
                    lemma_all_reported(initial_statuses(attachments), next.statuses);
                },
                StepView::Done(statuses) => {
                    lemma_same_attachments_through(
                        initial_statuses(attachments),
                        update.statuses,
                        statuses,
                    );
                    lemma_all_reported(initial_statuses(attachments), statuses);
                },
                StepView::Failed(_) => {},
            }
        }
    }
}

/// What was reported about every attachment stays so.
proof fn lemma_all_reported(
    earlier: Seq<AstraAttachmentStatusView>,
    later: Seq<AstraAttachmentStatusView>,
)
    requires
        same_attachments(earlier, later),
        all_reported(earlier),
    ensures
        all_reported(later),
{
    assert forall|k: int| 0 <= k < later.len() implies (#[trigger] later[k]).status is Some by {
        assert(earlier[k].same_attachment(later[k]));
    }
}

/// A failed list call ends the update with its error.
pub proof fn lemma_failed_listing_ends(
    attachments: Seq<AstraAttachmentView>,
    replies: Seq<ReplyView>,
    n: nat,
    error: Seq<char>,
)
    requires
        n < replies.len(),
        match request_at(Some(attachments), replies, n) {
            Some(RequestView::ListVirtualNetworks(_)) => replies[n as int]
                == ReplyView::ListVirtualNetworks(Err(error)),
            Some(RequestView::ListVirtualNetworkAttachments(_)) => replies[n as int]
                == ReplyView::ListVirtualNetworkAttachments(Err(error)),
            _ => false,
        },
    ensures
        step_at(Some(attachments), replies, n + 1) == StepView::Failed(
            UpdateErrorView::ListFailed { error },
        ),
{
    reveal(step_at);
    lemma_attachments_kept(attachments, replies, n);
}

/// Each reply to the pending call brings an update nearer to its end, so that it ends.
pub proof fn lemma_update_ends(
    attachments: Seq<AstraAttachmentView>,
    replies: Seq<ReplyView>,
    n: nat,
)
    requires
        n < replies.len(),
        request_at(Some(attachments), replies, n) matches Some(request) && answers(
            replies[n as int],
            request,
        ),
    ensures
        match (
            step_at(Some(attachments), replies, n),
            step_at(Some(attachments), replies, n + 1),
        ) {
            (
                StepView::Call { update, request },
                StepView::Call { update: next, request: next_request },
            ) => before(next.left(), update.left()) && 0 <= next.left().0 && 0 <= next.left().1
                && 0 <= next.left().2,
            _ => true,
        },
{
    reveal(step_at);
    lemma_attachments_kept(attachments, replies, n);
    if let StepView::Call { update, request } = step_at(Some(attachments), replies, n) {
        lemma_step(update, replies[n as int]);
    }
}

/// A request creates the network that an attachment calls for.
pub open spec fn creates_network(
    request: RequestView,
    attachment: AstraAttachmentView,
) -> bool {
    &&& attachment.vni != 0
    &&& request == RequestView::CreateVirtualNetwork(network_creation(initial_status(attachment)))
}

/// A request creates the attachment that a configured one calls for.
pub open spec fn creates_attachment(
    request: RequestView,
    attachment: AstraAttachmentView,
) -> bool {
    &&& attachment.vni != 0
    &&& attachment_spec(initial_status(attachment)) matches Ok(weave_spec) && request
        == RequestView::CreateVirtualNetworkAttachment(attachment_creation(weave_spec))
}

/// Nothing is created that the configuration does not call for. For an attachment with VNI 0
/// nothing is created at all.
pub proof fn lemma_creations_are_configured(
    attachments: Seq<AstraAttachmentView>,
    replies: Seq<ReplyView>,
    n: nat,
)
    ensures
        request_at(Some(attachments), replies, n) matches Some(request) ==> {
            &&& request is CreateVirtualNetwork ==> exists|k: int|
                0 <= k < attachments.len() && creates_network(request, #[trigger] attachments[k])
            &&& request is CreateVirtualNetworkAttachment ==> exists|k: int|
                0 <= k < attachments.len() && creates_attachment(
                    request,
                    #[trigger] attachments[k],
                )
        },
{
    lemma_attachments_kept(attachments, replies, n);
    if let StepView::Call { update, request } = step_at(Some(attachments), replies, n) {
        let initial = initial_statuses(attachments);
        match update.progress {
            ProgressView::CreatingNetwork { known, index } => {
                assert(initial[index].same_attachment(update.statuses[index]));
                assert(creates_network(request, attachments[index]));
            },
            ProgressView::CreatingAttachment { listed, deleted, index } => {
                assert(initial[index].same_attachment(update.statuses[index]));
                assert(creates_attachment(request, attachments[index]));
            },
            _ => {},
        }
    }
}

/// The listings that an update works on are those that the server replied with.
pub proof fn lemma_listings_are_replies(
    attachments: Seq<AstraAttachmentView>,
    replies: Seq<ReplyView>,
    n: nat,
)
    requires
        n <= replies.len(),
    ensures
        progress_at(Some(attachments), replies, n) matches Some(progress) ==> {
            &&& progress.listed() matches Some(listed) ==> exists|i: int|
                0 <= i < n && #[trigger] replies[i] == ReplyView::ListVirtualNetworkAttachments(
                    Ok(listed),
                ) && progress_at(Some(attachments), replies, i as nat) == Some(
                    ProgressView::ListingAttachments,
                )
            &&& progress.relisted() matches Some(networks) ==> exists|i: int|
                0 <= i < n && #[trigger] replies[i] == ReplyView::ListVirtualNetworks(
                    Ok(networks),
                ) && progress_at(Some(attachments), replies, i as nat) == Some(
                    ProgressView::RelistingNetworks,
                )
        },
    decreases n,
{
    reveal(step_at);
    if n > 0 {
        lemma_listings_are_replies(attachments, replies, (n - 1) as nat);
        lemma_attachments_kept(attachments, replies, (n - 1) as nat);
        if let StepView::Call { update, request } = step_at(
            Some(attachments),
            replies,
            (n - 1) as nat,
        ) {
            lemma_step_keeps_listing(update, replies[n - 1]);
        }
    }
}

/// A network with this id that no attachment wants and that does not carry the invalid VNI 0.
pub open spec fn unwanted_network(
    network: VirtualNetworkView,
    attachments: Seq<AstraAttachmentView>,
    id: Seq<char>,
) -> bool {
    &&& usable_id(network.metadata) == Some(id)
    &&& network.vni() != Some(0u32)
    &&& forall|k: int|
        0 <= k < attachments.len() ==> network.vni() != Some((#[trigger] attachments[k]).vni)
}

/// The reply lists a network with this id that no attachment wants.
pub open spec fn lists_unwanted_network(
    reply: ReplyView,
    attachments: Seq<AstraAttachmentView>,
    id: Seq<char>,
) -> bool {
    &&& reply matches ReplyView::ListVirtualNetworks(Ok(networks)) && exists|p: int|
        0 <= p < networks.len() && unwanted_network(#[trigger] networks[p], attachments, id)
}

/// Only networks that the server listed, that can be named and that no attachment wants are
/// deleted. The network with the invalid VNI 0 is left alone.
pub proof fn lemma_wanted_networks_survive(
    attachments: Seq<AstraAttachmentView>,
    replies: Seq<ReplyView>,
    n: nat,
    id: Seq<char>,
)
    requires
        n <= replies.len(),
        request_at(Some(attachments), replies, n) == Some(RequestView::DeleteVirtualNetwork(id)),
    ensures
        id.len() > 0,
        exists|i: int|
            0 <= i < n && lists_unwanted_network(#[trigger] replies[i], attachments, id),
{
    lemma_attachments_kept(attachments, replies, n);
    lemma_listings_are_replies(attachments, replies, n);
    if let StepView::Call { update, request } = step_at(Some(attachments), replies, n) {
        if let ProgressView::DeletingStaleNetwork { networks, position } = update.progress {
            let network = networks[position];
            let i = choose|i: int|
                0 <= i < n && #[trigger] replies[i] == ReplyView::ListVirtualNetworks(
                    Ok(networks),
                );
            assert forall|k: int| 0 <= k < attachments.len() implies network.vni() != Some(
                (#[trigger] attachments[k]).vni,
            ) by {
                assert(initial_statuses(attachments)[k].same_attachment(update.statuses[k]));
            }
            assert(unwanted_network(networks[position], attachments, id));
            assert(replies[i]->ListVirtualNetworks_0->Ok_0[position] == networks[position]);
            assert(lists_unwanted_network(replies[i], attachments, id));
        }
    }
}

/// No two attachments of a configuration share an interface.
pub open spec fn interfaces_differ(attachments: Seq<AstraAttachmentView>) -> bool {
    forall|a: int, b: int|
        0 <= a < b < attachments.len() ==> (#[trigger] attachments[a]).mac_address != (
        #[trigger] attachments[b]).mac_address
}

/// The reply lists an attachment with this id that no configured one calls for.
pub open spec fn lists_unwanted_attachment(
    reply: ReplyView,
    attachments: Seq<AstraAttachmentView>,
    id: Seq<char>,
) -> bool {
    &&& reply matches ReplyView::ListVirtualNetworkAttachments(Ok(listed)) && exists|p: int|
        0 <= p < listed.len() && usable_id((#[trigger] listed[p]).metadata) == Some(id)
            && !attachment_wanted(listed[p], initial_statuses(attachments))
}

/// Whether an attachment is wanted does not depend on what is reported.
pub proof fn lemma_wanted_whatever_is_reported(
    listed: VirtualNetworkAttachmentView,
    a: Seq<AstraAttachmentStatusView>,
    b: Seq<AstraAttachmentStatusView>,
)
    requires
        same_attachments(a, b),
    ensures
        attachment_wanted(listed, a) == attachment_wanted(listed, b),
{
    if attachment_wanted(listed, a) {
        let k = choose|k: int|
            0 <= k < a.len() && (#[trigger] a[k]).vni != 0 && exact(listed, a[k]);
        assert(a[k].same_attachment(b[k]));
        assert(b[k].vni != 0 && exact(listed, b[k]));
    }
    if attachment_wanted(listed, b) {
        let k = choose|k: int|
            0 <= k < b.len() && (#[trigger] b[k]).vni != 0 && exact(listed, b[k]);
        assert(a[k].same_attachment(b[k]));
        assert(a[k].vni != 0 && exact(listed, a[k]));
    }
}

/// Only attachments that the server listed, that can be named and that no configured one calls
/// for are deleted, provided that no two configured attachments share an interface.
pub proof fn lemma_wanted_attachments_survive(
    attachments: Seq<AstraAttachmentView>,
    replies: Seq<ReplyView>,
    n: nat,
    id: Seq<char>,
)
    requires
        n <= replies.len(),
        interfaces_differ(attachments),
        request_at(Some(attachments), replies, n) == Some(
            RequestView::DeleteVirtualNetworkAttachment(id),
        ),
    ensures
        id.len() > 0,
        exists|i: int|
            0 <= i < n && lists_unwanted_attachment(#[trigger] replies[i], attachments, id),
{
    lemma_attachments_kept(attachments, replies, n);
    lemma_listings_are_replies(attachments, replies, n);
    let initial = initial_statuses(attachments);
    if let StepView::Call { update, request } = step_at(Some(attachments), replies, n) {
        let listed = update.progress.listed()->0;
        let i = choose|i: int|
            0 <= i < n && #[trigger] replies[i] == ReplyView::ListVirtualNetworkAttachments(
                Ok(listed),
            );
        let p = match update.progress {
            ProgressView::DeletingConflict { listed, deleted, index, conflict, clean } => conflict,
            ProgressView::DeletingStaleAttachment { listed, deleted, position } => position,
            _ => 0,
        };
        lemma_wanted_whatever_is_reported(listed[p], initial, update.statuses);
        if let ProgressView::DeletingConflict { listed, deleted, index, conflict, clean } =
            update.progress {
            assert(initial[index].same_attachment(update.statuses[index]));
            if attachment_wanted(listed[p], initial) {
                let k = choose|k: int|
                    0 <= k < initial.len() && (#[trigger] initial[k]).vni != 0 && exact(
                        listed[p],
                        initial[k],
                    );
                assert(attachments[k].mac_address == attachments[index].mac_address);
            }
        }
        assert(usable_id(listed[p].metadata) == Some(id));
        assert(lists_unwanted_attachment(replies[i], attachments, id));
    }
}

/// The stages of an update follow one another and never come back: the missing networks, the
/// attachments one by one, the stale attachments, the stale networks.
pub proof fn lemma_stages_follow(
    attachments: Seq<AstraAttachmentView>,
    replies: Seq<ReplyView>,
    m: nat,
    n: nat,
)
    requires
        m <= n,
    ensures
        match (step_at(Some(attachments), replies, m), step_at(Some(attachments), replies, n)) {
            (
                StepView::Call { update, request },
                StepView::Call { update: later, request: later_request },
            ) => later.left() == update.left() || before(later.left(), update.left()),
            (StepView::Call { update, request }, _) => true,
            (end, later) => later == end,
        },
    decreases n,
{
    reveal(step_at);
    if m < n {
        lemma_stages_follow(attachments, replies, m, (n - 1) as nat);
        lemma_attachments_kept(attachments, replies, (n - 1) as nat);
        if let StepView::Call { update, request } = step_at(
            Some(attachments),
            replies,
            (n - 1) as nat,
        ) {
            lemma_step(update, replies[n - 1]);
        }
    }
}

/// A VNI that is known stays known, with the state that it had.
pub proof fn lemma_known_networks_stay(
    attachments: Seq<AstraAttachmentView>,
    replies: Seq<ReplyView>,
    m: nat,
    n: nat,
)
    requires
        m <= n,
    ensures
        match (
            progress_at(Some(attachments), replies, m),
            progress_at(Some(attachments), replies, n),
        ) {
            (
                Some(ProgressView::CreatingNetwork { known, index }),
                Some(ProgressView::CreatingNetwork { known: later, index: at }),
            ) => forall|vni: u32| #[trigger]
                known.contains_key(vni) ==> later.contains_key(vni) && later[vni] == known[vni],
            _ => true,
        },
    decreases n,
{
    reveal(step_at);
    if m < n {
        lemma_known_networks_stay(attachments, replies, m, (n - 1) as nat);
        lemma_stages_follow(attachments, replies, m, (n - 1) as nat);
        lemma_attachments_kept(attachments, replies, (n - 1) as nat);
        if let StepView::Call { update, request } = step_at(
            Some(attachments),
            replies,
            (n - 1) as nat,
        ) {
            lemma_step_knows_networks(update, replies[n - 1]);
        }
    }
}

/// A network that the server listed is not created.
pub proof fn lemma_listed_network_is_not_created(
    attachments: Seq<AstraAttachmentView>,
    replies: Seq<ReplyView>,
    m: nat,
    p: int,
    n: nat,
)
    requires
        m < n <= replies.len(),
        progress_at(Some(attachments), replies, m) == Some(ProgressView::ListingNetworks),
        replies[m as int] matches ReplyView::ListVirtualNetworks(Ok(networks)) && 0 <= p
            < networks.len() && networks[p].vni() is Some,
    ensures
        request_at(Some(attachments), replies, n) matches Some(
            RequestView::CreateVirtualNetwork(request),
        ) ==> Some(request.spec->0.vni)
            != replies[m as int]->ListVirtualNetworks_0->Ok_0[p].vni(),
{
    reveal(step_at);
    lemma_attachments_kept(attachments, replies, m);
    lemma_attachments_kept(attachments, replies, n);
    lemma_stages_follow(attachments, replies, m + 1, n);
    lemma_known_networks_stay(attachments, replies, m + 1, n);
    if let StepView::Call { update, request } = step_at(Some(attachments), replies, m) {
        lemma_step(update, replies[m as int]);
        lemma_step_knows_networks(update, replies[m as int]);
        lemma_listed_vni_is_known(replies[m as int]->ListVirtualNetworks_0->Ok_0, p);
    }
}

/// A pending creation of a network is for a VNI that is not known.
proof fn lemma_pending_network_is_unknown(
    attachments: Seq<AstraAttachmentView>,
    replies: Seq<ReplyView>,
    n: nat,
    request: CreateVirtualNetworkRequestView,
) -> (vni: i32)
    requires
        request_at(Some(attachments), replies, n) == Some(
            RequestView::CreateVirtualNetwork(request),
        ),
    ensures
        progress_at(Some(attachments), replies, n) matches Some(
            ProgressView::CreatingNetwork { known, index },
        ) && !known.contains_key(vni as u32),
        vni >= 0,
        request.spec->0.vni == vni as u32,
        request.metadata->0.id == Some(network_id(vni as int)),
{
    lemma_attachments_kept(attachments, replies, n);
    let update = step_at(Some(attachments), replies, n)->update;
    let index = update.progress->CreatingNetwork_index;
    assert(initial_statuses(attachments)[index].same_attachment(update.statuses[index]));
    update.statuses[index].vni
}

/// After the server has created a network, its VNI is known.
proof fn lemma_created_network_is_known(
    attachments: Seq<AstraAttachmentView>,
    replies: Seq<ReplyView>,
    n: nat,
    request: CreateVirtualNetworkRequestView,
)
    requires
        n < replies.len(),
        request_at(Some(attachments), replies, n) == Some(
            RequestView::CreateVirtualNetwork(request),
        ),
        replies[n as int] matches ReplyView::CreateVirtualNetwork(Ok(Some(_))),
    ensures
        progress_at(Some(attachments), replies, n + 1) matches Some(
            ProgressView::CreatingNetwork { known, index },
        ) ==> known.contains_key(request.spec->0.vni),
{
    reveal(step_at);
    lemma_attachments_kept(attachments, replies, n);
    let update = step_at(Some(attachments), replies, n)->update;
    lemma_step_knows_networks(update, replies[n as int]);
}

/// A network that the server has created is not created again: attachments that share a VNI
/// share the network.
pub proof fn lemma_network_is_created_once(
    attachments: Seq<AstraAttachmentView>,
    replies: Seq<ReplyView>,
    m: nat,
    first: CreateVirtualNetworkRequestView,
    n: nat,
    second: CreateVirtualNetworkRequestView,
)
    requires
        m < n <= replies.len(),
        request_at(Some(attachments), replies, m) == Some(
            RequestView::CreateVirtualNetwork(first),
        ),
        replies[m as int] matches ReplyView::CreateVirtualNetwork(Ok(Some(_))),
        request_at(Some(attachments), replies, n) == Some(
            RequestView::CreateVirtualNetwork(second),
        ),
    ensures
        first.spec->0.vni != second.spec->0.vni,
        first.metadata->0.id != second.metadata->0.id,
{
    let a = lemma_pending_network_is_unknown(attachments, replies, m, first);
    let b = lemma_pending_network_is_unknown(attachments, replies, n, second);
    lemma_attachments_kept(attachments, replies, m);
    lemma_created_network_is_known(attachments, replies, m, first);
    lemma_stages_follow(attachments, replies, m, m + 1);
    lemma_stages_follow(attachments, replies, m + 1, n);
    lemma_known_networks_stay(attachments, replies, m + 1, n);
    if network_id(a as int) == network_id(b as int) {
        lemma_network_id_injective(a as int, b as int);
    }
}

/// An attachment that is not ready when the attachments are listed, because its network is
/// not, keeps that report to the end, and no attachment call is made for it.
pub proof fn lemma_unready_network_is_final(
    attachments: Seq<AstraAttachmentView>,
    replies: Seq<ReplyView>,
    m: nat,
    n: nat,
    k: int,
)
    requires
        m <= n <= replies.len(),
        progress_at(Some(attachments), replies, m) == Some(ProgressView::ListingAttachments),
        0 <= k < attachments.len(),
        !step_at(Some(attachments), replies, m)->update.statuses[k].ready(),
    ensures
        ({
            let earlier = step_at(Some(attachments), replies, m)->update.statuses;
            match step_at(Some(attachments), replies, n) {
                StepView::Call { update, request } => {
                    &&& update.statuses[k] == earlier[k]
                    &&& match update.progress {
                        ProgressView::DeletingConflict {
                            listed,
                            deleted,
                            index,
                            conflict,
                            clean,
                        } => index != k,
                        ProgressView::CreatingAttachment { listed, deleted, index } => index != k,
                        _ => true,
                    }
                },
                StepView::Done(statuses) => statuses[k] == earlier[k],
                StepView::Failed(_) => true,
            }
        }),
{
    lemma_attachments_kept(attachments, replies, m);
    lemma_unready_kept(attachments, replies, m, n);
}

/// What is not ready when the attachments are listed is kept.
proof fn lemma_unready_kept(
    attachments: Seq<AstraAttachmentView>,
    replies: Seq<ReplyView>,
    m: nat,
    n: nat,
)
    requires
        m <= n,
        progress_at(Some(attachments), replies, m) == Some(ProgressView::ListingAttachments),
    ensures
        ({
            let earlier = step_at(Some(attachments), replies, m)->update.statuses;
            match step_at(Some(attachments), replies, n) {
                StepView::Call { update, request } => unready_kept(earlier, update),
                StepView::Done(statuses) => {
                    &&& earlier.len() == statuses.len()
                    &&& forall|k: int|
                        0 <= k < earlier.len() && !earlier[k].ready() ==> #[trigger] statuses[k]
                            == earlier[k]
                },
                StepView::Failed(_) => true,
            }
        }),
    decreases n,
{
    reveal(step_at);
    if m < n {
        lemma_unready_kept(attachments, replies, m, (n - 1) as nat);
        lemma_attachments_kept(attachments, replies, (n - 1) as nat);
        lemma_stages_follow(attachments, replies, m, (n - 1) as nat);
        if let StepView::Call { update, request } = step_at(
            Some(attachments),
            replies,
            (n - 1) as nat,
        ) {
            lemma_step_keeps_unready(
                step_at(Some(attachments), replies, m)->update.statuses,
                update,
                replies[n - 1],
            );
        }
    }
}

} // verus!
