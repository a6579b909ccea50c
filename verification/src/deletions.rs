//! Which objects an update deletes, told by the fields of the configuration and of the listings.
use crate::astra::AstraAttachmentView;
use crate::attachments::{attachment_wanted, exact};
use crate::cleanup::{
    deletes_attachment, deletes_network, lemma_unwanted_attachments_are_deleted,
    lemma_unwanted_networks_are_deleted,
};
use crate::error::UpdateErrorView;
use crate::laws::{
    interfaces_differ, lemma_attachments_kept, lemma_listings_are_replies, lemma_stages_follow,
    lemma_unreportable_vni, lemma_wanted_networks_survive, lemma_wanted_whatever_is_reported,
    lists_unwanted_network, unwanted_network,
};
use crate::networks::{network_stale, network_wanted};
use crate::progress::{ProgressView, StepView};
use crate::reports::{has_vni, lemma_statuses_are_about_attachments};
use crate::runs::{lemma_step_remembers, progress_at, request_at, step_at};
use crate::service::{ReplyView, RequestView};
use crate::status::{first_misfit, initial_statuses, vnis_fit};
use crate::visits::{
    blocked, deletion_asked, deletion_failed, in_place, in_the_way, lemma_attachments_heard,
    lemma_places_are_told, nameless, some_in_place, still_in_the_way,
};
use crate::weave::{
    lemma_usable_id, ObjectMetadataView, VirtualNetworkAttachmentView, VirtualNetworkView,
};
use vstd::prelude::*;

verus! {

/// Some configured attachment has the VNI of a network.
pub open spec fn vni_configured(
    network: VirtualNetworkView,
    attachments: Seq<AstraAttachmentView>,
) -> bool {
    exists|k: int| 0 <= k < attachments.len() && has_vni(network, (#[trigger] attachments[k]).vni)
}

/// An attachment on the server is in place for some configured one that has a network.
pub open spec fn binding_configured(
    listed: VirtualNetworkAttachmentView,
    attachments: Seq<AstraAttachmentView>,
) -> bool {
    exists|k: int|
        0 <= k < attachments.len() && (#[trigger] attachments[k]).vni != 0 && in_place(
            listed,
            attachments[k],
        )
}

/// The object has this id, which is not empty.
pub open spec fn goes_by(metadata: Option<ObjectMetadataView>, id: Seq<char>) -> bool {
    metadata is Some && metadata->0.id == Some(id) && id.len() >= 1
}

/// A network is stale exactly where no attachment has its VNI, the VNI is not 0, and it has an id.
pub proof fn lemma_stale_network_is_told(
    network: VirtualNetworkView,
    attachments: Seq<AstraAttachmentView>,
)
    requires
        vnis_fit(attachments),
    ensures
        network_wanted(network, initial_statuses(attachments)) <==> vni_configured(
            network,
            attachments,
        ),
        network_stale(network, initial_statuses(attachments)) <==> !has_vni(network, 0)
            && !vni_configured(network, attachments) && !nameless(network.metadata),
{
    let initial = initial_statuses(attachments);
    if network_wanted(network, initial) {
        let k = choose|k: int|
            0 <= k < initial.len() && network.vni() == Some((#[trigger] initial[k]).vni as u32);
        assert(attachments[k].vni <= i32::MAX);
        assert(has_vni(network, attachments[k].vni));
    }
    if vni_configured(network, attachments) {
        let k = choose|k: int|
            0 <= k < attachments.len() && has_vni(network, (#[trigger] attachments[k]).vni);
        assert(attachments[k].vni <= i32::MAX);
        assert(network.vni() == Some(initial[k].vni as u32));
    }
}

/// An attachment is wanted exactly where it is in place for a configured one with a network.
pub proof fn lemma_wanted_attachment_is_told(
    listed: VirtualNetworkAttachmentView,
    attachments: Seq<AstraAttachmentView>,
)
    requires
        vnis_fit(attachments),
    ensures
        attachment_wanted(listed, initial_statuses(attachments)) <==> binding_configured(
            listed,
            attachments,
        ),
{
    let initial = initial_statuses(attachments);
    if attachment_wanted(listed, initial) {
        let k = choose|k: int|
            0 <= k < initial.len() && (#[trigger] initial[k]).vni != 0 && exact(
                listed,
                initial[k],
            );
        assert(attachments[k].vni <= i32::MAX);
        lemma_places_are_told(listed, attachments[k], initial[k]);
        assert(attachments[k].vni != 0 && in_place(listed, attachments[k]));
    }
    if binding_configured(listed, attachments) {
        let k = choose|k: int|
            0 <= k < attachments.len() && (#[trigger] attachments[k]).vni != 0 && in_place(
                listed,
                attachments[k],
            );
        assert(attachments[k].vni <= i32::MAX);
        lemma_places_are_told(listed, attachments[k], initial[k]);
        assert(initial[k].vni != 0 && exact(listed, initial[k]));
    }
}

/// The reply lists a network that goes by this id, that no attachment has the VNI of, and whose
/// VNI is not 0.
pub open spec fn lists_needless_network(
    reply: ReplyView,
    attachments: Seq<AstraAttachmentView>,
    id: Seq<char>,
    p: int,
) -> bool {
    match reply {
        ReplyView::ListVirtualNetworks(Ok(networks)) => {
            &&& 0 <= p < networks.len()
            &&& goes_by(networks[p].metadata, id)
            &&& !has_vni(networks[p], 0)
            &&& !vni_configured(networks[p], attachments)
        },
        _ => false,
    }
}

/// Only networks that were listed and that nothing needs are deleted.
pub proof fn lemma_deleted_network_is_needless(
    attachments: Seq<AstraAttachmentView>,
    replies: Seq<ReplyView>,
    n: nat,
    id: Seq<char>,
) -> (found: (nat, int))
    requires
        n <= replies.len(),
        request_at(Some(attachments), replies, n) == Some(RequestView::DeleteVirtualNetwork(id)),
    ensures
        found.0 < n,
        lists_needless_network(replies[found.0 as int], attachments, id, found.1),
{
    lemma_attachments_kept(attachments, replies, n);
    lemma_wanted_networks_survive(attachments, replies, n, id);
    let i = choose|i: int|
        0 <= i < n && lists_unwanted_network(#[trigger] replies[i], attachments, id);
    let networks = replies[i]->ListVirtualNetworks_0->Ok_0;
    let p = choose|p: int|
        0 <= p < networks.len() && unwanted_network(#[trigger] networks[p], attachments, id);
    assert(unwanted_network(networks[p], attachments, id));
    lemma_usable_id(networks[p].metadata, id);
    (i as nat, p)
}

/// The reply lists an attachment that goes by this id.
pub open spec fn lists_attachment(reply: ReplyView, id: Seq<char>, p: int) -> bool {
    match reply {
        ReplyView::ListVirtualNetworkAttachments(Ok(listed)) => 0 <= p < listed.len() && goes_by(
            listed[p].metadata,
            id,
        ),
        _ => false,
    }
}

/// Only attachments that were listed are deleted, and only those that are in the way of a
/// configured one or in place for none.
pub proof fn lemma_deleted_attachment_is_needless(
    attachments: Seq<AstraAttachmentView>,
    replies: Seq<ReplyView>,
    n: nat,
    id: Seq<char>,
) -> (found: (nat, int))
    requires
        n <= replies.len(),
        request_at(Some(attachments), replies, n) == Some(
            RequestView::DeleteVirtualNetworkAttachment(id),
        ),
    ensures
        found.0 < n,
        lists_attachment(replies[found.0 as int], id, found.1),
        ({
            let gone = replies[found.0 as int]->ListVirtualNetworkAttachments_0->Ok_0[found.1];
            ||| !binding_configured(gone, attachments)
            ||| exists|k: int|
                0 <= k < attachments.len() && in_the_way(gone, #[trigger] attachments[k])
        }),
        interfaces_differ(attachments) ==> !binding_configured(
            replies[found.0 as int]->ListVirtualNetworkAttachments_0->Ok_0[found.1],
            attachments,
        ),
{
    lemma_attachments_kept(attachments, replies, n);
    lemma_listings_are_replies(attachments, replies, n);
    let initial = initial_statuses(attachments);
    let update = step_at(Some(attachments), replies, n)->update;
    let listed = update.progress.listed()->0;
    let i = choose|i: int|
        0 <= i < n && #[trigger] replies[i] == ReplyView::ListVirtualNetworkAttachments(
            Ok(listed),
        );
    let p = match update.progress {
        ProgressView::DeletingConflict { listed, deleted, index, conflict, clean } => conflict,
        ProgressView::DeletingStaleAttachment { listed, deleted, position } => position,
        _ => 0,
    };
    lemma_usable_id(listed[p].metadata, id);
    lemma_wanted_attachment_is_told(listed[p], attachments);
    lemma_wanted_whatever_is_reported(listed[p], initial, update.statuses);
    if let ProgressView::DeletingConflict { listed: l, deleted, index, conflict, clean } =
        update.progress {
        lemma_statuses_are_about_attachments(attachments, replies, n, index);
        lemma_places_are_told(listed[p], attachments[index], update.statuses[index]);
        assert(in_the_way(listed[p], attachments[index]));
        if interfaces_differ(attachments) && binding_configured(listed[p], attachments) {
            let k = choose|k: int|
                0 <= k < attachments.len() && (#[trigger] attachments[k]).vni != 0 && in_place(
                    listed[p],
                    attachments[k],
                );
            assert(attachments[k].mac_address == attachments[index].mac_address);
        }
    }
    (i as nat, p)
}

/// A finished update has asked to delete every network of the last listing that nothing needs and
/// that has an id, and the server did so.
pub proof fn lemma_needless_networks_are_deleted(
    attachments: Seq<AstraAttachmentView>,
    replies: Seq<ReplyView>,
    i: nat,
    n: nat,
    p: int,
    id: Seq<char>,
) -> (t: nat)
    requires
        i < n <= replies.len(),
        progress_at(Some(attachments), replies, i) == Some(ProgressView::RelistingNetworks),
        step_at(Some(attachments), replies, n) is Done,
        lists_needless_network(replies[i as int], attachments, id, p),
    ensures
        t < n,
        request_at(Some(attachments), replies, t) == Some(RequestView::DeleteVirtualNetwork(id)),
        replies[t as int] matches ReplyView::DeleteVirtualNetwork(Ok(_)),
{
    let networks = replies[i as int]->ListVirtualNetworks_0->Ok_0;
    lemma_usable_id(networks[p].metadata, id);
    assert forall|k: int| 0 <= k < attachments.len() implies networks[p].vni() != Some(
        (#[trigger] attachments[k]).vni,
    ) by {
        assert(!has_vni(networks[p], attachments[k].vni));
    }
    assert(unwanted_network(networks[p], attachments, id));
    lemma_unwanted_networks_are_deleted(attachments, replies, i, networks, n, p, id);
    choose|t: nat| t < n && #[trigger] deletes_network(attachments, replies, t, id)
}

/// A finished update has asked to delete every attachment of the listing that is in place for no
/// configured one with a network and that has an id, and the server did so.
pub proof fn lemma_needless_attachments_are_deleted(
    attachments: Seq<AstraAttachmentView>,
    replies: Seq<ReplyView>,
    a: nat,
    n: nat,
    p: int,
    id: Seq<char>,
) -> (t: nat)
    requires
        a < n <= replies.len(),
        progress_at(Some(attachments), replies, a) == Some(ProgressView::ListingAttachments),
        step_at(Some(attachments), replies, n) is Done,
        lists_attachment(replies[a as int], id, p),
        !binding_configured(
            replies[a as int]->ListVirtualNetworkAttachments_0->Ok_0[p],
            attachments,
        ),
    ensures
        t < n,
        request_at(Some(attachments), replies, t) == Some(
            RequestView::DeleteVirtualNetworkAttachment(id),
        ),
        replies[t as int] matches ReplyView::DeleteVirtualNetworkAttachment(Ok(_)),
{
    let listed = replies[a as int]->ListVirtualNetworkAttachments_0->Ok_0;
    lemma_attachments_kept(attachments, replies, n);
    lemma_usable_id(listed[p].metadata, id);
    lemma_wanted_attachment_is_told(listed[p], attachments);
    lemma_unwanted_attachments_are_deleted(attachments, replies, a, listed, n, p, id);
    choose|t: nat| t < n && #[trigger] deletes_attachment(attachments, replies, t, id)
}

/// The attachment has an id, and the server deleted it by that id.
pub open spec fn cleared(
    attachments: Seq<AstraAttachmentView>,
    replies: Seq<ReplyView>,
    n: nat,
    gone: VirtualNetworkAttachmentView,
) -> bool {
    &&& !nameless(gone.metadata)
    &&& exists|i: nat|
        i < n && #[trigger] deletes_attachment(
            attachments,
            replies,
            i,
            gone.metadata->0.id->0,
        )
}

/// An attachment in the way is one of the listing at hand.
proof fn lemma_asked_in_listing(
    attachments: Seq<AstraAttachmentView>,
    replies: Seq<ReplyView>,
    a: nat,
    listed: Seq<VirtualNetworkAttachmentView>,
    i: nat,
)
    requires
        a < replies.len(),
        i <= replies.len(),
        progress_at(Some(attachments), replies, a) == Some(ProgressView::ListingAttachments),
        replies[a as int] == ReplyView::ListVirtualNetworkAttachments(Ok(listed)),
        progress_at(Some(attachments), replies, i) matches Some(progress)
            && progress is DeletingConflict,
    ensures
        progress_at(Some(attachments), replies, i)->0.listed() == Some(listed),
{
    lemma_attachments_kept(attachments, replies, i);
    if i <= a {
        lemma_stages_follow(attachments, replies, i, a);
    } else {
        lemma_attachments_heard(attachments, replies, a, listed, i);
    }
}

/// Before an attachment is created, every one of the listing that is in its way was asked away and
/// is gone, and none of the listing is in place.
pub proof fn lemma_creation_comes_after_conflicts(
    attachments: Seq<AstraAttachmentView>,
    replies: Seq<ReplyView>,
    a: nat,
    listed: Seq<VirtualNetworkAttachmentView>,
    n: nat,
    k: int,
)
    requires
        a < n <= replies.len(),
        progress_at(Some(attachments), replies, a) == Some(ProgressView::ListingAttachments),
        replies[a as int] == ReplyView::ListVirtualNetworkAttachments(Ok(listed)),
        progress_at(Some(attachments), replies, n) matches Some(
            ProgressView::CreatingAttachment { listed: l, deleted, index },
        ) && index == k,
    ensures
        0 <= k < attachments.len(),
        attachments[k].vni != 0,
        !some_in_place(listed, attachments[k]),
        forall|p: int|
            0 <= p < listed.len() && in_the_way(#[trigger] listed[p], attachments[k]) ==> cleared(
                attachments,
                replies,
                n,
                listed[p],
            ),
        !blocked(attachments, replies, n, listed, k),
        step_at(Some(attachments), replies, a)->update.statuses[k].ready(),
{
    lemma_attachments_heard(attachments, replies, a, listed, n);
    lemma_attachments_kept(attachments, replies, n);
    assert forall|p: int|
        0 <= p < listed.len() && in_the_way(#[trigger] listed[p], attachments[k]) implies cleared(
        attachments,
        replies,
        n,
        listed[p],
    ) by {
        assert(!still_in_the_way(attachments, replies, n, listed, k, p));
        let i = choose|i: nat| i < n && #[trigger] deletion_asked(attachments, replies, i, k, p);
        assert(!deletion_failed(attachments, replies, i, k, p));
        lemma_attachments_kept(attachments, replies, i);
        lemma_asked_in_listing(attachments, replies, a, listed, i);
        let id = listed[p].metadata->0.id->0;
        assert(request_at(Some(attachments), replies, i) == Some(
            RequestView::DeleteVirtualNetworkAttachment(id),
        ));
        assert(replies[i as int]->DeleteVirtualNetworkAttachment_0 is Ok);
        assert(deletes_attachment(attachments, replies, i, id));
    }
}

/// A stale object that cannot be deleted ends the update with the error of that call.
pub proof fn lemma_failed_stale_deletion_ends(
    attachments: Seq<AstraAttachmentView>,
    replies: Seq<ReplyView>,
    n: nat,
    error: Seq<char>,
)
    requires
        n < replies.len(),
    ensures
        progress_at(Some(attachments), replies, n) is Some && progress_at(
            Some(attachments),
            replies,
            n,
        )->0 is DeletingStaleAttachment && replies[n as int]
            == ReplyView::DeleteVirtualNetworkAttachment(Err(error)) ==> step_at(
            Some(attachments),
            replies,
            n + 1,
        ) == StepView::Failed(UpdateErrorView::StaleAttachment { error }),
        progress_at(Some(attachments), replies, n) is Some && progress_at(
            Some(attachments),
            replies,
            n,
        )->0 is DeletingStaleNetwork && replies[n as int] == ReplyView::DeleteVirtualNetwork(
            Err(error),
        ) ==> step_at(Some(attachments), replies, n + 1) == StepView::Failed(
            UpdateErrorView::StaleNetwork { error },
        ),
{
    reveal(step_at);
    lemma_attachments_kept(attachments, replies, n);
}

/// An update fails only by a VNI that cannot be reported, a list call that fails, or a stale
/// object that cannot be deleted: a failure to create or to clear the way is reported instead.
pub proof fn lemma_update_fails_by_lists_and_stale_objects(
    attachments: Seq<AstraAttachmentView>,
    replies: Seq<ReplyView>,
    n: nat,
)
    requires
        n < replies.len(),
        step_at(Some(attachments), replies, n) is Call,
    ensures
        step_at(Some(attachments), replies, n + 1) is Failed ==> match replies[n as int] {
            ReplyView::ListVirtualNetworks(Err(_)) => true,
            ReplyView::ListVirtualNetworkAttachments(Err(_)) => true,
            ReplyView::DeleteVirtualNetworkAttachment(Err(_)) => progress_at(
                Some(attachments),
                replies,
                n,
            )->0 is DeletingStaleAttachment,
            ReplyView::DeleteVirtualNetwork(Err(_)) => true,
            _ => false,
        },
{
    reveal(step_at);
    lemma_attachments_kept(attachments, replies, n);
}

/// The first VNI beyond the largest that can be reported fails the update before any call.
pub proof fn lemma_large_vni_fails(
    attachments: Seq<AstraAttachmentView>,
    replies: Seq<ReplyView>,
    n: nat,
    i: int,
)
    requires
        0 <= i < attachments.len(),
        attachments[i].vni >= 0x8000_0000,
        forall|k: int| 0 <= k < i ==> (#[trigger] attachments[k]).vni < 0x8000_0000,
    ensures
        step_at(Some(attachments), replies, n) == StepView::Failed(
            UpdateErrorView::VniOutOfRange { vni: attachments[i].vni },
        ),
{
    assert(first_misfit(attachments, i)) by {
        assert forall|k: int| 0 <= k < attachments.take(i).len() implies (
        #[trigger] attachments.take(i)[k]).vni <= i32::MAX by {
            assert(attachments[k].vni < 0x8000_0000);
        }
    }
    lemma_unreportable_vni(attachments, replies, n, i);
}

/// An id that was deleted because it was in the way is remembered while attachments are looked at.
proof fn lemma_cleared_is_remembered(
    attachments: Seq<AstraAttachmentView>,
    replies: Seq<ReplyView>,
    m: nat,
    n: nat,
    id: Seq<char>,
)
    requires
        m < n <= replies.len(),
        progress_at(Some(attachments), replies, m) matches Some(progress)
            && progress is DeletingConflict,
        request_at(Some(attachments), replies, m) == Some(
            RequestView::DeleteVirtualNetworkAttachment(id),
        ),
        replies[m as int] matches ReplyView::DeleteVirtualNetworkAttachment(Ok(_)),
    ensures
        progress_at(Some(attachments), replies, n) matches Some(progress) ==> (
        progress.deleted() matches Some(deleted) ==> deleted.contains(id)),
    decreases n,
{
    reveal(step_at);
    let before = (n - 1) as nat;
    lemma_attachments_kept(attachments, replies, before);
    if m < before {
        lemma_cleared_is_remembered(attachments, replies, m, before, id);
        lemma_attachments_kept(attachments, replies, m);
        lemma_stages_follow(attachments, replies, m, before);
        lemma_stages_follow(attachments, replies, before, n);
    }
    if let StepView::Call { update, request } = step_at(Some(attachments), replies, before) {
        lemma_attachments_kept(attachments, replies, n);
        if update.progress.deleted() is Some {
            lemma_step_remembers(update, replies[before as int]);
        }
    }
}

/// What was deleted because it was in the way is not deleted again as stale.
pub proof fn lemma_cleared_is_not_deleted_again(
    attachments: Seq<AstraAttachmentView>,
    replies: Seq<ReplyView>,
    m: nat,
    n: nat,
    id: Seq<char>,
)
    requires
        m < n <= replies.len(),
        progress_at(Some(attachments), replies, m) matches Some(progress)
            && progress is DeletingConflict,
        request_at(Some(attachments), replies, m) == Some(
            RequestView::DeleteVirtualNetworkAttachment(id),
        ),
        replies[m as int] matches ReplyView::DeleteVirtualNetworkAttachment(Ok(_)),
        progress_at(Some(attachments), replies, n) matches Some(progress)
            && progress is DeletingStaleAttachment,
    ensures
        request_at(Some(attachments), replies, n) != Some(
            RequestView::DeleteVirtualNetworkAttachment(id),
        ),
{
    lemma_cleared_is_remembered(attachments, replies, m, n, id);
    lemma_attachments_kept(attachments, replies, n);
}

} // verus!
