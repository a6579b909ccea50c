//! What is reported about attachments once they are visited, told by the replies of the Weave
//! server themselves.
use crate::astra::{AstraAttachmentStatusView, AstraAttachmentView};
use crate::attachments::{
    attachment_spec, conflicting, created_attachment_state, exact, exact_attachment,
    lemma_next_conflict, listed_attachment_state, next_conflict, remembering,
    undeleted_conflict_state, unnamed_conflict, unnamed_conflict_state, visit,
    AttachmentCreatedView, VisitView,
};
use crate::laws::{lemma_attachments_kept, lemma_stages_follow};
use crate::networks::{network_id, reporting_unready};
use crate::progress::{
    attachments_from, conflicts_from, lemma_attachments_from, lemma_conflicts_from,
    lemma_stale_attachments_from, lemma_stale_networks_from, step_after, ProgressView, StepView,
    UpdateView,
};
use crate::reports::{
    about, lemma_ready_is_reported, lemma_reporting_tells, lemma_statuses_are_about_attachments,
    lemma_unready_is_reported, one_attachment, reports_error, reports_state,
};
use crate::requests::{
    binding_defect, lemma_defect_of_attachment, lemma_network_id_names_vni, lemma_one_id_for_a_vni,
    lemma_specification_of_status, names_vni, says_how_to_bind,
};
use crate::runs::{lemma_step, progress_at, request_at, step_at};
use crate::service::{ReplyView, RequestView};
use crate::status::report_of;
use crate::weave::{usable_id, ObjectMetadataView, Phase, VirtualNetworkAttachmentView};
use vstd::prelude::*;

verus! {

/// The attachment on the server binds the interface of a configured one.
pub open spec fn on_interface(
    listed: VirtualNetworkAttachmentView,
    attachment: AstraAttachmentView,
) -> bool {
    listed.spec is Some && listed.spec->0.nic_id == attachment.mac_address
}

/// The attachment on the server binds the interface of a configured one to its network.
pub open spec fn in_place(
    listed: VirtualNetworkAttachmentView,
    attachment: AstraAttachmentView,
) -> bool {
    on_interface(listed, attachment) && names_vni(listed.spec->0.vnet_id, attachment.vni as int)
}

/// The attachment on the server binds the interface of a configured one to another network.
pub open spec fn in_the_way(
    listed: VirtualNetworkAttachmentView,
    attachment: AstraAttachmentView,
) -> bool {
    on_interface(listed, attachment) && !names_vni(listed.spec->0.vnet_id, attachment.vni as int)
}

/// The object has no id, or an empty one.
pub open spec fn nameless(metadata: Option<ObjectMetadataView>) -> bool {
    metadata is None || metadata->0.id is None || metadata->0.id->0.len() == 0
}

/// Which attachments are in place and which are in the way is told by interface and network.
pub proof fn lemma_places_are_told(
    listed: VirtualNetworkAttachmentView,
    attachment: AstraAttachmentView,
    status: AstraAttachmentStatusView,
)
    requires
        about(status, attachment),
    ensures
        exact(listed, status) <==> in_place(listed, attachment),
        conflicting(listed, status) <==> in_the_way(listed, attachment),
        usable_id(listed.metadata) is None <==> nameless(listed.metadata),
{
    lemma_network_id_names_vni(attachment.vni as int);
    if listed.spec is Some && names_vni(listed.spec->0.vnet_id, attachment.vni as int) {
        lemma_one_id_for_a_vni(
            listed.spec->0.vnet_id,
            network_id(attachment.vni as int),
            attachment.vni as int,
        );
    }
}

/// Position `p` holds the last attachment of a listing that is in place.
pub open spec fn last_in_place(
    listed: Seq<VirtualNetworkAttachmentView>,
    attachment: AstraAttachmentView,
    p: int,
) -> bool {
    &&& 0 <= p < listed.len()
    &&& in_place(listed[p], attachment)
    &&& forall|q: int| p < q < listed.len() ==> !in_place(#[trigger] listed[q], attachment)
}

/// Some attachment of a listing is in place.
pub open spec fn some_in_place(
    listed: Seq<VirtualNetworkAttachmentView>,
    attachment: AstraAttachmentView,
) -> bool {
    exists|p: int| 0 <= p < listed.len() && in_place(#[trigger] listed[p], attachment)
}

/// The exact attachment in a listing is the last one that is in place.
pub proof fn lemma_exact_attachment_is_last_in_place(
    listed: Seq<VirtualNetworkAttachmentView>,
    attachment: AstraAttachmentView,
    status: AstraAttachmentStatusView,
)
    requires
        about(status, attachment),
    ensures
        exact_attachment(listed, status) is Some <==> some_in_place(listed, attachment),
        exact_attachment(listed, status) matches Some(found) ==> exists|p: int| #[trigger]
            last_in_place(listed, attachment, p) && listed[p] == found,
    decreases listed.len(),
{
    if listed.len() > 0 {
        let rest = listed.drop_last();
        let last = listed.len() - 1;
        lemma_exact_attachment_is_last_in_place(rest, attachment, status);
        lemma_places_are_told(listed[last], attachment, status);
        if in_place(listed[last], attachment) {
            assert(last_in_place(listed, attachment, last));
        } else {
            if some_in_place(listed, attachment) {
                let p = choose|p: int|
                    0 <= p < listed.len() && in_place(#[trigger] listed[p], attachment);
                assert(in_place(rest[p], attachment));
            }
            if let Some(found) = exact_attachment(rest, status) {
                let p = choose|p: int| #[trigger]
                    last_in_place(rest, attachment, p) && rest[p] == found;
                assert forall|q: int| p < q < listed.len() implies !in_place(
                    #[trigger] listed[q],
                    attachment,
                ) by {
                    if q < last {
                        assert(rest[q] == listed[q]);
                    }
                }
                assert(in_place(listed[p], attachment));
                assert(last_in_place(listed, attachment, p));
            }
        }
    }
}

/// The call after the first `i` replies deletes the attachment at `p` of the listing, which is in
/// the way of the configured one at `k`, and it fails.
pub open spec fn deletion_failed(
    attachments: Seq<AstraAttachmentView>,
    replies: Seq<ReplyView>,
    i: nat,
    k: int,
    p: int,
) -> bool {
    match progress_at(Some(attachments), replies, i) {
        Some(ProgressView::DeletingConflict { listed, deleted, index, conflict, clean }) => {
            &&& index == k
            &&& conflict == p
            &&& replies[i as int] matches ReplyView::DeleteVirtualNetworkAttachment(Err(_))
        },
        _ => false,
    }
}

/// The call after the first `i` replies deletes the attachment at `p` of the listing, which is in
/// the way of the configured one at `k`, and it is answered.
pub open spec fn deletion_asked(
    attachments: Seq<AstraAttachmentView>,
    replies: Seq<ReplyView>,
    i: nat,
    k: int,
    p: int,
) -> bool {
    match progress_at(Some(attachments), replies, i) {
        Some(ProgressView::DeletingConflict { listed, deleted, index, conflict, clean }) => {
            &&& index == k
            &&& conflict == p
            &&& replies[i as int] is DeleteVirtualNetworkAttachment
            &&& request_at(Some(attachments), replies, i) == Some(
                RequestView::DeleteVirtualNetworkAttachment(listed[p].metadata->0.id->0),
            )
        },
        _ => false,
    }
}

/// Every attachment of the listing before `to` that is in the way of the configured one at `k`
/// and that can be named was asked away.
pub open spec fn way_asked(
    attachments: Seq<AstraAttachmentView>,
    replies: Seq<ReplyView>,
    n: nat,
    listed: Seq<VirtualNetworkAttachmentView>,
    k: int,
    to: int,
) -> bool {
    forall|p: int|
        0 <= p < to && p < listed.len() && in_the_way(#[trigger] listed[p], attachments[k])
            && !nameless(listed[p].metadata) ==> exists|i: nat|
            i < n && #[trigger] deletion_asked(attachments, replies, i, k, p)
}

/// What was asked away stays so.
proof fn lemma_way_asked_stays(
    attachments: Seq<AstraAttachmentView>,
    replies: Seq<ReplyView>,
    n: nat,
    listed: Seq<VirtualNetworkAttachmentView>,
    k: int,
    to: int,
)
    requires
        way_asked(attachments, replies, n, listed, k, to),
    ensures
        way_asked(attachments, replies, n + 1, listed, k, to),
{
    assert forall|p: int|
        0 <= p < to && p < listed.len() && in_the_way(#[trigger] listed[p], attachments[k])
            && !nameless(listed[p].metadata) implies exists|i: nat|
        i < n + 1 && #[trigger] deletion_asked(attachments, replies, i, k, p) by {
        let i = choose|i: nat| i < n && #[trigger] deletion_asked(attachments, replies, i, k, p);
        assert(i < n + 1 && deletion_asked(attachments, replies, i, k, p));
    }
}

/// The attachment at `p` of the listing is in the way of the configured one at `k`, and it is not
/// gone: it cannot be named, or its deletion failed.
pub open spec fn still_in_the_way(
    attachments: Seq<AstraAttachmentView>,
    replies: Seq<ReplyView>,
    n: nat,
    listed: Seq<VirtualNetworkAttachmentView>,
    k: int,
    p: int,
) -> bool {
    &&& 0 <= p < listed.len()
    &&& in_the_way(listed[p], attachments[k])
    &&& nameless(listed[p].metadata) || exists|i: nat|
        i < n && #[trigger] deletion_failed(attachments, replies, i, k, p)
}

/// Some attachment of the listing is still in the way of the configured one at `k`.
pub open spec fn blocked(
    attachments: Seq<AstraAttachmentView>,
    replies: Seq<ReplyView>,
    n: nat,
    listed: Seq<VirtualNetworkAttachmentView>,
    k: int,
) -> bool {
    exists|p: int| #[trigger] still_in_the_way(attachments, replies, n, listed, k, p)
}

/// The report tells that an attachment is still in the way: one that cannot be named, or one
/// whose deletion failed, with the error of that call.
pub open spec fn reports_block(
    attachments: Seq<AstraAttachmentView>,
    replies: Seq<ReplyView>,
    n: nat,
    listed: Seq<VirtualNetworkAttachmentView>,
    k: int,
    status: AstraAttachmentStatusView,
) -> bool {
    ||| reports_error(
        status,
        "Missing Doca Weave attachment ID"@,
        "delete_virtual_network_attachment"@,
    ) && exists|p: int|
        0 <= p < listed.len() && in_the_way(#[trigger] listed[p], attachments[k]) && nameless(
            listed[p].metadata,
        )
    ||| exists|i: nat, p: int|
        i < n && #[trigger] deletion_failed(attachments, replies, i, k, p) && 0 <= p < listed.len()
            && in_the_way(listed[p], attachments[k]) && reports_error(
            status,
            "Failed to delete mismatched Doca Weave attachment"@,
            "delete_virtual_network_attachment: "@
                + replies[i as int]->DeleteVirtualNetworkAttachment_0->Err_0,
        )
}

/// The report tells the state that a listed attachment holds, or that it holds none.
pub open spec fn reports_listed(
    status: AstraAttachmentStatusView,
    listed: VirtualNetworkAttachmentView,
) -> bool {
    if listed.status is Some && listed.status->0.state is Some {
        reports_state(status, listed.status->0.state->0)
    } else {
        reports_error(
            status,
            "Missing Doca Weave Server Status State"@,
            "list_virtual_network_attachments"@,
        )
    }
}

/// The status after the call that creates the attachment: a state other than ready in the reply
/// is reported, and so are a reply without one and an error; otherwise nothing changes.
pub open spec fn follows_creation(
    earlier: AstraAttachmentStatusView,
    later: AstraAttachmentStatusView,
    reply: AttachmentCreatedView,
) -> bool {
    &&& one_attachment(earlier, later)
    &&& match reply {
        Err(error) => reports_error(
            later,
            "API Failed"@,
            "create_virtual_network_attachment: "@ + error,
        ),
        Ok(Some(attachment)) if attachment.status is Some && attachment.status->0.state is Some =>
            if attachment.status->0.state->0.phase == Phase::Ready {
                later == earlier
            } else {
                reports_state(later, attachment.status->0.state->0)
            },
        _ => reports_error(
            later,
            "Missing Doca Weave Server Status State"@,
            "create_virtual_network_attachment"@,
        ),
    }
}

/// The reply to the call that creates an attachment decides what is recorded of it.
pub proof fn lemma_creation_is_recorded_as_told(
    earlier: AstraAttachmentStatusView,
    reply: AttachmentCreatedView,
)
    ensures
        follows_creation(
            earlier,
            reporting_unready(earlier, created_attachment_state(reply)),
            reply,
        ),
        reporting_unready(earlier, created_attachment_state(reply)).ready() ==> {
            &&& earlier.ready()
            &&& reply matches Ok(Some(attachment)) && attachment.status matches Some(status)
                && status.state matches Some(state) && state.phase == Phase::Ready
        },
{
    let state = created_attachment_state(reply);
    lemma_unready_is_reported(earlier, state);
    lemma_ready_is_reported(reporting_unready(earlier, state));
}

/// The call after the first `i` replies creates the attachment at `k`, and this is what its reply
/// leaves of the status.
pub open spec fn created_as_told(
    attachments: Seq<AstraAttachmentView>,
    replies: Seq<ReplyView>,
    i: nat,
    k: int,
    earlier: AstraAttachmentStatusView,
    later: AstraAttachmentStatusView,
) -> bool {
    &&& progress_at(Some(attachments), replies, i) matches Some(
        ProgressView::CreatingAttachment { listed, deleted, index },
    ) && index == k
    &&& match replies[i as int] {
        ReplyView::CreateVirtualNetworkAttachment(reply) => follows_creation(
            earlier,
            later,
            reply,
        ),
        _ => false,
    }
}

/// What is reported about the attachment at `k` in the end, given what was reported when the
/// attachments were listed. One that was not ready then is left as it was. Otherwise all that are
/// in its way and can be named were asked away and, in this order: an attachment that is still in
/// the way is reported; the one in place is reported; without a network nothing changes; a defect
/// of the configuration is reported; and at last the reply to the call that creates it decides.
pub open spec fn attachment_reported(
    attachments: Seq<AstraAttachmentView>,
    replies: Seq<ReplyView>,
    n: nat,
    listed: Seq<VirtualNetworkAttachmentView>,
    k: int,
    earlier: AstraAttachmentStatusView,
    later: AstraAttachmentStatusView,
) -> bool {
    let attachment = attachments[k];
    &&& about(later, attachment)
    &&& earlier.ready() ==> way_asked(
        attachments,
        replies,
        n,
        listed,
        k,
        listed.len() as int,
    )
    &&& if !earlier.ready() {
        later == earlier
    } else if blocked(attachments, replies, n, listed, k) {
        reports_block(attachments, replies, n, listed, k, later)
    } else if some_in_place(listed, attachment) {
        exists|p: int| #[trigger]
            last_in_place(listed, attachment, p) && reports_listed(later, listed[p])
    } else if attachment.vni == 0 {
        later == earlier
    } else if !says_how_to_bind(
        attachment.attachment_type,
        attachment.virtual_function_id,
        attachment.network_name,
    ) {
        reports_error(
            later,
            binding_defect(attachment.attachment_type, attachment.virtual_function_id),
            "create_virtual_network_attachment"@,
        )
    } else {
        exists|i: nat| i < n && #[trigger] created_as_told(
            attachments,
            replies,
            i,
            k,
            earlier,
            later,
        )
    }
}

/// The visit of the attachment at `k` stands before position `from` of the listing.
pub open spec fn visit_stands(
    attachments: Seq<AstraAttachmentView>,
    replies: Seq<ReplyView>,
    n: nat,
    listed: Seq<VirtualNetworkAttachmentView>,
    k: int,
    earlier: AstraAttachmentStatusView,
    status: AstraAttachmentStatusView,
    from: int,
    clean: bool,
) -> bool {
    &&& about(earlier, attachments[k])
    &&& about(status, attachments[k])
    &&& earlier.ready()
    &&& way_asked(attachments, replies, n, listed, k, from)
    &&& forall|i: nat, p: int|
        i < n && from <= p ==> !#[trigger] deletion_failed(attachments, replies, i, k, p)
    &&& if clean {
        &&& status == earlier
        &&& forall|p: int|
            p < from ==> !#[trigger] still_in_the_way(attachments, replies, n, listed, k, p)
    } else {
        &&& blocked(attachments, replies, n, listed, k)
        &&& reports_block(attachments, replies, n, listed, k, status)
    }
}

/// The attachment at `k` must be created: nothing is in its way, and none is in place.
pub open spec fn creation_stands(
    attachments: Seq<AstraAttachmentView>,
    replies: Seq<ReplyView>,
    n: nat,
    listed: Seq<VirtualNetworkAttachmentView>,
    k: int,
    earlier: AstraAttachmentStatusView,
    status: AstraAttachmentStatusView,
) -> bool {
    let attachment = attachments[k];
    &&& about(earlier, attachment)
    &&& earlier.ready()
    &&& status == earlier
    &&& way_asked(attachments, replies, n, listed, k, listed.len() as int)
    &&& !blocked(attachments, replies, n, listed, k)
    &&& !some_in_place(listed, attachment)
    &&& attachment.vni != 0
    &&& says_how_to_bind(
        attachment.attachment_type,
        attachment.virtual_function_id,
        attachment.network_name,
    )
}

/// A visit goes on to the next attachment in the way that can be named, or to its end.
proof fn lemma_visit_goes_on(
    attachments: Seq<AstraAttachmentView>,
    replies: Seq<ReplyView>,
    n: nat,
    listed: Seq<VirtualNetworkAttachmentView>,
    k: int,
    earlier: AstraAttachmentStatusView,
    status: AstraAttachmentStatusView,
    from: int,
    clean: bool,
)
    requires
        0 <= from <= listed.len(),
        visit_stands(attachments, replies, n, listed, k, earlier, status, from, clean),
    ensures
        ({
            let (visited, stop) = visit(status, listed, from, clean);
            match stop {
                VisitView::Conflict { position, clean: still } => from <= position < listed.len()
                    && visit_stands(
                    attachments,
                    replies,
                    n,
                    listed,
                    k,
                    earlier,
                    visited,
                    position,
                    still,
                ),
                VisitView::Creation => creation_stands(
                    attachments,
                    replies,
                    n,
                    listed,
                    k,
                    earlier,
                    visited,
                ),
                VisitView::Settled => attachment_reported(
                    attachments,
                    replies,
                    n,
                    listed,
                    k,
                    earlier,
                    visited,
                ),
            }
        }),
{
    let attachment = attachments[k];
    let (visited, stop) = visit(status, listed, from, clean);
    let position = next_conflict(listed, status, from);
    lemma_next_conflict(listed, status, from);
    assert forall|p: int| 0 <= p < listed.len() implies (conflicting(
        #[trigger] listed[p],
        status,
    ) <==> in_the_way(listed[p], attachment)) && (usable_id(listed[p].metadata) is None
        <==> nameless(listed[p].metadata)) by {
        lemma_places_are_told(listed[p], attachment, status);
    }
    assert(way_asked(attachments, replies, n, listed, k, position)) by {
        assert forall|p: int|
            0 <= p < position && p < listed.len() && in_the_way(
                #[trigger] listed[p],
                attachments[k],
            ) && !nameless(listed[p].metadata) implies exists|i: nat|
            i < n && #[trigger] deletion_asked(attachments, replies, i, k, p) by {
            assert(conflicting(listed[p], status));
            assert(p < from);
        }
    }
    if unnamed_conflict(listed, status, from, position) {
        let p = choose|p: int|
            from <= p < position && conflicting(#[trigger] listed[p], status) && usable_id(
                listed[p].metadata,
            ) is None;
        assert(in_the_way(listed[p], attachment) && nameless(listed[p].metadata));
        assert(still_in_the_way(attachments, replies, n, listed, k, p));
        lemma_reporting_tells(status, unnamed_conflict_state());
        let told = status.reporting(report_of(unnamed_conflict_state()));
        assert(reports_error(
            told,
            "Missing Doca Weave attachment ID"@,
            "delete_virtual_network_attachment"@,
        ));
        assert(reports_block(attachments, replies, n, listed, k, told));
    } else if clean {
        assert forall|p: int| p < position implies !#[trigger] still_in_the_way(
            attachments,
            replies,
            n,
            listed,
            k,
            p,
        ) by {
            if from <= p && still_in_the_way(attachments, replies, n, listed, k, p) {
                assert(conflicting(listed[p], status));
            }
        }
        if position == listed.len() {
            assert(!blocked(attachments, replies, n, listed, k));
            lemma_exact_attachment_is_last_in_place(listed, attachment, status);
            lemma_specification_of_status(status);
            lemma_defect_of_attachment(status);
            if let Some(found) = exact_attachment(listed, status) {
                let p = choose|p: int| #[trigger]
                    last_in_place(listed, attachment, p) && listed[p] == found;
                lemma_reporting_tells(status, listed_attachment_state(found));
                assert(last_in_place(listed, attachment, p) && reports_listed(
                    visited,
                    listed[p],
                ));
            } else if attachment.vni != 0 {
                if let Err(state) = attachment_spec(status) {
                    lemma_reporting_tells(status, state);
                }
            }
        }
    }
}

/// No deletion for the attachments from `from` on has failed.
pub open spec fn no_failure_from(
    attachments: Seq<AstraAttachmentView>,
    replies: Seq<ReplyView>,
    n: nat,
    from: int,
) -> bool {
    forall|i: nat, k: int, p: int|
        i < n && from <= k ==> !#[trigger] deletion_failed(attachments, replies, i, k, p)
}

/// What an update has heard of attachments, when it stands at this step after `n` replies.
pub open spec fn attachments_heard(
    attachments: Seq<AstraAttachmentView>,
    replies: Seq<ReplyView>,
    n: nat,
    listed: Seq<VirtualNetworkAttachmentView>,
    earlier: Seq<AstraAttachmentStatusView>,
    update: UpdateView,
) -> bool {
    let visited = update.progress.visited(attachments.len());
    &&& update.statuses.len() == attachments.len()
    &&& forall|k: int|
        0 <= k < visited ==> attachment_reported(
            attachments,
            replies,
            n,
            listed,
            k,
            earlier[k],
            #[trigger] update.statuses[k],
        )
    &&& forall|k: int|
        visited < k < attachments.len() ==> #[trigger] update.statuses[k] == earlier[k]
    &&& no_failure_from(attachments, replies, n, visited + 1)
    &&& match update.progress {
        ProgressView::DeletingConflict { listed: l, deleted, index, conflict, clean } => {
            &&& l == listed
            &&& 0 <= index < attachments.len()
            &&& 0 <= conflict < listed.len()
            &&& visit_stands(
                attachments,
                replies,
                n,
                listed,
                index,
                earlier[index],
                update.statuses[index],
                conflict,
                clean,
            )
        },
        ProgressView::CreatingAttachment { listed: l, deleted, index } => {
            &&& l == listed
            &&& 0 <= index < attachments.len()
            &&& creation_stands(
                attachments,
                replies,
                n,
                listed,
                index,
                earlier[index],
                update.statuses[index],
            )
        },
        _ => true,
    }
}

/// An attachment stays in the way or out of it where the call at hand is for another one, or does
/// not fail.
proof fn lemma_blocked_stays(
    attachments: Seq<AstraAttachmentView>,
    replies: Seq<ReplyView>,
    n: nat,
    listed: Seq<VirtualNetworkAttachmentView>,
    k: int,
)
    requires
        forall|p: int| !#[trigger] deletion_failed(attachments, replies, n, k, p),
    ensures
        forall|p: int| #[trigger]
            still_in_the_way(attachments, replies, n + 1, listed, k, p) <==> still_in_the_way(
                attachments,
                replies,
                n,
                listed,
                k,
                p,
            ),
        blocked(attachments, replies, n + 1, listed, k) <==> blocked(
            attachments,
            replies,
            n,
            listed,
            k,
        ),
{
    assert forall|p: int| #[trigger]
        still_in_the_way(attachments, replies, n + 1, listed, k, p) <==> still_in_the_way(
            attachments,
            replies,
            n,
            listed,
            k,
            p,
        ) by {
        if still_in_the_way(attachments, replies, n + 1, listed, k, p) && !nameless(
            listed[p].metadata,
        ) {
            let i = choose|i: nat|
                i < n + 1 && #[trigger] deletion_failed(attachments, replies, i, k, p);
            assert(i < n);
        }
        if still_in_the_way(attachments, replies, n, listed, k, p) && !nameless(
            listed[p].metadata,
        ) {
            let i = choose|i: nat|
                i < n && #[trigger] deletion_failed(attachments, replies, i, k, p);
            assert(i < n + 1);
        }
    }
    if blocked(attachments, replies, n + 1, listed, k) {
        let p = choose|p: int| #[trigger]
            still_in_the_way(attachments, replies, n + 1, listed, k, p);
        assert(still_in_the_way(attachments, replies, n, listed, k, p));
    }
    if blocked(attachments, replies, n, listed, k) {
        let p = choose|p: int| #[trigger]
            still_in_the_way(attachments, replies, n, listed, k, p);
        assert(still_in_the_way(attachments, replies, n + 1, listed, k, p));
    }
}

/// A report that an attachment is in the way stays true.
proof fn lemma_reports_block_stays(
    attachments: Seq<AstraAttachmentView>,
    replies: Seq<ReplyView>,
    n: nat,
    listed: Seq<VirtualNetworkAttachmentView>,
    k: int,
    status: AstraAttachmentStatusView,
)
    requires
        reports_block(attachments, replies, n, listed, k, status),
    ensures
        reports_block(attachments, replies, n + 1, listed, k, status),
{
    if !(reports_error(
        status,
        "Missing Doca Weave attachment ID"@,
        "delete_virtual_network_attachment"@,
    ) && exists|p: int|
        0 <= p < listed.len() && in_the_way(#[trigger] listed[p], attachments[k]) && nameless(
            listed[p].metadata,
        )) {
        let (i, p) = choose|i: nat, p: int|
            i < n && #[trigger] deletion_failed(attachments, replies, i, k, p) && 0 <= p
                < listed.len() && in_the_way(listed[p], attachments[k]) && reports_error(
                status,
                "Failed to delete mismatched Doca Weave attachment"@,
                "delete_virtual_network_attachment: "@
                    + replies[i as int]->DeleteVirtualNetworkAttachment_0->Err_0,
            );
        assert(i < n + 1 && deletion_failed(attachments, replies, i, k, p));
    }
}

/// What is reported about an attachment stays true where the call at hand is for another one.
proof fn lemma_attachment_reported_stays(
    attachments: Seq<AstraAttachmentView>,
    replies: Seq<ReplyView>,
    n: nat,
    listed: Seq<VirtualNetworkAttachmentView>,
    k: int,
    earlier: AstraAttachmentStatusView,
    later: AstraAttachmentStatusView,
)
    requires
        forall|p: int| !#[trigger] deletion_failed(attachments, replies, n, k, p),
        attachment_reported(attachments, replies, n, listed, k, earlier, later),
    ensures
        attachment_reported(attachments, replies, n + 1, listed, k, earlier, later),
{
    let attachment = attachments[k];
    lemma_blocked_stays(attachments, replies, n, listed, k);
    if earlier.ready() {
        lemma_way_asked_stays(attachments, replies, n, listed, k, listed.len() as int);
        if blocked(attachments, replies, n, listed, k) {
            lemma_reports_block_stays(attachments, replies, n, listed, k, later);
        } else if !some_in_place(listed, attachment) && attachment.vni != 0 && says_how_to_bind(
            attachment.attachment_type,
            attachment.virtual_function_id,
            attachment.network_name,
        ) {
            let i = choose|i: nat|
                i < n && #[trigger] created_as_told(attachments, replies, i, k, earlier, later);
            assert(i < n + 1 && created_as_told(attachments, replies, i, k, earlier, later));
        }
    }
}

/// Visiting attachments reports what the listing tells of them, up to the next call.
proof fn lemma_attachments_from_heard(
    attachments: Seq<AstraAttachmentView>,
    replies: Seq<ReplyView>,
    n: nat,
    listed: Seq<VirtualNetworkAttachmentView>,
    earlier: Seq<AstraAttachmentStatusView>,
    statuses: Seq<AstraAttachmentStatusView>,
    deleted: Seq<Seq<char>>,
    from: int,
)
    requires
        0 <= from <= statuses.len(),
        statuses.len() == attachments.len(),
        earlier.len() == attachments.len(),
        forall|k: int| 0 <= k < earlier.len() ==> about(#[trigger] earlier[k], attachments[k]),
        forall|k: int|
            0 <= k < from ==> attachment_reported(
                attachments,
                replies,
                n,
                listed,
                k,
                earlier[k],
                #[trigger] statuses[k],
            ),
        forall|k: int| from <= k < statuses.len() ==> #[trigger] statuses[k] == earlier[k],
        no_failure_from(attachments, replies, n, from),
    ensures
        attachments_heard(
            attachments,
            replies,
            n,
            listed,
            earlier,
            attachments_from(statuses, listed, deleted, from),
        ),
    decreases statuses.len() - from,
{
    if from >= statuses.len() {
        lemma_stale_attachments_from(statuses, listed, deleted, 0);
    } else if !statuses[from].ready() {
        assert(statuses[from] == earlier[from]);
        lemma_attachments_from_heard(
            attachments,
            replies,
            n,
            listed,
            earlier,
            statuses,
            deleted,
            from + 1,
        );
    } else {
        assert(statuses[from] == earlier[from]);
        assert(visit_stands(
            attachments,
            replies,
            n,
            listed,
            from,
            earlier[from],
            statuses[from],
            0,
            true,
        ));
        lemma_visit_goes_on(
            attachments,
            replies,
            n,
            listed,
            from,
            earlier[from],
            statuses[from],
            0,
            true,
        );
        let (visited, stop) = visit(statuses[from], listed, 0, true);
        let updated = statuses.update(from, visited);
        if stop is Settled {
            lemma_attachments_from_heard(
                attachments,
                replies,
                n,
                listed,
                earlier,
                updated,
                deleted,
                from + 1,
            );
        }
    }
}

/// Going on with a visit reports what the listing tells, up to the next call.
proof fn lemma_conflicts_from_heard(
    attachments: Seq<AstraAttachmentView>,
    replies: Seq<ReplyView>,
    n: nat,
    listed: Seq<VirtualNetworkAttachmentView>,
    earlier: Seq<AstraAttachmentStatusView>,
    statuses: Seq<AstraAttachmentStatusView>,
    deleted: Seq<Seq<char>>,
    index: int,
    from: int,
    clean: bool,
)
    requires
        0 <= index < statuses.len(),
        0 <= from <= listed.len(),
        statuses.len() == attachments.len(),
        earlier.len() == attachments.len(),
        forall|k: int| 0 <= k < earlier.len() ==> about(#[trigger] earlier[k], attachments[k]),
        forall|k: int|
            0 <= k < index ==> attachment_reported(
                attachments,
                replies,
                n,
                listed,
                k,
                earlier[k],
                #[trigger] statuses[k],
            ),
        forall|k: int| index < k < statuses.len() ==> #[trigger] statuses[k] == earlier[k],
        no_failure_from(attachments, replies, n, index + 1),
        visit_stands(
            attachments,
            replies,
            n,
            listed,
            index,
            earlier[index],
            statuses[index],
            from,
            clean,
        ),
    ensures
        attachments_heard(
            attachments,
            replies,
            n,
            listed,
            earlier,
            conflicts_from(statuses, listed, deleted, index, from, clean),
        ),
{
    lemma_visit_goes_on(
        attachments,
        replies,
        n,
        listed,
        index,
        earlier[index],
        statuses[index],
        from,
        clean,
    );
    let (visited, stop) = visit(statuses[index], listed, from, clean);
    let updated = statuses.update(index, visited);
    if stop is Settled {
        lemma_attachments_from_heard(
            attachments,
            replies,
            n,
            listed,
            earlier,
            updated,
            deleted,
            index + 1,
        );
    }
}

/// A call that is not the deletion of an attachment in the way of the one at `index` leaves what
/// was heard of the earlier ones.
proof fn lemma_others_stay_heard(
    attachments: Seq<AstraAttachmentView>,
    replies: Seq<ReplyView>,
    n: nat,
    listed: Seq<VirtualNetworkAttachmentView>,
    earlier: Seq<AstraAttachmentStatusView>,
    update: UpdateView,
)
    requires
        step_at(Some(attachments), replies, n) == update.waiting(),
        attachments_heard(attachments, replies, n, listed, earlier, update),
    ensures
        forall|k: int|
            0 <= k < update.progress.visited(attachments.len()) ==> attachment_reported(
                attachments,
                replies,
                n + 1,
                listed,
                k,
                earlier[k],
                #[trigger] update.statuses[k],
            ),
        no_failure_from(
            attachments,
            replies,
            n + 1,
            update.progress.visited(attachments.len()) + 1,
        ),
{
    let visited = update.progress.visited(attachments.len());
    assert forall|k: int| 0 <= k < visited implies attachment_reported(
        attachments,
        replies,
        n + 1,
        listed,
        k,
        earlier[k],
        #[trigger] update.statuses[k],
    ) by {
        assert forall|p: int| !#[trigger] deletion_failed(attachments, replies, n, k, p) by {}
        lemma_attachment_reported_stays(
            attachments,
            replies,
            n,
            listed,
            k,
            earlier[k],
            update.statuses[k],
        );
    }
    assert forall|i: nat, k: int, p: int| i < n + 1 && visited + 1 <= k implies
        !#[trigger] deletion_failed(attachments, replies, i, k, p) by {
        if i < n {
            assert(no_failure_from(attachments, replies, n, visited + 1));
        }
    }
}

/// After the deletion of an attachment in the way, what is heard is what the reply tells.
proof fn lemma_deletion_heard(
    attachments: Seq<AstraAttachmentView>,
    replies: Seq<ReplyView>,
    n: nat,
    listed: Seq<VirtualNetworkAttachmentView>,
    earlier: Seq<AstraAttachmentStatusView>,
    update: UpdateView,
)
    requires
        earlier.len() == attachments.len(),
        forall|k: int| 0 <= k < earlier.len() ==> about(#[trigger] earlier[k], attachments[k]),
        step_at(Some(attachments), replies, n) == update.waiting(),
        update.wf(),
        update.progress is DeletingConflict,
        attachments_heard(attachments, replies, n, listed, earlier, update),
        replies[n as int] is DeleteVirtualNetworkAttachment,
    ensures
        step_after(update, replies[n as int]) matches StepView::Call { update: next, request }
            && attachments_heard(attachments, replies, n + 1, listed, earlier, next),
{
    let statuses = update.statuses;
    lemma_others_stay_heard(attachments, replies, n, listed, earlier, update);
    if let ProgressView::DeletingConflict { listed: l, deleted, index, conflict, clean } =
        update.progress {
        let old_status = statuses[index];
        lemma_places_are_told(listed[conflict], attachments[index], old_status);
        assert forall|i: nat, p: int| i < n + 1 && conflict + 1 <= p implies
            !#[trigger] deletion_failed(attachments, replies, i, index, p) by {
            if i < n {
                assert(conflict <= p);
            }
        }
        lemma_way_asked_stays(attachments, replies, n, listed, index, conflict);
        assert(deletion_asked(attachments, replies, n, index, conflict));
        assert(way_asked(attachments, replies, n + 1, listed, index, conflict + 1));
        match replies[n as int]->DeleteVirtualNetworkAttachment_0 {
            Ok(_) => {
                assert forall|p: int| !#[trigger] deletion_failed(
                    attachments,
                    replies,
                    n,
                    index,
                    p,
                ) by {}
                lemma_blocked_stays(attachments, replies, n, listed, index);
                if clean {
                    assert forall|p: int| p < conflict + 1 implies !#[trigger] still_in_the_way(
                        attachments,
                        replies,
                        n + 1,
                        listed,
                        index,
                        p,
                    ) by {
                        if p == conflict && still_in_the_way(
                            attachments,
                            replies,
                            n + 1,
                            listed,
                            index,
                            p,
                        ) {
                            let i = choose|i: nat|
                                i < n + 1 && #[trigger] deletion_failed(
                                    attachments,
                                    replies,
                                    i,
                                    index,
                                    p,
                                );
                            assert(i < n);
                        } else if p < conflict {
                            assert(!still_in_the_way(attachments, replies, n, listed, index, p));
                        }
                    }
                } else {
                    lemma_reports_block_stays(attachments, replies, n, listed, index, old_status);
                }
                lemma_conflicts_from_heard(
                    attachments,
                    replies,
                    n + 1,
                    listed,
                    earlier,
                    statuses,
                    remembering(deleted, usable_id(listed[conflict].metadata)->0),
                    index,
                    conflict + 1,
                    clean,
                );
            },
            Err(error) => {
                let told = old_status.reporting(report_of(undeleted_conflict_state(error)));
                lemma_reporting_tells(old_status, undeleted_conflict_state(error));
                assert(deletion_failed(attachments, replies, n, index, conflict));
                assert(still_in_the_way(attachments, replies, n + 1, listed, index, conflict));
                assert(reports_error(
                    told,
                    "Failed to delete mismatched Doca Weave attachment"@,
                    "delete_virtual_network_attachment: "@ + error,
                ));
                assert(reports_block(attachments, replies, n + 1, listed, index, told));
                let recorded = statuses.update(index, told);
                lemma_conflicts_from_heard(
                    attachments,
                    replies,
                    n + 1,
                    listed,
                    earlier,
                    recorded,
                    deleted,
                    index,
                    conflict + 1,
                    false,
                );
            },
        }
    }
}

/// After the creation of an attachment, what is heard is what the reply tells.
proof fn lemma_attachment_creation_heard(
    attachments: Seq<AstraAttachmentView>,
    replies: Seq<ReplyView>,
    n: nat,
    listed: Seq<VirtualNetworkAttachmentView>,
    earlier: Seq<AstraAttachmentStatusView>,
    update: UpdateView,
)
    requires
        earlier.len() == attachments.len(),
        forall|k: int| 0 <= k < earlier.len() ==> about(#[trigger] earlier[k], attachments[k]),
        step_at(Some(attachments), replies, n) == update.waiting(),
        update.wf(),
        update.progress is CreatingAttachment,
        attachments_heard(attachments, replies, n, listed, earlier, update),
        replies[n as int] is CreateVirtualNetworkAttachment,
    ensures
        step_after(update, replies[n as int]) matches StepView::Call { update: next, request }
            && attachments_heard(attachments, replies, n + 1, listed, earlier, next),
{
    let statuses = update.statuses;
    lemma_others_stay_heard(attachments, replies, n, listed, earlier, update);
    if let ProgressView::CreatingAttachment { listed: l, deleted, index } = update.progress {
        let created = replies[n as int]->CreateVirtualNetworkAttachment_0;
        let told = reporting_unready(statuses[index], created_attachment_state(created));
        lemma_creation_is_recorded_as_told(statuses[index], created);
        assert(created_as_told(attachments, replies, n, index, earlier[index], told));
        assert forall|p: int| !#[trigger] deletion_failed(
            attachments,
            replies,
            n,
            index,
            p,
        ) by {}
        lemma_blocked_stays(attachments, replies, n, listed, index);
        lemma_way_asked_stays(
            attachments,
            replies,
            n,
            listed,
            index,
            listed.len() as int,
        );
        let recorded = statuses.update(index, told);
        assert(attachment_reported(
            attachments,
            replies,
            n + 1,
            listed,
            index,
            earlier[index],
            told,
        ));
        lemma_attachments_from_heard(
            attachments,
            replies,
            n + 1,
            listed,
            earlier,
            recorded,
            deleted,
            index + 1,
        );
    }
}

/// What was heard of attachments stays true where the reply changes nothing about them.
proof fn lemma_attachments_heard_stays(
    attachments: Seq<AstraAttachmentView>,
    replies: Seq<ReplyView>,
    n: nat,
    listed: Seq<VirtualNetworkAttachmentView>,
    earlier: Seq<AstraAttachmentStatusView>,
    update: UpdateView,
)
    requires
        step_at(Some(attachments), replies, n) == update.waiting(),
        attachments_heard(attachments, replies, n, listed, earlier, update),
        !(replies[n as int] is DeleteVirtualNetworkAttachment)
            || !(update.progress is DeletingConflict),
    ensures
        attachments_heard(attachments, replies, n + 1, listed, earlier, update),
{
    lemma_others_stay_heard(attachments, replies, n, listed, earlier, update);
    match update.progress {
        ProgressView::DeletingConflict { listed: l, deleted, index, conflict, clean } => {
            assert forall|p: int| !#[trigger] deletion_failed(
                attachments,
                replies,
                n,
                index,
                p,
            ) by {}
            lemma_blocked_stays(attachments, replies, n, listed, index);
            lemma_way_asked_stays(attachments, replies, n, listed, index, conflict);
            if !clean {
                lemma_reports_block_stays(
                    attachments,
                    replies,
                    n,
                    listed,
                    index,
                    update.statuses[index],
                );
            }
        },
        ProgressView::CreatingAttachment { listed: l, deleted, index } => {
            assert forall|p: int| !#[trigger] deletion_failed(
                attachments,
                replies,
                n,
                index,
                p,
            ) by {}
            lemma_blocked_stays(attachments, replies, n, listed, index);
            lemma_way_asked_stays(
                attachments,
                replies,
                n,
                listed,
                index,
                listed.len() as int,
            );
        },
        _ => {},
    }
}

/// From the list of attachments on, what is reported about every attachment that has been visited
/// is what the server said of it.
#[verifier::rlimit(40)]
pub proof fn lemma_attachments_heard(
    attachments: Seq<AstraAttachmentView>,
    replies: Seq<ReplyView>,
    a: nat,
    listed: Seq<VirtualNetworkAttachmentView>,
    n: nat,
)
    requires
        a < n <= replies.len(),
        progress_at(Some(attachments), replies, a) == Some(ProgressView::ListingAttachments),
        replies[a as int] == ReplyView::ListVirtualNetworkAttachments(Ok(listed)),
    ensures
        ({
            let earlier = step_at(Some(attachments), replies, a)->update.statuses;
            match step_at(Some(attachments), replies, n) {
                StepView::Call { update, request } => attachments_heard(
                    attachments,
                    replies,
                    n,
                    listed,
                    earlier,
                    update,
                ),
                StepView::Done(statuses) => {
                    &&& statuses.len() == attachments.len()
                    &&& forall|k: int|
                        0 <= k < attachments.len() ==> attachment_reported(
                            attachments,
                            replies,
                            n,
                            listed,
                            k,
                            earlier[k],
                            #[trigger] statuses[k],
                        )
                },
                StepView::Failed(_) => true,
            }
        }),
    decreases n,
{
    reveal(step_at);
    let earlier = step_at(Some(attachments), replies, a)->update.statuses;
    lemma_attachments_kept(attachments, replies, a);
    assert forall|k: int| 0 <= k < earlier.len() implies about(
        #[trigger] earlier[k],
        attachments[k],
    ) by {
        lemma_statuses_are_about_attachments(attachments, replies, a, k);
    }
    let before = (n - 1) as nat;
    let reply = replies[n - 1];
    lemma_attachments_kept(attachments, replies, before);
    if before == a {
        assert forall|i: nat, k: int, p: int| i < n && 0 <= k implies !#[trigger] deletion_failed(
            attachments,
            replies,
            i,
            k,
            p,
        ) by {
            lemma_stages_follow(attachments, replies, i, a);
        }
        lemma_attachments_from_heard(
            attachments,
            replies,
            n,
            listed,
            earlier,
            earlier,
            Seq::empty(),
            0,
        );
    } else {
        lemma_attachments_heard(attachments, replies, a, listed, before);
        lemma_stages_follow(attachments, replies, a + 1, before);
        lemma_listing_is_over(attachments, replies, a);
        match step_at(Some(attachments), replies, before) {
            StepView::Call { update, request } => {
                match (update.progress, reply) {
                    (
                        ProgressView::DeletingConflict {
                            listed: l,
                            deleted,
                            index,
                            conflict,
                            clean,
                        },
                        ReplyView::DeleteVirtualNetworkAttachment(gone),
                    ) => {
                        lemma_deletion_heard(
                            attachments,
                            replies,
                            before,
                            listed,
                            earlier,
                            update,
                        );
                    },
                    (
                        ProgressView::CreatingAttachment { listed: l, deleted, index },
                        ReplyView::CreateVirtualNetworkAttachment(created),
                    ) => {
                        lemma_attachment_creation_heard(
                            attachments,
                            replies,
                            before,
                            listed,
                            earlier,
                            update,
                        );
                    },
                    _ => {
                        lemma_attachments_heard_stays(
                            attachments,
                            replies,
                            before,
                            listed,
                            earlier,
                            update,
                        );
                        lemma_later_stages_keep_statuses(update, reply);
                    },
                }
            },
            StepView::Done(statuses) => {
                assert forall|k: int| 0 <= k < attachments.len() implies attachment_reported(
                    attachments,
                    replies,
                    n,
                    listed,
                    k,
                    earlier[k],
                    #[trigger] statuses[k],
                ) by {
                    assert forall|p: int| !#[trigger] deletion_failed(
                        attachments,
                        replies,
                        before,
                        k,
                        p,
                    ) by {}
                    lemma_attachment_reported_stays(
                        attachments,
                        replies,
                        before,
                        listed,
                        k,
                        earlier[k],
                        statuses[k],
                    );
                }
            },
            StepView::Failed(_) => {},
        }
    }
}

/// Once the attachments are listed, the update is past that stage.
proof fn lemma_listing_is_over(
    attachments: Seq<AstraAttachmentView>,
    replies: Seq<ReplyView>,
    a: nat,
)
    requires
        a < replies.len(),
        progress_at(Some(attachments), replies, a) == Some(ProgressView::ListingAttachments),
        replies[a as int] matches ReplyView::ListVirtualNetworkAttachments(Ok(_)),
    ensures
        step_at(Some(attachments), replies, a + 1) matches StepView::Call { update, request }
            && update.left().0 < 5,
{
    reveal(step_at);
    lemma_attachments_kept(attachments, replies, a);
    lemma_step(step_at(Some(attachments), replies, a)->update, replies[a as int]);
}

/// A reply that is neither about an attachment in the way nor about one that is created leaves
/// the statuses, once the attachments are listed, and no visit begins again.
proof fn lemma_later_stages_keep_statuses(update: UpdateView, reply: ReplyView)
    requires
        update.wf(),
        update.left().0 < 5,
        !(update.progress is DeletingConflict && reply is DeleteVirtualNetworkAttachment),
        !(update.progress is CreatingAttachment && reply is CreateVirtualNetworkAttachment),
    ensures
        match step_after(update, reply) {
            StepView::Call { update: next, request } => {
                &&& next.statuses == update.statuses
                &&& next == update || !(next.progress is DeletingConflict
                    || next.progress is CreatingAttachment || update.progress is DeletingConflict
                    || update.progress is CreatingAttachment)
            },
            StepView::Done(statuses) => statuses == update.statuses && !(
            update.progress is DeletingConflict || update.progress is CreatingAttachment),
            StepView::Failed(_) => true,
        },
{
    match (update.progress, reply) {
        (ProgressView::RelistingNetworks, ReplyView::ListVirtualNetworks(Ok(networks))) => {
            lemma_stale_networks_from(update.statuses, networks, 0);
        },
        (
            ProgressView::DeletingStaleNetwork { networks, position },
            ReplyView::DeleteVirtualNetwork(Ok(_)),
        ) => {
            lemma_stale_networks_from(update.statuses, networks, position + 1);
        },
        (
            ProgressView::DeletingStaleAttachment { listed, deleted, position },
            ReplyView::DeleteVirtualNetworkAttachment(Ok(_)),
        ) => {
            lemma_stale_attachments_from(update.statuses, listed, deleted, position + 1);
        },
        _ => {},
    }
}

/// A finished update reports about every attachment what the server said of it: of its network
/// before, of those in its way, of the one in place, or in reply to the call that creates it.
pub proof fn lemma_attachments_are_reported_as_told(
    attachments: Seq<AstraAttachmentView>,
    replies: Seq<ReplyView>,
    a: nat,
    listed: Seq<VirtualNetworkAttachmentView>,
    n: nat,
    k: int,
)
    requires
        a < n <= replies.len(),
        progress_at(Some(attachments), replies, a) == Some(ProgressView::ListingAttachments),
        replies[a as int] == ReplyView::ListVirtualNetworkAttachments(Ok(listed)),
        step_at(Some(attachments), replies, n) is Done,
        0 <= k < attachments.len(),
    ensures
        attachment_reported(
            attachments,
            replies,
            n,
            listed,
            k,
            step_at(Some(attachments), replies, a)->update.statuses[k],
            step_at(Some(attachments), replies, n)->Done_0[k],
        ),
{
    lemma_attachments_heard(attachments, replies, a, listed, n);
}

/// A reply leaves what is reported about the attachments that have been visited.
proof fn lemma_step_keeps_visited(update: UpdateView, reply: ReplyView, k: int)
    requires
        update.wf(),
        update.left().0 < 5,
        0 <= k < update.progress.visited(update.statuses.len()),
        update.progress.visited(update.statuses.len()) <= update.statuses.len(),
    ensures
        match step_after(update, reply) {
            StepView::Call { update: next, request } => next.statuses.len()
                == update.statuses.len() && next.statuses[k] == update.statuses[k] && k
                < next.progress.visited(next.statuses.len()) && next.progress.visited(
                next.statuses.len(),
            ) <= next.statuses.len(),
            StepView::Done(statuses) => statuses[k] == update.statuses[k],
            StepView::Failed(_) => true,
        },
{
    let statuses = update.statuses;
    match (update.progress, reply) {
        (
            ProgressView::DeletingConflict { listed, deleted, index, conflict, clean },
            ReplyView::DeleteVirtualNetworkAttachment(gone),
        ) => match gone {
            Ok(_) => {
                lemma_conflicts_from(
                    statuses,
                    listed,
                    remembering(deleted, usable_id(listed[conflict].metadata)->0),
                    index,
                    conflict + 1,
                    clean,
                );
            },
            Err(error) => {
                lemma_conflicts_from(
                    statuses.update(
                        index,
                        statuses[index].reporting(report_of(undeleted_conflict_state(error))),
                    ),
                    listed,
                    deleted,
                    index,
                    conflict + 1,
                    false,
                );
            },
        },
        (
            ProgressView::CreatingAttachment { listed, deleted, index },
            ReplyView::CreateVirtualNetworkAttachment(created),
        ) => {
            lemma_attachments_from(
                statuses.update(
                    index,
                    reporting_unready(statuses[index], created_attachment_state(created)),
                ),
                listed,
                deleted,
                index + 1,
            );
        },
        _ => {
            lemma_later_stages_keep_statuses(update, reply);
        },
    }
}

/// What is reported about an attachment that has been visited is final.
pub proof fn lemma_visited_report_is_final(
    attachments: Seq<AstraAttachmentView>,
    replies: Seq<ReplyView>,
    m: nat,
    n: nat,
    k: int,
)
    requires
        m <= n <= replies.len(),
        0 <= k < attachments.len(),
        step_at(Some(attachments), replies, m) matches StepView::Call { update, request } && k
            < update.progress.visited(attachments.len()) && update.left().0 < 5,
    ensures
        ({
            let status = step_at(Some(attachments), replies, m)->update.statuses[k];
            match step_at(Some(attachments), replies, n) {
                StepView::Call { update, request } => update.statuses[k] == status && k
                    < update.progress.visited(attachments.len()) && update.left().0 < 5,
                StepView::Done(statuses) => statuses[k] == status,
                StepView::Failed(_) => true,
            }
        }),
    decreases n,
{
    reveal(step_at);
    if m < n {
        let before = (n - 1) as nat;
        lemma_visited_report_is_final(attachments, replies, m, before, k);
        lemma_attachments_kept(attachments, replies, before);
        if let StepView::Call { update, request } = step_at(Some(attachments), replies, before) {
            lemma_step(update, replies[n - 1]);
            lemma_step_keeps_visited(update, replies[n - 1], k);
        }
    }
}

/// The reply to the call that creates an attachment decides what a finished update reports about
/// it: the state that the attachment in the reply holds, unless it is ready.
pub proof fn lemma_created_attachment_is_reported(
    attachments: Seq<AstraAttachmentView>,
    replies: Seq<ReplyView>,
    i: nat,
    reply: AttachmentCreatedView,
    n: nat,
    k: int,
)
    requires
        i < n <= replies.len(),
        progress_at(Some(attachments), replies, i) matches Some(
            ProgressView::CreatingAttachment { listed, deleted, index },
        ) && index == k,
        replies[i as int] == ReplyView::CreateVirtualNetworkAttachment(reply),
        step_at(Some(attachments), replies, n) is Done,
    ensures
        0 <= k < attachments.len(),
        follows_creation(
            step_at(Some(attachments), replies, i)->update.statuses[k],
            step_at(Some(attachments), replies, n)->Done_0[k],
            reply,
        ),
        step_at(Some(attachments), replies, n)->Done_0[k].ready() ==> (reply matches Ok(
            Some(attachment),
        ) && attachment.status matches Some(status) && status.state matches Some(state)
            && state.phase == Phase::Ready),
{
    reveal(step_at);
    lemma_attachments_kept(attachments, replies, i);
    let update = step_at(Some(attachments), replies, i)->update;
    let listed = update.progress->CreatingAttachment_listed;
    let deleted = update.progress->CreatingAttachment_deleted;
    let told = reporting_unready(update.statuses[k], created_attachment_state(reply));
    lemma_creation_is_recorded_as_told(update.statuses[k], reply);
    lemma_attachments_from(update.statuses.update(k, told), listed, deleted, k + 1);
    lemma_step(update, replies[i as int]);
    lemma_visited_report_is_final(attachments, replies, i + 1, n, k);
}

} // verus!
