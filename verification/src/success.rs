//! Updates on Weave servers that hold only ready objects: they finish, and all is reported
//! ready.
use crate::astra::{AstraAttachmentStatusView, AstraAttachmentView};
use crate::attachments::{
    attachment_spec, conflicting, created_attachment_state, exact_attachment, lemma_next_conflict,
    lemma_visit, next_conflict, remembering, unnamed_conflict, visit,
};
use crate::laws::{interfaces_differ, lemma_attachments_kept, lemma_update_ends};
use crate::networks::{
    created_network_state, known_after_creation, listed_states, network_need, reporting_unready,
};
use crate::progress::{
    attachments_from, conflicts_from, lemma_networks_from, networks_from, step_after, ProgressView,
    StepView, UpdateView,
};
use crate::requests::{lemma_specification_of_attachment, says_how_to_bind};
use crate::runs::{lemma_step_at_prefix, step_at};
use crate::server::{
    all_ready, good_attachment, good_network, lemma_exact_attachment_is_listed,
    lemma_listed_states_ready, orderly, served, ServedRun, ServerView,
};
use crate::service::{answers, ReplyView, RequestView};
use crate::status::{initial_statuses, vnis_fit};
use crate::weave::{usable_id, Phase, StateView, VirtualNetworkAttachmentView, VirtualNetworkView};
use vstd::prelude::*;

verus! {

/// Networks that can be named and are ready.
pub open spec fn good_networks(networks: Seq<VirtualNetworkView>) -> bool {
    forall|p: int| 0 <= p < networks.len() ==> good_network(#[trigger] networks[p])
}

/// Attachments that can be named and are ready.
pub open spec fn good_attachments(listed: Seq<VirtualNetworkAttachmentView>) -> bool {
    forall|p: int| 0 <= p < listed.len() ==> good_attachment(#[trigger] listed[p])
}

/// A reply that grants what was asked, with objects that are ready.
pub open spec fn good_reply(reply: ReplyView) -> bool {
    match reply {
        ReplyView::ListVirtualNetworks(Ok(networks)) => good_networks(networks),
        ReplyView::CreateVirtualNetwork(Ok(Some(network))) => good_network(network),
        ReplyView::DeleteVirtualNetwork(Ok(_)) => true,
        ReplyView::ListVirtualNetworkAttachments(Ok(listed)) => good_attachments(listed),
        ReplyView::CreateVirtualNetworkAttachment(Ok(Some(attachment))) => good_attachment(
            attachment,
        ),
        ReplyView::DeleteVirtualNetworkAttachment(Ok(_)) => true,
        _ => false,
    }
}

/// Every attachment is reported ready, and can be created where it has a network.
pub open spec fn hopeful(statuses: Seq<AstraAttachmentStatusView>) -> bool {
    forall|k: int|
        0 <= k < statuses.len() ==> (#[trigger] statuses[k]).ready() && (statuses[k].vni != 0
            ==> attachment_spec(statuses[k]) is Ok)
}

/// Nothing has gone wrong in an update.
pub open spec fn untroubled(update: UpdateView) -> bool {
    &&& hopeful(update.statuses)
    &&& update.progress matches ProgressView::CreatingNetwork { known, index } ==> forall|vni: u32|
        #[trigger]
        known.contains_key(vni) ==> known[vni].phase == Phase::Ready
    &&& update.progress.listed() matches Some(listed) ==> good_attachments(listed)
}

/// Looking at networks that are ready keeps everything ready.
proof fn lemma_networks_from_untroubled(
    statuses: Seq<AstraAttachmentStatusView>,
    known: Map<u32, StateView>,
    from: int,
)
    requires
        0 <= from <= statuses.len(),
        hopeful(statuses),
        forall|vni: u32| #[trigger]
            known.contains_key(vni) ==> known[vni].phase == Phase::Ready,
    ensures
        untroubled(networks_from(statuses, known, from)),
        networks_from(statuses, known, from).statuses == statuses,
{
    lemma_networks_from(statuses, known, from);
    let update = networks_from(statuses, known, from);
    assert forall|k: int| 0 <= k < statuses.len() implies update.statuses[k]
        == #[trigger] statuses[k] by {
        assert(!(network_need(statuses[k], known) is Report));
    }
    assert(update.statuses =~= statuses);
}

/// A visit among good attachments keeps an attachment ready.
proof fn lemma_visit_untroubled(
    attachment: AstraAttachmentStatusView,
    listed: Seq<VirtualNetworkAttachmentView>,
    from: int,
)
    requires
        0 <= from <= listed.len(),
        attachment.ready(),
        attachment.vni != 0 ==> attachment_spec(attachment) is Ok,
        good_attachments(listed),
    ensures
        ({
            let (visited, stop) = visit(attachment, listed, from, true);
            &&& visited.ready()
            &&& attachment.same_attachment(visited)
            &&& visited.vni != 0 ==> attachment_spec(visited) is Ok
        }),
{
    lemma_visit(attachment, listed, from, true);
    let position = next_conflict(listed, attachment, from);
    lemma_next_conflict(listed, attachment, from);
    assert(!unnamed_conflict(listed, attachment, from, position)) by {
        if unnamed_conflict(listed, attachment, from, position) {
            let k = choose|k: int|
                from <= k < position && conflicting(#[trigger] listed[k], attachment)
                    && usable_id(listed[k].metadata) is None;
            assert(good_attachment(listed[k]));
        }
    }
    lemma_exact_attachment_is_listed(listed, attachment);
    if let Some(found) = exact_attachment(listed, attachment) {
        let p = choose|p: int| 0 <= p < listed.len() && listed[p] == found;
        assert(good_attachment(listed[p]));
    }
}

/// Visiting attachments among good ones keeps everything ready.
proof fn lemma_attachments_from_untroubled(
    statuses: Seq<AstraAttachmentStatusView>,
    listed: Seq<VirtualNetworkAttachmentView>,
    deleted: Seq<Seq<char>>,
    from: int,
)
    requires
        0 <= from <= statuses.len(),
        hopeful(statuses),
        good_attachments(listed),
    ensures
        untroubled(attachments_from(statuses, listed, deleted, from)),
    decreases statuses.len() - from,
{
    if from < statuses.len() {
        let attachment = statuses[from];
        assert(attachment.ready());
        lemma_visit_untroubled(attachment, listed, 0);
        let (visited, stop) = visit(attachment, listed, 0, true);
        let updated = statuses.update(from, visited);
        assert(hopeful(updated));
        if stop is Settled {
            lemma_attachments_from_untroubled(updated, listed, deleted, from + 1);
        }
    }
}

/// Going on with a visit among good attachments keeps everything ready.
proof fn lemma_conflicts_from_untroubled(
    statuses: Seq<AstraAttachmentStatusView>,
    listed: Seq<VirtualNetworkAttachmentView>,
    deleted: Seq<Seq<char>>,
    index: int,
    from: int,
)
    requires
        0 <= index < statuses.len(),
        0 <= from <= listed.len(),
        hopeful(statuses),
        good_attachments(listed),
    ensures
        untroubled(conflicts_from(statuses, listed, deleted, index, from, true)),
{
    let attachment = statuses[index];
    assert(attachment.ready());
    lemma_visit_untroubled(attachment, listed, from);
    let (visited, stop) = visit(attachment, listed, from, true);
    let updated = statuses.update(index, visited);
    assert(hopeful(updated));
    if stop is Settled {
        lemma_attachments_from_untroubled(updated, listed, deleted, index + 1);
    }
}

/// A good reply keeps an update untroubled.
proof fn lemma_step_untroubled(update: UpdateView, reply: ReplyView)
    requires
        update.wf(),
        untroubled(update),
        good_reply(reply),
        answers(reply, update.request()),
    ensures
        match step_after(update, reply) {
            StepView::Call { update: next, request } => untroubled(next),
            StepView::Done(statuses) => hopeful(statuses),
            StepView::Failed(_) => false,
        },
{
    let statuses = update.statuses;
    match (update.progress, reply) {
        (ProgressView::ListingNetworks, ReplyView::ListVirtualNetworks(Ok(networks))) => {
            lemma_listed_states_ready(networks);
            lemma_networks_from_untroubled(statuses, listed_states(networks), 0);
        },
        (
            ProgressView::CreatingNetwork { known, index },
            ReplyView::CreateVirtualNetwork(created),
        ) => {
            let recorded = statuses.update(
                index,
                reporting_unready(statuses[index], created_network_state(created)),
            );
            assert(recorded =~= statuses);
            lemma_networks_from_untroubled(
                recorded,
                known_after_creation(known, statuses[index].vni as u32, created),
                index + 1,
            );
        },
        (
            ProgressView::ListingAttachments,
            ReplyView::ListVirtualNetworkAttachments(Ok(listed)),
        ) => {
            lemma_attachments_from_untroubled(statuses, listed, Seq::empty(), 0);
        },
        (
            ProgressView::DeletingConflict { listed, deleted, index, conflict, clean },
            ReplyView::DeleteVirtualNetworkAttachment(gone),
        ) => {
            assert(statuses[index].ready());
            lemma_conflicts_from_untroubled(
                statuses,
                listed,
                remembering(deleted, usable_id(listed[conflict].metadata)->0),
                index,
                conflict + 1,
            );
        },
        (
            ProgressView::CreatingAttachment { listed, deleted, index },
            ReplyView::CreateVirtualNetworkAttachment(created),
        ) => {
            let recorded = statuses.update(
                index,
                reporting_unready(statuses[index], created_attachment_state(created)),
            );
            assert(recorded =~= statuses);
            lemma_attachments_from_untroubled(recorded, listed, deleted, index + 1);
        },
        _ => {},
    }
}

/// Each attachment with a network says how it is to be bound.
pub open spec fn bindable(attachments: Seq<AstraAttachmentView>) -> bool {
    forall|k: int|
        0 <= k < attachments.len() && (#[trigger] attachments[k]).vni != 0 ==> says_how_to_bind(
            attachments[k].attachment_type,
            attachments[k].virtual_function_id,
            attachments[k].network_name,
        )
}

/// Every reply of an orderly server is good, and answers the pending call.
proof fn lemma_replies_are_good(run: ServedRun, i: nat)
    requires
        run.faithful(),
        run.orderly(),
        i < run.replies.len(),
    ensures
        good_reply(run.replies[i as int]),
        answers(run.replies[i as int], run.request(i)),
{
    assert(run.faithful_at(i));
    assert(orderly(run.server(i)));
    assert(orderly(run.server(i + 1)));
    match run.replies[i as int] {
        ReplyView::ListVirtualNetworks(Ok(networks)) => {
            assert forall|p: int| 0 <= p < networks.len() implies good_network(
                #[trigger] networks[p],
            ) by {
                assert(networks.contains(networks[p]));
            }
        },
        ReplyView::CreateVirtualNetwork(Ok(Some(network))) => {
            assert(run.server(i + 1).networks.contains(network));
        },
        ReplyView::ListVirtualNetworkAttachments(Ok(listed)) => {
            assert forall|p: int| 0 <= p < listed.len() implies good_attachment(
                #[trigger] listed[p],
            ) by {
                assert(listed.contains(listed[p]));
            }
        },
        ReplyView::CreateVirtualNetworkAttachment(Ok(Some(attachment))) => {
            assert(run.server(i + 1).attachments.contains(attachment));
        },
        _ => {},
    }
}

/// On an orderly server nothing goes wrong.
proof fn lemma_run_untroubled(run: ServedRun, i: nat)
    requires
        run.faithful(),
        run.orderly(),
        vnis_fit(run.attachments),
        bindable(run.attachments),
        i <= run.replies.len(),
    ensures
        match run.step(i) {
            StepView::Call { update, request } => untroubled(update),
            StepView::Done(statuses) => hopeful(statuses),
            StepView::Failed(_) => false,
        },
    decreases i,
{
    reveal(step_at);
    if i == 0 {
        let initial = initial_statuses(run.attachments);
        assert forall|k: int| 0 <= k < initial.len() implies (#[trigger] initial[k]).ready() && (
        initial[k].vni != 0 ==> attachment_spec(initial[k]) is Ok) by {
            assert(run.attachments[k].vni <= i32::MAX);
            lemma_specification_of_attachment(run.attachments[k]);
        }
    } else {
        let before = (i - 1) as nat;
        lemma_run_untroubled(run, before);
        assert(run.faithful_at(before));
        lemma_replies_are_good(run, before);
        lemma_attachments_kept(run.attachments, run.replies, before);
        let update = run.step(before)->update;
        lemma_step_untroubled(update, run.replies[i - 1]);
    }
}

/// On an orderly server that grants every call, an update of a configuration whose attachments
/// say how they are to be bound reports every attachment ready.
pub proof fn lemma_orderly_server_makes_ready(run: ServedRun)
    requires
        run.faithful(),
        run.orderly(),
        bindable(run.attachments),
    ensures
        run.last_step() matches StepView::Done(statuses) ==> all_ready(statuses),
{
    if run.last_step() is Done {
        lemma_attachments_kept(run.attachments, run.replies, run.replies.len());
        lemma_run_untroubled(run, run.replies.len());
    }
}

/// An update does not fail on a server that grants every call, where its VNIs can be reported.
pub proof fn lemma_update_never_fails(run: ServedRun)
    requires
        run.faithful(),
        vnis_fit(run.attachments),
    ensures
        !(run.last_step() is Failed),
{
    reveal(step_at);
    let n = run.replies.len();
    if n > 0 {
        let last = (n - 1) as nat;
        assert(run.faithful_at(last));
        lemma_attachments_kept(run.attachments, run.replies, last);
    }
}

/// A server that holds finitely many objects and is orderly.
pub open spec fn sound_server(server: ServerView) -> bool {
    &&& server.networks.finite()
    &&& server.attachments.finite()
    &&& orderly(server)
}

/// A way to grant every call, and to keep the server orderly.
pub open spec fn grants_all(
    grant: spec_fn(ServerView, RequestView) -> (ReplyView, ServerView),
) -> bool {
    forall|server: ServerView, request: RequestView|
        sound_server(server) ==> served(
            server,
            request,
            (#[trigger] grant(server, request)).0,
            grant(server, request).1,
        ) && sound_server(grant(server, request).1)
}

impl ServedRun {
    /// The run with one more call made and granted.
    pub open spec fn extended(
        self,
        grant: spec_fn(ServerView, RequestView) -> (ReplyView, ServerView),
    ) -> ServedRun {
        let n = self.replies.len();
        let granted = grant(self.server(n), self.request(n));
        ServedRun {
            replies: self.replies.push(granted.0),
            servers: self.servers.push(granted.1),
            ..self
        }
    }

    /// The server grants every call and is sound throughout.
    pub open spec fn sound(self) -> bool {
        &&& self.faithful()
        &&& forall|i: nat| i <= self.replies.len() ==> sound_server(#[trigger] self.server(i))
    }
}

/// A run with one more granted call is sound like the shorter one.
proof fn lemma_extended_is_sound(
    run: ServedRun,
    grant: spec_fn(ServerView, RequestView) -> (ReplyView, ServerView),
)
    requires
        grants_all(grant),
        run.sound(),
        run.last_step() is Call,
    ensures
        run.extended(grant).sound(),
{
    let longer = run.extended(grant);
    let n = run.replies.len();
    assert(sound_server(run.server(n)));
    let granted = grant(run.server(n), run.request(n));
    assert(longer.server(n) == run.server(n));
    assert(longer.server(n + 1) == granted.1);
    assert forall|i: nat| i < longer.replies.len() implies #[trigger] longer.faithful_at(i) by {
        lemma_step_at_prefix(Some(run.attachments), run.replies, longer.replies, i);
        if i < n {
            assert(run.faithful_at(i));
            assert(longer.server(i) == run.server(i));
            assert(longer.server(i + 1) == run.server(i + 1));
        }
    }
    assert forall|i: nat| i <= longer.replies.len() implies sound_server(
        #[trigger] longer.server(i),
    ) by {
        if i <= n {
            assert(longer.server(i) == run.server(i));
        }
    }
}

/// A sound run that is done was successful, where no two attachments share an interface and
/// each one with a network says how it is to be bound.
proof fn lemma_done_is_successful(run: ServedRun)
    requires
        run.sound(),
        run.last_step() is Done,
    ensures
        bindable(run.attachments) && interfaces_differ(run.attachments) ==> run.successful(),
{
    assert forall|i: nat| i <= run.replies.len() implies orderly(#[trigger] run.server(i)) by {
        assert(sound_server(run.server(i)));
    }
    if bindable(run.attachments) {
        lemma_orderly_server_makes_ready(run);
    }
}

/// On a server that goes on to grant every call, an update whose VNIs can be reported comes to
/// an end and is done. The run is successful where no two attachments share an interface and each
/// one with a network says how it is to be bound.
pub proof fn lemma_update_finishes(
    run: ServedRun,
    grant: spec_fn(ServerView, RequestView) -> (ReplyView, ServerView),
) -> (end: ServedRun)
    requires
        grants_all(grant),
        run.sound(),
        vnis_fit(run.attachments),
    ensures
        end.attachments == run.attachments,
        run.replies.is_prefix_of(end.replies),
        run.servers.is_prefix_of(end.servers),
        end.sound(),
        end.last_step() is Done,
        bindable(run.attachments) && interfaces_differ(run.attachments) ==> end.successful(),
    decreases
            run.last_step()->update.left().0,
            run.last_step()->update.left().1,
            run.last_step()->update.left().2,
{
    let n = run.replies.len();
    lemma_update_never_fails(run);
    if run.last_step() is Done {
        lemma_done_is_successful(run);
        run
    } else {
        let longer = run.extended(grant);
        lemma_extended_is_sound(run, grant);
        lemma_step_at_prefix(Some(run.attachments), run.replies, longer.replies, n);
        assert(longer.faithful_at(n));
        lemma_update_ends(run.attachments, longer.replies, n);
        if longer.step(n + 1) is Call {
            let end = lemma_update_finishes(longer, grant);
            assert(run.replies.is_prefix_of(end.replies)) by {
                assert forall|i: int| 0 <= i < n implies run.replies[i] == end.replies[i] by {
                    assert(longer.replies[i] == run.replies[i]);
                    assert(longer.replies[i] == end.replies[i]);
                }
            }
            assert(run.servers.is_prefix_of(end.servers)) by {
                assert forall|i: int| 0 <= i < n + 1 implies run.servers[i] == end.servers[i] by {
                    assert(longer.servers[i] == run.servers[i]);
                    assert(longer.servers[i] == end.servers[i]);
                }
            }
            end
        } else {
            lemma_update_never_fails(longer);
            lemma_done_is_successful(longer);
            longer
        }
    }
}

} // verus!
