//! What is reported about attachments on account of their networks, told by the replies of the
//! Weave server themselves.
use crate::astra::{AstraAttachmentStatusView, AstraAttachmentView, AstraPhase};
use crate::laws::{lemma_attachments_kept, lemma_stages_follow, lemma_unready_network_is_final};
use crate::networks::{
    created_network_state, known_after_creation, lemma_next_creation, listed_states, network_need,
    network_settled, next_creation, reporting_unready,
};
use crate::progress::{
    lemma_networks_from, networks_from, step_after, ProgressView, StepView, UpdateView,
};
use crate::runs::{lemma_step, progress_at, request_at, step_at};
use crate::service::{ReplyView, RequestView};
use crate::status::{initial_statuses, report_of, vnis_fit};
use crate::weave::{Phase, StateView, VirtualNetworkView};
use vstd::prelude::*;

verus! {

/// The report tells a state of the server: its phase, its reason and its message. A phase that
/// Astra does not know is reported as unspecified.
pub open spec fn reports_state(attachment: AstraAttachmentStatusView, state: StateView) -> bool {
    attachment.status matches Some(report) && {
        &&& report.reason == state.reason
        &&& report.message == state.message
        &&& report.phase == AstraPhase::PhaseReady <==> state.phase == Phase::Ready
        &&& report.phase == AstraPhase::PhaseError <==> state.phase == Phase::Error
        &&& report.phase == AstraPhase::PhasePending <==> state.phase == Phase::Pending
        &&& report.phase == AstraPhase::PhaseDeleting <==> state.phase == Phase::Deleting
        &&& report.phase == AstraPhase::PhaseUnspecified <==> (state.phase == Phase::Unspecified
            || state.phase is Unrecognized)
    }
}

/// The report tells an error of this agent.
pub open spec fn reports_error(
    attachment: AstraAttachmentStatusView,
    reason: Seq<char>,
    message: Seq<char>,
) -> bool {
    attachment.status matches Some(report) && {
        &&& report.phase == AstraPhase::PhaseError
        &&& report.reason == reason
        &&& report.message == message
    }
}

/// Two statuses of one attachment: all fields but the report agree.
pub open spec fn one_attachment(
    a: AstraAttachmentStatusView,
    b: AstraAttachmentStatusView,
) -> bool {
    &&& a.mac_address == b.mac_address
    &&& a.vni == b.vni
    &&& a.subnet_ipv4 == b.subnet_ipv4
    &&& a.subnet_mask == b.subnet_mask
    &&& a.attachment_type == b.attachment_type
    &&& a.virtual_function_id == b.virtual_function_id
    &&& a.network_name == b.network_name
    &&& a.revision == b.revision
}

/// The status is about a configured attachment.
pub open spec fn about(status: AstraAttachmentStatusView, attachment: AstraAttachmentView) -> bool {
    &&& status.mac_address == attachment.mac_address
    &&& status.vni == attachment.vni
    &&& status.subnet_ipv4 == attachment.subnet_ipv4
    &&& status.subnet_mask == attachment.subnet_mask
    &&& status.attachment_type == attachment.attachment_type
    &&& status.virtual_function_id == attachment.virtual_function_id
    &&& status.network_name == attachment.network_name
    &&& status.revision == attachment.revision
}

/// The status is about a configured attachment of which nothing has been heard: it is reported
/// ready, with nothing to say.
pub open spec fn unheard(
    status: AstraAttachmentStatusView,
    attachment: AstraAttachmentView,
) -> bool {
    &&& about(status, attachment)
    &&& status.status matches Some(report) && report.phase == AstraPhase::PhaseReady
        && report.reason.len() == 0 && report.message.len() == 0
}

/// Ready is what the report says.
pub proof fn lemma_ready_is_reported(attachment: AstraAttachmentStatusView)
    ensures
        attachment.ready() <==> attachment.status is Some && attachment.status->0.phase
            == AstraPhase::PhaseReady,
{
}

/// To report a state of the server is to tell it, and it changes nothing but the report.
pub proof fn lemma_reporting_tells(attachment: AstraAttachmentStatusView, state: StateView)
    ensures
        reports_state(attachment.reporting(report_of(state)), state),
        one_attachment(attachment.reporting(report_of(state)), attachment),
{
}

/// A state on behalf of an attachment is reported unless it is ready.
pub proof fn lemma_unready_is_reported(attachment: AstraAttachmentStatusView, state: StateView)
    ensures
        state.phase == Phase::Ready ==> reporting_unready(attachment, state) == attachment,
        state.phase != Phase::Ready ==> reports_state(reporting_unready(attachment, state), state)
            && one_attachment(reporting_unready(attachment, state), attachment),
{
    lemma_reporting_tells(attachment, state);
}

/// Every status that an update holds or reports is about the configured attachment at the same
/// position.
pub proof fn lemma_statuses_are_about_attachments(
    attachments: Seq<AstraAttachmentView>,
    replies: Seq<ReplyView>,
    n: nat,
    k: int,
)
    requires
        0 <= k < attachments.len(),
    ensures
        match step_at(Some(attachments), replies, n) {
            StepView::Call { update, request } => update.statuses.len() == attachments.len()
                && about(update.statuses[k], attachments[k]),
            StepView::Done(statuses) => statuses.len() == attachments.len() && about(
                statuses[k],
                attachments[k],
            ),
            StepView::Failed(_) => true,
        },
{
    lemma_attachments_kept(attachments, replies, n);
    let initial = initial_statuses(attachments);
    match step_at(Some(attachments), replies, n) {
        StepView::Call { update, request } => {
            assert(initial[k].same_attachment(update.statuses[k]));
            assert(attachments[k].vni <= i32::MAX);
        },
        StepView::Done(statuses) => {
            assert(initial[k].same_attachment(statuses[k]));
            assert(attachments[k].vni <= i32::MAX);
        },
        StepView::Failed(_) => {},
    }
}

/// Until the networks are listed, nothing has been heard of any attachment.
pub proof fn lemma_nothing_heard_before_networks(
    attachments: Seq<AstraAttachmentView>,
    replies: Seq<ReplyView>,
    n: nat,
)
    requires
        progress_at(Some(attachments), replies, n) == Some(ProgressView::ListingNetworks),
    ensures
        step_at(Some(attachments), replies, n) matches StepView::Call { update, request }
            && update.statuses == initial_statuses(attachments) && forall|k: int|
            0 <= k < attachments.len() ==> unheard(
                update.statuses[k],
                #[trigger] attachments[k],
            ),
    decreases n,
{
    reveal(step_at);
    if n > 0 {
        let before = (n - 1) as nat;
        lemma_attachments_kept(attachments, replies, before);
        let update = step_at(Some(attachments), replies, before)->update;
        lemma_step(update, replies[n - 1]);
        lemma_nothing_heard_before_networks(attachments, replies, before);
    } else {
        assert forall|k: int| 0 <= k < attachments.len() implies unheard(
            initial_statuses(attachments)[k],
            #[trigger] attachments[k],
        ) by {
            assert(attachments[k].vni <= i32::MAX);
        }
    }
}

/// The network has this VNI.
pub open spec fn has_vni(network: VirtualNetworkView, vni: u32) -> bool {
    network.spec is Some && network.spec->0.vni == vni
}

/// Position `p` holds the last network of a listing with this VNI.
pub open spec fn last_with_vni(networks: Seq<VirtualNetworkView>, vni: u32, p: int) -> bool {
    &&& 0 <= p < networks.len()
    &&& has_vni(networks[p], vni)
    &&& forall|q: int| p < q < networks.len() ==> !has_vni(#[trigger] networks[q], vni)
}

/// A network of a listing has this VNI.
pub open spec fn vni_listed(networks: Seq<VirtualNetworkView>, vni: u32) -> bool {
    exists|p: int| 0 <= p < networks.len() && has_vni(#[trigger] networks[p], vni)
}

/// The state is the one that the network holds, or, where it holds none, this error.
pub open spec fn told_by_network(
    state: StateView,
    network: VirtualNetworkView,
    call: Seq<char>,
) -> bool {
    if network.status is Some && network.status->0 is Some {
        state == network.status->0->0
    } else {
        &&& state.phase == Phase::Error
        &&& state.reason == "Response is missing state"@
        &&& state.message == call
    }
}

/// The known VNIs are those of the listing, each with the state that the last network with it
/// holds.
pub proof fn lemma_listed_states_are_told(networks: Seq<VirtualNetworkView>, vni: u32)
    ensures
        listed_states(networks).contains_key(vni) <==> vni_listed(networks, vni),
        forall|p: int| #[trigger]
            last_with_vni(networks, vni, p) ==> told_by_network(
                listed_states(networks)[vni],
                networks[p],
                "list_virtual_networks"@,
            ),
        vni_listed(networks, vni) ==> exists|p: int| #[trigger] last_with_vni(networks, vni, p),
    decreases networks.len(),
{
    if networks.len() > 0 {
        let rest = networks.drop_last();
        let last = networks.len() - 1;
        lemma_listed_states_are_told(rest, vni);
        if has_vni(networks[last], vni) {
            assert(last_with_vni(networks, vni, last));
            assert(vni_listed(networks, vni));
        } else {
            if vni_listed(networks, vni) {
                let p = choose|p: int|
                    0 <= p < networks.len() && has_vni(#[trigger] networks[p], vni);
                assert(rest[p] == networks[p]);
                assert(vni_listed(rest, vni));
                let q = choose|q: int| #[trigger] last_with_vni(rest, vni, q);
                assert(networks[q] == rest[q]);
                assert forall|r: int| q < r < networks.len() implies !has_vni(
                    #[trigger] networks[r],
                    vni,
                ) by {
                    if r < last {
                        assert(rest[r] == networks[r]);
                    }
                }
                assert(last_with_vni(networks, vni, q));
            }
            if vni_listed(rest, vni) {
                let p = choose|p: int| 0 <= p < rest.len() && has_vni(#[trigger] rest[p], vni);
                assert(has_vni(networks[p], vni));
            }
            assert forall|p: int| #[trigger] last_with_vni(networks, vni, p) implies
                told_by_network(
                listed_states(networks)[vni],
                networks[p],
                "list_virtual_networks"@,
            ) by {
                assert(p < last);
                assert(rest[p] == networks[p]);
                assert forall|r: int| p < r < rest.len() implies !has_vni(
                    #[trigger] rest[r],
                    vni,
                ) by {
                    assert(rest[r] == networks[r]);
                }
                assert(last_with_vni(rest, vni, p));
            }
        }
    }
}

/// The call after the first `i` replies asks for a network with this VNI.
pub open spec fn asks_for_vni(
    attachments: Seq<AstraAttachmentView>,
    replies: Seq<ReplyView>,
    i: nat,
    vni: u32,
) -> bool {
    match request_at(Some(attachments), replies, i) {
        Some(RequestView::CreateVirtualNetwork(request)) => request.spec is Some
            && request.spec->0.vni == vni,
        _ => false,
    }
}

/// The server answered the call after the first `i` replies with a network of this VNI in this
/// state.
pub open spec fn network_came(
    attachments: Seq<AstraAttachmentView>,
    replies: Seq<ReplyView>,
    i: nat,
    vni: u32,
    state: StateView,
) -> bool {
    &&& asks_for_vni(attachments, replies, i, vni)
    &&& match replies[i as int] {
        ReplyView::CreateVirtualNetwork(Ok(Some(network))) => told_by_network(
            state,
            network,
            "create_virtual_network"@,
        ),
        _ => false,
    }
}

/// The call that asks for the network of the attachment at `k`, made after the first `i`
/// replies, brought no network, and this error.
pub open spec fn network_failed(
    attachments: Seq<AstraAttachmentView>,
    replies: Seq<ReplyView>,
    i: nat,
    k: int,
    state: StateView,
) -> bool {
    &&& asks_for_vni(attachments, replies, i, attachments[k].vni)
    &&& progress_at(Some(attachments), replies, i) matches Some(
        ProgressView::CreatingNetwork { known, index },
    ) && index == k
    &&& state.phase == Phase::Error
    &&& match replies[i as int] {
        ReplyView::CreateVirtualNetwork(Ok(None)) => state.reason
            == "Response is missing virtual network"@ && state.message == "create_virtual_network"@,
        ReplyView::CreateVirtualNetwork(Err(error)) => state.reason == "API failure"@
            && state.message == "create_virtual_network: "@ + error,
        _ => false,
    }
}

/// A state of the network of a VNI comes from the listing, or, where the listing does not have
/// the VNI, from the reply to one of the calls before `n` that ask for it.
pub open spec fn known_state(
    attachments: Seq<AstraAttachmentView>,
    replies: Seq<ReplyView>,
    n: nat,
    networks: Seq<VirtualNetworkView>,
    vni: u32,
    state: StateView,
) -> bool {
    if vni_listed(networks, vni) {
        forall|p: int| #[trigger]
            last_with_vni(networks, vni, p) ==> told_by_network(
                state,
                networks[p],
                "list_virtual_networks"@,
            )
    } else {
        exists|i: nat| i < n && #[trigger] network_came(attachments, replies, i, vni, state)
    }
}

/// The status of an attachment follows from the state of its network: a state other than ready
/// is reported.
pub open spec fn follows_network(
    status: AstraAttachmentStatusView,
    attachment: AstraAttachmentView,
    state: StateView,
) -> bool {
    if state.phase == Phase::Ready {
        unheard(status, attachment)
    } else {
        about(status, attachment) && reports_state(status, state)
    }
}

/// What is reported about the attachment at `k` before the attachments are listed. Without a
/// network nothing has been heard. Otherwise the report follows the state of the network: the one
/// that the listing gives, or the reply to a call that asked for the network, be it on behalf of
/// this attachment or of an earlier one with the same VNI.
pub open spec fn network_reported(
    attachments: Seq<AstraAttachmentView>,
    replies: Seq<ReplyView>,
    n: nat,
    networks: Seq<VirtualNetworkView>,
    k: int,
    status: AstraAttachmentStatusView,
) -> bool {
    if attachments[k].vni == 0 {
        unheard(status, attachments[k])
    } else {
        exists|state: StateView| #[trigger]
            follows_network(status, attachments[k], state) && (known_state(
                attachments,
                replies,
                n,
                networks,
                attachments[k].vni,
                state,
            ) || (!vni_listed(networks, attachments[k].vni) && exists|i: nat|
                i < n && #[trigger] network_failed(attachments, replies, i, k, state)))
    }
}

/// What an update has heard of networks, when it stands at this step after `n` replies.
pub open spec fn networks_heard(
    attachments: Seq<AstraAttachmentView>,
    replies: Seq<ReplyView>,
    n: nat,
    networks: Seq<VirtualNetworkView>,
    update: UpdateView,
) -> bool {
    &&& update.statuses.len() == attachments.len()
    &&& match update.progress {
        ProgressView::CreatingNetwork { known, index } => {
            &&& forall|vni: u32|
                vni_listed(networks, vni) ==> #[trigger] known.contains_key(vni)
            &&& forall|vni: u32| #[trigger]
                known.contains_key(vni) ==> known_state(
                    attachments,
                    replies,
                    n,
                    networks,
                    vni,
                    known[vni],
                )
            &&& forall|k: int|
                0 <= k < index ==> network_reported(
                    attachments,
                    replies,
                    n,
                    networks,
                    k,
                    #[trigger] update.statuses[k],
                )
            &&& forall|k: int|
                index <= k < attachments.len() ==> unheard(
                    #[trigger] update.statuses[k],
                    attachments[k],
                )
        },
        ProgressView::ListingAttachments => forall|k: int|
            0 <= k < attachments.len() ==> network_reported(
                attachments,
                replies,
                n,
                networks,
                k,
                #[trigger] update.statuses[k],
            ),
        _ => false,
    }
}

/// What was known of a VNI stays known.
proof fn lemma_known_state_stays(
    attachments: Seq<AstraAttachmentView>,
    replies: Seq<ReplyView>,
    n: nat,
    networks: Seq<VirtualNetworkView>,
    vni: u32,
    state: StateView,
)
    requires
        known_state(attachments, replies, n, networks, vni, state),
    ensures
        known_state(attachments, replies, n + 1, networks, vni, state),
{
    if !vni_listed(networks, vni) {
        let i = choose|i: nat|
            i < n && #[trigger] network_came(attachments, replies, i, vni, state);
        assert(i < n + 1 && network_came(attachments, replies, i, vni, state));
    }
}

/// What was reported about a network stays so.
proof fn lemma_network_reported_stays(
    attachments: Seq<AstraAttachmentView>,
    replies: Seq<ReplyView>,
    n: nat,
    networks: Seq<VirtualNetworkView>,
    k: int,
    status: AstraAttachmentStatusView,
)
    requires
        network_reported(attachments, replies, n, networks, k, status),
    ensures
        network_reported(attachments, replies, n + 1, networks, k, status),
{
    if attachments[k].vni != 0 {
        let state = choose|state: StateView| #[trigger]
            follows_network(status, attachments[k], state) && (known_state(
                attachments,
                replies,
                n,
                networks,
                attachments[k].vni,
                state,
            ) || (!vni_listed(networks, attachments[k].vni) && exists|i: nat|
                i < n && #[trigger] network_failed(attachments, replies, i, k, state)));
        if known_state(attachments, replies, n, networks, attachments[k].vni, state) {
            lemma_known_state_stays(
                attachments,
                replies,
                n,
                networks,
                attachments[k].vni,
                state,
            );
        } else {
            let i = choose|i: nat|
                i < n && #[trigger] network_failed(attachments, replies, i, k, state);
            assert(i < n + 1 && network_failed(attachments, replies, i, k, state));
        }
        assert(follows_network(status, attachments[k], state));
    }
}

/// Looking at the needs of networks reports what is known of them.
proof fn lemma_networks_from_heard(
    attachments: Seq<AstraAttachmentView>,
    replies: Seq<ReplyView>,
    n: nat,
    networks: Seq<VirtualNetworkView>,
    statuses: Seq<AstraAttachmentStatusView>,
    known: Map<u32, StateView>,
    from: int,
)
    requires
        0 <= from <= statuses.len(),
        statuses.len() == attachments.len(),
        vnis_fit(attachments),
        forall|vni: u32| vni_listed(networks, vni) ==> #[trigger] known.contains_key(vni),
        forall|vni: u32| #[trigger]
            known.contains_key(vni) ==> known_state(
                attachments,
                replies,
                n,
                networks,
                vni,
                known[vni],
            ),
        forall|k: int|
            0 <= k < from ==> network_reported(
                attachments,
                replies,
                n,
                networks,
                k,
                #[trigger] statuses[k],
            ),
        forall|k: int|
            from <= k < attachments.len() ==> unheard(#[trigger] statuses[k], attachments[k]),
    ensures
        networks_heard(attachments, replies, n, networks, networks_from(statuses, known, from)),
{
    let update = networks_from(statuses, known, from);
    let next = next_creation(statuses, known, from);
    lemma_networks_from(statuses, known, from);
    lemma_next_creation(statuses, known, from);
    assert forall|k: int| 0 <= k < next implies network_reported(
        attachments,
        replies,
        n,
        networks,
        k,
        #[trigger] update.statuses[k],
    ) by {
        if k < from {
            assert(update.statuses[k] == statuses[k]);
        } else {
            assert(unheard(statuses[k], attachments[k]));
            assert(update.statuses[k] == network_settled(statuses[k], known));
            assert(!(network_need(statuses[k], known) is Creation));
            if attachments[k].vni != 0 {
                let state = known[attachments[k].vni];
                assert(known.contains_key(attachments[k].vni));
                lemma_reporting_tells(statuses[k], state);
                assert(follows_network(update.statuses[k], attachments[k], state));
            }
        }
    }
    assert forall|k: int| next <= k < attachments.len() implies unheard(
        #[trigger] update.statuses[k],
        attachments[k],
    ) by {
        assert(update.statuses[k] == statuses[k]);
    }
}

/// After a call that asks for a network, what is heard of networks is what the reply tells.
proof fn lemma_creation_heard(
    attachments: Seq<AstraAttachmentView>,
    replies: Seq<ReplyView>,
    n: nat,
    networks: Seq<VirtualNetworkView>,
    update: UpdateView,
)
    requires
        vnis_fit(attachments),
        step_at(Some(attachments), replies, n) == update.waiting(),
        update.wf(),
        update.progress is CreatingNetwork,
        networks_heard(attachments, replies, n, networks, update),
        replies[n as int] is CreateVirtualNetwork,
    ensures
        step_after(update, replies[n as int]) matches StepView::Call { update: next, request }
            && networks_heard(attachments, replies, n + 1, networks, next),
{
    let statuses = update.statuses;
    let known = update.progress->CreatingNetwork_known;
    let index = update.progress->CreatingNetwork_index;
    let created = replies[n as int]->CreateVirtualNetwork_0;
    let vni = attachments[index].vni;
    let state = created_network_state(created);
    assert(unheard(statuses[index], attachments[index]));
    assert(statuses[index].vni as u32 == vni);
    assert(!known.contains_key(vni));
    assert(!vni_listed(networks, vni));
    assert(asks_for_vni(attachments, replies, n, vni));
    let recorded = statuses.update(index, reporting_unready(statuses[index], state));
    let after = known_after_creation(known, vni, created);
    lemma_unready_is_reported(statuses[index], state);
    assert(follows_network(recorded[index], attachments[index], state));
    assert forall|u: u32| #[trigger] after.contains_key(u) implies known_state(
        attachments,
        replies,
        n + 1,
        networks,
        u,
        after[u],
    ) by {
        if known.contains_key(u) {
            lemma_known_state_stays(attachments, replies, n, networks, u, known[u]);
        } else {
            assert(network_came(attachments, replies, n, vni, state));
        }
    }
    assert forall|k: int| 0 <= k < index + 1 implies network_reported(
        attachments,
        replies,
        n + 1,
        networks,
        k,
        #[trigger] recorded[k],
    ) by {
        if k < index {
            assert(recorded[k] == statuses[k]);
            lemma_network_reported_stays(attachments, replies, n, networks, k, statuses[k]);
        } else if created matches Ok(Some(_)) {
            assert(network_came(attachments, replies, n, vni, state));
        } else {
            assert(network_failed(attachments, replies, n, k, state));
        }
    }
    assert forall|k: int| index + 1 <= k < attachments.len() implies unheard(
        #[trigger] recorded[k],
        attachments[k],
    ) by {
        assert(recorded[k] == statuses[k]);
    }
    lemma_networks_from_heard(attachments, replies, n + 1, networks, recorded, after, index + 1);
}

/// While networks are created, and until the attachments are listed, what is reported about every
/// attachment is what the server said of its network.
proof fn lemma_networks_heard(
    attachments: Seq<AstraAttachmentView>,
    replies: Seq<ReplyView>,
    m: nat,
    networks: Seq<VirtualNetworkView>,
    n: nat,
)
    requires
        m < n <= replies.len(),
        progress_at(Some(attachments), replies, m) == Some(ProgressView::ListingNetworks),
        replies[m as int] == ReplyView::ListVirtualNetworks(Ok(networks)),
    ensures
        step_at(Some(attachments), replies, n) matches StepView::Call { update, request } ==> (
        update.left().0 >= 5 ==> networks_heard(attachments, replies, n, networks, update)),
    decreases n,
{
    reveal(step_at);
    let before = (n - 1) as nat;
    lemma_attachments_kept(attachments, replies, before);
    if before == m {
        lemma_nothing_heard_before_networks(attachments, replies, m);
        let statuses = step_at(Some(attachments), replies, m)->update.statuses;
        let known = listed_states(networks);
        assert forall|vni: u32| vni_listed(networks, vni) implies #[trigger] known.contains_key(
            vni,
        ) by {
            lemma_listed_states_are_told(networks, vni);
        }
        assert forall|vni: u32| #[trigger] known.contains_key(vni) implies known_state(
            attachments,
            replies,
            n,
            networks,
            vni,
            known[vni],
        ) by {
            lemma_listed_states_are_told(networks, vni);
        }
        assert forall|k: int| 0 <= k < attachments.len() implies unheard(
            #[trigger] statuses[k],
            attachments[k],
        ) by {
            assert(unheard(statuses[k], attachments[k]));
        }
        lemma_networks_from_heard(attachments, replies, n, networks, statuses, known, 0);
    } else {
        lemma_networks_heard(attachments, replies, m, networks, before);
        lemma_stages_follow(attachments, replies, m + 1, before);
        if let StepView::Call { update, request } = step_at(Some(attachments), replies, before) {
            let reply = replies[n - 1];
            lemma_step(update, reply);
            if update.left().0 >= 5 {
                match (update.progress, reply) {
                    (
                        ProgressView::CreatingNetwork { known, index },
                        ReplyView::CreateVirtualNetwork(created),
                    ) => {
                        lemma_creation_heard(attachments, replies, before, networks, update);
                    },
                    _ => {
                        lemma_networks_heard_stays(attachments, replies, before, networks, update);
                    },
                }
            }
        }
    }
}

/// What was heard of networks stays so.
proof fn lemma_networks_heard_stays(
    attachments: Seq<AstraAttachmentView>,
    replies: Seq<ReplyView>,
    n: nat,
    networks: Seq<VirtualNetworkView>,
    update: UpdateView,
)
    requires
        networks_heard(attachments, replies, n, networks, update),
    ensures
        networks_heard(attachments, replies, n + 1, networks, update),
{
    if let ProgressView::CreatingNetwork { known, index } = update.progress {
        assert forall|vni: u32| #[trigger] known.contains_key(vni) implies known_state(
            attachments,
            replies,
            n + 1,
            networks,
            vni,
            known[vni],
        ) by {
            lemma_known_state_stays(attachments, replies, n, networks, vni, known[vni]);
        }
        assert forall|k: int| 0 <= k < index implies network_reported(
            attachments,
            replies,
            n + 1,
            networks,
            k,
            #[trigger] update.statuses[k],
        ) by {
            lemma_network_reported_stays(attachments, replies, n, networks, k, update.statuses[k]);
        }
    } else {
        assert forall|k: int| 0 <= k < attachments.len() implies network_reported(
            attachments,
            replies,
            n + 1,
            networks,
            k,
            #[trigger] update.statuses[k],
        ) by {
            lemma_network_reported_stays(attachments, replies, n, networks, k, update.statuses[k]);
        }
    }
}

/// When the attachments are listed, what is reported about every attachment is what the server
/// said of its network, in the listing or in reply to a call that asked for it.
pub proof fn lemma_networks_are_reported_as_told(
    attachments: Seq<AstraAttachmentView>,
    replies: Seq<ReplyView>,
    m: nat,
    networks: Seq<VirtualNetworkView>,
    n: nat,
    k: int,
)
    requires
        m < n <= replies.len(),
        progress_at(Some(attachments), replies, m) == Some(ProgressView::ListingNetworks),
        replies[m as int] == ReplyView::ListVirtualNetworks(Ok(networks)),
        progress_at(Some(attachments), replies, n) == Some(ProgressView::ListingAttachments),
        0 <= k < attachments.len(),
    ensures
        step_at(Some(attachments), replies, n) matches StepView::Call { update, request }
            && network_reported(attachments, replies, n, networks, k, update.statuses[k]),
{
    lemma_networks_heard(attachments, replies, m, networks, n);
}

/// An update that is past the list of attachments has made it.
pub proof fn lemma_attachments_listing_was_made(
    attachments: Seq<AstraAttachmentView>,
    replies: Seq<ReplyView>,
    n: nat,
) -> (a: nat)
    requires
        n <= replies.len(),
        match step_at(Some(attachments), replies, n) {
            StepView::Call { update, request } => update.left().0 < 5,
            StepView::Done(_) => true,
            StepView::Failed(_) => false,
        },
    ensures
        a < n,
        progress_at(Some(attachments), replies, a) == Some(ProgressView::ListingAttachments),
        replies[a as int] matches ReplyView::ListVirtualNetworkAttachments(Ok(_)),
    decreases n,
{
    reveal(step_at);
    assert(n > 0);
    let before = (n - 1) as nat;
    lemma_attachments_kept(attachments, replies, before);
    match step_at(Some(attachments), replies, before) {
        StepView::Call { update, request } => {
            lemma_step(update, replies[before as int]);
            if update.left().0 < 5 {
                lemma_attachments_listing_was_made(attachments, replies, before)
            } else {
                before
            }
        },
        _ => lemma_attachments_listing_was_made(attachments, replies, before),
    }
}

/// An attachment whose network is listed in a state other than ready is reported with that state,
/// phase, reason and message, to the end, and no call is ever made for it: it is neither created
/// nor are those in its way deleted.
pub proof fn lemma_unready_listed_network_holds_back(
    attachments: Seq<AstraAttachmentView>,
    replies: Seq<ReplyView>,
    m: nat,
    networks: Seq<VirtualNetworkView>,
    p: int,
    n: nat,
    k: int,
)
    requires
        m < n <= replies.len(),
        progress_at(Some(attachments), replies, m) == Some(ProgressView::ListingNetworks),
        replies[m as int] == ReplyView::ListVirtualNetworks(Ok(networks)),
        0 <= k < attachments.len(),
        attachments[k].vni != 0,
        last_with_vni(networks, attachments[k].vni, p),
        networks[p].status matches Some(Some(state)) && state.phase != Phase::Ready,
    ensures
        match step_at(Some(attachments), replies, n) {
            StepView::Call { update, request } => {
                &&& update.left().0 <= 5 ==> reports_state(
                    update.statuses[k],
                    networks[p].status->0->0,
                )
                &&& match update.progress {
                    ProgressView::CreatingNetwork { known, index } => index != k,
                    ProgressView::DeletingConflict { listed, deleted, index, conflict, clean } =>
                        index != k,
                    ProgressView::CreatingAttachment { listed, deleted, index } => index != k,
                    _ => true,
                }
            },
            StepView::Done(statuses) => reports_state(statuses[k], networks[p].status->0->0),
            StepView::Failed(_) => true,
        },
{
    let vni = attachments[k].vni;
    let told = networks[p].status->0->0;
    assert(has_vni(networks[p], vni));
    assert(vni_listed(networks, vni));
    lemma_attachments_kept(attachments, replies, n);
    lemma_networks_heard(attachments, replies, m, networks, n);
    let past = match step_at(Some(attachments), replies, n) {
        StepView::Call { update, request } => update.left().0 < 5,
        StepView::Done(_) => true,
        StepView::Failed(_) => false,
    };
    let a = if past {
        lemma_attachments_listing_was_made(attachments, replies, n)
    } else {
        n
    };
    if past {
        if a <= m {
            lemma_stages_follow(attachments, replies, a, m);
        }
        lemma_networks_heard(attachments, replies, m, networks, a);
    }
    if progress_at(Some(attachments), replies, a) == Some(ProgressView::ListingAttachments) {
        lemma_attachments_kept(attachments, replies, a);
        let status = step_at(Some(attachments), replies, a)->update.statuses[k];
        assert(network_reported(attachments, replies, a, networks, k, status));
        lemma_ready_is_reported(status);
        lemma_unready_network_is_final(attachments, replies, a, n, k);
    } else if let StepView::Call { update, request } = step_at(Some(attachments), replies, n) {
        if let ProgressView::CreatingNetwork { known, index } = update.progress {
            lemma_statuses_are_about_attachments(attachments, replies, n, index);
            assert(known.contains_key(vni));
        }
    }
}

/// The reply to the call that creates a network decides what a finished update reports about the
/// attachment that it was made for, where the network is not ready: nothing else happens to it.
pub proof fn lemma_created_network_is_reported(
    attachments: Seq<AstraAttachmentView>,
    replies: Seq<ReplyView>,
    i: nat,
    network: VirtualNetworkView,
    n: nat,
    k: int,
)
    requires
        i < n <= replies.len(),
        progress_at(Some(attachments), replies, i) matches Some(
            ProgressView::CreatingNetwork { known, index },
        ) && index == k,
        replies[i as int] == ReplyView::CreateVirtualNetwork(Ok(Some(network))),
        network.status matches Some(Some(state)) && state.phase != Phase::Ready,
        step_at(Some(attachments), replies, n) is Done,
    ensures
        0 <= k < attachments.len(),
        reports_state(
            step_at(Some(attachments), replies, n)->Done_0[k],
            network.status->0->0,
        ),
{
    reveal(step_at);
    let state = network.status->0->0;
    lemma_attachments_kept(attachments, replies, i);
    let update = step_at(Some(attachments), replies, i)->update;
    let known = update.progress->CreatingNetwork_known;
    lemma_unready_is_reported(update.statuses[k], state);
    let recorded = update.statuses.update(k, reporting_unready(update.statuses[k], state));
    lemma_networks_from(
        recorded,
        known_after_creation(
            known,
            update.statuses[k].vni as u32,
            replies[i as int]->CreateVirtualNetwork_0,
        ),
        k + 1,
    );
    lemma_step(update, replies[i as int]);
    let a = lemma_attachments_listing_was_made(attachments, replies, n);
    if a <= i {
        lemma_stages_follow(attachments, replies, a, i);
    }
    lemma_passed_network_report_stays(attachments, replies, i + 1, a, k);
    lemma_ready_is_reported(step_at(Some(attachments), replies, a)->update.statuses[k]);
    lemma_unready_network_is_final(attachments, replies, a, n, k);
}

/// While networks are created, what is reported about the attachments that have been passed stays.
proof fn lemma_passed_network_report_stays(
    attachments: Seq<AstraAttachmentView>,
    replies: Seq<ReplyView>,
    m: nat,
    n: nat,
    k: int,
)
    requires
        m <= n <= replies.len(),
        0 <= k < attachments.len(),
        match step_at(Some(attachments), replies, m) {
            StepView::Call { update, request } => match update.progress {
                ProgressView::CreatingNetwork { known, index } => k < index,
                ProgressView::ListingAttachments => true,
                _ => false,
            },
            _ => false,
        },
        match step_at(Some(attachments), replies, n) {
            StepView::Call { update, request } => update.left().0 >= 5,
            _ => false,
        },
    ensures
        step_at(Some(attachments), replies, n) matches StepView::Call { update, request }
            && update.statuses[k] == step_at(Some(attachments), replies, m)->update.statuses[k]
            && match update.progress {
            ProgressView::CreatingNetwork { known, index } => k < index,
            ProgressView::ListingAttachments => true,
            _ => false,
        },
    decreases n,
{
    reveal(step_at);
    if m < n {
        let before = (n - 1) as nat;
        lemma_attachments_kept(attachments, replies, before);
        let update = step_at(Some(attachments), replies, before)->update;
        lemma_step(update, replies[n - 1]);
        lemma_passed_network_report_stays(attachments, replies, m, before, k);
        if let (
            ProgressView::CreatingNetwork { known, index },
            ReplyView::CreateVirtualNetwork(created),
        ) = (update.progress, replies[n - 1]) {
            lemma_networks_from(
                update.statuses.update(
                    index,
                    reporting_unready(update.statuses[index], created_network_state(created)),
                ),
                known_after_creation(known, update.statuses[index].vni as u32, created),
                index + 1,
            );
        }
    }
}

} // verus!
