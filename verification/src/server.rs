//! Weave servers that do what they are asked, and where updates lead on them.
use crate::astra::{AstraAttachmentStatusView, AstraAttachmentView};
use crate::attachments::{attachment_wanted, conflicting, exact, exact_attachment, listed_ready};
use crate::cleanup::{
    deletes_attachment, deletes_network, lemma_unwanted_attachments_are_deleted,
    lemma_unwanted_networks_are_deleted,
};
use crate::convergence::{attachments_match, lemma_matching_inventory_is_kept, networks_match};
use crate::laws::{
    creates_attachment, interfaces_differ, lemma_attachments_kept, lemma_creations_are_configured,
    lemma_listings_are_replies, lemma_stages_follow, lemma_update_ends,
    lemma_wanted_attachments_survive, lemma_wanted_networks_survive, lists_unwanted_attachment,
    lists_unwanted_network, unwanted_network,
};
use crate::networks::{lemma_listed_vni_is_known, listed_states, network_stale};
use crate::progress::{same_attachments, ProgressView, StepView};
use crate::readiness::{lemma_reported_ready_is_ready, shows_attachment_ready, shows_network_ready};
use crate::runs::{
    lemma_step, lemma_step_at_prefix, lemma_step_keeps_listing, lemma_step_remembers,
    progress_at, request_at, step_at,
};
use crate::service::{ReplyView, RequestView};
use crate::status::{initial_status, initial_statuses, vnis_fit};
use crate::weave::{usable_id, Phase, VirtualNetworkAttachmentView, VirtualNetworkView};
use vstd::prelude::*;

verus! {

/// What a server holds.
pub struct ServerView {
    pub networks: Set<VirtualNetworkView>,
    pub attachments: Set<VirtualNetworkAttachmentView>,
}

/// A list of what a set holds, each item once, in any order.
pub open spec fn lists<T>(listing: Seq<T>, items: Set<T>) -> bool {
    &&& listing.no_duplicates()
    &&& forall|item: T| #[trigger] listing.contains(item) <==> items.contains(item)
}

/// A server grants a request, replies, and holds `after` what it was asked to. A created object
/// has the specification of the request; its id and its state are the server's choice.
pub open spec fn served(
    server: ServerView,
    request: RequestView,
    reply: ReplyView,
    after: ServerView,
) -> bool {
    match request {
        RequestView::ListVirtualNetworks(_) => {
            &&& reply matches ReplyView::ListVirtualNetworks(Ok(networks)) && lists(
                networks,
                server.networks,
            )
            &&& after == server
        },
        RequestView::CreateVirtualNetwork(r) => {
            &&& reply matches ReplyView::CreateVirtualNetwork(Ok(Some(network))) && network.spec
                == r.spec && after == (ServerView {
                networks: server.networks.insert(network),
                ..server
            })
        },
        RequestView::DeleteVirtualNetwork(id) => {
            &&& reply matches ReplyView::DeleteVirtualNetwork(Ok(_))
            &&& after == (ServerView {
                networks: server.networks.filter(
                    |network: VirtualNetworkView| usable_id(network.metadata) != Some(id),
                ),
                ..server
            })
        },
        RequestView::ListVirtualNetworkAttachments(_) => {
            &&& reply matches ReplyView::ListVirtualNetworkAttachments(Ok(listed)) && lists(
                listed,
                server.attachments,
            )
            &&& after == server
        },
        RequestView::CreateVirtualNetworkAttachment(r) => {
            &&& reply matches ReplyView::CreateVirtualNetworkAttachment(Ok(Some(attachment)))
                && attachment.spec == r.spec && after == (ServerView {
                attachments: server.attachments.insert(attachment),
                ..server
            })
        },
        RequestView::DeleteVirtualNetworkAttachment(id) => {
            &&& reply matches ReplyView::DeleteVirtualNetworkAttachment(Ok(_))
            &&& after == (ServerView {
                attachments: server.attachments.filter(
                    |attachment: VirtualNetworkAttachmentView|
                        usable_id(attachment.metadata) != Some(id),
                ),
                ..server
            })
        },
    }
}

/// A network that can be named and is ready.
pub open spec fn good_network(network: VirtualNetworkView) -> bool {
    &&& usable_id(network.metadata) is Some
    &&& network.state() matches Some(state) && state.phase == Phase::Ready
}

/// An attachment that can be named and is ready.
pub open spec fn good_attachment(attachment: VirtualNetworkAttachmentView) -> bool {
    &&& usable_id(attachment.metadata) is Some
    &&& attachment.state() matches Some(state) && state.phase == Phase::Ready
}

/// A server on which every object can be named and is ready, and no two networks and no two
/// attachments share an id.
pub open spec fn orderly(server: ServerView) -> bool {
    &&& forall|network: VirtualNetworkView| #[trigger]
        server.networks.contains(network) ==> good_network(network)
    &&& forall|a: VirtualNetworkView, b: VirtualNetworkView| #[trigger]
        server.networks.contains(a) && #[trigger] server.networks.contains(b) && usable_id(
            a.metadata,
        ) == usable_id(b.metadata) ==> a == b
    &&& forall|attachment: VirtualNetworkAttachmentView| #[trigger]
        server.attachments.contains(attachment) ==> good_attachment(attachment)
    &&& forall|a: VirtualNetworkAttachmentView, b: VirtualNetworkAttachmentView| #[trigger]
        server.attachments.contains(a) && #[trigger] server.attachments.contains(b) && usable_id(
            a.metadata,
        ) == usable_id(b.metadata) ==> a == b
}

/// A run of an update on a server: the configuration, the replies, and what the server holds
/// before each call and at the end.
pub struct ServedRun {
    pub attachments: Seq<AstraAttachmentView>,
    pub replies: Seq<ReplyView>,
    pub servers: Seq<ServerView>,
}

impl ServedRun {
    /// What the server holds after the first `i` replies.
    pub open spec fn server(self, i: nat) -> ServerView {
        self.servers[i as int]
    }

    /// The call that is made after the first `i` replies.
    pub open spec fn request(self, i: nat) -> RequestView {
        request_at(Some(self.attachments), self.replies, i)->0
    }

    /// Where the update stands after the first `i` replies.
    pub open spec fn step(self, i: nat) -> StepView {
        step_at(Some(self.attachments), self.replies, i)
    }

    /// After the first `i` replies a call is pending, and the server grants it.
    pub open spec fn faithful_at(self, i: nat) -> bool {
        &&& self.step(i) is Call
        &&& served(
            self.server(i),
            self.request(i),
            self.replies[i as int],
            self.server(i + 1),
        )
    }

    /// The server grants every call, and nothing else changes it.
    pub open spec fn faithful(self) -> bool {
        &&& self.servers.len() == self.replies.len() + 1
        &&& forall|i: nat| i < self.replies.len() ==> #[trigger] self.faithful_at(i)
    }

    /// The server is orderly throughout.
    pub open spec fn orderly(self) -> bool {
        forall|i: nat| i <= self.replies.len() ==> orderly(#[trigger] self.server(i))
    }

    /// What the server holds at the end.
    pub open spec fn last_server(self) -> ServerView {
        self.server(self.replies.len())
    }

    /// Where the update stands at the end.
    pub open spec fn last_step(self) -> StepView {
        self.step(self.replies.len())
    }

    /// The call after the first `i` replies creates this network.
    pub open spec fn creates_network_at(self, i: nat, network: VirtualNetworkView) -> bool {
        &&& self.request(i) is CreateVirtualNetwork
        &&& self.replies[i as int] == ReplyView::CreateVirtualNetwork(Ok(Some(network)))
    }

    /// The call after the first `i` replies deletes the networks with this id.
    pub open spec fn deletes_network_at(self, i: nat, id: Option<Seq<char>>) -> bool {
        match self.request(i) {
            RequestView::DeleteVirtualNetwork(r) => id == Some(r),
            _ => false,
        }
    }

    /// The call after the first `i` replies creates this attachment.
    pub open spec fn creates_attachment_at(
        self,
        i: nat,
        attachment: VirtualNetworkAttachmentView,
    ) -> bool {
        &&& self.request(i) is CreateVirtualNetworkAttachment
        &&& self.replies[i as int] == ReplyView::CreateVirtualNetworkAttachment(
            Ok(Some(attachment)),
        )
    }

    /// The call after the first `i` replies deletes the attachments with this id.
    pub open spec fn deletes_attachment_at(self, i: nat, id: Option<Seq<char>>) -> bool {
        match self.request(i) {
            RequestView::DeleteVirtualNetworkAttachment(r) => id == Some(r),
            _ => false,
        }
    }
}

/// A call changes the networks of a server by what it creates and deletes.
proof fn lemma_networks_after_call(run: ServedRun, i: nat, network: VirtualNetworkView)
    requires
        run.faithful(),
        i < run.replies.len(),
    ensures
        run.server(i + 1).networks.contains(network) <==> run.creates_network_at(i, network) || (
        run.server(i).networks.contains(network) && !run.deletes_network_at(
            i,
            usable_id(network.metadata),
        )),
{
    assert(run.faithful_at(i));
}

/// A call changes the attachments of a server by what it creates and deletes.
proof fn lemma_attachments_after_call(
    run: ServedRun,
    i: nat,
    attachment: VirtualNetworkAttachmentView,
)
    requires
        run.faithful(),
        i < run.replies.len(),
    ensures
        run.server(i + 1).attachments.contains(attachment) <==> run.creates_attachment_at(
            i,
            attachment,
        ) || (run.server(i).attachments.contains(attachment) && !run.deletes_attachment_at(
            i,
            usable_id(attachment.metadata),
        )),
{
    assert(run.faithful_at(i));
}

/// A network that a server holds was there before and is not deleted in between, or it was
/// created in between.
proof fn lemma_network_origin(run: ServedRun, i: nat, j: nat, network: VirtualNetworkView)
    requires
        run.faithful(),
        i <= j <= run.replies.len(),
        run.server(j).networks.contains(network),
    ensures
        (exists|t: nat| i <= t < j && #[trigger] run.creates_network_at(t, network)) || (
        run.server(i).networks.contains(network) && forall|t: nat|
            i <= t < j ==> !#[trigger] run.deletes_network_at(t, usable_id(network.metadata))),
    decreases j,
{
    if i < j {
        let t = (j - 1) as nat;
        lemma_networks_after_call(run, t, network);
        if !run.creates_network_at(t, network) {
            lemma_network_origin(run, i, t, network);
        }
    }
}

/// A network that a server holds and that is not deleted stays.
proof fn lemma_network_stays(run: ServedRun, i: nat, j: nat, network: VirtualNetworkView)
    requires
        run.faithful(),
        i <= j <= run.replies.len(),
        run.server(i).networks.contains(network),
        forall|t: nat|
            i <= t < j ==> !#[trigger] run.deletes_network_at(t, usable_id(network.metadata)),
    ensures
        run.server(j).networks.contains(network),
    decreases j,
{
    if i < j {
        let t = (j - 1) as nat;
        lemma_network_stays(run, i, t, network);
        lemma_networks_after_call(run, t, network);
        assert(!run.deletes_network_at(t, usable_id(network.metadata)));
    }
}

/// An attachment that a server holds was there before and is not deleted in between, or it was
/// created in between.
proof fn lemma_attachment_origin(
    run: ServedRun,
    i: nat,
    j: nat,
    attachment: VirtualNetworkAttachmentView,
)
    requires
        run.faithful(),
        i <= j <= run.replies.len(),
        run.server(j).attachments.contains(attachment),
    ensures
        (exists|t: nat| i <= t < j && #[trigger] run.creates_attachment_at(t, attachment)) || (
        run.server(i).attachments.contains(attachment) && forall|t: nat|
            i <= t < j ==> !#[trigger] run.deletes_attachment_at(
                t,
                usable_id(attachment.metadata),
            )),
    decreases j,
{
    if i < j {
        let t = (j - 1) as nat;
        lemma_attachments_after_call(run, t, attachment);
        if !run.creates_attachment_at(t, attachment) {
            lemma_attachment_origin(run, i, t, attachment);
        }
    }
}

/// An attachment that a server holds and that is not deleted stays.
proof fn lemma_attachment_stays(
    run: ServedRun,
    i: nat,
    j: nat,
    attachment: VirtualNetworkAttachmentView,
)
    requires
        run.faithful(),
        i <= j <= run.replies.len(),
        run.server(i).attachments.contains(attachment),
        forall|t: nat|
            i <= t < j ==> !#[trigger] run.deletes_attachment_at(
                t,
                usable_id(attachment.metadata),
            ),
    ensures
        run.server(j).attachments.contains(attachment),
    decreases j,
{
    if i < j {
        let t = (j - 1) as nat;
        lemma_attachment_stays(run, i, t, attachment);
        lemma_attachments_after_call(run, t, attachment);
        assert(!run.deletes_attachment_at(t, usable_id(attachment.metadata)));
    }
}

/// The pending call of an update that is not done yet, by its stage: networks are created
/// before the attachments are listed, and deleted after the second listing.
proof fn lemma_request_by_stage(run: ServedRun, i: nat)
    requires
        run.faithful(),
        i < run.replies.len(),
    ensures
        run.step(i) matches StepView::Call { update, request } && request == run.request(i) && {
            let stage = update.left().0;
            &&& request is CreateVirtualNetwork ==> stage == 6
            &&& request is ListVirtualNetworkAttachments ==> stage == 5
            &&& request is CreateVirtualNetworkAttachment ==> stage == 4
            &&& request is DeleteVirtualNetworkAttachment ==> stage == 3 || stage == 4
            &&& request is DeleteVirtualNetwork ==> stage == 1
        },
{
    assert(run.faithful_at(i));
    lemma_attachments_kept(run.attachments, run.replies, i);
}

/// A finished update has listed the networks a second time.
proof fn lemma_networks_were_relisted(run: ServedRun) -> (r: nat)
    requires
        run.faithful(),
        run.last_step() is Done,
    ensures
        r < run.replies.len(),
        progress_at(Some(run.attachments), run.replies, r) == Some(
            ProgressView::RelistingNetworks,
        ),
        run.replies[r as int] matches ReplyView::ListVirtualNetworks(Ok(networks)) && lists(
            networks,
            run.server(r).networks,
        ),
{
    reveal(step_at);
    assert(run.replies.len() > 0);
    let last = (run.replies.len() - 1) as nat;
    assert(run.faithful_at(last));
    lemma_attachments_kept(run.attachments, run.replies, last);
    lemma_step(run.step(last)->update, run.replies[last as int]);
    lemma_listings_are_replies(run.attachments, run.replies, last);
    let update = run.step(last)->update;
    if let ProgressView::DeletingStaleNetwork { networks, position } = update.progress {
        let i = choose|i: int|
            0 <= i < last && #[trigger] run.replies[i] == ReplyView::ListVirtualNetworks(
                Ok(networks),
            ) && progress_at(Some(run.attachments), run.replies, i as nat) == Some(
                ProgressView::RelistingNetworks,
            );
        assert(run.faithful_at(i as nat));
        i as nat
    } else {
        last
    }
}

/// An update that is past the list of attachments has made it.
proof fn lemma_attachments_were_listed(run: ServedRun, i: nat) -> (a: nat)
    requires
        run.faithful(),
        i <= run.replies.len(),
        match run.step(i) {
            StepView::Call { update, request } => update.left().0 < 5,
            StepView::Done(_) => true,
            StepView::Failed(_) => false,
        },
    ensures
        a < i,
        progress_at(Some(run.attachments), run.replies, a) == Some(
            ProgressView::ListingAttachments,
        ),
        run.replies[a as int] matches ReplyView::ListVirtualNetworkAttachments(Ok(listed))
            && lists(listed, run.server(a).attachments),
    decreases i,
{
    reveal(step_at);
    assert(i > 0);
    let before = (i - 1) as nat;
    assert(run.faithful_at(before));
    lemma_attachments_kept(run.attachments, run.replies, before);
    let update = run.step(before)->update;
    lemma_step(update, run.replies[before as int]);
    if update.left().0 < 5 {
        lemma_attachments_were_listed(run, before)
    } else {
        before
    }
}

/// Every network that the server holds at any time is there when the networks are listed a
/// second time: they are created before and deleted behind that.
proof fn lemma_network_is_relisted(
    run: ServedRun,
    r: nat,
    i: nat,
    network: VirtualNetworkView,
)
    requires
        run.faithful(),
        r < run.replies.len(),
        progress_at(Some(run.attachments), run.replies, r) == Some(
            ProgressView::RelistingNetworks,
        ),
        i <= run.replies.len(),
        run.server(i).networks.contains(network),
    ensures
        run.server(r).networks.contains(network),
{
    lemma_request_by_stage(run, r);
    if i <= r {
        assert forall|t: nat| i <= t < r implies !#[trigger] run.deletes_network_at(
            t,
            usable_id(network.metadata),
        ) by {
            lemma_request_by_stage(run, t);
            lemma_stages_follow(run.attachments, run.replies, t, r);
        }
        lemma_network_stays(run, i, r, network);
    } else {
        lemma_network_origin(run, r, i, network);
        if exists|t: nat| r <= t < i && #[trigger] run.creates_network_at(t, network) {
            let t = choose|t: nat| r <= t < i && #[trigger] run.creates_network_at(t, network);
            lemma_request_by_stage(run, t);
            lemma_stages_follow(run.attachments, run.replies, r, t);
        }
    }
}

/// A network that an attachment wants stays on the server.
proof fn lemma_wanted_network_stays(
    run: ServedRun,
    i: nat,
    network: VirtualNetworkView,
    k: int,
)
    requires
        run.faithful(),
        run.orderly(),
        run.last_step() is Done,
        i <= run.replies.len(),
        run.server(i).networks.contains(network),
        0 <= k < run.attachments.len(),
        network.vni() == Some(run.attachments[k].vni),
    ensures
        run.last_server().networks.contains(network),
{
    let n = run.replies.len();
    let id = usable_id(network.metadata);
    let r = lemma_networks_were_relisted(run);
    assert forall|t: nat| i <= t < n implies !#[trigger] run.deletes_network_at(t, id) by {
        if run.deletes_network_at(t, id) {
            assert(run.faithful_at(t));
            lemma_wanted_networks_survive(run.attachments, run.replies, t, id->0);
            let l = choose|l: int|
                0 <= l < t && lists_unwanted_network(
                    #[trigger] run.replies[l],
                    run.attachments,
                    id->0,
                );
            assert(run.faithful_at(l as nat));
            let networks = run.replies[l]->ListVirtualNetworks_0->Ok_0;
            let p = choose|p: int|
                0 <= p < networks.len() && unwanted_network(
                    #[trigger] networks[p],
                    run.attachments,
                    id->0,
                );
            assert(unwanted_network(networks[p], run.attachments, id->0));
            assert(networks.contains(networks[p]));
            lemma_network_is_relisted(run, r, i, network);
            lemma_network_is_relisted(run, r, l as nat, networks[p]);
            assert(orderly(run.server(r)));
            assert(networks[p].vni() != Some(run.attachments[k].vni));
        }
    }
    lemma_network_stays(run, i, n, network);
}

/// A VNI that is known from a listing is the VNI of a network in it.
proof fn lemma_known_vni_is_listed(networks: Seq<VirtualNetworkView>, vni: u32) -> (p: int)
    requires
        listed_states(networks).contains_key(vni),
    ensures
        0 <= p < networks.len(),
        networks[p].vni() == Some(vni),
    decreases networks.len(),
{
    if networks.last().vni() == Some(vni) {
        networks.len() - 1
    } else {
        lemma_known_vni_is_listed(networks.drop_last(), vni)
    }
}

/// The exact attachment is one of those that are listed.
pub proof fn lemma_exact_attachment_is_listed(
    listed: Seq<VirtualNetworkAttachmentView>,
    attachment: AstraAttachmentStatusView,
)
    ensures
        exact_attachment(listed, attachment) matches Some(found) ==> listed.contains(found)
            && exact(found, attachment),
        forall|p: int|
            0 <= p < listed.len() && exact(#[trigger] listed[p], attachment)
                ==> exact_attachment(listed, attachment) is Some,
    decreases listed.len(),
{
    if listed.len() > 0 {
        let rest = listed.drop_last();
        lemma_exact_attachment_is_listed(rest, attachment);
        if exact(listed.last(), attachment) {
            assert(listed[listed.len() - 1] == listed.last());
        } else {
            if let Some(found) = exact_attachment(rest, attachment) {
                let p = choose|p: int| 0 <= p < rest.len() && rest[p] == found;
                assert(listed[p] == found);
            }
            assert forall|p: int|
                0 <= p < listed.len() && exact(#[trigger] listed[p], attachment) implies
                exact_attachment(listed, attachment) is Some by {
                assert(p < rest.len());
                assert(rest[p] == listed[p]);
            }
        }
    }
}

/// Every attachment is reported ready.
pub open spec fn all_ready(statuses: Seq<AstraAttachmentStatusView>) -> bool {
    forall|k: int| 0 <= k < statuses.len() ==> (#[trigger] statuses[k]).ready()
}

impl ServedRun {
    /// The update is done and reports every attachment ready, the server was orderly
    /// throughout and granted every call, and no two attachments share an interface.
    pub open spec fn successful(self) -> bool {
        &&& self.faithful()
        &&& self.orderly()
        &&& interfaces_differ(self.attachments)
        &&& self.last_step() matches StepView::Done(statuses) && all_ready(statuses)
    }
}

/// At the end of an update the server holds a network for every configured VNI.
proof fn lemma_wanted_network_is_there(run: ServedRun, k: int) -> (network: VirtualNetworkView)
    requires
        run.successful(),
        0 <= k < run.attachments.len(),
        run.attachments[k].vni != 0,
    ensures
        run.last_server().networks.contains(network),
        network.vni() == Some(run.attachments[k].vni),
{
    let n = run.replies.len();
    let vni = run.attachments[k].vni;
    let statuses = run.last_step()->Done_0;
    lemma_attachments_kept(run.attachments, run.replies, n);
    assert(statuses[k].ready());
    lemma_reported_ready_is_ready(run.attachments, run.replies, n, statuses, k);
    let i = choose|i: nat|
        i < n && #[trigger] shows_network_ready(run.attachments, run.replies, i, vni);
    assert(run.faithful_at(i));
    if run.request(i) is CreateVirtualNetwork {
        let network = run.replies[i as int]->CreateVirtualNetwork_0->Ok_0->0;
        lemma_networks_after_call(run, i, network);
        lemma_creations_are_configured(run.attachments, run.replies, i);
        lemma_wanted_network_stays(run, i + 1, network, k);
        network
    } else {
        let networks = run.replies[i as int]->ListVirtualNetworks_0->Ok_0;
        let p = lemma_known_vni_is_listed(networks, vni);
        assert(networks.contains(networks[p]));
        lemma_wanted_network_stays(run, i, networks[p], k);
        networks[p]
    }
}

/// At the end of an update the server holds no stale network.
proof fn lemma_no_stale_network_is_left(run: ServedRun, network: VirtualNetworkView)
    requires
        run.faithful(),
        run.last_step() is Done,
        run.last_server().networks.contains(network),
    ensures
        !network_stale(network, initial_statuses(run.attachments)),
{
    let n = run.replies.len();
    let initial = initial_statuses(run.attachments);
    lemma_attachments_kept(run.attachments, run.replies, n);
    if network_stale(network, initial) {
        let id = usable_id(network.metadata)->0;
        let r = lemma_networks_were_relisted(run);
        let networks = run.replies[r as int]->ListVirtualNetworks_0->Ok_0;
        lemma_network_origin(run, r, n, network);
        if exists|t: nat| r <= t < n && #[trigger] run.creates_network_at(t, network) {
            let t = choose|t: nat| r <= t < n && #[trigger] run.creates_network_at(t, network);
            lemma_request_by_stage(run, t);
            lemma_stages_follow(run.attachments, run.replies, r, t);
        } else {
            assert(networks.contains(network));
            let q = choose|q: int| 0 <= q < networks.len() && networks[q] == network;
            assert forall|k: int| 0 <= k < run.attachments.len() implies network.vni() != Some(
                (#[trigger] run.attachments[k]).vni,
            ) by {
                assert(network.vni() != Some(initial[k].vni as u32));
            }
            assert(unwanted_network(networks[q], run.attachments, id));
            lemma_unwanted_networks_are_deleted(
                run.attachments,
                run.replies,
                r,
                networks,
                n,
                q,
                id,
            );
            let t = choose|t: nat|
                t < n && #[trigger] deletes_network(run.attachments, run.replies, t, id);
            lemma_request_by_stage(run, t);
            if t < r {
                lemma_stages_follow(run.attachments, run.replies, t, r);
            }
            assert(run.deletes_network_at(t, usable_id(network.metadata)));
        }
    }
}

/// An id that is remembered as deleted stays so.
proof fn lemma_deleted_is_remembered(run: ServedRun, m: nat, n: nat, id: Seq<char>)
    requires
        run.faithful(),
        m <= n <= run.replies.len(),
        run.step(m) matches StepView::Call { update, request } && update.progress.deleted()
            matches Some(deleted) && deleted.contains(id),
    ensures
        run.step(n) matches StepView::Call { update, request } ==> (
        update.progress.deleted() matches Some(deleted) ==> deleted.contains(id)),
    decreases n,
{
    reveal(step_at);
    if m < n {
        let before = (n - 1) as nat;
        lemma_deleted_is_remembered(run, m, before, id);
        assert(run.faithful_at(before));
        lemma_attachments_kept(run.attachments, run.replies, m);
        lemma_attachments_kept(run.attachments, run.replies, before);
        lemma_attachments_kept(run.attachments, run.replies, n);
        lemma_stages_follow(run.attachments, run.replies, m, before);
        lemma_stages_follow(run.attachments, run.replies, before, n);
        let update = run.step(before)->update;
        if update.progress.deleted() is Some {
            lemma_step_remembers(update, run.replies[before as int]);
        }
    }
}

/// The listing of attachments that an update works on stays the same.
proof fn lemma_listing_stays(run: ServedRun, m: nat, n: nat)
    requires
        run.faithful(),
        m <= n <= run.replies.len(),
        run.step(m) matches StepView::Call { update, request } && update.progress.listed() is Some,
    ensures
        run.step(n) matches StepView::Call { update, request } ==> (
        update.progress.listed() is Some ==> update.progress.listed()
            == run.step(m)->update.progress.listed()),
    decreases n,
{
    reveal(step_at);
    if m < n {
        let before = (n - 1) as nat;
        lemma_listing_stays(run, m, before);
        assert(run.faithful_at(before));
        lemma_attachments_kept(run.attachments, run.replies, before);
        lemma_stages_follow(run.attachments, run.replies, m, before);
        lemma_step_keeps_listing(run.step(before)->update, run.replies[before as int]);
    }
}

/// The listed attachment that a pending deletion is for.
proof fn lemma_pending_deletion(run: ServedRun, t: nat, id: Seq<char>) -> (p: int)
    requires
        run.faithful(),
        t < run.replies.len(),
        run.deletes_attachment_at(t, Some(id)),
    ensures
        run.step(t) is Call,
        run.step(t)->update.wf(),
        run.step(t)->update.progress.listed() matches Some(listed) && 0 <= p < listed.len()
            && usable_id(listed[p].metadata) == Some(id),
        match run.step(t)->update.progress {
            ProgressView::DeletingConflict { listed, deleted, index, conflict, clean } => conflict
                == p,
            ProgressView::DeletingStaleAttachment { listed, deleted, position } => position == p,
            _ => false,
        },
{
    assert(run.faithful_at(t));
    lemma_attachments_kept(run.attachments, run.replies, t);
    match run.step(t)->update.progress {
        ProgressView::DeletingConflict { listed, deleted, index, conflict, clean } => conflict,
        ProgressView::DeletingStaleAttachment { listed, deleted, position } => position,
        _ => 0,
    }
}

/// In an orderly listing an id belongs to one position.
proof fn lemma_one_position(
    listed: Seq<VirtualNetworkAttachmentView>,
    server: ServerView,
    p: int,
    q: int,
)
    requires
        orderly(server),
        lists(listed, server.attachments),
        0 <= p < listed.len(),
        0 <= q < listed.len(),
        usable_id(listed[p].metadata) == usable_id(listed[q].metadata),
    ensures
        p == q,
{
    assert(listed.contains(listed[p]));
    assert(listed.contains(listed[q]));
}

/// On an orderly server no attachment is deleted twice.
proof fn lemma_attachment_is_deleted_once(run: ServedRun, s: nat, t: nat, id: Seq<char>)
    requires
        run.faithful(),
        run.orderly(),
        interfaces_differ(run.attachments),
        s < t < run.replies.len(),
        run.deletes_attachment_at(s, Some(id)),
    ensures
        !run.deletes_attachment_at(t, Some(id)),
{
    if run.deletes_attachment_at(t, Some(id)) {
        let p = lemma_pending_deletion(run, s, id);
        let q = lemma_pending_deletion(run, t, id);
        let first = run.step(s)->update;
        let second = run.step(t)->update;
        let listed = first.progress.listed()->0;
        lemma_listing_stays(run, s, t);
        lemma_listings_are_replies(run.attachments, run.replies, s);
        let a = choose|a: int|
            0 <= a < s && #[trigger] run.replies[a] == ReplyView::ListVirtualNetworkAttachments(
                Ok(listed),
            ) && progress_at(Some(run.attachments), run.replies, a as nat) == Some(
                ProgressView::ListingAttachments,
            );
        assert(run.faithful_at(a as nat));
        assert(orderly(run.server(a as nat)));
        lemma_one_position(listed, run.server(a as nat), p, q);
        assert(run.faithful_at(s));
        lemma_update_ends(run.attachments, run.replies, s);
        lemma_stages_follow(run.attachments, run.replies, s + 1, t);
        lemma_attachments_kept(run.attachments, run.replies, s);
        lemma_attachments_kept(run.attachments, run.replies, s + 1);
        lemma_attachments_kept(run.attachments, run.replies, t);
        if let ProgressView::DeletingConflict { listed, deleted, index, conflict, clean } =
            first.progress {
            if let ProgressView::DeletingConflict {
                listed: l,
                deleted: d,
                index: i,
                conflict: c,
                clean: cl,
            } = second.progress {
                let initial = initial_statuses(run.attachments);
                assert(initial[index].same_attachment(first.statuses[index]));
                assert(initial[i].same_attachment(second.statuses[i]));
                assert(run.attachments[index].mac_address == run.attachments[i].mac_address);
                assert(index == i);
            } else {
                lemma_conflict_is_remembered(run, s, id);
                lemma_deleted_is_remembered(run, s + 1, t, id);
            }
        }
    }
}

/// The id of a conflict that is deleted is remembered, while attachments are looked at.
proof fn lemma_conflict_is_remembered(run: ServedRun, s: nat, id: Seq<char>)
    requires
        run.faithful(),
        s < run.replies.len(),
        run.deletes_attachment_at(s, Some(id)),
        run.step(s)->update.progress is DeletingConflict,
    ensures
        run.step(s + 1) matches StepView::Call { update, request } ==> (
        update.progress.deleted() matches Some(deleted) ==> deleted.contains(id)),
{
    reveal(step_at);
    assert(run.faithful_at(s));
    lemma_attachments_kept(run.attachments, run.replies, s);
    lemma_step_remembers(run.step(s)->update, run.replies[s as int]);
}

/// An attachment that a configured one calls for stays on the server.
proof fn lemma_wanted_attachment_stays(
    run: ServedRun,
    i: nat,
    attachment: VirtualNetworkAttachmentView,
)
    requires
        run.faithful(),
        run.orderly(),
        interfaces_differ(run.attachments),
        i <= run.replies.len(),
        run.server(i).attachments.contains(attachment),
        attachment_wanted(attachment, initial_statuses(run.attachments)),
    ensures
        run.last_server().attachments.contains(attachment),
{
    let n = run.replies.len();
    let id = usable_id(attachment.metadata);
    assert forall|t: nat| i <= t < n implies !#[trigger] run.deletes_attachment_at(t, id) by {
        if run.deletes_attachment_at(t, id) {
            let (l, other) = lemma_deleted_attachment_was_listed(run, t, id->0);
            lemma_request_by_stage(run, l);
            if i <= l {
                assert forall|s: nat| i <= s < l implies !#[trigger] run.deletes_attachment_at(
                    s,
                    id,
                ) by {
                    lemma_request_by_stage(run, s);
                    lemma_stages_follow(run.attachments, run.replies, s, l);
                }
                lemma_attachment_stays(run, i, l, attachment);
                assert(orderly(run.server(l)));
            } else {
                lemma_attachment_origin(run, l, i, attachment);
                assert(orderly(run.server(l)));
                let s = choose|s: nat|
                    l <= s < i && #[trigger] run.creates_attachment_at(s, attachment);
                lemma_attachments_after_call(run, s, attachment);
                assert(orderly(run.server(s + 1)));
                if forall|u: nat| l <= u < s + 1 ==> !#[trigger] run.deletes_attachment_at(u, id) {
                    lemma_attachment_stays(run, l, s + 1, other);
                } else {
                    let u = choose|u: nat|
                        l <= u < s + 1 && #[trigger] run.deletes_attachment_at(u, id);
                    lemma_attachment_is_deleted_once(run, u, t, id->0);
                }
            }
        }
    }
    lemma_attachment_stays(run, i, n, attachment);
}

/// An attachment that is deleted was on the server when the attachments were listed, and no
/// configured one calls for it.
proof fn lemma_deleted_attachment_was_listed(run: ServedRun, t: nat, id: Seq<char>) -> (found: (
    nat,
    VirtualNetworkAttachmentView,
))
    requires
        run.faithful(),
        interfaces_differ(run.attachments),
        t < run.replies.len(),
        run.deletes_attachment_at(t, Some(id)),
    ensures
        found.0 < t,
        run.request(found.0) is ListVirtualNetworkAttachments,
        run.server(found.0).attachments.contains(found.1),
        usable_id(found.1.metadata) == Some(id),
        !attachment_wanted(found.1, initial_statuses(run.attachments)),
{
    assert(run.faithful_at(t));
    let initial = initial_statuses(run.attachments);
    lemma_wanted_attachments_survive(run.attachments, run.replies, t, id);
    let l = choose|l: int|
        0 <= l < t && lists_unwanted_attachment(#[trigger] run.replies[l], run.attachments, id);
    assert(run.faithful_at(l as nat));
    let listed = run.replies[l]->ListVirtualNetworkAttachments_0->Ok_0;
    let p = choose|p: int|
        0 <= p < listed.len() && usable_id((#[trigger] listed[p]).metadata) == Some(id)
            && !attachment_wanted(listed[p], initial);
    assert(usable_id(listed[p].metadata) == Some(id) && !attachment_wanted(listed[p], initial));
    assert(listed.contains(listed[p]));
    (l as nat, listed[p])
}

/// An attachment that is created is the one that some configured one calls for.
proof fn lemma_created_attachment_is_wanted(
    run: ServedRun,
    t: nat,
    attachment: VirtualNetworkAttachmentView,
)
    requires
        run.faithful(),
        t < run.replies.len(),
        run.creates_attachment_at(t, attachment),
    ensures
        attachment_wanted(attachment, initial_statuses(run.attachments)),
{
    assert(run.faithful_at(t));
    lemma_attachments_kept(run.attachments, run.replies, t);
    lemma_creations_are_configured(run.attachments, run.replies, t);
    let initial = initial_statuses(run.attachments);
    let k = choose|k: int|
        0 <= k < run.attachments.len() && creates_attachment(
            run.request(t),
            #[trigger] run.attachments[k],
        );
    assert(creates_attachment(run.request(t), run.attachments[k]));
    assert(run.attachments[k].vni <= i32::MAX);
    assert(initial[k].vni != 0 && exact(attachment, initial[k]));
}

/// At the end of an update the server holds only attachments that configured ones call for.
proof fn lemma_only_wanted_attachments_are_left(
    run: ServedRun,
    attachment: VirtualNetworkAttachmentView,
)
    requires
        run.faithful(),
        run.orderly(),
        run.last_step() is Done,
        run.last_server().attachments.contains(attachment),
    ensures
        attachment_wanted(attachment, initial_statuses(run.attachments)),
{
    let n = run.replies.len();
    let initial = initial_statuses(run.attachments);
    let a = lemma_attachments_were_listed(run, n);
    let listed = run.replies[a as int]->ListVirtualNetworkAttachments_0->Ok_0;
    lemma_attachment_origin(run, a, n, attachment);
    if exists|t: nat| a <= t < n && #[trigger] run.creates_attachment_at(t, attachment) {
        let t = choose|t: nat|
            a <= t < n && #[trigger] run.creates_attachment_at(t, attachment);
        lemma_created_attachment_is_wanted(run, t, attachment);
    } else if !attachment_wanted(attachment, initial) {
        assert(listed.contains(attachment));
        let p = choose|p: int| 0 <= p < listed.len() && listed[p] == attachment;
        assert(orderly(run.server(a)));
        let id = usable_id(attachment.metadata)->0;
        lemma_unwanted_attachments_are_deleted(
            run.attachments,
            run.replies,
            a,
            listed,
            n,
            p,
            id,
        );
        let t = choose|t: nat|
            t < n && #[trigger] deletes_attachment(run.attachments, run.replies, t, id);
        lemma_request_by_stage(run, t);
        if t < a {
            lemma_stages_follow(run.attachments, run.replies, t, a);
        }
        assert(run.deletes_attachment_at(t, usable_id(attachment.metadata)));
    }
}

/// At the end of an update the server holds an attachment for every configured one that has a
/// network.
proof fn lemma_wanted_attachment_is_there(run: ServedRun, k: int) -> (attachment:
    VirtualNetworkAttachmentView)
    requires
        run.successful(),
        0 <= k < run.attachments.len(),
        run.attachments[k].vni != 0,
    ensures
        run.last_server().attachments.contains(attachment),
        exact(attachment, initial_status(run.attachments[k])),
{
    let n = run.replies.len();
    let initial = initial_statuses(run.attachments);
    let wanted = initial_status(run.attachments[k]);
    let statuses = run.last_step()->Done_0;
    lemma_attachments_kept(run.attachments, run.replies, n);
    assert(statuses[k].ready());
    lemma_reported_ready_is_ready(run.attachments, run.replies, n, statuses, k);
    let i = choose|i: nat|
        i < n && #[trigger] shows_attachment_ready(run.attachments, run.replies, i, k);
    assert(run.faithful_at(i));
    assert(run.attachments[k].vni <= i32::MAX);
    assert(initial[k] == wanted && wanted.vni != 0);
    if run.request(i) is CreateVirtualNetworkAttachment {
        let attachment = run.replies[i as int]->CreateVirtualNetworkAttachment_0->Ok_0->0;
        lemma_attachments_after_call(run, i, attachment);
        assert(exact(attachment, initial[k]));
        lemma_wanted_attachment_stays(run, i + 1, attachment);
        attachment
    } else {
        let listed = run.replies[i as int]->ListVirtualNetworkAttachments_0->Ok_0;
        lemma_exact_attachment_is_listed(listed, wanted);
        let found = exact_attachment(listed, wanted)->0;
        assert(exact(found, initial[k]));
        lemma_wanted_attachment_stays(run, i, found);
        found
    }
}

/// Only one configured attachment can call for a listed one.
proof fn lemma_one_wants(
    attachments: Seq<AstraAttachmentView>,
    listed: VirtualNetworkAttachmentView,
    k: int,
)
    requires
        vnis_fit(attachments),
        interfaces_differ(attachments),
        attachment_wanted(listed, initial_statuses(attachments)),
        0 <= k < attachments.len(),
        listed.on_nic(attachments[k].mac_address),
    ensures
        attachments[k].vni != 0,
        exact(listed, initial_status(attachments[k])),
{
    let initial = initial_statuses(attachments);
    let l = choose|l: int|
        0 <= l < initial.len() && (#[trigger] initial[l]).vni != 0 && exact(listed, initial[l]);
    assert(attachments[l].mac_address == attachments[k].mac_address);
    assert(attachments[l].vni <= i32::MAX);
    assert(l == k);
}

/// Where all listed networks are ready, all known states are.
pub proof fn lemma_listed_states_ready(networks: Seq<VirtualNetworkView>)
    requires
        forall|p: int| 0 <= p < networks.len() ==> good_network(#[trigger] networks[p]),
    ensures
        forall|vni: u32| #[trigger]
            listed_states(networks).contains_key(vni) ==> listed_states(networks)[vni].phase
                == Phase::Ready,
    decreases networks.len(),
{
    if networks.len() > 0 {
        let rest = networks.drop_last();
        assert forall|p: int| 0 <= p < rest.len() implies good_network(#[trigger] rest[p]) by {
            assert(rest[p] == networks[p]);
        }
        lemma_listed_states_ready(rest);
        assert(good_network(networks[networks.len() - 1]));
    }
}

/// A listing of the networks at the end of an update matches the configuration.
proof fn lemma_networks_converge(run: ServedRun, networks: Seq<VirtualNetworkView>)
    requires
        run.successful(),
        lists(networks, run.last_server().networks),
    ensures
        networks_match(run.attachments, networks),
{
    assert(orderly(run.last_server()));
    assert forall|p: int| 0 <= p < networks.len() implies good_network(
        #[trigger] networks[p],
    ) && !network_stale(networks[p], initial_statuses(run.attachments)) by {
        assert(networks.contains(networks[p]));
        lemma_no_stale_network_is_left(run, networks[p]);
    }
    lemma_listed_states_ready(networks);
    assert forall|k: int|
        0 <= k < run.attachments.len() && (#[trigger] run.attachments[k]).vni != 0 implies
        listed_states(networks).contains_key(run.attachments[k].vni) by {
        let network = lemma_wanted_network_is_there(run, k);
        assert(networks.contains(network));
        let p = choose|p: int| 0 <= p < networks.len() && networks[p] == network;
        lemma_listed_vni_is_known(networks, p);
    }
}

/// A listing of the attachments at the end of an update matches the configuration.
proof fn lemma_attachments_converge(
    run: ServedRun,
    listed: Seq<VirtualNetworkAttachmentView>,
)
    requires
        run.successful(),
        lists(listed, run.last_server().attachments),
    ensures
        attachments_match(run.attachments, listed),
{
    let initial = initial_statuses(run.attachments);
    lemma_attachments_kept(run.attachments, run.replies, run.replies.len());
    assert(orderly(run.last_server()));
    assert forall|p: int| 0 <= p < listed.len() implies good_attachment(#[trigger] listed[p])
        && attachment_wanted(listed[p], initial) by {
        assert(listed.contains(listed[p]));
        lemma_only_wanted_attachments_are_left(run, listed[p]);
    }
    assert forall|k: int| 0 <= k < run.attachments.len() implies if (
    #[trigger] run.attachments[k]).vni != 0 {
        listed_ready(listed, initial_status(run.attachments[k]))
    } else {
        exact_attachment(listed, initial_status(run.attachments[k])) is None
    } by {
        let wanted = initial_status(run.attachments[k]);
        lemma_exact_attachment_is_listed(listed, wanted);
        if run.attachments[k].vni != 0 {
            let attachment = lemma_wanted_attachment_is_there(run, k);
            assert(listed.contains(attachment));
            let p = choose|p: int| 0 <= p < listed.len() && listed[p] == attachment;
            assert(exact(listed[p], wanted));
            let q = choose|q: int|
                0 <= q < listed.len() && listed[q] == exact_attachment(listed, wanted)->0;
            assert(good_attachment(listed[q]));
        } else if let Some(found) = exact_attachment(listed, wanted) {
            let q = choose|q: int| 0 <= q < listed.len() && listed[q] == found;
            assert(attachment_wanted(listed[q], initial));
            lemma_one_wants(run.attachments, found, k);
        }
    }
    assert forall|k: int, p: int|
        0 <= k < run.attachments.len() && 0 <= p < listed.len() implies !conflicting(
        #[trigger] listed[p],
        initial_status(#[trigger] run.attachments[k]),
    ) by {
        if conflicting(listed[p], initial_status(run.attachments[k])) {
            assert(attachment_wanted(listed[p], initial));
            lemma_one_wants(run.attachments, listed[p], k);
        }
    }
}

/// An update that reports every attachment ready leaves on the server what the configuration
/// wants, and nothing else: however the server is listed then, it matches the configuration.
pub proof fn lemma_update_converges(run: ServedRun)
    requires
        run.successful(),
    ensures
        forall|networks: Seq<VirtualNetworkView>| #[trigger]
            lists(networks, run.last_server().networks) ==> networks_match(
                run.attachments,
                networks,
            ),
        forall|listed: Seq<VirtualNetworkAttachmentView>| #[trigger]
            lists(listed, run.last_server().attachments) ==> attachments_match(
                run.attachments,
                listed,
            ),
{
    assert forall|networks: Seq<VirtualNetworkView>| #[trigger]
        lists(networks, run.last_server().networks) implies networks_match(
        run.attachments,
        networks,
    ) by {
        lemma_networks_converge(run, networks);
    }
    assert forall|listed: Seq<VirtualNetworkAttachmentView>| #[trigger]
        lists(listed, run.last_server().attachments) implies attachments_match(
        run.attachments,
        listed,
    ) by {
        lemma_attachments_converge(run, listed);
    }
}

/// A call that lists something.
pub open spec fn is_listing(request: RequestView) -> bool {
    request is ListVirtualNetworks || request is ListVirtualNetworkAttachments
}

/// After an update that reported every attachment ready, another one with the same
/// configuration creates and deletes nothing. It makes three list calls, the server stays as it
/// is, and it reports the same attachments, all of them ready.
pub proof fn lemma_second_update_changes_nothing(run: ServedRun, again: ServedRun)
    requires
        run.successful(),
        again.faithful(),
        again.attachments == run.attachments,
        again.server(0) == run.last_server(),
    ensures
        forall|i: nat| i < again.replies.len() ==> is_listing(#[trigger] again.request(i)),
        forall|i: nat| i <= again.replies.len() ==> #[trigger] again.server(i) == again.server(0),
        match again.last_step() {
            StepView::Call { update, request } => again.replies.len() < 3 && is_listing(request),
            StepView::Done(statuses) => {
                &&& again.replies.len() == 3
                &&& all_ready(statuses)
                &&& same_attachments(run.last_step()->Done_0, statuses)
            },
            StepView::Failed(_) => false,
        },
{
    let n = again.replies.len();
    let config = Some(again.attachments);
    lemma_attachments_kept(run.attachments, run.replies, run.replies.len());
    lemma_update_converges(run);
    let none = again.replies.take(0);
    lemma_matching_inventory_is_kept(again.attachments, none);
    lemma_step_at_prefix(config, none, again.replies, 0);
    if n > 0 {
        assert(again.faithful_at(0));
        let one = again.replies.take(1);
        lemma_matching_inventory_is_kept(again.attachments, one);
        lemma_step_at_prefix(config, one, again.replies, 1);
    }
    if n > 1 {
        assert(again.faithful_at(1));
        let two = again.replies.take(2);
        lemma_matching_inventory_is_kept(again.attachments, two);
        lemma_step_at_prefix(config, two, again.replies, 2);
    }
    if n > 2 {
        assert(again.faithful_at(2));
        let three = again.replies.take(3);
        lemma_matching_inventory_is_kept(again.attachments, three);
        lemma_step_at_prefix(config, three, again.replies, 3);
        let earlier = run.last_step()->Done_0;
        let later = again.step(3)->Done_0;
        let initial = initial_statuses(run.attachments);
        assert forall|k: int| 0 <= k < earlier.len() implies #[trigger] earlier[k].same_attachment(
            later[k],
        ) by {
            assert(initial[k].same_attachment(earlier[k]));
            assert(initial[k].same_attachment(later[k]));
        }
    }
    if n > 3 {
        assert(again.faithful_at(3));
    }
    assert forall|i: nat| i < n implies is_listing(#[trigger] again.request(i)) by {
        assert(i == 0 || i == 1 || i == 2);
    }
    assert forall|i: nat| i <= n implies #[trigger] again.server(i) == again.server(0) by {
        assert(i == 0 || i == 1 || i == 2 || i == 3);
    }
}

} // verus!
