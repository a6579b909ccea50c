//! How an update goes on: what it waits for, and the step that follows each reply.
use crate::astra::{AstraAttachmentStatusView, AstraAttachmentView};
use crate::attachments::{
    attachment_creation, attachment_spec, attachment_stale, conflicting, created_attachment_state,
    exact_attachment, lemma_next_stale_attachment, lemma_visit, listed_ready,
    next_stale_attachment, remembering, undeleted_conflict_state, visit, VisitView,
};
use crate::error::UpdateErrorView;
use crate::networks::{
    created_network_state, known_after_creation, lemma_next_creation, lemma_next_stale_network,
    listed_states, network_creation, network_need, network_settled, network_stale,
    networks_settled, next_creation, next_stale_network, reporting_unready,
};
use crate::service::{ReplyView, RequestView};
use crate::status::{first_misfit, initial_statuses, report_of, vnis_fit};
use crate::weave::{
    usable_id, ListVirtualNetworkAttachmentsRequestView, StateView, VirtualNetworkAttachmentView,
    VirtualNetworkView,
};
use vstd::prelude::*;

verus! {

/// Which reply an update waits for.
pub enum ProgressView {
    /// The list of networks, to find the missing ones.
    ListingNetworks,
    /// The network of the attachment at `index`. `known` holds the VNIs that exist.
    CreatingNetwork { known: Map<u32, StateView>, index: int },
    /// The list of attachments.
    ListingAttachments,
    /// The deletion of the listed attachment at `conflict`, which conflicts with the attachment
    /// at `index`. `clean` tells that every conflict before it is gone.
    DeletingConflict {
        listed: Seq<VirtualNetworkAttachmentView>,
        deleted: Seq<Seq<char>>,
        index: int,
        conflict: int,
        clean: bool,
    },
    /// The creation of the attachment at `index`.
    CreatingAttachment {
        listed: Seq<VirtualNetworkAttachmentView>,
        deleted: Seq<Seq<char>>,
        index: int,
    },
    /// The deletion of the stale attachment at `position`.
    DeletingStaleAttachment {
        listed: Seq<VirtualNetworkAttachmentView>,
        deleted: Seq<Seq<char>>,
        position: int,
    },
    /// The list of networks, to find the stale ones.
    RelistingNetworks,
    /// The deletion of the stale network at `position`.
    DeletingStaleNetwork { networks: Seq<VirtualNetworkView>, position: int },
}

/// Model of [`AstraUpdate`].
pub struct UpdateView {
    pub statuses: Seq<AstraAttachmentStatusView>,
    pub progress: ProgressView,
}

/// Model of [`UpdateStep`].
pub enum StepView {
    Call { update: UpdateView, request: RequestView },
    Done(Seq<AstraAttachmentStatusView>),
    Failed(UpdateErrorView),
}

impl UpdateView {
    /// What a waiting update waits for is called for: a network that is missing, an attachment
    /// that is ready and missing, an object that conflicts or is stale and can be named. No
    /// deleted attachment is remembered twice.
    pub open spec fn wf(self) -> bool {
        match self.progress {
            ProgressView::CreatingNetwork { known, index } => {
                &&& 0 <= index < self.statuses.len()
                &&& network_need(self.statuses[index], known) is Creation
            },
            ProgressView::DeletingConflict { listed, deleted, index, conflict, clean } => {
                &&& 0 <= index < self.statuses.len()
                &&& 0 <= conflict < listed.len()
                &&& conflicting(listed[conflict], self.statuses[index])
                &&& usable_id(listed[conflict].metadata) is Some
                &&& clean == self.statuses[index].ready()
                &&& deleted.no_duplicates()
            },
            ProgressView::CreatingAttachment { listed, deleted, index } => {
                &&& 0 <= index < self.statuses.len()
                &&& self.statuses[index].ready()
                &&& self.statuses[index].vni != 0
                &&& exact_attachment(listed, self.statuses[index]) is None
                &&& attachment_spec(self.statuses[index]) is Ok
                &&& deleted.no_duplicates()
            },
            ProgressView::DeletingStaleAttachment { listed, deleted, position } => {
                &&& 0 <= position < listed.len()
                &&& attachment_stale(listed[position], self.statuses, deleted)
                &&& deleted.no_duplicates()
            },
            ProgressView::DeletingStaleNetwork { networks, position } => {
                &&& 0 <= position < networks.len()
                &&& network_stale(networks[position], self.statuses)
            },
            _ => true,
        }
    }

    /// The request whose reply a waiting update waits for.
    pub open spec fn request(self) -> RequestView {
        match self.progress {
            ProgressView::ListingNetworks => RequestView::ListVirtualNetworks(None),
            ProgressView::CreatingNetwork { known, index } => RequestView::CreateVirtualNetwork(
                network_creation(self.statuses[index]),
            ),
            ProgressView::ListingAttachments => RequestView::ListVirtualNetworkAttachments(
                ListVirtualNetworkAttachmentsRequestView { vnet_id: None, nic_id: None },
            ),
            ProgressView::DeletingConflict { listed, deleted, index, conflict, clean } =>
                RequestView::DeleteVirtualNetworkAttachment(
                usable_id(listed[conflict].metadata)->0,
            ),
            ProgressView::CreatingAttachment { listed, deleted, index } =>
                RequestView::CreateVirtualNetworkAttachment(
                attachment_creation(attachment_spec(self.statuses[index])->Ok_0),
            ),
            ProgressView::DeletingStaleAttachment { listed, deleted, position } =>
                RequestView::DeleteVirtualNetworkAttachment(
                usable_id(listed[position].metadata)->0,
            ),
            ProgressView::RelistingNetworks => RequestView::ListVirtualNetworks(None),
            ProgressView::DeletingStaleNetwork { networks, position } =>
                RequestView::DeleteVirtualNetwork(usable_id(networks[position].metadata)->0),
        }
    }

    /// The step that waits with this update.
    pub open spec fn waiting(self) -> StepView {
        StepView::Call { update: self, request: self.request() }
    }
}

/// The update once the needs of the attachments from `from` on have been looked at.
pub open spec fn networks_from(
    statuses: Seq<AstraAttachmentStatusView>,
    known: Map<u32, StateView>,
    from: int,
) -> UpdateView {
    let index = next_creation(statuses, known, from);
    UpdateView {
        statuses: networks_settled(statuses, known, from, index),
        progress: if index < statuses.len() {
            ProgressView::CreatingNetwork { known, index }
        } else {
            ProgressView::ListingAttachments
        },
    }
}

/// The update once the stale attachments before the next one are passed over.
pub open spec fn stale_attachments_from(
    statuses: Seq<AstraAttachmentStatusView>,
    listed: Seq<VirtualNetworkAttachmentView>,
    deleted: Seq<Seq<char>>,
    from: int,
) -> UpdateView {
    let position = next_stale_attachment(listed, statuses, deleted, from);
    UpdateView {
        statuses,
        progress: if position < listed.len() {
            ProgressView::DeletingStaleAttachment { listed, deleted, position }
        } else {
            ProgressView::RelistingNetworks
        },
    }
}

/// What an update waits for where the visit of an attachment stops at a call.
pub open spec fn stopped_visit(
    listed: Seq<VirtualNetworkAttachmentView>,
    deleted: Seq<Seq<char>>,
    index: int,
    stop: VisitView,
) -> ProgressView {
    match stop {
        VisitView::Conflict { position, clean } => ProgressView::DeletingConflict {
            listed,
            deleted,
            index,
            conflict: position,
            clean,
        },
        _ => ProgressView::CreatingAttachment { listed, deleted, index },
    }
}

/// The update once the attachments from `from` on have been visited, as far as that goes
/// without a call. An attachment that is not ready is passed over.
pub open spec fn attachments_from(
    statuses: Seq<AstraAttachmentStatusView>,
    listed: Seq<VirtualNetworkAttachmentView>,
    deleted: Seq<Seq<char>>,
    from: int,
) -> UpdateView
    decreases statuses.len() - from,
{
    if from >= statuses.len() {
        stale_attachments_from(statuses, listed, deleted, 0)
    } else if from < 0 || !statuses[from].ready() {
        attachments_from(statuses, listed, deleted, from + 1)
    } else {
        let (attachment, stop) = visit(statuses[from], listed, 0, true);
        let visited = statuses.update(from, attachment);
        match stop {
            VisitView::Settled => attachments_from(visited, listed, deleted, from + 1),
            _ => UpdateView {
                statuses: visited,
                progress: stopped_visit(listed, deleted, from, stop),
            },
        }
    }
}

/// The update once the visit of the attachment at `index` goes on behind a conflict.
pub open spec fn conflicts_from(
    statuses: Seq<AstraAttachmentStatusView>,
    listed: Seq<VirtualNetworkAttachmentView>,
    deleted: Seq<Seq<char>>,
    index: int,
    from: int,
    clean: bool,
) -> UpdateView {
    let (attachment, stop) = visit(statuses[index], listed, from, clean);
    let visited = statuses.update(index, attachment);
    match stop {
        VisitView::Settled => attachments_from(visited, listed, deleted, index + 1),
        _ => UpdateView {
            statuses: visited,
            progress: stopped_visit(listed, deleted, index, stop),
        },
    }
}

/// The step once the stale networks before the next one are passed over.
pub open spec fn stale_networks_from(
    statuses: Seq<AstraAttachmentStatusView>,
    networks: Seq<VirtualNetworkView>,
    from: int,
) -> StepView {
    let position = next_stale_network(networks, statuses, from);
    if position < networks.len() {
        UpdateView {
            statuses,
            progress: ProgressView::DeletingStaleNetwork { networks, position },
        }.waiting()
    } else {
        StepView::Done(statuses)
    }
}

/// The update after a conflicting attachment was deleted, or not.
pub open spec fn conflict_settled(
    statuses: Seq<AstraAttachmentStatusView>,
    listed: Seq<VirtualNetworkAttachmentView>,
    deleted: Seq<Seq<char>>,
    index: int,
    conflict: int,
    clean: bool,
    reply: Result<(), Seq<char>>,
) -> UpdateView {
    match reply {
        Ok(_) => conflicts_from(
            statuses,
            listed,
            remembering(deleted, usable_id(listed[conflict].metadata)->0),
            index,
            conflict + 1,
            clean,
        ),
        Err(error) => conflicts_from(
            statuses.update(
                index,
                statuses[index].reporting(report_of(undeleted_conflict_state(error))),
            ),
            listed,
            deleted,
            index,
            conflict + 1,
            false,
        ),
    }
}

/// The step that follows a reply.
pub open spec fn step_after(update: UpdateView, reply: ReplyView) -> StepView {
    let statuses = update.statuses;
    match (update.progress, reply) {
        (ProgressView::ListingNetworks, ReplyView::ListVirtualNetworks(Ok(networks))) =>
            networks_from(statuses, listed_states(networks), 0).waiting(),
        (
            ProgressView::CreatingNetwork { known, index },
            ReplyView::CreateVirtualNetwork(created),
        ) => networks_from(
            statuses.update(
                index,
                reporting_unready(statuses[index], created_network_state(created)),
            ),
            known_after_creation(known, statuses[index].vni as u32, created),
            index + 1,
        ).waiting(),
        (
            ProgressView::ListingAttachments,
            ReplyView::ListVirtualNetworkAttachments(Ok(listed)),
        ) => attachments_from(statuses, listed, Seq::empty(), 0).waiting(),
        (
            ProgressView::DeletingConflict { listed, deleted, index, conflict, clean },
            ReplyView::DeleteVirtualNetworkAttachment(gone),
        ) => conflict_settled(statuses, listed, deleted, index, conflict, clean, gone).waiting(),
        (
            ProgressView::CreatingAttachment { listed, deleted, index },
            ReplyView::CreateVirtualNetworkAttachment(created),
        ) => attachments_from(
            statuses.update(
                index,
                reporting_unready(statuses[index], created_attachment_state(created)),
            ),
            listed,
            deleted,
            index + 1,
        ).waiting(),
        (
            ProgressView::DeletingStaleAttachment { listed, deleted, position },
            ReplyView::DeleteVirtualNetworkAttachment(gone),
        ) => match gone {
            Ok(_) => stale_attachments_from(statuses, listed, deleted, position + 1).waiting(),
            Err(error) => StepView::Failed(UpdateErrorView::StaleAttachment { error }),
        },
        (ProgressView::RelistingNetworks, ReplyView::ListVirtualNetworks(Ok(networks))) =>
            stale_networks_from(statuses, networks, 0),
        (
            ProgressView::DeletingStaleNetwork { networks, position },
            ReplyView::DeleteVirtualNetwork(gone),
        ) => match gone {
            Ok(_) => stale_networks_from(statuses, networks, position + 1),
            Err(error) => StepView::Failed(UpdateErrorView::StaleNetwork { error }),
        },
        (ProgressView::ListingNetworks, ReplyView::ListVirtualNetworks(Err(error))) =>
            StepView::Failed(UpdateErrorView::ListFailed { error }),
        (
            ProgressView::ListingAttachments,
            ReplyView::ListVirtualNetworkAttachments(Err(error)),
        ) => StepView::Failed(UpdateErrorView::ListFailed { error }),
        (ProgressView::RelistingNetworks, ReplyView::ListVirtualNetworks(Err(error))) =>
            StepView::Failed(UpdateErrorView::ListFailed { error }),
        _ => update.waiting(),
    }
}

/// The first step of an update: without a configuration there is nothing to do.
pub open spec fn first_step(config: Option<Seq<AstraAttachmentView>>) -> StepView {
    match config {
        None => StepView::Done(Seq::empty()),
        Some(attachments) => if vnis_fit(attachments) {
            UpdateView {
                statuses: initial_statuses(attachments),
                progress: ProgressView::ListingNetworks,
            }.waiting()
        } else {
            let misfit = choose|i: int| first_misfit(attachments, i);
            StepView::Failed(UpdateErrorView::VniOutOfRange { vni: attachments[misfit].vni })
        },
    }
}

/// Attachments that are not ready are passed over.
pub proof fn lemma_attachments_from_ready(
    statuses: Seq<AstraAttachmentStatusView>,
    listed: Seq<VirtualNetworkAttachmentView>,
    deleted: Seq<Seq<char>>,
    from: int,
    next: int,
)
    requires
        0 <= from <= next <= statuses.len(),
        forall|k: int| from <= k < next ==> !(#[trigger] statuses[k]).ready(),
    ensures
        attachments_from(statuses, listed, deleted, from) == attachments_from(
            statuses,
            listed,
            deleted,
            next,
        ),
    decreases next - from,
{
    if from < next {
        lemma_attachments_from_ready(statuses, listed, deleted, from + 1, next);
    }
}

impl ProgressView {
    /// How many of the attachments have been visited, once the first visit has begun.
    pub open spec fn visited(self, attachments: nat) -> int {
        match self {
            ProgressView::DeletingConflict { listed, deleted, index, conflict, clean } => index,
            ProgressView::CreatingAttachment { listed, deleted, index } => index,
            _ => attachments as int,
        }
    }
}

/// Two lists of statuses of the same attachments: they differ at most in what is reported, and
/// the second one reports something wherever the first one does.
pub open spec fn same_attachments(
    a: Seq<AstraAttachmentStatusView>,
    b: Seq<AstraAttachmentStatusView>,
) -> bool {
    &&& a.len() == b.len()
    &&& forall|k: int| 0 <= k < a.len() ==> #[trigger] a[k].same_attachment(b[k])
}

/// Lists of statuses of the same attachments, one after another.
pub proof fn lemma_same_attachments_through(
    a: Seq<AstraAttachmentStatusView>,
    b: Seq<AstraAttachmentStatusView>,
    c: Seq<AstraAttachmentStatusView>,
)
    requires
        same_attachments(a, b),
        same_attachments(b, c),
    ensures
        same_attachments(a, c),
{
    assert forall|k: int| 0 <= k < a.len() implies #[trigger] a[k].same_attachment(c[k]) by {
        assert(a[k].same_attachment(b[k]));
        assert(b[k].same_attachment(c[k]));
    }
}

/// Two lists of statuses agree on the attachments before `index`, and on those that the first
/// list does not report ready.
pub open spec fn settled_kept(
    a: Seq<AstraAttachmentStatusView>,
    b: Seq<AstraAttachmentStatusView>,
    index: int,
) -> bool {
    &&& same_attachments(a, b)
    &&& forall|k: int|
        0 <= k < a.len() && (k < index || !a[k].ready()) ==> #[trigger] b[k] == a[k]
}

/// Looking at the needs of networks keeps the attachments, and those before `from` as they are.
pub proof fn lemma_networks_from(
    statuses: Seq<AstraAttachmentStatusView>,
    known: Map<u32, StateView>,
    from: int,
)
    requires
        0 <= from <= statuses.len(),
    ensures
        ({
            let update = networks_from(statuses, known, from);
            let next = next_creation(statuses, known, from);
            &&& update.wf()
            &&& same_attachments(statuses, update.statuses)
            &&& from <= next <= statuses.len()
            &&& forall|k: int|
                0 <= k < statuses.len() ==> #[trigger] update.statuses[k] == (if from <= k
                    < next {
                    network_settled(statuses[k], known)
                } else {
                    statuses[k]
                })
        }),
{
    lemma_next_creation(statuses, known, from);
}

/// Passing over stale attachments keeps the statuses.
pub proof fn lemma_stale_attachments_from(
    statuses: Seq<AstraAttachmentStatusView>,
    listed: Seq<VirtualNetworkAttachmentView>,
    deleted: Seq<Seq<char>>,
    from: int,
)
    requires
        0 <= from <= listed.len(),
    ensures
        ({
            let update = stale_attachments_from(statuses, listed, deleted, from);
            &&& deleted.no_duplicates() ==> update.wf()
            &&& update.statuses == statuses
        }),
{
    lemma_next_stale_attachment(listed, statuses, deleted, from);
}

/// Visiting attachments keeps those before `from`, and those that are not ready. A visit stops
/// at an attachment that was ready.
pub proof fn lemma_attachments_from(
    statuses: Seq<AstraAttachmentStatusView>,
    listed: Seq<VirtualNetworkAttachmentView>,
    deleted: Seq<Seq<char>>,
    from: int,
)
    requires
        0 <= from <= statuses.len(),
    ensures
        ({
            let update = attachments_from(statuses, listed, deleted, from);
            &&& deleted.no_duplicates() ==> update.wf()
            &&& settled_kept(statuses, update.statuses, from)
            &&& forall|k: int|
                from <= k < update.progress.visited(statuses.len()) && (
                #[trigger] update.statuses[k]).ready() && statuses[k].vni != 0 ==> listed_ready(
                    listed,
                    statuses[k],
                )
            &&& match update.progress {
                ProgressView::DeletingConflict { listed: l, deleted: d, index, conflict, clean } =>
                {
                    &&& l == listed
                    &&& d == deleted
                    &&& from <= index < statuses.len()
                    &&& statuses[index].ready()
                },
                ProgressView::CreatingAttachment { listed: l, deleted: d, index } => {
                    &&& l == listed
                    &&& d == deleted
                    &&& from <= index < statuses.len()
                    &&& statuses[index].ready()
                },
                ProgressView::DeletingStaleAttachment { listed: l, deleted: d, position } => {
                    &&& l == listed
                    &&& d == deleted
                },
                ProgressView::RelistingNetworks => true,
                _ => false,
            }
        }),
    decreases statuses.len() - from,
{
    if from >= statuses.len() {
        lemma_stale_attachments_from(statuses, listed, deleted, 0);
    } else if !statuses[from].ready() {
        lemma_attachments_from(statuses, listed, deleted, from + 1);
    } else {
        lemma_visit(statuses[from], listed, 0, true);
        let (attachment, stop) = visit(statuses[from], listed, 0, true);
        let visited = statuses.update(from, attachment);
        if stop is Settled {
            lemma_attachments_from(visited, listed, deleted, from + 1);
        }
    }
}

/// Going on with a visit keeps the attachments before it, and the later ones that are not
/// ready. A visit stops at the same attachment, or at a later one that was ready.
pub proof fn lemma_conflicts_from(
    statuses: Seq<AstraAttachmentStatusView>,
    listed: Seq<VirtualNetworkAttachmentView>,
    deleted: Seq<Seq<char>>,
    index: int,
    from: int,
    clean: bool,
)
    requires
        0 <= index < statuses.len(),
        0 <= from <= listed.len(),
        clean == statuses[index].ready(),
    ensures
        ({
            let update = conflicts_from(statuses, listed, deleted, index, from, clean);
            &&& deleted.no_duplicates() ==> update.wf()
            &&& same_attachments(statuses, update.statuses)
            &&& forall|k: int|
                0 <= k < statuses.len() && k != index && (k < index || !statuses[k].ready())
                    ==> #[trigger] update.statuses[k] == statuses[k]
            &&& update.statuses[index].ready() ==> statuses[index].ready()
            &&& forall|k: int|
                index <= k < update.progress.visited(statuses.len()) && (
                #[trigger] update.statuses[k]).ready() && statuses[k].vni != 0 ==> listed_ready(
                    listed,
                    statuses[k],
                )
            &&& match update.progress {
                ProgressView::DeletingConflict {
                    listed: l,
                    deleted: d,
                    index: i,
                    conflict,
                    clean,
                } => {
                    &&& l == listed
                    &&& d == deleted
                    &&& index <= i < statuses.len()
                    &&& i == index || statuses[i].ready()
                    &&& i == index ==> from <= conflict
                },
                ProgressView::CreatingAttachment { listed: l, deleted: d, index: i } => {
                    &&& l == listed
                    &&& d == deleted
                    &&& index <= i < statuses.len()
                    &&& i == index || statuses[i].ready()
                },
                ProgressView::DeletingStaleAttachment { listed: l, deleted: d, position } => {
                    &&& l == listed
                    &&& d == deleted
                },
                ProgressView::RelistingNetworks => true,
                _ => false,
            }
        }),
{
    lemma_visit(statuses[index], listed, from, clean);
    let (attachment, stop) = visit(statuses[index], listed, from, clean);
    let visited = statuses.update(index, attachment);
    if stop is Settled {
        lemma_attachments_from(visited, listed, deleted, index + 1);
    }
}

/// Passing over stale networks keeps the statuses.
pub proof fn lemma_stale_networks_from(
    statuses: Seq<AstraAttachmentStatusView>,
    networks: Seq<VirtualNetworkView>,
    from: int,
)
    requires
        0 <= from <= networks.len(),
    ensures
        match stale_networks_from(statuses, networks, from) {
            StepView::Call { update, request } => {
                &&& update.wf()
                &&& request == update.request()
                &&& update.statuses == statuses
                &&& update.progress matches ProgressView::DeletingStaleNetwork {
                    networks: n,
                    position,
                } && n == networks && from <= position
            },
            StepView::Done(done) => done == statuses,
            StepView::Failed(_) => false,
        },
{
    lemma_next_stale_network(networks, statuses, from);
}

} // verus!
