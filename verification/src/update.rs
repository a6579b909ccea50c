//! The update of a Weave server to an Astra configuration, one call at a time.
//!
//! [`update_weave_ew_vpc_astra_config`] names the first call. Whoever makes the calls hands
//! what came back to [`AstraUpdate::step`], which names the next one, until the update is done
//! or has failed.
use crate::astra::{
    AstraAttachmentStatus, AstraAttachmentStatusView, AstraConfig, AstraConfigStatus,
};
use crate::attachments::{
    astra_attachment_weave_ew_vpc_spec, create_attachment_request, find_stale_attachment,
    lemma_next_stale_attachment, lemma_remembering_keeps_apart, lemma_visit,
    record_created_attachment, settle_match_attachment_deletion, visit, visit_attachment, Visit,
};
use crate::error::{UpdateError, UpdateErrorView};
use crate::log::{is_created_attachment_ready, is_created_network_ready, outcome_of, Outcome};
use crate::networks::{
    create_virtual_network_request, find_stale_network, lemma_next_creation,
    lemma_next_stale_network, network_creation, record_created_network, seen_vni_states,
    settle_known_networks, states_view,
};
use crate::progress::{
    attachments_from, conflicts_from, first_step, lemma_attachments_from_ready, networks_from,
    stale_attachments_from, stale_networks_from, step_after, ProgressView, StepView, UpdateView,
};
use crate::service::{deleted_view, listed_view, Reply, Request};
use crate::status::{build_astra_config_status, first_misfit, lemma_first_misfit_unique};
use crate::weave::{
    usable_object_id, DeleteVirtualNetworkAttachmentRequest, DeleteVirtualNetworkRequest,
    ListVirtualNetworkAttachmentsRequest, ListVirtualNetworksRequest, State, VirtualNetwork,
    VirtualNetworkAttachment,
};
use std::collections::HashMap;
use vstd::prelude::*;

verus! {

/// Which reply an update waits for.
enum Progress {
    ListingNetworks,
    CreatingNetwork { known: HashMap<u32, State>, index: usize },
    ListingAttachments,
    DeletingConflict {
        listed: Vec<VirtualNetworkAttachment>,
        deleted: Vec<String>,
        index: usize,
        conflict: usize,
        clean: bool,
    },
    CreatingAttachment {
        listed: Vec<VirtualNetworkAttachment>,
        deleted: Vec<String>,
        index: usize,
    },
    DeletingStaleAttachment {
        listed: Vec<VirtualNetworkAttachment>,
        deleted: Vec<String>,
        position: usize,
    },
    RelistingNetworks,
    DeletingStaleNetwork { networks: Vec<VirtualNetwork>, position: usize },
}

impl Progress {
    spec fn view(self) -> ProgressView {
        match self {
            Progress::ListingNetworks => ProgressView::ListingNetworks,
            Progress::CreatingNetwork { known, index } => ProgressView::CreatingNetwork {
                known: states_view(known@),
                index: index as int,
            },
            Progress::ListingAttachments => ProgressView::ListingAttachments,
            Progress::DeletingConflict { listed, deleted, index, conflict, clean } =>
                ProgressView::DeletingConflict {
                listed: listed.deep_view(),
                deleted: deleted.deep_view(),
                index: index as int,
                conflict: conflict as int,
                clean,
            },
            Progress::CreatingAttachment { listed, deleted, index } =>
                ProgressView::CreatingAttachment {
                listed: listed.deep_view(),
                deleted: deleted.deep_view(),
                index: index as int,
            },
            Progress::DeletingStaleAttachment { listed, deleted, position } =>
                ProgressView::DeletingStaleAttachment {
                listed: listed.deep_view(),
                deleted: deleted.deep_view(),
                position: position as int,
            },
            Progress::RelistingNetworks => ProgressView::RelistingNetworks,
            Progress::DeletingStaleNetwork { networks, position } =>
                ProgressView::DeletingStaleNetwork {
                networks: networks.deep_view(),
                position: position as int,
            },
        }
    }
}

/// An update that waits for the reply to a call.
pub struct AstraUpdate {
    statuses: Vec<AstraAttachmentStatus>,
    progress: Progress,
}

impl DeepView for AstraUpdate {
    type V = UpdateView;

    closed spec fn deep_view(&self) -> UpdateView {
        UpdateView { statuses: self.statuses.deep_view(), progress: self.progress.view() }
    }
}

/// Where an update stands after a reply.
pub enum UpdateStep {
    /// `request` must be made, and the reply to it handed to `update`.
    Call { update: AstraUpdate, request: Request },
    /// The update is done.
    Done(AstraConfigStatus),
    /// The update has failed.
    Failed(UpdateError),
}

impl DeepView for UpdateStep {
    type V = StepView;

    open spec fn deep_view(&self) -> StepView {
        match self {
            UpdateStep::Call { update, request } => StepView::Call {
                update: update.deep_view(),
                request: request.deep_view(),
            },
            UpdateStep::Done(status) => StepView::Done(status.deep_view()),
            UpdateStep::Failed(error) => StepView::Failed(error.deep_view()),
        }
    }
}

/// The first attachment from `from` on that is ready, or the number of attachments.
fn next_ready_attachment(statuses: &Vec<AstraAttachmentStatus>, from: usize) -> (r: usize)
    requires
        from <= statuses.len(),
    ensures
        from <= r <= statuses.len(),
        r < statuses.len() ==> statuses.deep_view()[r as int].ready(),
        forall|k: int| from <= k < r ==> !(#[trigger] statuses.deep_view()[k]).ready(),
{
    let ghost views = statuses.deep_view();
    let mut i: usize = from;
    while i < statuses.len()
        invariant
            views == statuses.deep_view(),
            from <= i <= statuses.len(),
            forall|k: int| from <= k < i ==> !(#[trigger] views[k]).ready(),
        decreases statuses.len() - i,
    {
        assert(views[i as int] == statuses@[i as int].deep_view());
        if statuses[i].is_ready() {
            return i;
        }
        i = i + 1;
    }
    i
}

impl AstraUpdate {
    #[verifier::type_invariant]
    spec fn well_formed(self) -> bool {
        self.deep_view().wf()
    }

    /// Looks at the needs of the attachments from `from` on.
    fn create_weave_ew_vpc_virtual_networks(
        statuses: Vec<AstraAttachmentStatus>,
        known: HashMap<u32, State>,
        from: usize,
    ) -> (r: UpdateStep)
        requires
            from <= statuses.len(),
        ensures
            r.deep_view() == networks_from(
                statuses.deep_view(),
                states_view(known@),
                from as int,
            ).waiting(),
    {
        let ghost start = statuses.deep_view();
        let mut statuses = statuses;
        let index: usize = settle_known_networks(&mut statuses, &known, from);
        proof {
            lemma_next_creation(start, states_view(known@), from as int);
        }
        if index < statuses.len() {
            let request = create_virtual_network_request(&statuses[index]);
            assert(request.deep_view() == network_creation(statuses.deep_view()[index as int]));
            UpdateStep::Call {
                update: AstraUpdate {
                    statuses,
                    progress: Progress::CreatingNetwork { known, index },
                },
                request: Request::CreateVirtualNetwork(request),
            }
        } else {
            UpdateStep::Call {
                update: AstraUpdate { statuses, progress: Progress::ListingAttachments },
                request: Request::ListVirtualNetworkAttachments(
                    ListVirtualNetworkAttachmentsRequest { vnet_id: None, nic_id: None },
                ),
            }
        }
    }

    /// Looks for stale attachments from `from` on.
    fn delete_stale_weave_ew_vpc_attachments(
        statuses: Vec<AstraAttachmentStatus>,
        listed: Vec<VirtualNetworkAttachment>,
        deleted: Vec<String>,
        from: usize,
    ) -> (r: UpdateStep)
        requires
            from <= listed.len(),
            deleted.deep_view().no_duplicates(),
        ensures
            r.deep_view() == stale_attachments_from(
                statuses.deep_view(),
                listed.deep_view(),
                deleted.deep_view(),
                from as int,
            ).waiting(),
    {
        proof {
            lemma_next_stale_attachment(
                listed.deep_view(),
                statuses.deep_view(),
                deleted.deep_view(),
                from as int,
            );
        }
        match find_stale_attachment(&listed, &statuses, &deleted, from) {
            Some((position, request)) => UpdateStep::Call {
                update: AstraUpdate {
                    statuses,
                    progress: Progress::DeletingStaleAttachment { listed, deleted, position },
                },
                request: Request::DeleteVirtualNetworkAttachment(request),
            },
            None => UpdateStep::Call {
                update: AstraUpdate { statuses, progress: Progress::RelistingNetworks },
                request: Request::ListVirtualNetworks(ListVirtualNetworksRequest { vni: None }),
            },
        }
    }

    /// Visits the attachments from `index` on, the first of them from the conflict at `from` on.
    fn visits(
        statuses: Vec<AstraAttachmentStatus>,
        listed: Vec<VirtualNetworkAttachment>,
        deleted: Vec<String>,
        index: usize,
        from: usize,
        clean: bool,
    ) -> (r: UpdateStep)
        requires
            index < statuses.len(),
            from <= listed.len(),
            clean == statuses.deep_view()[index as int].ready(),
            deleted.deep_view().no_duplicates(),
        ensures
            r.deep_view() == conflicts_from(
                statuses.deep_view(),
                listed.deep_view(),
                deleted.deep_view(),
                index as int,
                from as int,
                clean,
            ).waiting(),
    {
        let ghost listed_view = listed.deep_view();
        let ghost deleted_view = deleted.deep_view();
        let ghost start = statuses.deep_view();
        let ghost expected = conflicts_from(
            start,
            listed_view,
            deleted_view,
            index as int,
            from as int,
            clean,
        );
        let mut visited = statuses;
        let mut i: usize = index;
        let mut at: usize = from;
        let mut still: bool = clean;
        while i < visited.len()
            invariant
                start == statuses.deep_view(),
                expected == conflicts_from(
                    start,
                    listed_view,
                    deleted_view,
                    index as int,
                    from as int,
                    clean,
                ),
                listed_view == listed.deep_view(),
                deleted_view == deleted.deep_view(),
                deleted_view.no_duplicates(),
                at <= listed.len(),
                i <= visited.len(),
                i < visited.len() ==> still == visited.deep_view()[i as int].ready(),
                expected == (if i < visited.len() {
                    conflicts_from(
                        visited.deep_view(),
                        listed_view,
                        deleted_view,
                        i as int,
                        at as int,
                        still,
                    )
                } else {
                    stale_attachments_from(visited.deep_view(), listed_view, deleted_view, 0)
                }),
            decreases visited.len() - i,
        {
            let ghost before = visited.deep_view();
            proof {
                lemma_visit(before[i as int], listed_view, at as int, still);
            }
            let stop = visit_attachment(&mut visited[i], &listed, at, still);
            assert(visited.deep_view() =~= before.update(
                i as int,
                visit(before[i as int], listed_view, at as int, still).0,
            ));
            match stop {
                Visit::Conflict { position, clean, request } => {
                    return UpdateStep::Call {
                        update: AstraUpdate {
                            statuses: visited,
                            progress: Progress::DeletingConflict {
                                listed,
                                deleted,
                                index: i,
                                conflict: position,
                                clean,
                            },
                        },
                        request: Request::DeleteVirtualNetworkAttachment(request),
                    };
                },
                Visit::Creation { request } => {
                    return UpdateStep::Call {
                        update: AstraUpdate {
                            statuses: visited,
                            progress: Progress::CreatingAttachment { listed, deleted, index: i },
                        },
                        request: Request::CreateVirtualNetworkAttachment(request),
                    };
                },
                Visit::Settled => {},
            }
            let next: usize = next_ready_attachment(&visited, i + 1);
            proof {
                lemma_attachments_from_ready(
                    visited.deep_view(),
                    listed_view,
                    deleted_view,
                    i + 1,
                    next as int,
                );
            }
            i = next;
            at = 0;
            still = true;
        }
        Self::delete_stale_weave_ew_vpc_attachments(visited, listed, deleted, 0)
    }

    /// Visits the attachments from `from` on.
    fn update_weave_ew_vpc_astra_attachments(
        statuses: Vec<AstraAttachmentStatus>,
        listed: Vec<VirtualNetworkAttachment>,
        deleted: Vec<String>,
        from: usize,
    ) -> (r: UpdateStep)
        requires
            from <= statuses.len(),
            deleted.deep_view().no_duplicates(),
        ensures
            r.deep_view() == attachments_from(
                statuses.deep_view(),
                listed.deep_view(),
                deleted.deep_view(),
                from as int,
            ).waiting(),
    {
        let next: usize = next_ready_attachment(&statuses, from);
        proof {
            lemma_attachments_from_ready(
                statuses.deep_view(),
                listed.deep_view(),
                deleted.deep_view(),
                from as int,
                next as int,
            );
        }
        if next < statuses.len() {
            Self::visits(statuses, listed, deleted, next, 0, true)
        } else {
            Self::delete_stale_weave_ew_vpc_attachments(statuses, listed, deleted, 0)
        }
    }

    /// Looks for stale networks from `from` on.
    fn delete_stale_weave_ew_vpc_virtual_networks(
        statuses: Vec<AstraAttachmentStatus>,
        networks: Vec<VirtualNetwork>,
        from: usize,
    ) -> (r: UpdateStep)
        requires
            from <= networks.len(),
        ensures
            r.deep_view() == stale_networks_from(
                statuses.deep_view(),
                networks.deep_view(),
                from as int,
            ),
    {
        proof {
            lemma_next_stale_network(networks.deep_view(), statuses.deep_view(), from as int);
        }
        match find_stale_network(&networks, &statuses, from) {
            Some((position, request)) => UpdateStep::Call {
                update: AstraUpdate {
                    statuses,
                    progress: Progress::DeletingStaleNetwork { networks, position },
                },
                request: Request::DeleteVirtualNetwork(request),
            },
            None => UpdateStep::Done(AstraConfigStatus { astra_attachments_status: statuses }),
        }
    }

    /// The request whose reply this update waits for.
    pub fn request(&self) -> (r: Request)
        ensures
            r.deep_view() == self.deep_view().request(),
    {
        proof {
            use_type_invariant(self);
        }
        match &self.progress {
            Progress::ListingNetworks => Request::ListVirtualNetworks(
                ListVirtualNetworksRequest { vni: None },
            ),
            Progress::CreatingNetwork { known: _, index } => Request::CreateVirtualNetwork(
                create_virtual_network_request(&self.statuses[*index]),
            ),
            Progress::ListingAttachments => Request::ListVirtualNetworkAttachments(
                ListVirtualNetworkAttachmentsRequest { vnet_id: None, nic_id: None },
            ),
            Progress::DeletingConflict { listed, deleted: _, index: _, conflict, clean: _ } =>
                Request::DeleteVirtualNetworkAttachment(
                DeleteVirtualNetworkAttachmentRequest {
                    id: usable_object_id(&listed[*conflict].metadata).unwrap(),
                },
            ),
            Progress::CreatingAttachment { listed: _, deleted: _, index } =>
                Request::CreateVirtualNetworkAttachment(
                create_attachment_request(
                    astra_attachment_weave_ew_vpc_spec(&self.statuses[*index]).unwrap(),
                ),
            ),
            Progress::DeletingStaleAttachment { listed, deleted: _, position } =>
                Request::DeleteVirtualNetworkAttachment(
                DeleteVirtualNetworkAttachmentRequest {
                    id: usable_object_id(&listed[*position].metadata).unwrap(),
                },
            ),
            Progress::RelistingNetworks => Request::ListVirtualNetworks(
                ListVirtualNetworksRequest { vni: None },
            ),
            Progress::DeletingStaleNetwork { networks, position } =>
                Request::DeleteVirtualNetwork(
                DeleteVirtualNetworkRequest {
                    id: usable_object_id(&networks[*position].metadata).unwrap(),
                },
            ),
        }
    }

    /// What is reported about each attachment so far.
    pub fn statuses(&self) -> (r: &Vec<AstraAttachmentStatus>)
        ensures
            r.deep_view() == self.deep_view().statuses,
    {
        &self.statuses
    }

    /// The position in its listing of the stale object that is about to be deleted, if the update
    /// is at one: every object before it has been dealt with.
    pub fn stale_position(&self) -> (r: Option<usize>)
        ensures
            match self.deep_view().progress {
                ProgressView::DeletingStaleAttachment { listed, deleted, position } => r matches
                    Some(at) && at == position,
                ProgressView::DeletingStaleNetwork { networks, position } => r matches Some(at)
                    && at == position,
                _ => r is None,
            },
    {
        match &self.progress {
            Progress::DeletingStaleAttachment { listed: _, deleted: _, position } => Some(
                *position,
            ),
            Progress::DeletingStaleNetwork { networks: _, position } => Some(*position),
            _ => None,
        }
    }

    /// What the reply to the pending call tells, where that is logged.
    pub fn outcome<'a>(&'a self, reply: &'a Reply) -> (r: Option<Outcome<'a>>)
        ensures
            r.deep_view() == outcome_of(self.deep_view(), reply.deep_view()),
    {
        proof {
            use_type_invariant(self);
        }
        match (&self.progress, reply) {
            (
                Progress::CreatingNetwork { known: _, index },
                Reply::CreateVirtualNetwork(created),
            ) => if is_created_network_ready(created) {
                Some(Outcome::CreatedNetwork(&self.statuses[*index]))
            } else {
                None
            },
            (
                Progress::CreatingAttachment { listed: _, deleted: _, index },
                Reply::CreateVirtualNetworkAttachment(created),
            ) => if is_created_attachment_ready(created) {
                Some(Outcome::CreatedAttachment(&self.statuses[*index]))
            } else {
                None
            },
            (
                Progress::DeletingConflict { listed, deleted: _, index: _, conflict, clean: _ },
                Reply::DeleteVirtualNetworkAttachment(gone),
            ) => match gone {
                Ok(_) => Some(Outcome::DeletedConflict(&listed[*conflict])),
                Err(error) => Some(
                    Outcome::KeptConflict { attachment: &listed[*conflict], error },
                ),
            },
            (
                Progress::DeletingStaleAttachment { listed, deleted: _, position },
                Reply::DeleteVirtualNetworkAttachment(Ok(_)),
            ) => Some(Outcome::DeletedAttachment(&listed[*position])),
            (
                Progress::DeletingStaleNetwork { networks, position },
                Reply::DeleteVirtualNetwork(Ok(_)),
            ) => Some(Outcome::DeletedNetwork(&networks[*position])),
            _ => None,
        }
    }

    /// Takes the reply to the pending call and names the next one.
    ///
    /// A reply that comes from another call changes nothing: the pending call stays pending.
    pub fn step(self, reply: Reply) -> (r: UpdateStep)
        ensures
            r.deep_view() == step_after(self.deep_view(), reply.deep_view()),
    {
        proof {
            use_type_invariant(&self);
        }
        let ghost start = self.deep_view();
        let AstraUpdate { statuses, progress } = self;
        let mut statuses = statuses;
        match (progress, reply) {
            (Progress::ListingNetworks, Reply::ListVirtualNetworks(Ok(networks))) => {
                let known = seen_vni_states(&networks);
                Self::create_weave_ew_vpc_virtual_networks(statuses, known, 0)
            },
            (
                Progress::CreatingNetwork { known, index },
                Reply::CreateVirtualNetwork(created),
            ) => {
                let mut known = known;
                record_created_network(&mut statuses[index], &mut known, created);
                assert(statuses.deep_view() =~= start.statuses.update(
                    index as int,
                    statuses@[index as int].deep_view(),
                ));
                assert(index < statuses.len());
                Self::create_weave_ew_vpc_virtual_networks(statuses, known, index + 1)
            },
            (
                Progress::ListingAttachments,
                Reply::ListVirtualNetworkAttachments(Ok(listed)),
            ) => {
                let deleted: Vec<String> = Vec::new();
                assert(deleted.deep_view() =~= Seq::<Seq<char>>::empty());
                Self::update_weave_ew_vpc_astra_attachments(statuses, listed, deleted, 0)
            },
            (
                Progress::DeletingConflict { listed, deleted, index, conflict, clean },
                Reply::DeleteVirtualNetworkAttachment(gone),
            ) => {
                let request = DeleteVirtualNetworkAttachmentRequest {
                    id: usable_object_id(&listed[conflict].metadata).unwrap(),
                };
                proof {
                    lemma_remembering_keeps_apart(deleted.deep_view(), request.id@);
                }
                let mut deleted = deleted;
                let settled = settle_match_attachment_deletion(
                    request,
                    gone,
                    &mut deleted,
                    &mut statuses[index],
                );
                assert(statuses.deep_view() =~= start.statuses.update(
                    index as int,
                    statuses@[index as int].deep_view(),
                ));
                assert(start.statuses.update(index as int, start.statuses[index as int])
                    =~= start.statuses);
                assert(conflict < listed.len());
                Self::visits(statuses, listed, deleted, index, conflict + 1, clean && settled)
            },
            (
                Progress::CreatingAttachment { listed, deleted, index },
                Reply::CreateVirtualNetworkAttachment(created),
            ) => {
                record_created_attachment(&mut statuses[index], created);
                assert(statuses.deep_view() =~= start.statuses.update(
                    index as int,
                    statuses@[index as int].deep_view(),
                ));
                assert(index < statuses.len());
                Self::update_weave_ew_vpc_astra_attachments(statuses, listed, deleted, index + 1)
            },
            (
                Progress::DeletingStaleAttachment { listed, deleted, position },
                Reply::DeleteVirtualNetworkAttachment(gone),
            ) => match gone {
                Ok(_) => {
                    assert(position < listed.len());
                    Self::delete_stale_weave_ew_vpc_attachments(
                        statuses,
                        listed,
                        deleted,
                        position + 1,
                    )
                },
                Err(error) => UpdateStep::Failed(UpdateError::StaleAttachment { error }),
            },
            (Progress::RelistingNetworks, Reply::ListVirtualNetworks(Ok(networks))) => {
                Self::delete_stale_weave_ew_vpc_virtual_networks(statuses, networks, 0)
            },
            (
                Progress::DeletingStaleNetwork { networks, position },
                Reply::DeleteVirtualNetwork(gone),
            ) => match gone {
                Ok(_) => {
                    assert(position < networks.len());
                    Self::delete_stale_weave_ew_vpc_virtual_networks(
                        statuses,
                        networks,
                        position + 1,
                    )
                },
                Err(error) => UpdateStep::Failed(UpdateError::StaleNetwork { error }),
            },
            (Progress::ListingNetworks, Reply::ListVirtualNetworks(Err(error))) =>
                UpdateStep::Failed(UpdateError::ListFailed { error }),
            (
                Progress::ListingAttachments,
                Reply::ListVirtualNetworkAttachments(Err(error)),
            ) => UpdateStep::Failed(UpdateError::ListFailed { error }),
            (Progress::RelistingNetworks, Reply::ListVirtualNetworks(Err(error))) =>
                UpdateStep::Failed(UpdateError::ListFailed { error }),
            (progress, _) => {
                let update = AstraUpdate { statuses, progress };
                let request = update.request();
                UpdateStep::Call { update, request }
            },
        }
    }
}

/// Starts an update of the Weave server to a configuration.
///
/// Without a configuration there is nothing to do. A configuration with a VNI that cannot be
/// reported fails before any call.
pub fn update_weave_ew_vpc_astra_config(astra_config: Option<&AstraConfig>) -> (r: UpdateStep)
    ensures
        r.deep_view() == first_step(
            match astra_config {
                Some(config) => Some(config.deep_view()),
                None => None,
            },
        ),
{
    match astra_config {
        None => {
            let status = AstraConfigStatus { astra_attachments_status: Vec::new() };
            assert(status.deep_view() =~= Seq::<AstraAttachmentStatusView>::empty());
            UpdateStep::Done(status)
        },
        Some(astra_config) => match build_astra_config_status(astra_config) {
            Ok(status) => UpdateStep::Call {
                update: AstraUpdate {
                    statuses: status.astra_attachments_status,
                    progress: Progress::ListingNetworks,
                },
                request: Request::ListVirtualNetworks(ListVirtualNetworksRequest { vni: None }),
            },
            Err(error) => {
                proof {
                    let attachments = astra_config.deep_view();
                    let i = choose|i: int|
                        #[trigger] first_misfit(attachments, i) && error.deep_view()
                            == (UpdateErrorView::VniOutOfRange { vni: attachments[i].vni });
                    lemma_first_misfit_unique(
                        attachments,
                        i,
                        choose|j: int| first_misfit(attachments, j),
                    );
                }
                UpdateStep::Failed(error)
            },
        },
    }
}

/// The model of a step holds what the step holds.
pub proof fn lemma_step_model(step: UpdateStep)
    ensures
        match step {
            UpdateStep::Call { update, request } => step.deep_view() == (StepView::Call {
                update: update.deep_view(),
                request: request.deep_view(),
            }),
            UpdateStep::Done(status) => step.deep_view() == StepView::Done(status.deep_view()),
            UpdateStep::Failed(error) => step.deep_view() == StepView::Failed(error.deep_view()),
        },
{
}

} // verus!
