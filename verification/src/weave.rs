//! The Weave side: the objects of the network isolation service and its requests.
use std::collections::HashMap;
use vstd::prelude::*;

verus! {

/// Phase of an object on the Weave server.
///
/// `Unrecognized` carries a wire number that names none of the known phases.
#[derive(Clone, Copy, Debug, PartialEq, Eq, Structural)]
pub enum Phase {
    Unspecified,
    Pending,
    Ready,
    Error,
    Deleting,
    Unrecognized(i32),
}

/// What the Weave server says about an object.
#[derive(Debug, PartialEq, Eq)]
pub struct State {
    pub phase: Phase,
    pub reason: String,
    pub message: String,
}

/// A point in time: seconds since the Unix epoch, and nanoseconds within the second.
#[derive(Clone, Copy, Debug, PartialEq, Eq, Structural)]
pub struct Timestamp {
    pub seconds: i64,
    pub nanos: i32,
}

#[derive(Clone, Debug, PartialEq, Eq)]
pub struct ObjectMetadata {
    pub id: Option<String>,
    pub creation_timestamp: Option<Timestamp>,
    pub deletion_timestamp: Option<Timestamp>,
    pub user_data: HashMap<String, String>,
}

#[derive(Clone, Debug, PartialEq, Eq)]
pub struct VirtualNetworkSpec {
    pub vni: u32,
    pub subnet_ipv4: Option<String>,
    pub subnet_ipv6: Option<String>,
}

#[derive(Clone, Debug, PartialEq, Eq)]
pub struct VirtualNetworkStatus {
    pub state: Option<State>,
}

#[derive(Clone, Debug, PartialEq, Eq)]
pub struct VirtualNetwork {
    pub metadata: Option<ObjectMetadata>,
    pub spec: Option<VirtualNetworkSpec>,
    pub status: Option<VirtualNetworkStatus>,
}

/// Kind of function that a virtual network attachment binds.
#[derive(Clone, Copy, Debug, PartialEq, Eq, Structural)]
pub enum AttachmentType {
    Unspecified,
    Pf,
    Vf,
    Ovn,
    Unrecognized(i32),
}

#[derive(Clone, Debug, PartialEq, Eq)]
pub struct AttachmentPf {
    pub pf_id: String,
}

#[derive(Clone, Debug, PartialEq, Eq)]
pub struct AttachmentVf {
    pub pf_id: String,
    pub vf_index: u32,
}

#[derive(Clone, Debug, PartialEq, Eq)]
pub struct AttachmentOvn {
    pub network_name: String,
}

#[derive(Clone, Debug, PartialEq, Eq)]
pub struct VirtualNetworkAttachmentSpec {
    pub vnet_id: String,
    pub nic_id: String,
    pub attachment_type: AttachmentType,
    pub attachment_pf: Option<AttachmentPf>,
    pub attachment_vf: Option<AttachmentVf>,
    pub attachment_ovn: Option<AttachmentOvn>,
}

#[derive(Clone, Debug, PartialEq, Eq)]
pub struct VirtualNetworkAttachmentStatus {
    pub state: Option<State>,
    pub host_ipv4: Option<String>,
    pub host_ipv6: Option<String>,
}

#[derive(Clone, Debug, PartialEq, Eq)]
pub struct VirtualNetworkAttachment {
    pub metadata: Option<ObjectMetadata>,
    pub spec: Option<VirtualNetworkAttachmentSpec>,
    pub status: Option<VirtualNetworkAttachmentStatus>,
}

/// Asks for the networks with a VNI, or for all of them.
#[derive(Clone, Debug, PartialEq, Eq)]
pub struct ListVirtualNetworksRequest {
    pub vni: Option<u32>,
}

/// Asks for the attachments of a network or of an interface, or for all of them.
#[derive(Clone, Debug, PartialEq, Eq)]
pub struct ListVirtualNetworkAttachmentsRequest {
    pub vnet_id: Option<String>,
    pub nic_id: Option<String>,
}

#[derive(Clone, Debug, PartialEq, Eq)]
pub struct CreateVirtualNetworkRequest {
    pub metadata: Option<ObjectMetadata>,
    pub spec: Option<VirtualNetworkSpec>,
}

#[derive(Clone, Debug, PartialEq, Eq)]
pub struct CreateVirtualNetworkAttachmentRequest {
    pub metadata: Option<ObjectMetadata>,
    pub spec: Option<VirtualNetworkAttachmentSpec>,
}

#[derive(Clone, Debug, PartialEq, Eq)]
pub struct DeleteVirtualNetworkRequest {
    pub id: String,
}

#[derive(Clone, Debug, PartialEq, Eq)]
pub struct DeleteVirtualNetworkAttachmentRequest {
    pub id: String,
}

/// Model of [`State`].
pub struct StateView {
    pub phase: Phase,
    pub reason: Seq<char>,
    pub message: Seq<char>,
}

/// Model of [`ObjectMetadata`].
pub struct ObjectMetadataView {
    pub id: Option<Seq<char>>,
    pub creation_timestamp: Option<Timestamp>,
    pub deletion_timestamp: Option<Timestamp>,
    pub user_data: Map<String, String>,
}

/// Model of [`VirtualNetworkSpec`].
pub struct VirtualNetworkSpecView {
    pub vni: u32,
    pub subnet_ipv4: Option<Seq<char>>,
    pub subnet_ipv6: Option<Seq<char>>,
}

/// Model of [`VirtualNetwork`]. The status is the state within it.
pub struct VirtualNetworkView {
    pub metadata: Option<ObjectMetadataView>,
    pub spec: Option<VirtualNetworkSpecView>,
    pub status: Option<Option<StateView>>,
}

/// Model of [`AttachmentVf`].
pub struct AttachmentVfView {
    pub pf_id: Seq<char>,
    pub vf_index: u32,
}

/// Model of [`VirtualNetworkAttachmentSpec`].
pub struct VirtualNetworkAttachmentSpecView {
    pub vnet_id: Seq<char>,
    pub nic_id: Seq<char>,
    pub attachment_type: AttachmentType,
    pub attachment_pf: Option<Seq<char>>,
    pub attachment_vf: Option<AttachmentVfView>,
    pub attachment_ovn: Option<Seq<char>>,
}

/// Model of [`VirtualNetworkAttachmentStatus`].
pub struct VirtualNetworkAttachmentStatusView {
    pub state: Option<StateView>,
    pub host_ipv4: Option<Seq<char>>,
    pub host_ipv6: Option<Seq<char>>,
}

/// Model of [`VirtualNetworkAttachment`].
pub struct VirtualNetworkAttachmentView {
    pub metadata: Option<ObjectMetadataView>,
    pub spec: Option<VirtualNetworkAttachmentSpecView>,
    pub status: Option<VirtualNetworkAttachmentStatusView>,
}

/// Model of [`CreateVirtualNetworkRequest`].
pub struct CreateVirtualNetworkRequestView {
    pub metadata: Option<ObjectMetadataView>,
    pub spec: Option<VirtualNetworkSpecView>,
}

/// Model of [`CreateVirtualNetworkAttachmentRequest`].
pub struct CreateVirtualNetworkAttachmentRequestView {
    pub metadata: Option<ObjectMetadataView>,
    pub spec: Option<VirtualNetworkAttachmentSpecView>,
}

/// Model of [`ListVirtualNetworkAttachmentsRequest`].
pub struct ListVirtualNetworkAttachmentsRequestView {
    pub vnet_id: Option<Seq<char>>,
    pub nic_id: Option<Seq<char>>,
}

impl DeepView for State {
    type V = StateView;

    open spec fn deep_view(&self) -> StateView {
        StateView { phase: self.phase, reason: self.reason@, message: self.message@ }
    }
}

impl DeepView for ObjectMetadata {
    type V = ObjectMetadataView;

    open spec fn deep_view(&self) -> ObjectMetadataView {
        ObjectMetadataView {
            id: self.id.deep_view(),
            creation_timestamp: self.creation_timestamp,
            deletion_timestamp: self.deletion_timestamp,
            user_data: self.user_data@,
        }
    }
}

impl DeepView for VirtualNetworkSpec {
    type V = VirtualNetworkSpecView;

    open spec fn deep_view(&self) -> VirtualNetworkSpecView {
        VirtualNetworkSpecView {
            vni: self.vni,
            subnet_ipv4: self.subnet_ipv4.deep_view(),
            subnet_ipv6: self.subnet_ipv6.deep_view(),
        }
    }
}

impl DeepView for VirtualNetworkStatus {
    type V = Option<StateView>;

    open spec fn deep_view(&self) -> Option<StateView> {
        self.state.deep_view()
    }
}

impl DeepView for VirtualNetwork {
    type V = VirtualNetworkView;

    open spec fn deep_view(&self) -> VirtualNetworkView {
        VirtualNetworkView {
            metadata: self.metadata.deep_view(),
            spec: self.spec.deep_view(),
            status: self.status.deep_view(),
        }
    }
}

impl DeepView for AttachmentPf {
    type V = Seq<char>;

    open spec fn deep_view(&self) -> Seq<char> {
        self.pf_id@
    }
}

impl DeepView for AttachmentVf {
    type V = AttachmentVfView;

    open spec fn deep_view(&self) -> AttachmentVfView {
        AttachmentVfView { pf_id: self.pf_id@, vf_index: self.vf_index }
    }
}

impl DeepView for AttachmentOvn {
    type V = Seq<char>;

    open spec fn deep_view(&self) -> Seq<char> {
        self.network_name@
    }
}

impl DeepView for VirtualNetworkAttachmentSpec {
    type V = VirtualNetworkAttachmentSpecView;

    open spec fn deep_view(&self) -> VirtualNetworkAttachmentSpecView {
        VirtualNetworkAttachmentSpecView {
            vnet_id: self.vnet_id@,
            nic_id: self.nic_id@,
            attachment_type: self.attachment_type,
            attachment_pf: self.attachment_pf.deep_view(),
            attachment_vf: self.attachment_vf.deep_view(),
            attachment_ovn: self.attachment_ovn.deep_view(),
        }
    }
}

impl DeepView for VirtualNetworkAttachmentStatus {
    type V = VirtualNetworkAttachmentStatusView;

    open spec fn deep_view(&self) -> VirtualNetworkAttachmentStatusView {
        VirtualNetworkAttachmentStatusView {
            state: self.state.deep_view(),
            host_ipv4: self.host_ipv4.deep_view(),
            host_ipv6: self.host_ipv6.deep_view(),
        }
    }
}

impl DeepView for VirtualNetworkAttachment {
    type V = VirtualNetworkAttachmentView;

    open spec fn deep_view(&self) -> VirtualNetworkAttachmentView {
        VirtualNetworkAttachmentView {
            metadata: self.metadata.deep_view(),
            spec: self.spec.deep_view(),
            status: self.status.deep_view(),
        }
    }
}

impl DeepView for CreateVirtualNetworkRequest {
    type V = CreateVirtualNetworkRequestView;

    open spec fn deep_view(&self) -> CreateVirtualNetworkRequestView {
        CreateVirtualNetworkRequestView {
            metadata: self.metadata.deep_view(),
            spec: self.spec.deep_view(),
        }
    }
}

impl DeepView for CreateVirtualNetworkAttachmentRequest {
    type V = CreateVirtualNetworkAttachmentRequestView;

    open spec fn deep_view(&self) -> CreateVirtualNetworkAttachmentRequestView {
        CreateVirtualNetworkAttachmentRequestView {
            metadata: self.metadata.deep_view(),
            spec: self.spec.deep_view(),
        }
    }
}

impl DeepView for ListVirtualNetworkAttachmentsRequest {
    type V = ListVirtualNetworkAttachmentsRequestView;

    open spec fn deep_view(&self) -> ListVirtualNetworkAttachmentsRequestView {
        ListVirtualNetworkAttachmentsRequestView {
            vnet_id: self.vnet_id.deep_view(),
            nic_id: self.nic_id.deep_view(),
        }
    }
}

impl StateView {
    /// An error that this agent attributes to a call, named by `message`.
    pub open spec fn error(reason: Seq<char>, message: Seq<char>) -> StateView {
        StateView { phase: Phase::Error, reason, message }
    }
}

/// The id in an object's metadata, if there is one and it is not empty.
pub open spec fn usable_id(metadata: Option<ObjectMetadataView>) -> Option<Seq<char>> {
    match metadata {
        Some(m) => match m.id {
            Some(id) => if id.len() > 0 {
                Some(id)
            } else {
                None
            },
            None => None,
        },
        None => None,
    }
}

impl VirtualNetworkView {
    /// The VNI, if the network has a specification.
    pub open spec fn vni(self) -> Option<u32> {
        match self.spec {
            Some(s) => Some(s.vni),
            None => None,
        }
    }

    /// The state, if the server gave one.
    pub open spec fn state(self) -> Option<StateView> {
        match self.status {
            Some(state) => state,
            None => None,
        }
    }
}

impl VirtualNetworkAttachmentView {
    /// The state, if the server gave one.
    pub open spec fn state(self) -> Option<StateView> {
        match self.status {
            Some(status) => status.state,
            None => None,
        }
    }

    /// The attachment binds this interface.
    pub open spec fn on_nic(self, nic_id: Seq<char>) -> bool {
        self.spec matches Some(s) && s.nic_id == nic_id
    }

    /// The attachment binds its interface to this network.
    pub open spec fn on_network(self, vnet_id: Seq<char>) -> bool {
        self.spec matches Some(s) && s.vnet_id == vnet_id
    }
}

impl Clone for State {
    fn clone(&self) -> (r: State)
        ensures
            r == *self,
    {
        State { phase: self.phase, reason: self.reason.clone(), message: self.message.clone() }
    }
}

impl State {
    /// An error that this agent attributes to a call, named by `message`.
    pub fn error(reason: &str, message: &str) -> (r: State)
        ensures
            r.deep_view() == StateView::error(reason@, message@),
    {
        State { phase: Phase::Error, reason: reason.to_owned(), message: message.to_owned() }
    }
}

/// The id in an object's metadata, if there is one and it is not empty.
pub fn usable_object_id(metadata: &Option<ObjectMetadata>) -> (r: Option<String>)
    ensures
        r.deep_view() == usable_id(metadata.deep_view()),
{
    match metadata {
        Some(m) => match &m.id {
            Some(id) => if id.as_str().is_empty() {
                None
            } else {
                Some(id.clone())
            },
            None => None,
        },
        None => None,
    }
}

/// An object can be named exactly by the id in its metadata that is not empty.
pub proof fn lemma_usable_id(metadata: Option<ObjectMetadataView>, id: Seq<char>)
    ensures
        usable_id(metadata) == Some(id) <==> metadata is Some && metadata->0.id == Some(id)
            && id.len() >= 1,
        usable_id(metadata) is None <==> metadata is None || metadata->0.id is None
            || metadata->0.id->0.len() == 0,
{
}

/// What is read of a network stands in its fields.
pub proof fn lemma_network_fields(network: VirtualNetworkView)
    ensures
        network.vni() is Some <==> network.spec is Some,
        network.vni() is Some ==> network.vni()->0 == network.spec->0.vni,
        network.state() is Some <==> network.status is Some && network.status->0 is Some,
        network.state() is Some ==> network.state() == network.status->0,
{
}

/// What is read of an attachment stands in its fields.
pub proof fn lemma_attachment_fields(
    attachment: VirtualNetworkAttachmentView,
    nic_id: Seq<char>,
    vnet_id: Seq<char>,
)
    ensures
        attachment.on_nic(nic_id) <==> attachment.spec is Some && attachment.spec->0.nic_id
            == nic_id,
        attachment.on_network(vnet_id) <==> attachment.spec is Some && attachment.spec->0.vnet_id
            == vnet_id,
        attachment.state() is Some <==> attachment.status is Some && attachment.status->0.state
            is Some,
        attachment.state() is Some ==> attachment.state() == attachment.status->0.state,
{
}

/// The models of a state and of a network hold what the values hold.
pub proof fn lemma_network_model(network: VirtualNetwork, state: State)
    ensures
        state.deep_view().phase == state.phase,
        state.deep_view().reason == state.reason@,
        state.deep_view().message == state.message@,
        network.deep_view().metadata is Some <==> network.metadata is Some,
        network.metadata matches Some(m) ==> {
            &&& network.deep_view().metadata->0.id is Some <==> m.id is Some
            &&& m.id is Some ==> network.deep_view().metadata->0.id->0 == m.id->0@
            &&& network.deep_view().metadata->0.creation_timestamp == m.creation_timestamp
            &&& network.deep_view().metadata->0.deletion_timestamp == m.deletion_timestamp
            &&& network.deep_view().metadata->0.user_data == m.user_data@
        },
        network.deep_view().spec is Some <==> network.spec is Some,
        network.spec matches Some(s) ==> {
            &&& network.deep_view().spec->0.vni == s.vni
            &&& network.deep_view().spec->0.subnet_ipv4 is Some <==> s.subnet_ipv4 is Some
            &&& s.subnet_ipv4 is Some ==> network.deep_view().spec->0.subnet_ipv4->0
                == s.subnet_ipv4->0@
            &&& network.deep_view().spec->0.subnet_ipv6 is Some <==> s.subnet_ipv6 is Some
        },
        network.deep_view().status is Some <==> network.status is Some,
        network.status matches Some(s) ==> {
            &&& network.deep_view().status->0 is Some <==> s.state is Some
            &&& s.state is Some ==> network.deep_view().status->0->0 == s.state->0.deep_view()
        },
{
}

/// The model of an attachment holds what the attachment holds.
pub proof fn lemma_attachment_model(attachment: VirtualNetworkAttachment)
    ensures
        attachment.deep_view().metadata is Some <==> attachment.metadata is Some,
        attachment.metadata matches Some(m) ==> {
            &&& attachment.deep_view().metadata->0.id is Some <==> m.id is Some
            &&& m.id is Some ==> attachment.deep_view().metadata->0.id->0 == m.id->0@
        },
        attachment.deep_view().spec is Some <==> attachment.spec is Some,
        attachment.spec matches Some(s) ==> {
            &&& attachment.deep_view().spec->0.vnet_id == s.vnet_id@
            &&& attachment.deep_view().spec->0.nic_id == s.nic_id@
            &&& attachment.deep_view().spec->0.attachment_type == s.attachment_type
            &&& attachment.deep_view().spec->0.attachment_pf is Some <==> s.attachment_pf is Some
            &&& s.attachment_pf is Some ==> attachment.deep_view().spec->0.attachment_pf->0
                == s.attachment_pf->0.pf_id@
            &&& attachment.deep_view().spec->0.attachment_vf is Some <==> s.attachment_vf is Some
            &&& s.attachment_vf is Some ==> {
                &&& attachment.deep_view().spec->0.attachment_vf->0.pf_id
                    == s.attachment_vf->0.pf_id@
                &&& attachment.deep_view().spec->0.attachment_vf->0.vf_index
                    == s.attachment_vf->0.vf_index
            }
            &&& attachment.deep_view().spec->0.attachment_ovn is Some <==> s.attachment_ovn is Some
            &&& s.attachment_ovn is Some ==> attachment.deep_view().spec->0.attachment_ovn->0
                == s.attachment_ovn->0.network_name@
        },
        attachment.deep_view().status is Some <==> attachment.status is Some,
        attachment.status matches Some(s) ==> {
            &&& attachment.deep_view().status->0.state is Some <==> s.state is Some
            &&& s.state is Some ==> attachment.deep_view().status->0.state->0
                == s.state->0.deep_view()
        },
{
}

/// The models of the requests that create objects hold what the requests hold.
pub proof fn lemma_creation_models(
    network: CreateVirtualNetworkRequest,
    attachment: CreateVirtualNetworkAttachmentRequest,
    listing: ListVirtualNetworkAttachmentsRequest,
)
    ensures
        network.deep_view().metadata is Some <==> network.metadata is Some,
        network.metadata matches Some(m) ==> network.deep_view().metadata == Some(m.deep_view()),
        network.deep_view().spec is Some <==> network.spec is Some,
        network.spec matches Some(s) ==> network.deep_view().spec == Some(s.deep_view()),
        attachment.deep_view().metadata is Some <==> attachment.metadata is Some,
        attachment.metadata matches Some(m) ==> attachment.deep_view().metadata == Some(
            m.deep_view(),
        ),
        attachment.deep_view().spec is Some <==> attachment.spec is Some,
        attachment.spec matches Some(s) ==> attachment.deep_view().spec == Some(s.deep_view()),
        listing.deep_view().vnet_id is Some <==> listing.vnet_id is Some,
        listing.vnet_id matches Some(id) ==> listing.deep_view().vnet_id == Some(id@),
        listing.deep_view().nic_id is Some <==> listing.nic_id is Some,
        listing.nic_id matches Some(id) ==> listing.deep_view().nic_id == Some(id@),
{
}

} // verus!
