//! The Astra side: the attachments that are wanted, and the status reported for each.
use vstd::prelude::*;

verus! {

/// How an Astra attachment reaches its network.
///
/// `Unrecognized` carries a wire number that names none of the known types.
#[derive(Clone, Copy, Debug, PartialEq, Eq, Structural)]
pub enum SpxAttachmentType {
    Physical,
    Virtual,
    Ovn,
    Unrecognized(i32),
}

/// Phase that is reported to Astra for an attachment.
///
/// `Unrecognized` carries a wire number that names none of the known phases.
#[derive(Clone, Copy, Debug, PartialEq, Eq, Structural)]
pub enum AstraPhase {
    PhaseUnspecified,
    PhasePending,
    PhaseReady,
    PhaseError,
    PhaseDeleting,
    Unrecognized(i32),
}

/// One attachment that Astra wants to exist. The VNI 0 stands for a detached interface.
#[derive(Clone, Debug, PartialEq, Eq)]
pub struct AstraAttachment {
    pub mac_address: String,
    pub vni: u32,
    pub subnet_ipv4: String,
    pub subnet_mask: i32,
    pub attachment_type: Option<SpxAttachmentType>,
    pub virtual_function_id: Option<i32>,
    pub network_name: Option<String>,
    pub revision: String,
}

/// Everything that Astra wants on this host.
#[derive(Clone, Debug, PartialEq, Eq)]
pub struct AstraConfig {
    pub astra_attachments: Vec<AstraAttachment>,
}

/// What is reported to Astra about one attachment.
#[derive(Clone, Debug, PartialEq, Eq)]
pub struct AstraStatus {
    pub phase: AstraPhase,
    pub reason: String,
    pub message: String,
}

/// An attachment together with what is reported about it.
#[derive(Clone, Debug, PartialEq, Eq)]
pub struct AstraAttachmentStatus {
    pub mac_address: String,
    pub vni: i32,
    pub subnet_ipv4: String,
    pub subnet_mask: i32,
    pub attachment_type: Option<SpxAttachmentType>,
    pub virtual_function_id: Option<i32>,
    pub network_name: Option<String>,
    pub revision: String,
    pub status: Option<AstraStatus>,
}

/// The status of every attachment, in the order of the configuration.
#[derive(Clone, Debug, PartialEq, Eq)]
pub struct AstraConfigStatus {
    pub astra_attachments_status: Vec<AstraAttachmentStatus>,
}

/// Model of [`AstraAttachment`].
pub struct AstraAttachmentView {
    pub mac_address: Seq<char>,
    pub vni: u32,
    pub subnet_ipv4: Seq<char>,
    pub subnet_mask: i32,
    pub attachment_type: Option<SpxAttachmentType>,
    pub virtual_function_id: Option<i32>,
    pub network_name: Option<Seq<char>>,
    pub revision: Seq<char>,
}

/// Model of [`AstraStatus`].
pub struct AstraStatusView {
    pub phase: AstraPhase,
    pub reason: Seq<char>,
    pub message: Seq<char>,
}

/// Model of [`AstraAttachmentStatus`].
pub struct AstraAttachmentStatusView {
    pub mac_address: Seq<char>,
    pub vni: i32,
    pub subnet_ipv4: Seq<char>,
    pub subnet_mask: i32,
    pub attachment_type: Option<SpxAttachmentType>,
    pub virtual_function_id: Option<i32>,
    pub network_name: Option<Seq<char>>,
    pub revision: Seq<char>,
    pub status: Option<AstraStatusView>,
}

impl DeepView for AstraAttachment {
    type V = AstraAttachmentView;

    open spec fn deep_view(&self) -> AstraAttachmentView {
        AstraAttachmentView {
            mac_address: self.mac_address@,
            vni: self.vni,
            subnet_ipv4: self.subnet_ipv4@,
            subnet_mask: self.subnet_mask,
            attachment_type: self.attachment_type,
            virtual_function_id: self.virtual_function_id,
            network_name: self.network_name.deep_view(),
            revision: self.revision@,
        }
    }
}

impl DeepView for AstraConfig {
    type V = Seq<AstraAttachmentView>;

    open spec fn deep_view(&self) -> Seq<AstraAttachmentView> {
        self.astra_attachments.deep_view()
    }
}

impl DeepView for AstraStatus {
    type V = AstraStatusView;

    open spec fn deep_view(&self) -> AstraStatusView {
        AstraStatusView { phase: self.phase, reason: self.reason@, message: self.message@ }
    }
}

impl DeepView for AstraAttachmentStatus {
    type V = AstraAttachmentStatusView;

    open spec fn deep_view(&self) -> AstraAttachmentStatusView {
        AstraAttachmentStatusView {
            mac_address: self.mac_address@,
            vni: self.vni,
            subnet_ipv4: self.subnet_ipv4@,
            subnet_mask: self.subnet_mask,
            attachment_type: self.attachment_type,
            virtual_function_id: self.virtual_function_id,
            network_name: self.network_name.deep_view(),
            revision: self.revision@,
            status: self.status.deep_view(),
        }
    }
}

impl DeepView for AstraConfigStatus {
    type V = Seq<AstraAttachmentStatusView>;

    open spec fn deep_view(&self) -> Seq<AstraAttachmentStatusView> {
        self.astra_attachments_status.deep_view()
    }
}

impl AstraAttachmentStatusView {
    /// The attachment is reported ready.
    pub open spec fn ready(self) -> bool {
        self.status matches Some(status) && status.phase == AstraPhase::PhaseReady
    }

    /// The same attachment with another report.
    pub open spec fn reporting(self, status: AstraStatusView) -> AstraAttachmentStatusView {
        AstraAttachmentStatusView { status: Some(status), ..self }
    }

    /// The other status is one of the same attachment: it differs at most in what is reported,
    /// and it reports something where this one does.
    pub open spec fn same_attachment(self, other: AstraAttachmentStatusView) -> bool {
        &&& other == (AstraAttachmentStatusView { status: other.status, ..self })
        &&& self.status is Some ==> other.status is Some
    }
}

impl AstraAttachmentStatus {
    /// Whether the attachment is reported ready.
    pub fn is_ready(&self) -> (r: bool)
        ensures
            r == self.deep_view().ready(),
    {
        match &self.status {
            Some(status) => status.phase == AstraPhase::PhaseReady,
            None => false,
        }
    }
}

/// The model of a configured attachment holds what the attachment holds.
pub proof fn lemma_attachment_model(attachment: AstraAttachment)
    ensures
        attachment.deep_view().mac_address == attachment.mac_address@,
        attachment.deep_view().vni == attachment.vni,
        attachment.deep_view().subnet_ipv4 == attachment.subnet_ipv4@,
        attachment.deep_view().subnet_mask == attachment.subnet_mask,
        attachment.deep_view().attachment_type == attachment.attachment_type,
        attachment.deep_view().virtual_function_id == attachment.virtual_function_id,
        attachment.deep_view().network_name is Some <==> attachment.network_name is Some,
        attachment.network_name is Some ==> attachment.deep_view().network_name->0
            == attachment.network_name->0@,
        attachment.deep_view().revision == attachment.revision@,
{
}

/// The model of the status of an attachment holds what the status holds.
pub proof fn lemma_attachment_status_model(attachment: AstraAttachmentStatus)
    ensures
        attachment.deep_view().mac_address == attachment.mac_address@,
        attachment.deep_view().vni == attachment.vni,
        attachment.deep_view().subnet_ipv4 == attachment.subnet_ipv4@,
        attachment.deep_view().subnet_mask == attachment.subnet_mask,
        attachment.deep_view().attachment_type == attachment.attachment_type,
        attachment.deep_view().virtual_function_id == attachment.virtual_function_id,
        attachment.deep_view().network_name is Some <==> attachment.network_name is Some,
        attachment.network_name is Some ==> attachment.deep_view().network_name->0
            == attachment.network_name->0@,
        attachment.deep_view().revision == attachment.revision@,
        attachment.deep_view().status is Some <==> attachment.status is Some,
        attachment.status is Some ==> {
            &&& attachment.deep_view().status->0.phase == attachment.status->0.phase
            &&& attachment.deep_view().status->0.reason == attachment.status->0.reason@
            &&& attachment.deep_view().status->0.message == attachment.status->0.message@
        },
        attachment.deep_view().ready() <==> attachment.status is Some && attachment.status->0.phase
            == AstraPhase::PhaseReady,
{
}

/// The models of a configuration and of its status hold all the attachments, in order.
pub proof fn lemma_config_model(config: AstraConfig, status: AstraConfigStatus)
    ensures
        config.deep_view().len() == config.astra_attachments.len(),
        forall|i: int|
            0 <= i < config.astra_attachments.len() ==> #[trigger] config.deep_view()[i]
                == config.astra_attachments@[i].deep_view(),
        status.deep_view().len() == status.astra_attachments_status.len(),
        forall|i: int|
            0 <= i < status.astra_attachments_status.len() ==> #[trigger] status.deep_view()[i]
                == status.astra_attachments_status@[i].deep_view(),
{
}

} // verus!
