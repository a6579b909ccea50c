//! The status that an update builds up and reports.
use crate::astra::{
    AstraAttachment, AstraAttachmentStatus, AstraAttachmentStatusView, AstraAttachmentView,
    AstraConfig, AstraConfigStatus, AstraPhase, AstraStatus, AstraStatusView,
};
use crate::error::{UpdateError, UpdateErrorView};
use crate::weave::{Phase, State, StateView};
use vstd::prelude::*;

verus! {

/// The Astra phase that stands for a phase on the Weave server.
pub open spec fn astra_phase(phase: Phase) -> AstraPhase {
    match phase {
        Phase::Ready => AstraPhase::PhaseReady,
        Phase::Error => AstraPhase::PhaseError,
        Phase::Pending => AstraPhase::PhasePending,
        Phase::Deleting => AstraPhase::PhaseDeleting,
        Phase::Unspecified => AstraPhase::PhaseUnspecified,
        Phase::Unrecognized(_) => AstraPhase::PhaseUnspecified,
    }
}

/// The report that stands for a state on the Weave server.
pub open spec fn report_of(state: StateView) -> AstraStatusView {
    AstraStatusView {
        phase: astra_phase(state.phase),
        reason: state.reason,
        message: state.message,
    }
}

/// The report of an attachment that nothing has gone wrong with yet.
pub open spec fn initial_report() -> AstraStatusView {
    AstraStatusView { phase: AstraPhase::PhaseReady, reason: Seq::empty(), message: Seq::empty() }
}

/// The status that a configured attachment starts with.
pub open spec fn initial_status(attachment: AstraAttachmentView) -> AstraAttachmentStatusView {
    AstraAttachmentStatusView {
        mac_address: attachment.mac_address,
        vni: attachment.vni as i32,
        subnet_ipv4: attachment.subnet_ipv4,
        subnet_mask: attachment.subnet_mask,
        attachment_type: attachment.attachment_type,
        virtual_function_id: attachment.virtual_function_id,
        network_name: attachment.network_name,
        revision: attachment.revision,
        status: Some(initial_report()),
    }
}

/// Every configured VNI can be reported.
pub open spec fn vnis_fit(attachments: Seq<AstraAttachmentView>) -> bool {
    forall|i: int| 0 <= i < attachments.len() ==> (#[trigger] attachments[i]).vni <= i32::MAX
}

/// Position `i` holds the first VNI that cannot be reported.
pub open spec fn first_misfit(attachments: Seq<AstraAttachmentView>, i: int) -> bool {
    &&& 0 <= i < attachments.len()
    &&& attachments[i].vni > i32::MAX
    &&& vnis_fit(attachments.take(i))
}

/// The statuses that an update starts from.
pub open spec fn initial_statuses(attachments: Seq<AstraAttachmentView>) -> Seq<
    AstraAttachmentStatusView,
> {
    attachments.map_values(|a: AstraAttachmentView| initial_status(a))
}

/// Reports a state of the Weave server for an attachment.
pub fn set_astra_attachment_status_with_weave_ew_vpc_not_ready(
    astra_attachment_status: &mut AstraAttachmentStatus,
    weave_ew_vpc_state: State,
)
    ensures
        final(astra_attachment_status).deep_view() == old(
            astra_attachment_status,
        ).deep_view().reporting(report_of(weave_ew_vpc_state.deep_view())),
        final(astra_attachment_status).status is Some,
        final(astra_attachment_status).status->0.reason@ == weave_ew_vpc_state.reason@,
        final(astra_attachment_status).status->0.message@ == weave_ew_vpc_state.message@,
        final(astra_attachment_status).status->0.phase == AstraPhase::PhaseReady
            <==> weave_ew_vpc_state.phase == Phase::Ready,
{
    let phase = match weave_ew_vpc_state.phase {
        Phase::Ready => AstraPhase::PhaseReady,
        Phase::Error => AstraPhase::PhaseError,
        Phase::Pending => AstraPhase::PhasePending,
        Phase::Deleting => AstraPhase::PhaseDeleting,
        _ => AstraPhase::PhaseUnspecified,
    };
    astra_attachment_status.status = Some(
        AstraStatus {
            phase,
            reason: weave_ew_vpc_state.reason,
            message: weave_ew_vpc_state.message,
        },
    );
}

/// The status that a configured attachment starts with.
fn initial_attachment_status(attachment: &AstraAttachment) -> (r: AstraAttachmentStatus)
    requires
        attachment.vni <= i32::MAX,
    ensures
        r.deep_view() == initial_status(attachment.deep_view()),
{
    AstraAttachmentStatus {
        mac_address: attachment.mac_address.clone(),
        vni: attachment.vni as i32,
        subnet_ipv4: attachment.subnet_ipv4.clone(),
        subnet_mask: attachment.subnet_mask,
        attachment_type: attachment.attachment_type,
        virtual_function_id: attachment.virtual_function_id,
        network_name: attachment.network_name.clone(),
        revision: attachment.revision.clone(),
        status: Some(
            AstraStatus {
                phase: AstraPhase::PhaseReady,
                reason: String::new(),
                message: String::new(),
            },
        ),
    }
}

/// The status of every configured attachment before anything is done: each is reported ready.
///
/// A VNI above `i32::MAX` cannot be reported; the first one is returned as the error.
pub fn build_astra_config_status(astra_config: &AstraConfig) -> (r: Result<
    AstraConfigStatus,
    UpdateError,
>)
    ensures
        r is Ok <==> vnis_fit(astra_config.deep_view()),
        r matches Ok(status) ==> status.deep_view() == initial_statuses(astra_config.deep_view()),
        r matches Err(error) ==> exists|i: int|
            #[trigger] first_misfit(astra_config.deep_view(), i) && error.deep_view()
                == (UpdateErrorView::VniOutOfRange { vni: astra_config.deep_view()[i].vni }),
{
    let ghost attachments = astra_config.deep_view();
    let mut statuses: Vec<AstraAttachmentStatus> = Vec::new();
    let mut i: usize = 0;
    while i < astra_config.astra_attachments.len()
        invariant
            attachments == astra_config.deep_view(),
            i <= astra_config.astra_attachments.len(),
            statuses.len() == i,
            forall|k: int| 0 <= k < i ==> (#[trigger] attachments[k]).vni <= i32::MAX,
            forall|k: int|
                0 <= k < i ==> (#[trigger] statuses@[k]).deep_view() == initial_status(
                    attachments[k],
                ),
        decreases astra_config.astra_attachments.len() - i,
    {
        let attachment = &astra_config.astra_attachments[i];
        assert(attachments[i as int] == attachment.deep_view());
        if attachment.vni > i32::MAX as u32 {
            assert(first_misfit(attachments, i as int));
            return Err(UpdateError::VniOutOfRange { vni: attachment.vni });
        }
        statuses.push(initial_attachment_status(attachment));
        i = i + 1;
    }
    let status = AstraConfigStatus { astra_attachments_status: statuses };
    assert(status.deep_view() =~= initial_statuses(attachments));
    Ok(status)
}

/// The first misfit of a configuration is the only one.
pub proof fn lemma_first_misfit_unique(attachments: Seq<AstraAttachmentView>, a: int, b: int)
    requires
        first_misfit(attachments, a),
        first_misfit(attachments, b),
    ensures
        a == b,
{
    if a < b {
        assert(attachments.take(b)[a] == attachments[a]);
    }
    if b < a {
        assert(attachments.take(a)[b] == attachments[b]);
    }
}

} // verus!
