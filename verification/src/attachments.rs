//! Virtual network attachments: which ones conflict, which ones are missing, which ones are
//! stale.
use crate::astra::{AstraAttachmentStatus, AstraAttachmentStatusView, SpxAttachmentType};
use crate::calendar::{creation_time, creation_timestamp};
use crate::networks::{astra_weave_ew_vpc_virtual_network_id, network_id, reporting_unready};
use crate::status::{report_of, set_astra_attachment_status_with_weave_ew_vpc_not_ready};
use crate::weave::{
    usable_id, usable_object_id, AttachmentOvn, AttachmentPf, AttachmentType, AttachmentVf,
    AttachmentVfView, CreateVirtualNetworkAttachmentRequest,
    CreateVirtualNetworkAttachmentRequestView, DeleteVirtualNetworkAttachmentRequest,
    ObjectMetadata, ObjectMetadataView, Phase, State, StateView, VirtualNetworkAttachment,
    VirtualNetworkAttachmentSpec, VirtualNetworkAttachmentSpecView, VirtualNetworkAttachmentView,
};
use std::collections::HashMap;
use vstd::prelude::*;
use vstd::string::StringExecFns;

verus! {

/// A defect of an attachment's configuration, found when it is about to be created.
pub open spec fn configuration_error(reason: Seq<char>) -> StateView {
    StateView::error(reason, "create_virtual_network_attachment"@)
}

/// The specification for an attachment, before it says which function is bound.
pub open spec fn unbound_spec(
    attachment: AstraAttachmentStatusView,
) -> VirtualNetworkAttachmentSpecView {
    VirtualNetworkAttachmentSpecView {
        vnet_id: network_id(attachment.vni as int),
        nic_id: attachment.mac_address,
        attachment_type: AttachmentType::Unspecified,
        attachment_pf: None,
        attachment_vf: None,
        attachment_ovn: None,
    }
}

/// The specification with which an attachment is created, or what its configuration lacks.
pub open spec fn attachment_spec(attachment: AstraAttachmentStatusView) -> Result<
    VirtualNetworkAttachmentSpecView,
    StateView,
> {
    match attachment.attachment_type {
        None => Err(configuration_error("Missing Astra SpxAttachmentType"@)),
        Some(SpxAttachmentType::Unrecognized(_)) => Err(
            configuration_error("Unknown Astra SpxAttachmentType"@),
        ),
        Some(SpxAttachmentType::Physical) => Ok(
            VirtualNetworkAttachmentSpecView {
                attachment_type: AttachmentType::Pf,
                attachment_pf: Some(attachment.mac_address),
                ..unbound_spec(attachment)
            },
        ),
        Some(SpxAttachmentType::Virtual) => match attachment.virtual_function_id {
            None => Err(configuration_error("Missing Astra virtual_function_id"@)),
            Some(id) => if id < 0 {
                Err(configuration_error("Invalid Astra virtual_function_id"@))
            } else {
                Ok(
                    VirtualNetworkAttachmentSpecView {
                        attachment_type: AttachmentType::Vf,
                        attachment_vf: Some(
                            AttachmentVfView {
                                pf_id: attachment.mac_address,
                                vf_index: id as u32,
                            },
                        ),
                        ..unbound_spec(attachment)
                    },
                )
            },
        },
        Some(SpxAttachmentType::Ovn) => match attachment.network_name {
            Some(name) if name.len() > 0 => Ok(
                VirtualNetworkAttachmentSpecView {
                    attachment_type: AttachmentType::Ovn,
                    attachment_ovn: Some(name),
                    ..unbound_spec(attachment)
                },
            ),
            _ => Err(configuration_error("Missing Astra OVN network_name"@)),
        },
    }
}

/// The specification with which an attachment is created, or what its configuration lacks.
pub fn astra_attachment_weave_ew_vpc_spec(
    astra_attachment_status: &AstraAttachmentStatus,
) -> (r: Result<VirtualNetworkAttachmentSpec, State>)
    ensures
        match attachment_spec(astra_attachment_status.deep_view()) {
            Ok(expected) => r matches Ok(s) && s.deep_view() == expected,
            Err(expected) => r matches Err(s) && s.deep_view() == expected,
        },
        r is Ok <==> match astra_attachment_status.attachment_type {
            Some(SpxAttachmentType::Physical) => true,
            Some(SpxAttachmentType::Virtual) => astra_attachment_status.virtual_function_id is Some
                && astra_attachment_status.virtual_function_id->0 >= 0,
            Some(SpxAttachmentType::Ovn) => astra_attachment_status.network_name is Some
                && astra_attachment_status.network_name->0@.len() >= 1,
            _ => false,
        },
        r matches Ok(s) ==> {
            &&& s.nic_id@ == astra_attachment_status.mac_address@
            &&& s.attachment_vf is Some
                ==> astra_attachment_status.virtual_function_id is Some
                && s.attachment_vf->0.vf_index == astra_attachment_status.virtual_function_id->0
        },
{
    let call = "create_virtual_network_attachment";
    let attachment_type = match astra_attachment_status.attachment_type {
        Some(attachment_type) => attachment_type,
        None => {
            return Err(State::error("Missing Astra SpxAttachmentType", call));
        },
    };
    let mut weave_spec = VirtualNetworkAttachmentSpec {
        vnet_id: astra_weave_ew_vpc_virtual_network_id(astra_attachment_status.vni),
        nic_id: astra_attachment_status.mac_address.clone(),
        attachment_type: AttachmentType::Unspecified,
        attachment_pf: None,
        attachment_vf: None,
        attachment_ovn: None,
    };
    match attachment_type {
        SpxAttachmentType::Unrecognized(_) => {
            return Err(State::error("Unknown Astra SpxAttachmentType", call));
        },
        SpxAttachmentType::Physical => {
            weave_spec.attachment_type = AttachmentType::Pf;
            weave_spec.attachment_pf = Some(
                AttachmentPf { pf_id: astra_attachment_status.mac_address.clone() },
            );
        },
        SpxAttachmentType::Virtual => {
            let virtual_function_id = match astra_attachment_status.virtual_function_id {
                Some(virtual_function_id) => virtual_function_id,
                None => {
                    return Err(State::error("Missing Astra virtual_function_id", call));
                },
            };
            if virtual_function_id < 0 {
                return Err(State::error("Invalid Astra virtual_function_id", call));
            }
            weave_spec.attachment_type = AttachmentType::Vf;
            weave_spec.attachment_vf = Some(
                AttachmentVf {
                    pf_id: astra_attachment_status.mac_address.clone(),
                    vf_index: virtual_function_id as u32,
                },
            );
        },
        SpxAttachmentType::Ovn => {
            match &astra_attachment_status.network_name {
                Some(network_name) if !network_name.as_str().is_empty() => {
                    weave_spec.attachment_type = AttachmentType::Ovn;
                    weave_spec.attachment_ovn = Some(
                        AttachmentOvn { network_name: network_name.clone() },
                    );
                },
                _ => {
                    return Err(State::error("Missing Astra OVN network_name", call));
                },
            }
        },
    }
    Ok(weave_spec)
}

/// A listed attachment that binds the interface of an attachment to its network.
pub open spec fn exact(
    listed: VirtualNetworkAttachmentView,
    attachment: AstraAttachmentStatusView,
) -> bool {
    listed.on_nic(attachment.mac_address) && listed.on_network(network_id(attachment.vni as int))
}

/// A listed attachment that binds the interface of an attachment to another network.
pub open spec fn conflicting(
    listed: VirtualNetworkAttachmentView,
    attachment: AstraAttachmentStatusView,
) -> bool {
    listed.on_nic(attachment.mac_address) && !listed.on_network(
        network_id(attachment.vni as int),
    )
}

/// The exact attachment in a listing. Where there are several, the last one counts.
pub open spec fn exact_attachment(
    listed: Seq<VirtualNetworkAttachmentView>,
    attachment: AstraAttachmentStatusView,
) -> Option<VirtualNetworkAttachmentView>
    decreases listed.len(),
{
    if listed.len() == 0 {
        None
    } else if exact(listed.last(), attachment) {
        Some(listed.last())
    } else {
        exact_attachment(listed.drop_last(), attachment)
    }
}

/// The first conflicting attachment from `from` on that can be named, or the end.
pub open spec fn next_conflict(
    listed: Seq<VirtualNetworkAttachmentView>,
    attachment: AstraAttachmentStatusView,
    from: int,
) -> int
    decreases listed.len() - from,
{
    if from >= listed.len() {
        listed.len() as int
    } else if conflicting(listed[from], attachment) && usable_id(listed[from].metadata) is Some {
        from
    } else {
        next_conflict(listed, attachment, from + 1)
    }
}

/// In a range of a listing there is a conflicting attachment that cannot be named.
pub open spec fn unnamed_conflict(
    listed: Seq<VirtualNetworkAttachmentView>,
    attachment: AstraAttachmentStatusView,
    from: int,
    to: int,
) -> bool {
    exists|k: int|
        from <= k < to && conflicting(#[trigger] listed[k], attachment) && usable_id(
            listed[k].metadata,
        ) is None
}

/// The state of an attachment whose conflict cannot be named.
pub open spec fn unnamed_conflict_state() -> StateView {
    StateView::error("Missing Doca Weave attachment ID"@, "delete_virtual_network_attachment"@)
}

/// The state of an attachment whose conflict could not be deleted.
pub open spec fn undeleted_conflict_state(error: Seq<char>) -> StateView {
    StateView::error(
        "Failed to delete mismatched Doca Weave attachment"@,
        "delete_virtual_network_attachment: "@ + error,
    )
}

/// The state of a listed attachment.
pub open spec fn listed_attachment_state(listed: VirtualNetworkAttachmentView) -> StateView {
    match listed.state() {
        Some(state) => state,
        None => StateView::error(
            "Missing Doca Weave Server Status State"@,
            "list_virtual_network_attachments"@,
        ),
    }
}

/// The exact attachment is listed, and it is ready.
pub open spec fn listed_ready(
    listed: Seq<VirtualNetworkAttachmentView>,
    attachment: AstraAttachmentStatusView,
) -> bool {
    exact_attachment(listed, attachment) matches Some(found) && listed_attachment_state(
        found,
    ).phase == Phase::Ready
}

/// The request that creates an attachment with a specification.
pub open spec fn attachment_creation(
    weave_spec: VirtualNetworkAttachmentSpecView,
) -> CreateVirtualNetworkAttachmentRequestView {
    CreateVirtualNetworkAttachmentRequestView {
        metadata: Some(
            ObjectMetadataView {
                id: None,
                creation_timestamp: Some(creation_time()),
                deletion_timestamp: None,
                user_data: Map::empty(),
            },
        ),
        spec: Some(weave_spec),
    }
}

/// Where the visit of an attachment stops.
pub enum VisitView {
    /// At a conflicting attachment, which must be deleted. `clean` tells that every conflict
    /// before it is gone.
    Conflict { position: int, clean: bool },
    /// The attachment must be created.
    Creation,
    /// Nothing is left to be done.
    Settled,
}

/// An attachment after its conflicts are gone, and whether it must still be created.
pub open spec fn settlement(
    attachment: AstraAttachmentStatusView,
    listed: Seq<VirtualNetworkAttachmentView>,
) -> (AstraAttachmentStatusView, VisitView) {
    match exact_attachment(listed, attachment) {
        Some(found) => (
            attachment.reporting(report_of(listed_attachment_state(found))),
            VisitView::Settled,
        ),
        None => if attachment.vni == 0 {
            (attachment, VisitView::Settled)
        } else {
            match attachment_spec(attachment) {
                Ok(_) => (attachment, VisitView::Creation),
                Err(state) => (attachment.reporting(report_of(state)), VisitView::Settled),
            }
        },
    }
}

/// An attachment after the conflicts from `from` on have been looked at, and where that stops.
pub open spec fn visit(
    attachment: AstraAttachmentStatusView,
    listed: Seq<VirtualNetworkAttachmentView>,
    from: int,
    clean: bool,
) -> (AstraAttachmentStatusView, VisitView) {
    let position = next_conflict(listed, attachment, from);
    let unnamed = unnamed_conflict(listed, attachment, from, position);
    let visited = if unnamed {
        attachment.reporting(report_of(unnamed_conflict_state()))
    } else {
        attachment
    };
    if position < listed.len() {
        (visited, VisitView::Conflict { position, clean: clean && !unnamed })
    } else if clean && !unnamed {
        settlement(visited, listed)
    } else {
        (visited, VisitView::Settled)
    }
}

/// What a delete call came back with: nothing, or an error text.
pub type Deleted = Result<(), String>;

/// What a create call came back with: the attachment, if the response holds one, or an error
/// text.
pub type AttachmentCreated = Result<Option<VirtualNetworkAttachment>, String>;

/// Model of [`AttachmentCreated`].
pub type AttachmentCreatedView = Result<Option<VirtualNetworkAttachmentView>, Seq<char>>;

/// The model of what a create call came back with.
pub open spec fn attachment_created_view(reply: AttachmentCreated) -> AttachmentCreatedView {
    match reply {
        Ok(attachment) => Ok(attachment.deep_view()),
        Err(error) => Err(error@),
    }
}

/// The state of an attachment after the call that creates it.
pub open spec fn created_attachment_state(reply: AttachmentCreatedView) -> StateView {
    match reply {
        Err(error) => StateView::error(
            "API Failed"@,
            "create_virtual_network_attachment: "@ + error,
        ),
        Ok(created) => match created {
            Some(attachment) if attachment.state() is Some => attachment.state()->0,
            _ => StateView::error(
                "Missing Doca Weave Server Status State"@,
                "create_virtual_network_attachment"@,
            ),
        },
    }
}

/// The ids of deleted attachments, once one more is deleted. No id occurs twice.
pub open spec fn remembering(deleted: Seq<Seq<char>>, id: Seq<char>) -> Seq<Seq<char>> {
    if deleted.contains(id) {
        deleted
    } else {
        deleted.push(id)
    }
}

/// A listed attachment that a configured one calls for.
pub open spec fn attachment_wanted(
    listed: VirtualNetworkAttachmentView,
    statuses: Seq<AstraAttachmentStatusView>,
) -> bool {
    exists|k: int|
        0 <= k < statuses.len() && (#[trigger] statuses[k]).vni != 0 && exact(listed, statuses[k])
}

/// A listed attachment that is to be deleted: no configured one calls for it, it has not been
/// deleted yet, and it can be named.
pub open spec fn attachment_stale(
    listed: VirtualNetworkAttachmentView,
    statuses: Seq<AstraAttachmentStatusView>,
    deleted: Seq<Seq<char>>,
) -> bool {
    &&& !attachment_wanted(listed, statuses)
    &&& usable_id(listed.metadata) matches Some(id) && !deleted.contains(id)
}

/// The first stale attachment from `from` on, or the end.
pub open spec fn next_stale_attachment(
    listed: Seq<VirtualNetworkAttachmentView>,
    statuses: Seq<AstraAttachmentStatusView>,
    deleted: Seq<Seq<char>>,
    from: int,
) -> int
    decreases listed.len() - from,
{
    if from >= listed.len() {
        listed.len() as int
    } else if attachment_stale(listed[from], statuses, deleted) {
        from
    } else {
        next_stale_attachment(listed, statuses, deleted, from + 1)
    }
}

/// Prepares the deletion of an attachment that binds the interface to another network.
///
/// Without a usable id nothing can be deleted, and the attachment reports that.
pub fn delete_match_attachment_with_vni_changed(
    match_attachment: Option<&VirtualNetworkAttachment>,
    astra_attachment_status: &mut AstraAttachmentStatus,
) -> (r: Option<DeleteVirtualNetworkAttachmentRequest>)
    ensures
        ({
            let id = match match_attachment {
                Some(attachment) => usable_id(attachment.deep_view().metadata),
                None => None,
            };
            match id {
                Some(id) => {
                    &&& r matches Some(request) && request.id@ == id
                    &&& *final(astra_attachment_status) == *old(astra_attachment_status)
                },
                None => {
                    &&& r is None
                    &&& final(astra_attachment_status).deep_view() == old(
                        astra_attachment_status,
                    ).deep_view().reporting(report_of(unnamed_conflict_state()))
                },
            }
        }),
{
    let id = match match_attachment {
        Some(attachment) => usable_object_id(&attachment.metadata),
        None => None,
    };
    match id {
        Some(id) => Some(DeleteVirtualNetworkAttachmentRequest { id }),
        None => {
            set_astra_attachment_status_with_weave_ew_vpc_not_ready(
                astra_attachment_status,
                State::error(
                    "Missing Doca Weave attachment ID",
                    "delete_virtual_network_attachment",
                ),
            );
            None
        },
    }
}

/// Whether an id has been remembered.
fn is_remembered(deleted: &Vec<String>, id: &String) -> (r: bool)
    ensures
        r == deleted.deep_view().contains(id@),
{
    let ghost views = deleted.deep_view();
    let mut i: usize = 0;
    while i < deleted.len()
        invariant
            views == deleted.deep_view(),
            i <= deleted.len(),
            forall|j: int| 0 <= j < i ==> views[j] != id@,
        decreases deleted.len() - i,
    {
        assert(views[i as int] == deleted@[i as int]@);
        if deleted[i] == *id {
            return true;
        }
        i = i + 1;
    }
    false
}

/// Takes note of what the call that deletes a conflicting attachment came back with. Returns
/// whether the conflict is gone.
pub fn settle_match_attachment_deletion(
    request: DeleteVirtualNetworkAttachmentRequest,
    reply: Deleted,
    deleted_attachment_ids: &mut Vec<String>,
    astra_attachment_status: &mut AstraAttachmentStatus,
) -> (r: bool)
    ensures
        match reply {
            Ok(_) => {
                &&& r
                &&& final(deleted_attachment_ids).deep_view() == remembering(
                    old(deleted_attachment_ids).deep_view(),
                    request.id@,
                )
                &&& *final(astra_attachment_status) == *old(astra_attachment_status)
            },
            Err(error) => {
                &&& !r
                &&& *final(deleted_attachment_ids) == *old(deleted_attachment_ids)
                &&& final(astra_attachment_status).deep_view() == old(
                    astra_attachment_status,
                ).deep_view().reporting(report_of(undeleted_conflict_state(error@)))
            },
        },
{
    match reply {
        Ok(_) => {
            let ghost before = deleted_attachment_ids.deep_view();
            let ghost id = request.id@;
            if !is_remembered(deleted_attachment_ids, &request.id) {
                deleted_attachment_ids.push(request.id);
                assert(deleted_attachment_ids.deep_view() =~= before.push(id));
            }
            true
        },
        Err(error) => {
            set_astra_attachment_status_with_weave_ew_vpc_not_ready(
                astra_attachment_status,
                State {
                    phase: Phase::Error,
                    reason: "Failed to delete mismatched Doca Weave attachment".to_owned(),
                    message: "delete_virtual_network_attachment: ".to_owned().concat(
                        error.as_str(),
                    ),
                },
            );
            false
        },
    }
}

/// Where the visit of an attachment stops, with the request to be sent there.
pub enum Visit {
    /// At a conflicting attachment, which must be deleted. `clean` tells that every conflict
    /// before it is gone.
    Conflict { position: usize, clean: bool, request: DeleteVirtualNetworkAttachmentRequest },
    /// The attachment must be created.
    Creation { request: CreateVirtualNetworkAttachmentRequest },
    /// Nothing is left to be done.
    Settled,
}

/// A visit stops where the model says, with the request that belongs there.
pub open spec fn visit_stops(
    stop: Visit,
    expected: VisitView,
    attachment: AstraAttachmentStatusView,
    listed: Seq<VirtualNetworkAttachmentView>,
) -> bool {
    match expected {
        VisitView::Conflict { position, clean } => stop matches Visit::Conflict {
            position: p,
            clean: c,
            request,
        } && p == position && c == clean && Some(request.id@) == usable_id(
            listed[position].metadata,
        ),
        VisitView::Creation => stop matches Visit::Creation { request } && attachment_spec(
            attachment,
        ) matches Ok(weave_spec) && request.deep_view() == attachment_creation(weave_spec),
        VisitView::Settled => stop is Settled,
    }
}

/// Whether a listed attachment binds an interface.
pub fn is_on_nic(listed: &VirtualNetworkAttachment, nic_id: &String) -> (r: bool)
    ensures
        r == listed.deep_view().on_nic(nic_id@),
{
    match &listed.spec {
        Some(weave_spec) => weave_spec.nic_id == *nic_id,
        None => false,
    }
}

/// Whether a listed attachment binds its interface to a network.
pub fn is_on_network(listed: &VirtualNetworkAttachment, vnet_id: &String) -> (r: bool)
    ensures
        r == listed.deep_view().on_network(vnet_id@),
{
    match &listed.spec {
        Some(weave_spec) => weave_spec.vnet_id == *vnet_id,
        None => false,
    }
}

/// The state of the exact attachment in a listing, if there is one.
pub fn find_exact_state(
    listed: &Vec<VirtualNetworkAttachment>,
    astra_attachment_status: &AstraAttachmentStatus,
) -> (r: Option<State>)
    ensures
        r.deep_view() == (match exact_attachment(
            listed.deep_view(),
            astra_attachment_status.deep_view(),
        ) {
            Some(found) => Some(listed_attachment_state(found)),
            None => None,
        }),
{
    let ghost views = listed.deep_view();
    let ghost attachment = astra_attachment_status.deep_view();
    let vnet_id = astra_weave_ew_vpc_virtual_network_id(astra_attachment_status.vni);
    let mut i: usize = listed.len();
    assert(views.take(i as int) =~= views);
    while i > 0
        invariant
            views == listed.deep_view(),
            attachment == astra_attachment_status.deep_view(),
            vnet_id@ == network_id(attachment.vni as int),
            i <= listed.len(),
            exact_attachment(views, attachment) == exact_attachment(
                views.take(i as int),
                attachment,
            ),
        decreases i,
    {
        let found = &listed[i - 1];
        assert(views.take(i as int).last() == found.deep_view());
        assert(views.take(i as int).drop_last() =~= views.take(i - 1));
        if is_on_nic(found, &astra_attachment_status.mac_address) && is_on_network(
            found,
            &vnet_id,
        ) {
            let state = match &found.status {
                Some(status) => match &status.state {
                    Some(state) => state.clone(),
                    None => State::error(
                        "Missing Doca Weave Server Status State",
                        "list_virtual_network_attachments",
                    ),
                },
                None => State::error(
                    "Missing Doca Weave Server Status State",
                    "list_virtual_network_attachments",
                ),
            };
            return Some(state);
        }
        i = i - 1;
    }
    None
}

/// The request that creates an attachment with a specification.
pub fn create_attachment_request(
    weave_spec: VirtualNetworkAttachmentSpec,
) -> (r: CreateVirtualNetworkAttachmentRequest)
    ensures
        r.deep_view() == attachment_creation(weave_spec.deep_view()),
{
    CreateVirtualNetworkAttachmentRequest {
        metadata: Some(
            ObjectMetadata {
                id: None,
                creation_timestamp: Some(creation_timestamp()),
                deletion_timestamp: None,
                user_data: HashMap::new(),
            },
        ),
        spec: Some(weave_spec),
    }
}

/// Settles an attachment whose conflicts are gone: reports the exact attachment, or asks for
/// its creation.
fn settle_attachment(
    astra_attachment_status: &mut AstraAttachmentStatus,
    listed: &Vec<VirtualNetworkAttachment>,
) -> (r: Visit)
    ensures
        ({
            let expected = settlement(
                old(astra_attachment_status).deep_view(),
                listed.deep_view(),
            );
            &&& final(astra_attachment_status).deep_view() == expected.0
            &&& visit_stops(r, expected.1, expected.0, listed.deep_view())
        }),
{
    if let Some(state) = find_exact_state(listed, astra_attachment_status) {
        set_astra_attachment_status_with_weave_ew_vpc_not_ready(astra_attachment_status, state);
        return Visit::Settled;
    }
    if astra_attachment_status.vni == 0 {
        return Visit::Settled;
    }
    match astra_attachment_weave_ew_vpc_spec(astra_attachment_status) {
        Ok(weave_spec) => Visit::Creation { request: create_attachment_request(weave_spec) },
        Err(state) => {
            set_astra_attachment_status_with_weave_ew_vpc_not_ready(
                astra_attachment_status,
                state,
            );
            Visit::Settled
        },
    }
}

/// Visits an attachment: looks at its conflicts from `from` on, up to the first that can be
/// deleted, and settles the attachment when none is left.
pub fn visit_attachment(
    astra_attachment_status: &mut AstraAttachmentStatus,
    listed: &Vec<VirtualNetworkAttachment>,
    from: usize,
    clean: bool,
) -> (r: Visit)
    requires
        from <= listed.len(),
    ensures
        ({
            let expected = visit(
                old(astra_attachment_status).deep_view(),
                listed.deep_view(),
                from as int,
                clean,
            );
            &&& final(astra_attachment_status).deep_view() == expected.0
            &&& visit_stops(r, expected.1, expected.0, listed.deep_view())
        }),
{
    let ghost views = listed.deep_view();
    let ghost start = astra_attachment_status.deep_view();
    let vnet_id = astra_weave_ew_vpc_virtual_network_id(astra_attachment_status.vni);
    let mut still_clean = clean;
    let mut i: usize = from;
    while i < listed.len()
        invariant
            views == listed.deep_view(),
            start == old(astra_attachment_status).deep_view(),
            vnet_id@ == network_id(start.vni as int),
            from <= i <= listed.len(),
            next_conflict(views, start, from as int) == next_conflict(views, start, i as int),
            astra_attachment_status.deep_view() == (if unnamed_conflict(
                views,
                start,
                from as int,
                i as int,
            ) {
                start.reporting(report_of(unnamed_conflict_state()))
            } else {
                start
            }),
            still_clean == (clean && !unnamed_conflict(views, start, from as int, i as int)),
        decreases listed.len() - i,
    {
        let other = &listed[i];
        assert(views[i as int] == other.deep_view());
        if is_on_nic(other, &astra_attachment_status.mac_address) && !is_on_network(
            other,
            &vnet_id,
        ) {
            assert(conflicting(views[i as int], start));
            match delete_match_attachment_with_vni_changed(Some(other), astra_attachment_status) {
                Some(request) => {
                    return Visit::Conflict { position: i, clean: still_clean, request };
                },
                None => {
                    still_clean = false;
                    assert(unnamed_conflict(views, start, from as int, i + 1));
                },
            }
        } else {
            assert(unnamed_conflict(views, start, from as int, i + 1) == unnamed_conflict(
                views,
                start,
                from as int,
                i as int,
            )) by {
                assert(!conflicting(views[i as int], start));
                if unnamed_conflict(views, start, from as int, i as int) {
                    let k = choose|k: int|
                        from <= k < i && conflicting(#[trigger] views[k], start) && usable_id(
                            views[k].metadata,
                        ) is None;
                    assert(conflicting(views[k], start));
                }
            }
        }
        i = i + 1;
    }
    if still_clean {
        settle_attachment(astra_attachment_status, listed)
    } else {
        Visit::Settled
    }
}

/// Takes note of what the call that creates an attachment came back with.
pub fn record_created_attachment(
    astra_attachment_status: &mut AstraAttachmentStatus,
    reply: AttachmentCreated,
)
    ensures
        final(astra_attachment_status).deep_view() == reporting_unready(
            old(astra_attachment_status).deep_view(),
            created_attachment_state(attachment_created_view(reply)),
        ),
        final(astra_attachment_status).deep_view().ready() <==> old(
            astra_attachment_status,
        ).deep_view().ready() && (reply matches Ok(Some(attachment)) && attachment.status is Some
            && attachment.status->0.state is Some && attachment.status->0.state->0.phase
            == Phase::Ready),
{
    let missing = State::error(
        "Missing Doca Weave Server Status State",
        "create_virtual_network_attachment",
    );
    let state = match reply {
        Ok(Some(attachment)) => match attachment.status {
            Some(status) => match status.state {
                Some(state) => state,
                None => missing,
            },
            None => missing,
        },
        Ok(None) => missing,
        Err(error) => State {
            phase: Phase::Error,
            reason: "API Failed".to_owned(),
            message: "create_virtual_network_attachment: ".to_owned().concat(error.as_str()),
        },
    };
    if state.phase != Phase::Ready {
        set_astra_attachment_status_with_weave_ew_vpc_not_ready(astra_attachment_status, state);
    }
}

/// Whether a configured attachment calls for a listed one.
pub fn is_attachment_wanted(
    listed: &VirtualNetworkAttachment,
    statuses: &Vec<AstraAttachmentStatus>,
) -> (r: bool)
    ensures
        r == attachment_wanted(listed.deep_view(), statuses.deep_view()),
{
    let ghost views = statuses.deep_view();
    let mut k: usize = 0;
    while k < statuses.len()
        invariant
            views == statuses.deep_view(),
            k <= statuses.len(),
            forall|j: int|
                0 <= j < k ==> (#[trigger] views[j]).vni == 0 || !exact(
                    listed.deep_view(),
                    views[j],
                ),
        decreases statuses.len() - k,
    {
        let status = &statuses[k];
        assert(views[k as int] == status.deep_view());
        if status.vni != 0 && is_on_nic(listed, &status.mac_address) && is_on_network(
            listed,
            &astra_weave_ew_vpc_virtual_network_id(status.vni),
        ) {
            return true;
        }
        k = k + 1;
    }
    false
}

/// Finds the first stale attachment from `from` on: its position and the request that deletes
/// it.
pub fn find_stale_attachment(
    listed: &Vec<VirtualNetworkAttachment>,
    statuses: &Vec<AstraAttachmentStatus>,
    deleted_attachment_ids: &Vec<String>,
    from: usize,
) -> (r: Option<(usize, DeleteVirtualNetworkAttachmentRequest)>)
    requires
        from <= listed.len(),
    ensures
        ({
            let next = next_stale_attachment(
                listed.deep_view(),
                statuses.deep_view(),
                deleted_attachment_ids.deep_view(),
                from as int,
            );
            match r {
                Some((position, request)) => position == next && next < listed.len() && Some(
                    request.id@,
                ) == usable_id(listed.deep_view()[next].metadata),
                None => next == listed.len(),
            }
        }),
{
    let ghost views = listed.deep_view();
    let ghost status_views = statuses.deep_view();
    let ghost deleted = deleted_attachment_ids.deep_view();
    let mut i: usize = from;
    while i < listed.len()
        invariant
            views == listed.deep_view(),
            status_views == statuses.deep_view(),
            deleted == deleted_attachment_ids.deep_view(),
            from <= i <= listed.len(),
            next_stale_attachment(views, status_views, deleted, from as int)
                == next_stale_attachment(views, status_views, deleted, i as int),
        decreases listed.len() - i,
    {
        let attachment = &listed[i];
        assert(views[i as int] == attachment.deep_view());
        if let Some(id) = usable_object_id(&attachment.metadata) {
            if !is_remembered(deleted_attachment_ids, &id) && !is_attachment_wanted(
                attachment,
                statuses,
            ) {
                return Some((i, DeleteVirtualNetworkAttachmentRequest { id }));
            }
        }
        i = i + 1;
    }
    None
}

/// The first conflict that can be named is what its name says.
pub proof fn lemma_next_conflict(
    listed: Seq<VirtualNetworkAttachmentView>,
    attachment: AstraAttachmentStatusView,
    from: int,
)
    requires
        0 <= from <= listed.len(),
    ensures
        ({
            let next = next_conflict(listed, attachment, from);
            &&& from <= next <= listed.len()
            &&& next < listed.len() ==> conflicting(listed[next], attachment) && usable_id(
                listed[next].metadata,
            ) is Some
            &&& forall|k: int|
                from <= k < next ==> !(conflicting(#[trigger] listed[k], attachment)
                    && usable_id(listed[k].metadata) is Some)
        }),
    decreases listed.len() - from,
{
    if from < listed.len() && !(conflicting(listed[from], attachment) && usable_id(
        listed[from].metadata,
    ) is Some) {
        lemma_next_conflict(listed, attachment, from + 1);
    }
}

/// The first stale attachment is what its name says.
pub proof fn lemma_next_stale_attachment(
    listed: Seq<VirtualNetworkAttachmentView>,
    statuses: Seq<AstraAttachmentStatusView>,
    deleted: Seq<Seq<char>>,
    from: int,
)
    requires
        0 <= from <= listed.len(),
    ensures
        ({
            let next = next_stale_attachment(listed, statuses, deleted, from);
            &&& from <= next <= listed.len()
            &&& next < listed.len() ==> attachment_stale(listed[next], statuses, deleted)
            &&& forall|k: int|
                from <= k < next ==> !attachment_stale(#[trigger] listed[k], statuses, deleted)
        }),
    decreases listed.len() - from,
{
    if from < listed.len() && !attachment_stale(listed[from], statuses, deleted) {
        lemma_next_stale_attachment(listed, statuses, deleted, from + 1);
    }
}

/// A visit that stops at a call leaves the attachment as the call needs it.
pub proof fn lemma_visit(
    attachment: AstraAttachmentStatusView,
    listed: Seq<VirtualNetworkAttachmentView>,
    from: int,
    clean: bool,
)
    requires
        0 <= from <= listed.len(),
        clean == attachment.ready(),
    ensures
        ({
            let (visited, stop) = visit(attachment, listed, from, clean);
            &&& attachment.same_attachment(visited)
            &&& visited.ready() ==> attachment.ready()
            &&& stop matches VisitView::Conflict { position, clean: still } ==> {
                &&& from <= position < listed.len()
                &&& conflicting(listed[position], visited)
                &&& usable_id(listed[position].metadata) is Some
                &&& still == visited.ready()
            }
            &&& stop is Creation ==> {
                &&& clean
                &&& visited == attachment
                &&& visited.vni != 0
                &&& exact_attachment(listed, visited) is None
                &&& attachment_spec(visited) is Ok
            }
            &&& stop is Settled && visited.ready() && visited.vni != 0 ==> listed_ready(
                listed,
                attachment,
            )
        }),
{
    lemma_next_conflict(listed, attachment, from);
}

/// Which attachment is the exact one does not depend on what is reported.
pub proof fn lemma_exact_whatever_is_reported(
    listed: Seq<VirtualNetworkAttachmentView>,
    a: AstraAttachmentStatusView,
    b: AstraAttachmentStatusView,
)
    requires
        a.same_attachment(b),
    ensures
        exact_attachment(listed, a) == exact_attachment(listed, b),
    decreases listed.len(),
{
    if listed.len() > 0 {
        lemma_exact_whatever_is_reported(listed.drop_last(), a, b);
    }
}

/// Remembering one more id keeps the ids apart.
pub proof fn lemma_remembering_keeps_apart(deleted: Seq<Seq<char>>, id: Seq<char>)
    requires
        deleted.no_duplicates(),
    ensures
        remembering(deleted, id).no_duplicates(),
{
}

} // verus!
