//! What is logged about a configuration and about the listings of the Weave server.
use crate::astra::{AstraAttachment, AstraAttachmentStatus, AstraAttachmentStatusView, AstraConfig};
use crate::attachments::{attachment_created_view, created_attachment_state, AttachmentCreated};
use crate::networks::{created_network_state, network_created_view, NetworkCreated};
use crate::progress::{ProgressView, UpdateView};
use crate::service::ReplyView;
use crate::weave::{
    Phase, VirtualNetwork, VirtualNetworkAttachment, VirtualNetworkAttachmentView,
    VirtualNetworkView,
};
use vstd::prelude::*;

verus! {

/// One line of the log.
#[derive(Debug)]
pub enum LogLine<'a, T> {
    /// How many entries follow.
    Count { message: &'static str, count: usize },
    /// One entry.
    Entry { message: &'static str, entry: &'a T },
}

/// The lines log a list: first how many entries there are, then each entry in order.
pub open spec fn lines_log<'a, T>(
    lines: Seq<LogLine<'a, T>>,
    entries: Seq<T>,
    message: Seq<char>,
    entry_message: Seq<char>,
) -> bool {
    &&& lines.len() == entries.len() + 1
    &&& lines[0] matches LogLine::Count { message: m, count } && m@ == message && count
        == entries.len()
    &&& forall|i: int|
        0 <= i < entries.len() ==> (#[trigger] lines[i + 1] matches LogLine::Entry {
            message: m,
            entry,
        } && m@ == entry_message && *entry == entries[i])
}

/// Logs a list.
fn log_list<'a, T>(
    entries: &'a [T],
    message: &'static str,
    entry_message: &'static str,
) -> (r: Vec<LogLine<'a, T>>)
    ensures
        lines_log(r@, entries@, message@, entry_message@),
{
    let mut lines: Vec<LogLine<'a, T>> = Vec::new();
    lines.push(LogLine::Count { message, count: entries.len() });
    let mut i: usize = 0;
    while i < entries.len()
        invariant
            i <= entries.len(),
            lines.len() == i + 1,
            lines@[0] matches LogLine::Count { message: m, count } && m@ == message@ && count
                == entries.len(),
            forall|k: int|
                0 <= k < i ==> (#[trigger] lines@[k + 1] matches LogLine::Entry {
                    message: m,
                    entry,
                } && m@ == entry_message@ && *entry == entries@[k]),
        decreases entries.len() - i,
    {
        lines.push(LogLine::Entry { message: entry_message, entry: &entries[i] });
        i = i + 1;
    }
    lines
}

/// Logs the attachments of a configuration.
pub fn log_astra_config<'a>(astra_config: &'a AstraConfig) -> (r: Vec<
    LogLine<'a, AstraAttachment>,
>)
    ensures
        lines_log(
            r@,
            astra_config.astra_attachments@,
            "Input Astra config"@,
            "Input Astra config entry"@,
        ),
{
    log_list(
        astra_config.astra_attachments.as_slice(),
        "Input Astra config",
        "Input Astra config entry",
    )
}

/// Logs the networks of a listing.
pub fn log_virtual_networks<'a>(virtual_networks: &'a [VirtualNetwork]) -> (r: Vec<
    LogLine<'a, VirtualNetwork>,
>)
    ensures
        lines_log(
            r@,
            virtual_networks@,
            "List VNI response"@,
            "List VNI response entry"@,
        ),
{
    log_list(virtual_networks, "List VNI response", "List VNI response entry")
}

/// Logs the attachments of a listing.
pub fn log_virtual_network_attachments<'a>(
    virtual_network_attachments: &'a [VirtualNetworkAttachment],
) -> (r: Vec<LogLine<'a, VirtualNetworkAttachment>>)
    ensures
        lines_log(
            r@,
            virtual_network_attachments@,
            "List VNI attachment response"@,
            "List VNI attachment response entry"@,
        ),
{
    log_list(
        virtual_network_attachments,
        "List VNI attachment response",
        "List VNI attachment response entry",
    )
}

/// What a call of an update has brought about, where that is logged.
#[derive(Debug)]
pub enum Outcome<'a> {
    /// The network of this attachment was created and is ready.
    CreatedNetwork(&'a AstraAttachmentStatus),
    /// This attachment was created and is ready.
    CreatedAttachment(&'a AstraAttachmentStatus),
    /// This attachment was in the way of a configured one and is deleted.
    DeletedConflict(&'a VirtualNetworkAttachment),
    /// This attachment is in the way of a configured one and could not be deleted.
    KeptConflict { attachment: &'a VirtualNetworkAttachment, error: &'a String },
    /// This stale attachment was deleted.
    DeletedAttachment(&'a VirtualNetworkAttachment),
    /// This stale network was deleted.
    DeletedNetwork(&'a VirtualNetwork),
}

/// Model of [`Outcome`].
pub enum OutcomeView {
    CreatedNetwork(AstraAttachmentStatusView),
    CreatedAttachment(AstraAttachmentStatusView),
    DeletedConflict(VirtualNetworkAttachmentView),
    KeptConflict { attachment: VirtualNetworkAttachmentView, error: Seq<char> },
    DeletedAttachment(VirtualNetworkAttachmentView),
    DeletedNetwork(VirtualNetworkView),
}

impl<'a> DeepView for Outcome<'a> {
    type V = OutcomeView;

    open spec fn deep_view(&self) -> OutcomeView {
        match self {
            Outcome::CreatedNetwork(status) => OutcomeView::CreatedNetwork(status.deep_view()),
            Outcome::CreatedAttachment(status) => OutcomeView::CreatedAttachment(
                status.deep_view(),
            ),
            Outcome::DeletedConflict(attachment) => OutcomeView::DeletedConflict(
                attachment.deep_view(),
            ),
            Outcome::KeptConflict { attachment, error } => OutcomeView::KeptConflict {
                attachment: attachment.deep_view(),
                error: error@,
            },
            Outcome::DeletedAttachment(attachment) => OutcomeView::DeletedAttachment(
                attachment.deep_view(),
            ),
            Outcome::DeletedNetwork(network) => OutcomeView::DeletedNetwork(network.deep_view()),
        }
    }
}

/// What a reply tells of the call that an update waits for.
pub open spec fn outcome_of(update: UpdateView, reply: ReplyView) -> Option<OutcomeView> {
    match (update.progress, reply) {
        (
            ProgressView::CreatingNetwork { known, index },
            ReplyView::CreateVirtualNetwork(created),
        ) => if created_network_state(created).phase == Phase::Ready {
            Some(OutcomeView::CreatedNetwork(update.statuses[index]))
        } else {
            None
        },
        (
            ProgressView::CreatingAttachment { listed, deleted, index },
            ReplyView::CreateVirtualNetworkAttachment(created),
        ) => if created_attachment_state(created).phase == Phase::Ready {
            Some(OutcomeView::CreatedAttachment(update.statuses[index]))
        } else {
            None
        },
        (
            ProgressView::DeletingConflict { listed, deleted, index, conflict, clean },
            ReplyView::DeleteVirtualNetworkAttachment(gone),
        ) => match gone {
            Ok(_) => Some(OutcomeView::DeletedConflict(listed[conflict])),
            Err(error) => Some(
                OutcomeView::KeptConflict { attachment: listed[conflict], error },
            ),
        },
        (
            ProgressView::DeletingStaleAttachment { listed, deleted, position },
            ReplyView::DeleteVirtualNetworkAttachment(Ok(_)),
        ) => Some(OutcomeView::DeletedAttachment(listed[position])),
        (
            ProgressView::DeletingStaleNetwork { networks, position },
            ReplyView::DeleteVirtualNetwork(Ok(_)),
        ) => Some(OutcomeView::DeletedNetwork(networks[position])),
        _ => None,
    }
}

/// Whether a created network is ready.
pub fn is_created_network_ready(reply: &NetworkCreated) -> (r: bool)
    ensures
        r == (created_network_state(network_created_view(*reply)).phase == Phase::Ready),
        r <==> (reply matches Ok(Some(network)) && network.status is Some
            && network.status->0.state is Some && network.status->0.state->0.phase
            == Phase::Ready),
{
    match reply {
        Ok(Some(network)) => match &network.status {
            Some(status) => match &status.state {
                Some(state) => state.phase == Phase::Ready,
                None => false,
            },
            None => false,
        },
        _ => false,
    }
}

/// Whether a created attachment is ready.
pub fn is_created_attachment_ready(reply: &AttachmentCreated) -> (r: bool)
    ensures
        r == (created_attachment_state(attachment_created_view(*reply)).phase == Phase::Ready),
        r <==> (reply matches Ok(Some(attachment)) && attachment.status is Some
            && attachment.status->0.state is Some && attachment.status->0.state->0.phase
            == Phase::Ready),
{
    match reply {
        Ok(Some(attachment)) => match &attachment.status {
            Some(status) => match &status.state {
                Some(state) => state.phase == Phase::Ready,
                None => false,
            },
            None => false,
        },
        _ => false,
    }
}

/// The creation of a network is logged exactly where the network itself came back ready, with the
/// status that it was created for.
pub proof fn lemma_logged_network_is_ready(update: UpdateView, reply: ReplyView)
    ensures
        ({
            let logged = outcome_of(update, reply) matches Some(OutcomeView::CreatedNetwork(_));
            let ready = match reply {
                ReplyView::CreateVirtualNetwork(Ok(Some(network))) => network.status is Some
                    && network.status->0 is Some && network.status->0->0.phase == Phase::Ready,
                _ => false,
            };
            logged <==> update.progress is CreatingNetwork && ready
        }),
        outcome_of(update, reply) matches Some(OutcomeView::CreatedNetwork(status)) ==> (
        update.progress matches ProgressView::CreatingNetwork { known, index } && status
            == update.statuses[index]),
{
}

/// The creation of an attachment is logged exactly where the attachment itself came back ready,
/// with the status that it was created for.
pub proof fn lemma_logged_attachment_is_ready(update: UpdateView, reply: ReplyView)
    ensures
        ({
            let logged = outcome_of(update, reply) matches Some(OutcomeView::CreatedAttachment(_));
            let ready = match reply {
                ReplyView::CreateVirtualNetworkAttachment(Ok(Some(attachment))) =>
                    attachment.status is Some && attachment.status->0.state is Some
                    && attachment.status->0.state->0.phase == Phase::Ready,
                _ => false,
            };
            logged <==> update.progress is CreatingAttachment && ready
        }),
        outcome_of(update, reply) matches Some(OutcomeView::CreatedAttachment(status)) ==> (
        update.progress matches ProgressView::CreatingAttachment { listed, deleted, index }
            && status == update.statuses[index]),
{
}

/// A deletion is logged with the object that was to be deleted. One that fails is logged for a
/// conflict alone, with the error.
pub proof fn lemma_logged_deletions(update: UpdateView, reply: ReplyView)
    ensures
        (update.progress matches ProgressView::DeletingConflict {
            listed,
            deleted,
            index,
            conflict,
            clean,
        } ==> match reply {
            ReplyView::DeleteVirtualNetworkAttachment(Ok(_)) => outcome_of(update, reply) == Some(
                OutcomeView::DeletedConflict(listed[conflict]),
            ),
            ReplyView::DeleteVirtualNetworkAttachment(Err(error)) => outcome_of(update, reply)
                == Some(OutcomeView::KeptConflict { attachment: listed[conflict], error }),
            _ => outcome_of(update, reply) is None,
        }),
        (update.progress matches ProgressView::DeletingStaleAttachment {
            listed,
            deleted,
            position,
        } ==> match reply {
            ReplyView::DeleteVirtualNetworkAttachment(Ok(_)) => outcome_of(update, reply) == Some(
                OutcomeView::DeletedAttachment(listed[position]),
            ),
            _ => outcome_of(update, reply) is None,
        }),
        (update.progress matches ProgressView::DeletingStaleNetwork { networks, position }
            ==> match reply {
            ReplyView::DeleteVirtualNetwork(Ok(_)) => outcome_of(update, reply) == Some(
                OutcomeView::DeletedNetwork(networks[position]),
            ),
            _ => outcome_of(update, reply) is None,
        }),
        update.progress is ListingNetworks || update.progress is ListingAttachments ==> outcome_of(
            update,
            reply,
        ) is None,
{
}

/// A list is logged by its length and by all its entries, each in its place. So two lists with the
/// same log are the same list.
pub proof fn lemma_log_tells_list<'a, T>(
    lines: Seq<LogLine<'a, T>>,
    a: Seq<T>,
    b: Seq<T>,
    message: Seq<char>,
    entry_message: Seq<char>,
)
    requires
        lines_log(lines, a, message, entry_message),
        lines_log(lines, b, message, entry_message),
    ensures
        a == b,
        lines.len() == a.len() + 1,
        lines[0] matches LogLine::Count { message: m, count } && count == a.len() && m@ == message,
        forall|i: int| #![trigger a[i]]
            0 <= i < a.len() ==> (lines[i + 1] matches LogLine::Entry { message: m, entry } && m@
                == entry_message && *entry == a[i]),
{
    assert forall|i: int| 0 <= i < a.len() implies a[i] == b[i] by {
        assert(lines[i + 1] matches LogLine::Entry { message: m, entry } && *entry == a[i]);
    }
    assert(a =~= b);
}

/// The model of an outcome holds what the outcome holds.
pub proof fn lemma_outcome_model<'a>(outcome: Outcome<'a>)
    ensures
        match outcome {
            Outcome::CreatedNetwork(status) => outcome.deep_view() == OutcomeView::CreatedNetwork(
                status.deep_view(),
            ),
            Outcome::CreatedAttachment(status) => outcome.deep_view()
                == OutcomeView::CreatedAttachment(status.deep_view()),
            Outcome::DeletedConflict(attachment) => outcome.deep_view()
                == OutcomeView::DeletedConflict(attachment.deep_view()),
            Outcome::KeptConflict { attachment, error } => outcome.deep_view() == (
            OutcomeView::KeptConflict { attachment: attachment.deep_view(), error: error@ }),
            Outcome::DeletedAttachment(attachment) => outcome.deep_view()
                == OutcomeView::DeletedAttachment(attachment.deep_view()),
            Outcome::DeletedNetwork(network) => outcome.deep_view() == OutcomeView::DeletedNetwork(
                network.deep_view(),
            ),
        },
{
}

} // verus!
