//! Errors that end an update.
use crate::text::{append_unsigned, decimal, ends_with, holds, lemma_parts};
use vstd::prelude::*;
use vstd::string::StringExecFns;

verus! {

/// Why an update could not be carried out.
#[derive(Clone, Debug, PartialEq, Eq)]
pub enum UpdateError {
    /// A configured VNI is larger than the status can report.
    VniOutOfRange { vni: u32 },
    /// A list call failed.
    ListFailed { error: String },
    /// A stale attachment could not be deleted.
    StaleAttachment { error: String },
    /// A stale network could not be deleted.
    StaleNetwork { error: String },
}

/// Model of [`UpdateError`].
pub enum UpdateErrorView {
    VniOutOfRange { vni: u32 },
    ListFailed { error: Seq<char> },
    StaleAttachment { error: Seq<char> },
    StaleNetwork { error: Seq<char> },
}

impl DeepView for UpdateError {
    type V = UpdateErrorView;

    open spec fn deep_view(&self) -> UpdateErrorView {
        match self {
            UpdateError::VniOutOfRange { vni } => UpdateErrorView::VniOutOfRange { vni: *vni },
            UpdateError::ListFailed { error } => UpdateErrorView::ListFailed { error: error@ },
            UpdateError::StaleAttachment { error } => UpdateErrorView::StaleAttachment {
                error: error@,
            },
            UpdateError::StaleNetwork { error } => UpdateErrorView::StaleNetwork { error: error@ },
        }
    }
}

impl UpdateErrorView {
    /// The text for an operator.
    pub open spec fn text(self) -> Seq<char> {
        match self {
            UpdateErrorView::VniOutOfRange { vni } => "VNI "@ + decimal(vni as int)
                + " does not fit in i32"@,
            UpdateErrorView::ListFailed { error } => error,
            UpdateErrorView::StaleAttachment { error } =>
                "failed to delete stale virtual network attachment from DOCA Weave server: "@
                + error,
            UpdateErrorView::StaleNetwork { error } =>
                "failed to delete stale virtual network from DOCA Weave server: "@ + error,
        }
    }
}

impl UpdateError {
    /// The text for an operator.
    pub fn message(&self) -> (r: String)
        ensures
            r@ == self.deep_view().text(),
    {
        match self {
            UpdateError::VniOutOfRange { vni } => {
                let mut text = "VNI ".to_owned();
                append_unsigned(&mut text, *vni as u64);
                text.append(" does not fit in i32");
                text
            },
            UpdateError::ListFailed { error } => error.clone(),
            UpdateError::StaleAttachment { error } => {
                "failed to delete stale virtual network attachment from DOCA Weave server: "
                    .to_owned().concat(error.as_str())
            },
            UpdateError::StaleNetwork { error } => {
                "failed to delete stale virtual network from DOCA Weave server: "
                    .to_owned().concat(error.as_str())
            },
        }
    }
}

/// The text of an error tells the VNI, or ends with the error that the server gave. The error of a
/// list call is handed on as it is.
pub proof fn lemma_update_error_texts_tell(error: UpdateErrorView)
    ensures
        match error {
            UpdateErrorView::VniOutOfRange { vni } => holds(error.text(), "VNI "@) && holds(
                error.text(),
                decimal(vni as int),
            ) && ends_with(error.text(), " does not fit in i32"@),
            UpdateErrorView::ListFailed { error: source } => error.text() == source,
            UpdateErrorView::StaleAttachment { error: source } => holds(
                error.text(),
                "failed to delete stale virtual network attachment from DOCA Weave server: "@,
            ) && ends_with(error.text(), source),
            UpdateErrorView::StaleNetwork { error: source } => holds(
                error.text(),
                "failed to delete stale virtual network from DOCA Weave server: "@,
            ) && ends_with(error.text(), source),
        },
{
    match error {
        UpdateErrorView::VniOutOfRange { vni } => {
            lemma_parts("VNI "@, decimal(vni as int), " does not fit in i32"@);
        },
        UpdateErrorView::ListFailed { error: source } => {},
        UpdateErrorView::StaleAttachment { error: source } => {
            let start =
                "failed to delete stale virtual network attachment from DOCA Weave server: "@;
            lemma_parts(start, Seq::empty(), source);
            assert(start + Seq::<char>::empty() =~= start);
        },
        UpdateErrorView::StaleNetwork { error: source } => {
            let start = "failed to delete stale virtual network from DOCA Weave server: "@;
            lemma_parts(start, Seq::empty(), source);
            assert(start + Seq::<char>::empty() =~= start);
        },
    }
}

/// The model of an error holds what the error holds.
pub proof fn lemma_update_error_model(error: UpdateError)
    ensures
        match error {
            UpdateError::VniOutOfRange { vni } => error.deep_view() == (
            UpdateErrorView::VniOutOfRange { vni }),
            UpdateError::ListFailed { error: source } => error.deep_view() == (
            UpdateErrorView::ListFailed { error: source@ }),
            UpdateError::StaleAttachment { error: source } => error.deep_view() == (
            UpdateErrorView::StaleAttachment { error: source@ }),
            UpdateError::StaleNetwork { error: source } => error.deep_view() == (
            UpdateErrorView::StaleNetwork { error: source@ }),
        },
{
}

} // verus!
