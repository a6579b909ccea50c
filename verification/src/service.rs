//! The calls to the Weave server, and what they come back with.
use crate::attachments::{
    attachment_created_view, AttachmentCreated, AttachmentCreatedView, Deleted,
};
use crate::networks::{network_created_view, NetworkCreated, NetworkCreatedView};
use crate::weave::{
    CreateVirtualNetworkAttachmentRequest, CreateVirtualNetworkAttachmentRequestView,
    CreateVirtualNetworkRequest, CreateVirtualNetworkRequestView,
    DeleteVirtualNetworkAttachmentRequest, DeleteVirtualNetworkRequest,
    ListVirtualNetworkAttachmentsRequest, ListVirtualNetworkAttachmentsRequestView,
    ListVirtualNetworksRequest, VirtualNetwork, VirtualNetworkAttachment,
    VirtualNetworkAttachmentView, VirtualNetworkView,
};
use vstd::prelude::*;

verus! {

/// A call to the Weave server.
#[derive(Clone, Debug, PartialEq, Eq)]
pub enum Request {
    ListVirtualNetworks(ListVirtualNetworksRequest),
    CreateVirtualNetwork(CreateVirtualNetworkRequest),
    DeleteVirtualNetwork(DeleteVirtualNetworkRequest),
    ListVirtualNetworkAttachments(ListVirtualNetworkAttachmentsRequest),
    CreateVirtualNetworkAttachment(CreateVirtualNetworkAttachmentRequest),
    DeleteVirtualNetworkAttachment(DeleteVirtualNetworkAttachmentRequest),
}

/// What a call came back with. An error is the text of the error.
#[derive(Debug, PartialEq, Eq)]
pub enum Reply {
    ListVirtualNetworks(Result<Vec<VirtualNetwork>, String>),
    CreateVirtualNetwork(NetworkCreated),
    DeleteVirtualNetwork(Deleted),
    ListVirtualNetworkAttachments(Result<Vec<VirtualNetworkAttachment>, String>),
    CreateVirtualNetworkAttachment(AttachmentCreated),
    DeleteVirtualNetworkAttachment(Deleted),
}

/// Model of [`Request`]. A deletion is the id of the object.
pub enum RequestView {
    ListVirtualNetworks(Option<u32>),
    CreateVirtualNetwork(CreateVirtualNetworkRequestView),
    DeleteVirtualNetwork(Seq<char>),
    ListVirtualNetworkAttachments(ListVirtualNetworkAttachmentsRequestView),
    CreateVirtualNetworkAttachment(CreateVirtualNetworkAttachmentRequestView),
    DeleteVirtualNetworkAttachment(Seq<char>),
}

/// Model of [`Reply`].
pub enum ReplyView {
    ListVirtualNetworks(Result<Seq<VirtualNetworkView>, Seq<char>>),
    CreateVirtualNetwork(NetworkCreatedView),
    DeleteVirtualNetwork(Result<(), Seq<char>>),
    ListVirtualNetworkAttachments(Result<Seq<VirtualNetworkAttachmentView>, Seq<char>>),
    CreateVirtualNetworkAttachment(AttachmentCreatedView),
    DeleteVirtualNetworkAttachment(Result<(), Seq<char>>),
}

impl DeepView for Request {
    type V = RequestView;

    open spec fn deep_view(&self) -> RequestView {
        match self {
            Request::ListVirtualNetworks(r) => RequestView::ListVirtualNetworks(r.vni),
            Request::CreateVirtualNetwork(r) => RequestView::CreateVirtualNetwork(r.deep_view()),
            Request::DeleteVirtualNetwork(r) => RequestView::DeleteVirtualNetwork(r.id@),
            Request::ListVirtualNetworkAttachments(r) =>
                RequestView::ListVirtualNetworkAttachments(r.deep_view()),
            Request::CreateVirtualNetworkAttachment(r) =>
                RequestView::CreateVirtualNetworkAttachment(r.deep_view()),
            Request::DeleteVirtualNetworkAttachment(r) =>
                RequestView::DeleteVirtualNetworkAttachment(r.id@),
        }
    }
}

/// The model of what a delete call came back with.
pub open spec fn deleted_view(reply: Deleted) -> Result<(), Seq<char>> {
    match reply {
        Ok(_) => Ok(()),
        Err(error) => Err(error@),
    }
}

/// The model of what a list call came back with.
pub open spec fn listed_view<T: DeepView>(reply: Result<Vec<T>, String>) -> Result<
    Seq<T::V>,
    Seq<char>,
> {
    match reply {
        Ok(listed) => Ok(listed.deep_view()),
        Err(error) => Err(error@),
    }
}

impl DeepView for Reply {
    type V = ReplyView;

    open spec fn deep_view(&self) -> ReplyView {
        match self {
            Reply::ListVirtualNetworks(r) => ReplyView::ListVirtualNetworks(listed_view(*r)),
            Reply::CreateVirtualNetwork(r) => ReplyView::CreateVirtualNetwork(
                network_created_view(*r),
            ),
            Reply::DeleteVirtualNetwork(r) => ReplyView::DeleteVirtualNetwork(deleted_view(*r)),
            Reply::ListVirtualNetworkAttachments(r) => ReplyView::ListVirtualNetworkAttachments(
                listed_view(*r),
            ),
            Reply::CreateVirtualNetworkAttachment(r) =>
                ReplyView::CreateVirtualNetworkAttachment(attachment_created_view(*r)),
            Reply::DeleteVirtualNetworkAttachment(r) =>
                ReplyView::DeleteVirtualNetworkAttachment(deleted_view(*r)),
        }
    }
}

/// A reply comes from the call that a request stands for.
pub open spec fn answers(reply: ReplyView, request: RequestView) -> bool {
    match request {
        RequestView::ListVirtualNetworks(_) => reply is ListVirtualNetworks,
        RequestView::CreateVirtualNetwork(_) => reply is CreateVirtualNetwork,
        RequestView::DeleteVirtualNetwork(_) => reply is DeleteVirtualNetwork,
        RequestView::ListVirtualNetworkAttachments(_) => reply is ListVirtualNetworkAttachments,
        RequestView::CreateVirtualNetworkAttachment(_) => reply is CreateVirtualNetworkAttachment,
        RequestView::DeleteVirtualNetworkAttachment(_) => reply is DeleteVirtualNetworkAttachment,
    }
}

impl Request {
    /// Whether a reply comes from the call that this request stands for.
    pub fn is_answered_by(&self, reply: &Reply) -> (r: bool)
        ensures
            r == answers(reply.deep_view(), self.deep_view()),
    {
        match (self, reply) {
            (Request::ListVirtualNetworks(_), Reply::ListVirtualNetworks(_)) => true,
            (Request::CreateVirtualNetwork(_), Reply::CreateVirtualNetwork(_)) => true,
            (Request::DeleteVirtualNetwork(_), Reply::DeleteVirtualNetwork(_)) => true,
            (
                Request::ListVirtualNetworkAttachments(_),
                Reply::ListVirtualNetworkAttachments(_),
            ) => true,
            (
                Request::CreateVirtualNetworkAttachment(_),
                Reply::CreateVirtualNetworkAttachment(_),
            ) => true,
            (
                Request::DeleteVirtualNetworkAttachment(_),
                Reply::DeleteVirtualNetworkAttachment(_),
            ) => true,
            _ => false,
        }
    }
}

/// A request and the reply to it are of the same call: a reply answers no two requests of
/// different calls.
pub proof fn lemma_answer_is_of_the_call(reply: ReplyView, request: RequestView)
    ensures
        answers(reply, request) <==> ((request is ListVirtualNetworks
            <==> reply is ListVirtualNetworks) && (request is CreateVirtualNetwork
            <==> reply is CreateVirtualNetwork) && (request is DeleteVirtualNetwork
            <==> reply is DeleteVirtualNetwork) && (request is ListVirtualNetworkAttachments
            <==> reply is ListVirtualNetworkAttachments) && (
        request is CreateVirtualNetworkAttachment <==> reply is CreateVirtualNetworkAttachment) && (
        request is DeleteVirtualNetworkAttachment <==> reply is DeleteVirtualNetworkAttachment)),
{
}

/// The model of a request holds what the request holds.
pub proof fn lemma_request_model(request: Request)
    ensures
        match request {
            Request::ListVirtualNetworks(r) => request.deep_view()
                == RequestView::ListVirtualNetworks(r.vni),
            Request::CreateVirtualNetwork(r) => request.deep_view()
                == RequestView::CreateVirtualNetwork(r.deep_view()),
            Request::DeleteVirtualNetwork(r) => request.deep_view()
                == RequestView::DeleteVirtualNetwork(r.id@),
            Request::ListVirtualNetworkAttachments(r) => request.deep_view()
                == RequestView::ListVirtualNetworkAttachments(r.deep_view()),
            Request::CreateVirtualNetworkAttachment(r) => request.deep_view()
                == RequestView::CreateVirtualNetworkAttachment(r.deep_view()),
            Request::DeleteVirtualNetworkAttachment(r) => request.deep_view()
                == RequestView::DeleteVirtualNetworkAttachment(r.id@),
        },
{
}

/// The model of a reply holds what the reply holds.
pub proof fn lemma_reply_model(reply: Reply)
    ensures
        match reply {
            Reply::ListVirtualNetworks(Ok(listed)) => reply.deep_view()
                == ReplyView::ListVirtualNetworks(Ok(listed.deep_view())),
            Reply::ListVirtualNetworks(Err(error)) => reply.deep_view()
                == ReplyView::ListVirtualNetworks(Err(error@)),
            Reply::CreateVirtualNetwork(Ok(Some(network))) => reply.deep_view()
                == ReplyView::CreateVirtualNetwork(Ok(Some(network.deep_view()))),
            Reply::CreateVirtualNetwork(Ok(None)) => reply.deep_view()
                == ReplyView::CreateVirtualNetwork(Ok(None)),
            Reply::CreateVirtualNetwork(Err(error)) => reply.deep_view()
                == ReplyView::CreateVirtualNetwork(Err(error@)),
            Reply::DeleteVirtualNetwork(Ok(_)) => reply.deep_view()
                == ReplyView::DeleteVirtualNetwork(Ok(())),
            Reply::DeleteVirtualNetwork(Err(error)) => reply.deep_view()
                == ReplyView::DeleteVirtualNetwork(Err(error@)),
            Reply::ListVirtualNetworkAttachments(Ok(listed)) => reply.deep_view()
                == ReplyView::ListVirtualNetworkAttachments(Ok(listed.deep_view())),
            Reply::ListVirtualNetworkAttachments(Err(error)) => reply.deep_view()
                == ReplyView::ListVirtualNetworkAttachments(Err(error@)),
            Reply::CreateVirtualNetworkAttachment(Ok(Some(attachment))) => reply.deep_view()
                == ReplyView::CreateVirtualNetworkAttachment(Ok(Some(attachment.deep_view()))),
            Reply::CreateVirtualNetworkAttachment(Ok(None)) => reply.deep_view()
                == ReplyView::CreateVirtualNetworkAttachment(Ok(None)),
            Reply::CreateVirtualNetworkAttachment(Err(error)) => reply.deep_view()
                == ReplyView::CreateVirtualNetworkAttachment(Err(error@)),
            Reply::DeleteVirtualNetworkAttachment(Ok(_)) => reply.deep_view()
                == ReplyView::DeleteVirtualNetworkAttachment(Ok(())),
            Reply::DeleteVirtualNetworkAttachment(Err(error)) => reply.deep_view()
                == ReplyView::DeleteVirtualNetworkAttachment(Err(error@)),
        },
{
}

} // verus!
