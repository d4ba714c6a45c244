//! Answering loads of the in-app scheme from a request handler.

use vstd::prelude::*;

pub use crate::platform_impl::PlatformRequest;

verus! {

/// A resource that a request handler serves: its bytes, to be read to the end,
/// and their MIME type.
pub struct Response<T> {
    pub body: T,
    pub mime_type: String,
}

/// Serves the resources of the in-app scheme.
pub trait RequestHandler {
    type Read;

    /// Handle a request to the specified URI
    fn handle_request(&mut self, uri: &str) -> Option<Response<Self::Read>>;

    /// Handle a request in its platform-specific form
    fn handle_platform_request(&mut self, request: PlatformRequest) -> Option<Response<Self::Read>> {
        self.handle_request(request.as_uri())
    }
}

#[verifier::external_type_specification]
#[verifier::external_body]
pub struct ExEmpty(std::io::Empty);

/// A request handler that serves nothing: every request is not found.
pub struct NullRequestHandler;

impl RequestHandler for NullRequestHandler {
    type Read = std::io::Empty;

    fn handle_request(&mut self, _uri: &str) -> (r: Option<Response<Self::Read>>)
        ensures
            r is None,
    {
        None
    }
}

/// A step of answering an intercepted load, in the order the native task is
/// given them.
#[derive(Debug)]
pub enum TaskAction {
    /// The response head: the URL loaded, the MIME type and the length of the
    /// body in bytes.
    ReceiveResponse { url: String, mime_type: String, content_length: usize },
    /// The body.
    ReceiveData(Vec<u8>),
    /// The load is complete.
    Finish,
}

/// `actions` is what a native task is told about the load of `url`, given
/// what the request handler served (its MIME type and its body, read to the
/// end): for a resource, its response head, its bytes, then completion; for
/// none, nothing at all, and the task is left unanswered.
pub open spec fn answers(actions: Seq<TaskAction>, url: Seq<char>, served: Option<(Seq<char>, Seq<u8>)>) -> bool {
    match served {
        None => actions.len() == 0,
        Some((mime_type, body)) => {
            &&& actions.len() == 3
            &&& actions[0] matches TaskAction::ReceiveResponse { url: u, mime_type: m, content_length: n }
                && u@ == url && m@ == mime_type && n == body.len()
            &&& actions[1] matches TaskAction::ReceiveData(b) && b@ == body
            &&& actions[2] is Finish
        },
    }
}

/// The MIME type and bytes of a served resource.
pub open spec fn served_of(found: Option<Response<Vec<u8>>>) -> Option<(Seq<char>, Seq<u8>)> {
    match found {
        None => None,
        Some(r) => Some((r.mime_type@, r.body@)),
    }
}

/// Answers the native task that loads `url`, given what the request handler
/// served, with its body read to the end.
pub fn answer_task(url: String, found: Option<Response<Vec<u8>>>) -> (actions: Vec<TaskAction>)
    ensures
        answers(actions@, url@, served_of(found)),
{
    match found {
        None => Vec::new(),
        Some(Response { body, mime_type }) => {
            let content_length = body.len();
            vec![
                TaskAction::ReceiveResponse { url, mime_type, content_length },
                TaskAction::ReceiveData(body),
                TaskAction::Finish,
            ]
        },
    }
}

} // verus!
