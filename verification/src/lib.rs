use vstd::prelude::*;
use vstd::string::StringExecFns;

pub mod errors;
pub mod status;
pub mod envelope;
pub mod registry;
pub mod queue_actor;
pub mod server;
pub mod worker;

verus! {

/// A raw upload: the bytes of an image that is expected to carry a QR code.
pub struct QrRequest {
    pub image: Vec<u8>,
}

/// The payload of one message on the wire: either a request still carrying
/// its raw input, or a terminal outcome produced by the worker.
#[derive(Clone, Debug, PartialEq)]
pub enum ProcessingResult {
    InProgress(Option<Vec<u8>>),
    Success(String),
    Failure(String),
}

/// The mathematical value of a `ProcessingResult`.
#[verifier::ext_equal]
pub enum MsgView {
    InProgress(Option<Seq<u8>>),
    Success(Seq<char>),
    Failure(Seq<char>),
}

impl View for ProcessingResult {
    type V = MsgView;

    open spec fn view(&self) -> MsgView {
        match self {
            ProcessingResult::InProgress(p) => MsgView::InProgress(
                match p {
                    Some(b) => Some(b@),
                    None => None,
                },
            ),
            ProcessingResult::Success(t) => MsgView::Success(t@),
            ProcessingResult::Failure(t) => MsgView::Failure(t@),
        }
    }
}

impl ProcessingResult {
    /// A short human-readable rendering of the message, in place of `Display`.
    pub fn describe(&self) -> (r: String)
        ensures
            self@ matches MsgView::Success(t) ==> r@ == "Done: "@ + t,
            self@ matches MsgView::Failure(t) ==> r@ == "Error: "@ + t,
            self@ matches MsgView::InProgress(_) ==> r@ == "In progress..."@,
    {
        match self {
            ProcessingResult::Success(data) => {
                let mut s = String::from_str("Done: ");
                s.append(data.as_str());
                s
            },
            ProcessingResult::Failure(detail) => {
                let mut s = String::from_str("Error: ");
                s.append(detail.as_str());
                s
            },
            ProcessingResult::InProgress(_) => String::from_str("In progress..."),
        }
    }

    /// A computation's outcome as a terminal message: the value on success,
    /// the error's message on failure.
    pub fn from_outcome(value: Result<String, errors::Error>) -> (r: Self)
        ensures
            value matches Ok(t) ==> r@ == MsgView::Success(t@),
            value matches Err(e) ==> r@ == MsgView::Failure(e.msg()),
    {
        match value {
            Ok(text) => ProcessingResult::Success(text),
            Err(e) => ProcessingResult::Failure(e.message()),
        }
    }
}


/// Name of the queue that carries submitted work towards the worker.
pub fn requests_queue_name() -> (r: String)
    ensures
        r@ == "requests"@,
{
    String::from_str("requests")
}

/// Name of the queue that carries the worker's replies back.
pub fn responses_queue_name() -> (r: String)
    ensures
        r@ == "responses"@,
{
    String::from_str("responses")
}

/// The broker consumer tag used for a queue: the queue's own name followed
/// by `-consumer`.
pub fn consumer_tag_for(queue_name: &str) -> (r: String)
    ensures
        r@ == queue_name@ + "-consumer"@,
{
    let mut tag = String::from_str(queue_name);
    tag.append("-consumer");
    tag
}

} // verus!
