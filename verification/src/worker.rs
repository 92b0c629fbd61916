use vstd::prelude::*;
use vstd::string::StringExecFns;
use crate::MsgView;
use crate::ProcessingResult;
use crate::errors::Error;
use crate::queue_actor::QueueHandler;
use crate::queue_actor::HandleView;
use crate::requests_queue_name;
use crate::responses_queue_name;

verus! {

/// Where the opaque QR decode step gave up on a submitted image.
#[derive(Clone, Copy, Debug, PartialEq, Eq, Structural)]
pub enum ScanError {
    /// The bytes are not a decodable image.
    BadImage,
    /// The image holds no recognizable QR code.
    NoCode,
    /// A code was found but its symbol data cannot be decoded.
    DecodeFailed,
    /// The decoded payload is not representable as text.
    NotText,
}

impl ScanError {
    /// The failure reason reported back to the submitter.
    pub open spec fn reason_spec(self) -> Seq<char> {
        match self {
            ScanError::BadImage => "image decode error"@,
            ScanError::NoCode => "no code found"@,
            ScanError::DecodeFailed => "decode failed"@,
            ScanError::NotText => "not representable as text"@,
        }
    }

    pub fn reason(&self) -> (r: String)
        ensures
            r@ == self.reason_spec(),
    {
        match self {
            ScanError::BadImage => String::from_str("image decode error"),
            ScanError::NoCode => String::from_str("no code found"),
            ScanError::DecodeFailed => String::from_str("decode failed"),
            ScanError::NotText => String::from_str("not representable as text"),
        }
    }
}

/// Every failure reason is a non-empty text.
pub proof fn lemma_reason_nonempty(e: ScanError)
    ensures
        e.reason_spec().len() > 0,
{
    reveal_strlit("image decode error");
    reveal_strlit("no code found");
    reveal_strlit("decode failed");
    reveal_strlit("not representable as text");
}

/// What the QR decode step yields for a given byte buffer: the text behind
/// the code, or where decoding gave up. The step is deterministic in the
/// bytes alone.
pub uninterp spec fn qr_scan(data: Seq<u8>) -> Result<Seq<char>, ScanError>;

/// Relies on `image::load_from_memory`, `image::DynamicImage::to_luma8` and
/// the `queens_rock` scanner chain (`Scanner::new`, `scan`, `extract`,
/// `Code::decode`, `Data::try_string`): together they are consumed as one
/// opaque decode function of the image bytes alone, named `qr_scan`. The
/// luma buffer handed to the scanner has exactly width times height samples,
/// which is what the scanner requires of its input.
#[verifier::external_body]
fn scan_image(data: &Vec<u8>) -> (r: Result<String, ScanError>)
    ensures
        match r {
            Ok(t) => qr_scan(data@) == Ok::<Seq<char>, ScanError>(t@),
            Err(e) => qr_scan(data@) == Err::<Seq<char>, ScanError>(e),
        },
{
    let image = image::load_from_memory(data.as_slice()).map_err(|_| ScanError::BadImage)?;
    let luma = image.to_luma8();
    let (w, h) = (luma.width() as usize, luma.height() as usize);
    let pixels = luma.into_vec();
    let results = queens_rock::Scanner::new(pixels.as_slice(), w, h).scan();
    let code = results.extract(0).ok_or(ScanError::NoCode)?;
    let decoded = code.decode().map_err(|_| ScanError::DecodeFailed)?;
    decoded.try_string().map_err(|_| ScanError::NotText)
}

/// The terminal message the worker owes for raw bytes that scanned to the
/// given outcome.
pub open spec fn reply_for_outcome(outcome: Result<Seq<char>, ScanError>) -> MsgView {
    match outcome {
        Ok(t) => MsgView::Success(t),
        Err(e) => MsgView::Failure(e.reason_spec()),
    }
}

/// The terminal message the worker owes for the raw bytes `data`.
pub open spec fn worker_reply_view(data: Seq<u8>) -> MsgView {
    reply_for_outcome(qr_scan(data))
}

/// Turn a decode outcome into the terminal reply message: the decoded text
/// on success, and otherwise a failure carrying a non-empty reason.
pub fn worker_reply(outcome: Result<String, ScanError>) -> (r: ProcessingResult)
    ensures
        outcome matches Ok(t) ==> r@ == MsgView::Success(t@),
        outcome matches Err(e) ==> r@ == MsgView::Failure(e.reason_spec())
            && e.reason_spec().len() > 0,
        r is Success || r is Failure,
{
    match outcome {
        Ok(t) => ProcessingResult::Success(t),
        Err(e) => {
            proof {
                lemma_reason_nonempty(e);
            }
            ProcessingResult::Failure(e.reason())
        },
    }
}

/// The worker-side handler: it consumes submitted requests, decodes each
/// image, and always answers a well-formed in-progress request with a
/// terminal reply.
#[derive(Clone)]
pub struct WorkerHandler;

impl WorkerHandler {
    /// Decode one raw image buffer to the text behind its QR code.
    pub fn scan(&self, incoming: &Vec<u8>) -> (r: Result<String, ScanError>)
        ensures
            r matches Ok(t) ==> qr_scan(incoming@) == Ok::<Seq<char>, ScanError>(t@),
            r matches Err(e) ==> qr_scan(incoming@) == Err::<Seq<char>, ScanError>(e),
    {
        scan_image(incoming)
    }
}

impl QueueHandler for WorkerHandler {
    open spec fn inv(&self) -> bool {
        true
    }

    open spec fn source_queue_spec(&self) -> Seq<char> {
        "requests"@
    }

    open spec fn target_queue_spec(&self) -> Seq<char> {
        "responses"@
    }

    /// The worker is stateless; a request carrying raw bytes is answered by
    /// the terminal outcome of decoding them, anything else by silence.
    open spec fn handle_rel(
        pre: Self,
        post: Self,
        id: Seq<char>,
        incoming: MsgView,
        r: HandleView,
    ) -> bool {
        match incoming {
            MsgView::InProgress(Some(d)) => r == Ok::<Option<MsgView>, Seq<char>>(
                Some(worker_reply_view(d)),
            ),
            _ => r == Ok::<Option<MsgView>, Seq<char>>(None),
        }
    }

    fn source_queue_name(&self) -> (r: String) {
        requests_queue_name()
    }

    fn target_queue_name(&self) -> (r: String) {
        responses_queue_name()
    }

    fn handle(&mut self, id: &String, incoming: ProcessingResult) -> (r: Result<
        Option<ProcessingResult>,
        Error,
    >) {
        match incoming {
            ProcessingResult::InProgress(Some(data)) => {
                let outcome = self.scan(&data);
                Ok(Some(worker_reply(outcome)))
            },
            _ => Ok(None),
        }
    }
}

} // verus!
