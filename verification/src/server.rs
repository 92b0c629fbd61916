use vstd::prelude::*;
use crate::MsgView;
use crate::ProcessingResult;
use crate::errors::Error;
use crate::queue_actor::QueueHandler;
use crate::queue_actor::HandleView;
use crate::registry::TaskRegistry;
use crate::registry::RecordView;
use crate::registry::updated_entries;
use crate::registry::distinct_ids;
use crate::registry::has_id;
use crate::registry::record_of;
use crate::registry::lemma_update_applies;
use crate::status::msg_to_status_view;
use crate::status::msg_to_status;
use crate::status::StatusView;
use crate::status::is_terminal;
use crate::worker::qr_scan;
use crate::worker::ScanError;
use crate::worker::worker_reply_view;
use crate::worker::lemma_reason_nonempty;
use crate::requests_queue_name;
use crate::responses_queue_name;

verus! {

/// A raw upload handed to the server-side actor for direct send: the bytes
/// of the file to submit.
pub struct TaskMessage(pub Vec<u8>);

/// The server-side handler: it consumes the worker's replies and applies
/// each to the task registry under the reply's correlation id. An unknown id
/// or a refused transition is a reported anomaly, never a crash.
pub struct ServerHandler {
    pub registry: TaskRegistry,
}

impl ServerHandler {
    pub fn new() -> (r: Self)
        ensures
            r.registry.wf(),
            r.registry.entries() == Seq::<
                (Seq<char>, crate::registry::RecordView),
            >::empty(),
    {
        ServerHandler { registry: TaskRegistry::new() }
    }
}

impl QueueHandler for ServerHandler {
    open spec fn inv(&self) -> bool {
        self.registry.wf()
    }

    open spec fn source_queue_spec(&self) -> Seq<char> {
        "responses"@
    }

    open spec fn target_queue_spec(&self) -> Seq<char> {
        "requests"@
    }

    /// A reply moves the matching record to the status it carries, exactly
    /// when that is an accepted forward transition; everything else in the
    /// registry, and its order, stays. The server itself never replies.
    open spec fn handle_rel(
        pre: Self,
        post: Self,
        id: Seq<char>,
        incoming: MsgView,
        r: HandleView,
    ) -> bool {
        &&& post.registry.entries() == updated_entries(
            pre.registry.entries(),
            id,
            msg_to_status_view(incoming),
        )
        &&& r == Ok::<Option<MsgView>, Seq<char>>(None)
    }

    fn source_queue_name(&self) -> (r: String) {
        responses_queue_name()
    }

    fn target_queue_name(&self) -> (r: String) {
        requests_queue_name()
    }

    fn handle(&mut self, id: &String, incoming: ProcessingResult) -> (r: Result<
        Option<ProcessingResult>,
        Error,
    >) {
        let status = msg_to_status(incoming);
        let _outcome = self.registry.update(id, status);
        Ok(None)
    }
}

/// Round trip: when image bytes scan to the text `t`, the worker's reply for
/// them, routed back through the server handler under the submitter's id,
/// moves that task — still underway — to `Success(t)`.
pub proof fn lemma_round_trip_success(
    s: Seq<(Seq<char>, RecordView)>,
    id: Seq<char>,
    data: Seq<u8>,
    t: Seq<char>,
)
    requires
        qr_scan(data) == Ok::<Seq<char>, ScanError>(t),
        distinct_ids(s),
        has_id(s, id),
        !is_terminal(record_of(s, id).status),
    ensures
        has_id(updated_entries(s, id, msg_to_status_view(worker_reply_view(data))), id),
        record_of(
            updated_entries(s, id, msg_to_status_view(worker_reply_view(data))),
            id,
        ).status == StatusView::Success(t),
{
    assert(worker_reply_view(data) == MsgView::Success(t));
    lemma_update_applies(s, id, StatusView::Success(t));
}

/// Bytes the decode step gives up on drive the task to `Failure` with a
/// non-empty reason — never to `Success`.
pub proof fn lemma_failure_reported(s: Seq<(Seq<char>, RecordView)>, id: Seq<char>, data: Seq<u8>)
    requires
        qr_scan(data) is Err,
        distinct_ids(s),
        has_id(s, id),
        !is_terminal(record_of(s, id).status),
    ensures
        worker_reply_view(data) matches MsgView::Failure(reason) && reason.len() > 0,
        record_of(updated_entries(s, id, msg_to_status_view(worker_reply_view(data))), id).status
            matches StatusView::Failure(reason) && reason.len() > 0,
        !(record_of(updated_entries(s, id, msg_to_status_view(worker_reply_view(data))), id).status
            is Success),
{
    let e = qr_scan(data)->Err_0;
    lemma_reason_nonempty(e);
    assert(worker_reply_view(data) == MsgView::Failure(e.reason_spec()));
    lemma_update_applies(s, id, StatusView::Failure(e.reason_spec()));
}

} // verus!
