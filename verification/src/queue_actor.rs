use vstd::prelude::*;
use crate::MsgView;
use crate::ProcessingResult;
use crate::errors::Error;
use crate::server::TaskMessage;
use crate::envelope::CodecError;
use crate::envelope::encoded_msg;
use crate::envelope::encode_envelope;
use crate::envelope::decode_envelope;

verus! {

/// The view of what one `handle` call produced: no reply, a reply message,
/// or a reported failure.
pub type HandleView = Result<Option<MsgView>, Seq<char>>;

/// The view of a `handle` call's return value.
pub open spec fn handle_result_view(r: Result<Option<ProcessingResult>, Error>) -> HandleView {
    match r {
        Ok(Some(m)) => Ok(Some(m@)),
        Ok(None) => Ok(None),
        Err(e) => Err(e.msg()),
    }
}

/// The per-message business logic a queue actor dispatches to. One
/// implementation updates the task registry on the server side; the other
/// decodes submitted images on the worker side.
pub trait QueueHandler: Sized {
    /// The handler's internal invariant.
    spec fn inv(&self) -> bool;

    /// The queue this handler's actor consumes from.
    spec fn source_queue_spec(&self) -> Seq<char>;

    /// The queue the handler's replies are published to.
    spec fn target_queue_spec(&self) -> Seq<char>;

    /// How one `handle` call relates its outcome and the handler's new state
    /// to the state before the call and the delivered message.
    spec fn handle_rel(pre: Self, post: Self, id: Seq<char>, incoming: MsgView, r: HandleView) -> bool;

    fn source_queue_name(&self) -> (r: String)
        ensures
            r@ == self.source_queue_spec(),
    ;

    fn target_queue_name(&self) -> (r: String)
        ensures
            r@ == self.target_queue_spec(),
    ;

    /// Process one delivered message, already tagged with its correlation id.
    fn handle(&mut self, id: &String, incoming: ProcessingResult) -> (r: Result<
        Option<ProcessingResult>,
        Error,
    >)
        requires
            old(self).inv(),
        ensures
            final(self).inv(),
            Self::handle_rel(*old(self), *final(self), id@, incoming@, handle_result_view(r)),
    ;
}

/// Why a delivery was acknowledged but then dropped without a reply.
#[derive(Clone, Debug, PartialEq)]
pub enum DropReason {
    /// The delivery carried no correlation id: there is no address to reply to.
    MissingCorrelationId,
    /// The body is not of the wire format: a protocol mismatch.
    MalformedPayload(CodecError),
    /// The handler reported a failure; the message is dropped, not retried.
    HandlerFailure(Error),
}

/// What the actor does with one delivery, after acknowledging it.
#[derive(Clone, Debug, PartialEq)]
pub enum DeliveryAction {
    /// Nothing further: the message was dropped for the stated reason.
    Dropped(DropReason),
    /// The handler consumed the message and owes no reply.
    NoReply,
    /// Publish this body to the target queue under this correlation id.
    Publish(String, Vec<u8>),
}

/// How a handler outcome, for the delivery tagged `id`, maps to the actor's
/// action.
pub open spec fn action_for(id: Seq<char>, hr: HandleView, action: DeliveryAction) -> bool {
    match hr {
        Err(e) => action matches DeliveryAction::Dropped(reason) && reason matches
            DropReason::HandlerFailure(err) && err.msg() == e,
        Ok(None) => action == DeliveryAction::NoReply,
        Ok(Some(reply)) => action matches DeliveryAction::Publish(pid, body) && pid@ == id
            && body@ == encoded_msg(reply),
    }
}

/// The consume-dispatch-publish bridge between a broker queue pair and a
/// handler. The broker connection itself lives outside; the actor owns the
/// decisions: which deliveries are dropped, what the handler is given, and
/// what is published back under which correlation id.
pub struct QueueActor<H: QueueHandler> {
    pub handler: H,
}

impl<H: QueueHandler> QueueActor<H> {
    pub open spec fn inv(self) -> bool {
        self.handler.inv()
    }

    pub fn new(handler: H) -> (r: Self)
        ensures
            r.handler == handler,
    {
        QueueActor { handler }
    }

    /// Decide one delivery, already acknowledged to the broker. A delivery
    /// without a correlation id is dropped; a body outside the wire format is
    /// dropped as a protocol mismatch; otherwise the handler runs and its
    /// reply, if any, is addressed to the target queue under the same id.
    pub fn process_delivery(&mut self, corr_id: Option<String>, body: &Vec<u8>) -> (r:
        DeliveryAction)
        requires
            old(self).inv(),
        ensures
            final(self).inv(),
            corr_id is None ==> r == DeliveryAction::Dropped(DropReason::MissingCorrelationId)
                && *final(self) == *old(self),
            corr_id matches Some(id) && (forall|m: MsgView| body@ != encoded_msg(m)) ==> (
            r matches DeliveryAction::Dropped(reason) && reason is MalformedPayload && *final(self)
                == *old(self)),
            corr_id matches Some(id) ==> forall|m: MsgView|
                body@ == encoded_msg(m) ==> exists|hr: HandleView|
                    H::handle_rel(old(self).handler, final(self).handler, id@, m, hr)
                        && action_for(id@, hr, r),
    {
        let id = match corr_id {
            None => {
                return DeliveryAction::Dropped(DropReason::MissingCorrelationId);
            },
            Some(id) => id,
        };
        let incoming = match decode_envelope(body) {
            Err(e) => {
                return DeliveryAction::Dropped(DropReason::MalformedPayload(e));
            },
            Ok(m) => m,
        };
        let ghost in_view = incoming@;
        let ghost pre_h = self.handler;
        match self.handler.handle(&id, incoming) {
            Err(e) => {
                let ghost hr: HandleView = Err(e.msg());
                let action = DeliveryAction::Dropped(DropReason::HandlerFailure(e));
                proof {
                    lemma_action_witness::<H>(pre_h, self.handler, id@, in_view, hr, body@, action);
                }
                action
            },
            Ok(None) => {
                let action = DeliveryAction::NoReply;
                proof {
                    let hr: HandleView = Ok(None);
                    lemma_action_witness::<H>(pre_h, self.handler, id@, in_view, hr, body@, action);
                }
                action
            },
            Ok(Some(reply)) => {
                let ghost hr: HandleView = Ok(Some(reply@));
                let out = encode_envelope(&reply);
                let action = DeliveryAction::Publish(id, out);
                proof {
                    lemma_action_witness::<H>(pre_h, self.handler, id@, in_view, hr, body@, action);
                }
                action
            },
        }
    }

    /// Inject a fresh submission: mint a correlation id, and hand back the
    /// id together with the encoded in-progress request to publish on the
    /// target queue. The caller then registers the id as a pending task.
    pub fn direct_send(&self, msg: TaskMessage) -> (r: (String, Vec<u8>))
        ensures
            r.1@ == encoded_msg(MsgView::InProgress(Some(msg.0@))),
            r.0@.len() == 36,
    {
        let id = mint_correlation_id();
        let payload = encode_envelope(&ProcessingResult::InProgress(Some(msg.0)));
        (id, payload)
    }
}

/// The handler outcome seen at one `handle` call site is a witness for the
/// actor's postcondition, whatever message the body decodes to.
proof fn lemma_action_witness<H: QueueHandler>(
    pre_h: H,
    post_h: H,
    id: Seq<char>,
    in_view: MsgView,
    hr: HandleView,
    body: Seq<u8>,
    action: DeliveryAction,
)
    requires
        H::handle_rel(pre_h, post_h, id, in_view, hr),
        action_for(id, hr, action),
        body == encoded_msg(in_view),
        forall|m2: MsgView| body == encoded_msg(m2) ==> m2 =~= in_view,
    ensures
        forall|m: MsgView|
            body == encoded_msg(m) ==> exists|hr2: HandleView|
                H::handle_rel(pre_h, post_h, id, m, hr2) && action_for(id, hr2, action),
{
    assert forall|m: MsgView| body == encoded_msg(m) implies exists|hr2: HandleView|
        H::handle_rel(pre_h, post_h, id, m, hr2) && action_for(id, hr2, action) by {
        assert(m =~= in_view);
        assert(H::handle_rel(pre_h, post_h, id, m, hr) && action_for(id, hr, action));
    }
}

/// Relies on `uuid::Uuid::new_v4` and its hyphenated rendering: a freshly
/// drawn random identifier, printed as 36 characters. Nothing more is
/// assumed of it; uniqueness is enforced where ids are registered.
#[verifier::external_body]
fn mint_correlation_id() -> (r: String)
    ensures
        r@.len() == 36,
{
    uuid::Uuid::new_v4().to_string()
}

} // verus!
