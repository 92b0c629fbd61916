use unwrap_qr::ProcessingResult;
use unwrap_qr::consumer_tag_for;
use unwrap_qr::envelope::decode_envelope;
use unwrap_qr::envelope::encode_envelope;
use unwrap_qr::queue_actor::DeliveryAction;
use unwrap_qr::queue_actor::DropReason;
use unwrap_qr::queue_actor::QueueActor;
use unwrap_qr::queue_actor::QueueHandler;
use unwrap_qr::server::ServerHandler;
use unwrap_qr::server::TaskMessage;
use unwrap_qr::status::Status;
use unwrap_qr::worker::WorkerHandler;
use unwrap_qr::worker::worker_reply;

#[test]
fn queue_names_and_consumer_tags() {
    let server = ServerHandler::new();
    assert_eq!(server.source_queue_name(), "responses");
    assert_eq!(server.target_queue_name(), "requests");
    let mut worker = WorkerHandler;
    assert_eq!(worker.source_queue_name(), "requests");
    assert_eq!(worker.target_queue_name(), "responses");
    assert_eq!(consumer_tag_for(&worker.source_queue_name()), "requests-consumer");
    // The worker answers a raw request with a terminal reply.
    let reply = worker
        .handle(
            &"id-1".to_string(),
            ProcessingResult::InProgress(Some(vec![9, 9, 9])),
        )
        .expect("worker handle never fails");
    match reply {
        Some(ProcessingResult::Failure(reason)) => assert!(!reason.is_empty()),
        other => panic!("expected a failure reply for garbage bytes, got {:?}", other),
    }
}

#[test]
fn delivery_without_correlation_id_is_dropped() {
    let mut actor = QueueActor::new(WorkerHandler);
    let body = encode_envelope(&ProcessingResult::InProgress(Some(vec![1, 2, 3])));
    let action = actor.process_delivery(None, &body);
    assert_eq!(
        action,
        DeliveryAction::Dropped(DropReason::MissingCorrelationId)
    );
}

#[test]
fn malformed_body_is_dropped_as_protocol_mismatch() {
    let mut actor = QueueActor::new(ServerHandler::new());
    let action = actor.process_delivery(Some("id-1".to_string()), &vec![42, 1, 2]);
    match action {
        DeliveryAction::Dropped(DropReason::MalformedPayload(_)) => {},
        other => panic!("expected a protocol mismatch drop, got {:?}", other),
    }
}

#[test]
fn worker_actor_replies_under_the_same_id() {
    let mut actor = QueueActor::new(WorkerHandler);
    let body = encode_envelope(&ProcessingResult::InProgress(Some(vec![1, 2, 3])));
    let action = actor.process_delivery(Some("id-7".to_string()), &body);
    match action {
        DeliveryAction::Publish(id, reply_body) => {
            assert_eq!(id, "id-7");
            match decode_envelope(&reply_body) {
                Ok(ProcessingResult::Failure(reason)) => assert!(!reason.is_empty()),
                other => panic!("expected a failure reply, got {:?}", other),
            }
        },
        other => panic!("expected a published reply, got {:?}", other),
    }
}

#[test]
fn worker_actor_ignores_non_request_payloads() {
    let mut actor = QueueActor::new(WorkerHandler);
    let body = encode_envelope(&ProcessingResult::Success("already done".to_string()));
    let action = actor.process_delivery(Some("id-7".to_string()), &body);
    assert_eq!(action, DeliveryAction::NoReply);
}

#[test]
fn round_trip_reply_reaches_success() {
    // A submission under id X whose bytes decode to "hello": the worker's
    // reply, routed back through the server handler, lands X at Success.
    let mut actor = QueueActor::new(ServerHandler::new());
    actor
        .handler
        .registry
        .insert("X".to_string(), 1)
        .expect("fresh id");
    let reply = worker_reply(Ok("hello".to_string()));
    let body = encode_envelope(&reply);
    let action = actor.process_delivery(Some("X".to_string()), &body);
    assert_eq!(action, DeliveryAction::NoReply);
    let snap = actor.handler.registry.snapshot();
    assert_eq!(snap.len(), 1);
    assert_eq!(snap[0].status, Status::Success("hello".to_string()));
}

#[test]
fn corrupted_submission_reaches_failure_never_success() {
    // Garbage bytes submitted as id Y: run the worker for real, route its
    // reply through the server handler, and Y ends in a non-empty Failure.
    let mut worker_actor = QueueActor::new(WorkerHandler);
    let submitted = encode_envelope(&ProcessingResult::InProgress(Some(vec![255, 0, 255])));
    let reply_action = worker_actor.process_delivery(Some("Y".to_string()), &submitted);
    let (id, reply_body) = match reply_action {
        DeliveryAction::Publish(id, body) => (id, body),
        other => panic!("expected a published reply, got {:?}", other),
    };
    let mut server_actor = QueueActor::new(ServerHandler::new());
    server_actor
        .handler
        .registry
        .insert("Y".to_string(), 1)
        .expect("fresh id");
    assert_eq!(
        server_actor.process_delivery(Some(id), &reply_body),
        DeliveryAction::NoReply
    );
    let snap = server_actor.handler.registry.snapshot();
    match &snap[0].status {
        Status::Failure(reason) => assert!(!reason.is_empty()),
        other => panic!("expected failure, got {:?}", other),
    }
}

#[test]
fn unknown_reply_id_does_not_halt_the_actor() {
    let mut actor = QueueActor::new(ServerHandler::new());
    actor
        .handler
        .registry
        .insert("known".to_string(), 1)
        .expect("fresh id");
    let stray = encode_envelope(&ProcessingResult::Success("stray".to_string()));
    assert_eq!(
        actor.process_delivery(Some("ghost".to_string()), &stray),
        DeliveryAction::NoReply
    );
    assert_eq!(actor.handler.registry.snapshot()[0].status, Status::Pending);
    // The next message is still processed.
    let good = encode_envelope(&ProcessingResult::Success("done".to_string()));
    assert_eq!(
        actor.process_delivery(Some("known".to_string()), &good),
        DeliveryAction::NoReply
    );
    assert_eq!(
        actor.handler.registry.snapshot()[0].status,
        Status::Success("done".to_string())
    );
}

#[test]
fn listing_keeps_submission_order_across_reply_orders() {
    let mut actor = QueueActor::new(ServerHandler::new());
    for (id, ts) in [("A", 1), ("B", 2), ("C", 3)] {
        actor
            .handler
            .registry
            .insert(id.to_string(), ts)
            .expect("fresh id");
    }
    for id in ["C", "A", "B"] {
        let reply = encode_envelope(&ProcessingResult::Success(id.to_lowercase()));
        assert_eq!(
            actor.process_delivery(Some(id.to_string()), &reply),
            DeliveryAction::NoReply
        );
    }
    let snap = actor.handler.registry.snapshot();
    let ids: Vec<String> = snap.iter().map(|r| r.task_id.clone()).collect();
    assert_eq!(ids, vec!["A".to_string(), "B".to_string(), "C".to_string()]);
}

#[test]
fn direct_send_mints_an_id_and_frames_the_upload() {
    let actor = QueueActor::new(ServerHandler::new());
    let (id, payload) = actor.direct_send(TaskMessage(vec![4, 5, 6]));
    assert_eq!(id.len(), 36);
    assert_eq!(
        decode_envelope(&payload),
        Ok(ProcessingResult::InProgress(Some(vec![4, 5, 6])))
    );
    let (id2, _) = actor.direct_send(TaskMessage(vec![4, 5, 6]));
    assert_ne!(id, id2);
}

#[test]
fn describe_renders_each_status() {
    assert_eq!(
        ProcessingResult::Success("hello".to_string()).describe(),
        "Done: hello"
    );
    assert_eq!(
        ProcessingResult::Failure("no code found".to_string()).describe(),
        "Error: no code found"
    );
    assert_eq!(
        ProcessingResult::InProgress(None).describe(),
        "In progress..."
    );
}
