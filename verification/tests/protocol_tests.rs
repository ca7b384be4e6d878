use noise_bridge::conn::{send_message, step, Action, Event, ExtCall, Service, Worker};
use noise_bridge::json::JsonVal;
use noise_bridge::mailbox::{FetchOutcome, NextOutcome};

fn text(s: &str) -> JsonVal {
    JsonVal::Text(s.to_string())
}

fn open_docs(svc: &mut Service, id: u64) -> Worker {
    let w = Worker::new(id);
    send_message(svc, id, 0, vec!["docs".to_string()], true).unwrap();
    let (w, a) = step(w, svc, Event::Doorbell);
    match a {
        // first attachment: the driver is asked to open, then reports back
        Action::Call(ExtCall::Open(name, create)) => {
            assert_eq!(name, "docs".to_string());
            assert!(create);
            let (w, a) = step(w, svc, Event::Opened(Ok(())));
            assert_eq!(a, Action::Ack);
            w
        }
        // someone already holds the instance: joined without an open
        Action::Ack => w,
        other => panic!("unexpected action on open: {:?}", other),
    }
}

#[test]
fn full_session_open_add_query_close_drop() {
    let mut svc = Service::new();

    // open resource "docs" with create: expect an ok(true) response
    let w = open_docs(&mut svc, 7);
    assert_eq!(svc.mailbox.fetch_response(7), FetchOutcome::Value(JsonVal::True));

    // add two documents: expect an array of the two generated ids
    send_message(
        &mut svc,
        7,
        2,
        vec!["{\"t\":\"a\"}".to_string(), "{\"t\":\"b\"}".to_string()],
        false,
    )
    .unwrap();
    let (w, a) = step(w, &mut svc, Event::Doorbell);
    match a {
        Action::Call(ExtCall::Add(items)) => assert_eq!(items.len(), 2),
        other => panic!("unexpected action on add: {:?}", other),
    }
    let (w, a) = step(
        w,
        &mut svc,
        Event::AddDone(vec![Ok("id-a".to_string()), Ok("id-b".to_string())], Ok(())),
    );
    assert_eq!(a, Action::Ack);
    assert_eq!(
        svc.mailbox.fetch_response(7),
        FetchOutcome::Value(JsonVal::Array(vec![text("id-a"), text("id-b")]))
    );

    // query: both ids come back, stored reversed for cursor delivery
    send_message(&mut svc, 7, 4, vec!["find {}".to_string()], false).unwrap();
    let (w, a) = step(w, &mut svc, Event::Doorbell);
    assert_eq!(
        a,
        Action::Call(ExtCall::Query("find {}".to_string(), None))
    );
    let (w, a) = step(
        w,
        &mut svc,
        Event::QueryDone(Ok(vec![text("id-a"), text("id-b")])),
    );
    assert_eq!(a, Action::Ack);
    assert_eq!(svc.mailbox.query_next(7), NextOutcome::Item(text("id-a")));
    assert_eq!(svc.mailbox.query_next(7), NextOutcome::Item(text("id-b")));
    assert_eq!(svc.mailbox.query_next(7), NextOutcome::Done);

    // close: the only attachment is gone, the instance must be closed
    send_message(&mut svc, 7, 5, Vec::new(), false).unwrap();
    let (w, a) = step(w, &mut svc, Event::Doorbell);
    assert!(w.is_closed());
    assert_eq!(a, Action::CloseInstance("docs".to_string()));
    assert_eq!(svc.registry.attachment_count(&"docs".to_string()), 0);

    // a later connection may now drop the resource
    let w2 = Worker::new(8);
    send_message(&mut svc, 8, 1, vec!["docs".to_string()], false).unwrap();
    let (w2, a) = step(w2, &mut svc, Event::Doorbell);
    assert_eq!(a, Action::Call(ExtCall::Drop("docs".to_string())));
    let (w2, a) = step(w2, &mut svc, Event::Dropped(Ok(())));
    assert_eq!(a, Action::Ack);
    assert_eq!(svc.mailbox.fetch_response(8), FetchOutcome::Value(JsonVal::True));
    let (w2, a) = step(w2, &mut svc, Event::Eof);
    assert!(w2.is_closed());
    assert_eq!(a, Action::Wait);
}

#[test]
fn drop_is_refused_while_attachments_remain() {
    let mut svc = Service::new();
    let _w = open_docs(&mut svc, 1);
    assert_eq!(svc.mailbox.fetch_response(1), FetchOutcome::Value(JsonVal::True));

    // a second connection asks to drop the resource: refused as busy
    let w2 = Worker::new(2);
    send_message(&mut svc, 2, 1, vec!["docs".to_string()], false).unwrap();
    let (w2, a) = step(w2, &mut svc, Event::Doorbell);
    assert_eq!(a, Action::Ack);
    assert_eq!(
        svc.mailbox.fetch_response(2),
        FetchOutcome::Failure("Index instances still open".to_string())
    );
    let (w2, a) = step(w2, &mut svc, Event::Eof);
    assert!(w2.is_closed());
    assert_eq!(a, Action::Wait);
    // the resource itself is untouched
    assert!(svc.registry.is_attached(&"docs".to_string()));
}

#[test]
fn shared_instance_survives_first_close() {
    let mut svc = Service::new();

    // two connections attach to the same name; one underlying open
    let w1 = open_docs(&mut svc, 1);
    assert_eq!(svc.mailbox.fetch_response(1), FetchOutcome::Value(JsonVal::True));
    let w2 = open_docs(&mut svc, 2);
    assert_eq!(svc.mailbox.fetch_response(2), FetchOutcome::Value(JsonVal::True));
    assert_eq!(svc.registry.attachment_count(&"docs".to_string()), 2);

    // the first connection closes: the shared instance must stay open
    send_message(&mut svc, 1, 5, Vec::new(), false).unwrap();
    let (w1, a) = step(w1, &mut svc, Event::Doorbell);
    assert!(w1.is_closed());
    assert_eq!(a, Action::Wait);
    assert_eq!(svc.registry.attachment_count(&"docs".to_string()), 1);

    // a query on the second connection still succeeds
    send_message(&mut svc, 2, 4, vec!["find {}".to_string()], false).unwrap();
    let (w2, a) = step(w2, &mut svc, Event::Doorbell);
    assert_eq!(
        a,
        Action::Call(ExtCall::Query("find {}".to_string(), None))
    );
    let (w2, a) = step(w2, &mut svc, Event::QueryDone(Ok(vec![text("id-a")])));
    assert_eq!(a, Action::Ack);
    assert_eq!(svc.mailbox.query_next(2), NextOutcome::Item(text("id-a")));
    assert_eq!(svc.mailbox.query_next(2), NextOutcome::Done);

    // only the second close drops the last attachment and closes
    send_message(&mut svc, 2, 5, Vec::new(), false).unwrap();
    let (w2, a) = step(w2, &mut svc, Event::Doorbell);
    assert!(w2.is_closed());
    assert_eq!(a, Action::CloseInstance("docs".to_string()));
}

#[test]
fn eof_releases_the_guard() {
    let mut svc = Service::new();
    let w = open_docs(&mut svc, 3);
    assert_eq!(svc.mailbox.fetch_response(3), FetchOutcome::Value(JsonVal::True));
    let (w, a) = step(w, &mut svc, Event::Eof);
    assert!(w.is_closed());
    assert_eq!(a, Action::CloseInstance("docs".to_string()));
    assert!(!svc.mailbox.contains(3));
}

#[test]
fn failed_open_reports_its_error_then_drains() {
    let mut svc = Service::new();
    let w = Worker::new(4);
    send_message(&mut svc, 4, 0, vec!["docs".to_string()], false).unwrap();
    let (w, a) = step(w, &mut svc, Event::Doorbell);
    assert_eq!(a, Action::Call(ExtCall::Open("docs".to_string(), false)));
    let (w, a) = step(w, &mut svc, Event::Opened(Err("no such index".to_string())));
    // the error is staged before the ack, so the caller can fetch it
    assert_eq!(a, Action::Ack);
    assert!(!w.is_closed());
    assert_eq!(
        svc.mailbox.fetch_response(4),
        FetchOutcome::Failure("no such index".to_string())
    );
    assert!(!svc.registry.is_attached(&"docs".to_string()));
    // nothing more is accepted; the slot goes with the socket
    let (w, a) = step(w, &mut svc, Event::Eof);
    assert!(w.is_closed());
    assert_eq!(a, Action::Wait);
    assert!(!svc.mailbox.contains(4));
}

#[test]
fn flush_failure_escalates_the_add_response() {
    let mut svc = Service::new();
    let w = open_docs(&mut svc, 5);
    assert_eq!(svc.mailbox.fetch_response(5), FetchOutcome::Value(JsonVal::True));
    send_message(&mut svc, 5, 2, vec!["{}".to_string()], false).unwrap();
    let (w, _a) = step(w, &mut svc, Event::Doorbell);
    let (w, a) = step(
        w,
        &mut svc,
        Event::AddDone(vec![Ok("id-a".to_string())], Err("flush failed".to_string())),
    );
    assert_eq!(a, Action::Ack);
    assert_eq!(
        svc.mailbox.fetch_response(5),
        FetchOutcome::Failure("flush failed".to_string())
    );
    let (w, _a) = step(w, &mut svc, Event::Eof);
    assert!(w.is_closed());
}

#[test]
fn out_of_order_request_is_fatal_to_the_connection() {
    let mut svc = Service::new();
    // an add before any open is a protocol violation
    let w = Worker::new(6);
    send_message(&mut svc, 6, 2, vec!["{}".to_string()], false).unwrap();
    let (w, a) = step(w, &mut svc, Event::Doorbell);
    assert!(w.is_closed());
    assert_eq!(a, Action::Wait);
    assert!(!svc.mailbox.contains(6));
}

#[test]
fn no_request_is_accepted_after_a_drop() {
    let mut svc = Service::new();
    let w = Worker::new(9);
    send_message(&mut svc, 9, 1, vec!["docs".to_string()], false).unwrap();
    let (w, a) = step(w, &mut svc, Event::Doorbell);
    assert_eq!(a, Action::Call(ExtCall::Drop("docs".to_string())));
    let (w, a) = step(w, &mut svc, Event::Dropped(Err("no such index".to_string())));
    assert_eq!(a, Action::Ack);
    assert_eq!(
        svc.mailbox.fetch_response(9),
        FetchOutcome::Failure("no such index".to_string())
    );
    // a further doorbell after the drop response ends the connection
    send_message(&mut svc, 9, 4, vec!["find {}".to_string()], false).unwrap();
    let (w, a) = step(w, &mut svc, Event::Doorbell);
    assert!(w.is_closed());
    assert_eq!(a, Action::Wait);
    assert!(!svc.mailbox.contains(9));
}

#[test]
fn unknown_message_type_stages_nothing() {
    let mut svc = Service::new();
    let r = send_message(&mut svc, 6, 9, Vec::new(), false);
    assert_eq!(r, Err("unknown message type".to_string()));
    assert!(!svc.mailbox.contains(6));
}
