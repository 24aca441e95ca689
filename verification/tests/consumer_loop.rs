use notification_worker::command::{Channel, Command};
use notification_worker::consumer::{Event, Worker};
use notification_worker::message::{NotificationKind, NotificationRequest};
use notification_worker::store::StoreWrite;

/// Drives a worker through one delivery as an obedient driver does, with the
/// decoding done by the caller, and returns the commands in order.
fn drive(
    worker: Worker,
    delivery_tag: u64,
    body: &[u8],
    decoded: Option<NotificationRequest>,
    draw: Option<u32>,
) -> (Worker, Vec<Command>) {
    let mut issued = Vec::new();
    let mut decoded = Some(decoded);
    let (mut worker, mut command) =
        worker.step(Event::Delivered { delivery_tag, body: body.to_vec() });
    loop {
        let current = command.expect("the driver's events always fit the state");
        issued.push(current.clone());
        let event = match current {
            Command::AwaitDelivery => return (worker, issued),
            Command::Decode { body: asked } => {
                assert_eq!(asked, body);
                Event::Decoded { request: decoded.take().expect("decoded once") }
            }
            _ => Event::Completed,
        };
        let next = match draw {
            Some(draw) => worker.step_with_draw(event, draw),
            None => worker.step(event),
        };
        worker = next.0;
        command = next.1;
    }
}

/// Reads a payload as the JSON object that producers put on the queue; `None`
/// where it is none. What is no member of the object, or `null`, is absent.
fn read_request(body: &[u8]) -> Option<NotificationRequest> {
    let value: serde_json::Value = serde_json::from_slice(body).ok()?;
    let object = value.as_object()?;
    let optional_text = |name: &str| -> Option<Option<String>> {
        match object.get(name) {
            None | Some(serde_json::Value::Null) => Some(None),
            Some(serde_json::Value::String(text)) => Some(Some(text.clone())),
            Some(_) => None,
        }
    };
    let kind = match object.get("kind")?.as_str()? {
        "otp" => NotificationKind::Otp,
        "alert" => NotificationKind::Alert,
        "marketing" => NotificationKind::Marketing,
        _ => return None,
    };
    let mut destinations = Vec::new();
    for destination in object.get("destinations")?.as_array()? {
        destinations.push(destination.as_str()?.to_string());
    }
    Some(NotificationRequest {
        user_id: i32::try_from(object.get("user_id")?.as_i64()?).ok()?,
        email: optional_text("email")?,
        phone_number: optional_text("phone_number")?,
        destinations,
        kind,
        message: optional_text("message")?,
    })
}

fn archive(delivery_tag: u64, body: &[u8]) -> Command {
    Command::Store(StoreWrite {
        key: format!("notification:{}", delivery_tag),
        value: body.to_vec(),
        expiry_seconds: None,
    })
}

fn decode(body: &[u8]) -> Command {
    Command::Decode { body: body.to_vec() }
}

fn send(channel: Channel, to: &str, content: &str) -> Command {
    Command::Send { channel, to: to.to_string(), content: content.to_string() }
}

fn count_acknowledgements(commands: &[Command]) -> usize {
    commands.iter().filter(|c| matches!(c, Command::Acknowledge { .. })).count()
}

fn count_sends(commands: &[Command]) -> usize {
    commands.iter().filter(|c| matches!(c, Command::Send { .. })).count()
}

#[test]
fn a_new_worker_is_idle() {
    assert_eq!(Worker::new(), Worker::Idle);
}

#[test]
fn otp_request_stores_a_code_and_emails_it() {
    let body = br#"{"user_id":42,"kind":"otp","destinations":["email"],"email":"a@b.com"}"#;
    let request = NotificationRequest {
        user_id: 42,
        email: Some("a@b.com".to_string()),
        phone_number: None,
        destinations: vec!["email".to_string()],
        kind: NotificationKind::Otp,
        message: None,
    };
    assert_eq!(read_request(body), Some(request));
    let (worker, commands) = drive(Worker::new(), 1, body, read_request(body), None);
    assert_eq!(worker, Worker::Idle);
    assert_eq!(commands.len(), 6);
    assert_eq!(commands[0], archive(1, body));
    assert_eq!(commands[1], decode(body));
    let code = match &commands[2] {
        Command::Store(write) => {
            assert_eq!(write.key, "otp:42");
            assert_eq!(write.expiry_seconds, Some(300));
            let code = String::from_utf8(write.value.clone()).unwrap();
            assert_eq!(code.len(), 6);
            assert!(code.chars().all(|c| c.is_ascii_digit()));
            code
        }
        other => panic!("expected the code to be stored, got {:?}", other),
    };
    assert_eq!(commands[3], send(Channel::Email, "a@b.com", &code));
    assert_eq!(commands[4], Command::Acknowledge { delivery_tag: 1 });
    assert_eq!(commands[5], Command::AwaitDelivery);
}

#[test]
fn otp_request_for_a_given_draw() {
    let body = br#"{"user_id":42,"kind":"otp","destinations":["email"],"email":"a@b.com"}"#;
    let request = NotificationRequest {
        user_id: 42,
        email: Some("a@b.com".to_string()),
        phone_number: None,
        destinations: vec!["email".to_string()],
        kind: NotificationKind::Otp,
        message: None,
    };
    assert_eq!(read_request(body), Some(request));
    let (worker, commands) = drive(Worker::new(), 1, body, read_request(body), Some(4_000_123));
    assert_eq!(worker, Worker::Idle);
    assert_eq!(
        commands,
        vec![
            archive(1, body),
            decode(body),
            Command::Store(StoreWrite {
                key: "otp:42".to_string(),
                value: b"000123".to_vec(),
                expiry_seconds: Some(300),
            }),
            send(Channel::Email, "a@b.com", "000123"),
            Command::Acknowledge { delivery_tag: 1 },
            Command::AwaitDelivery,
        ]
    );
}

#[test]
fn alert_goes_to_email_and_whatsapp_in_that_order() {
    let body = br#"{"user_id":7,"kind":"alert","message":"Booking confirmed","destinations":["email","whatsapp"],"email":"x@y.com","phone_number":"+1555"}"#;
    let request = NotificationRequest {
        user_id: 7,
        email: Some("x@y.com".to_string()),
        phone_number: Some("+1555".to_string()),
        destinations: vec!["email".to_string(), "whatsapp".to_string()],
        kind: NotificationKind::Alert,
        message: Some("Booking confirmed".to_string()),
    };
    assert_eq!(read_request(body), Some(request));
    let (worker, commands) = drive(Worker::new(), 2, body, read_request(body), None);
    assert_eq!(worker, Worker::Idle);
    assert_eq!(
        commands,
        vec![
            archive(2, body),
            decode(body),
            send(Channel::Email, "x@y.com", "Booking confirmed"),
            send(Channel::WhatsApp, "+1555", "Booking confirmed"),
            Command::Acknowledge { delivery_tag: 2 },
            Command::AwaitDelivery,
        ]
    );
}

#[test]
fn unknown_destination_is_reported_and_acknowledged() {
    let body = br#"{"user_id":7,"kind":"alert","message":"hello","destinations":["sms"],"email":"x@y.com","phone_number":"+1555"}"#;
    let request = NotificationRequest {
        user_id: 7,
        email: Some("x@y.com".to_string()),
        phone_number: Some("+1555".to_string()),
        destinations: vec!["sms".to_string()],
        kind: NotificationKind::Alert,
        message: Some("hello".to_string()),
    };
    assert_eq!(read_request(body), Some(request));
    let (worker, commands) = drive(Worker::new(), 3, body, read_request(body), None);
    assert_eq!(worker, Worker::Idle);
    assert_eq!(count_sends(&commands), 0);
    assert_eq!(
        commands,
        vec![
            archive(3, body),
            decode(body),
            Command::ReportUnknownDestination { name: "sms".to_string() },
            Command::Acknowledge { delivery_tag: 3 },
            Command::AwaitDelivery,
        ]
    );
}

#[test]
fn payload_that_is_no_json_is_archived_reported_and_acknowledged() {
    let body = b"\xff\xfe this is not json {";
    assert_eq!(read_request(body), None);
    let (worker, commands) = drive(Worker::new(), 4, body, read_request(body), None);
    assert_eq!(worker, Worker::Idle);
    assert_eq!(
        commands,
        vec![
            archive(4, body),
            decode(body),
            Command::ReportDecodeFailure { body: body.to_vec() },
            Command::Acknowledge { delivery_tag: 4 },
            Command::AwaitDelivery,
        ]
    );
}

#[test]
fn alert_without_a_message_is_archived_and_acknowledged_and_nothing_else() {
    let body = br#"{"user_id":7,"kind":"alert","destinations":["email","sms"],"email":"x@y.com"}"#;
    let request = NotificationRequest {
        user_id: 7,
        email: Some("x@y.com".to_string()),
        phone_number: None,
        destinations: vec!["email".to_string(), "sms".to_string()],
        kind: NotificationKind::Alert,
        message: None,
    };
    assert_eq!(read_request(body), Some(request));
    let (worker, commands) = drive(Worker::new(), 5, body, read_request(body), None);
    assert_eq!(worker, Worker::Idle);
    assert_eq!(
        commands,
        vec![
            archive(5, body),
            decode(body),
            Command::Acknowledge { delivery_tag: 5 },
            Command::AwaitDelivery,
        ]
    );
}

#[test]
fn every_delivery_is_acknowledged_exactly_once() {
    let kinds = [NotificationKind::Otp, NotificationKind::Alert, NotificationKind::Marketing];
    let destination_lists: [&[&str]; 5] =
        [&[], &["email"], &["sms"], &["email", "whatsapp", "email"], &["x", "whatsapp", "y"]];
    let mut tag: u64 = 100;
    for kind in kinds {
        for destinations in destination_lists {
            for message in [None, Some("m".to_string())] {
                for email in [None, Some("e@f.g".to_string())] {
                    let request = NotificationRequest {
                        user_id: 1,
                        email: email.clone(),
                        phone_number: Some("+1".to_string()),
                        destinations: destinations.iter().map(|d| d.to_string()).collect(),
                        kind,
                        message: message.clone(),
                    };
                    let (worker, commands) =
                        drive(Worker::new(), tag, b"payload", Some(request), None);
                    assert_eq!(worker, Worker::Idle);
                    assert_eq!(count_acknowledgements(&commands), 1);
                    assert_eq!(
                        commands[commands.len() - 2],
                        Command::Acknowledge { delivery_tag: tag }
                    );
                    assert_eq!(commands[0], archive(tag, b"payload"));
                    assert_eq!(commands[1], decode(b"payload"));
                    tag += 1;
                }
            }
        }
    }
    let (_, commands) = drive(Worker::new(), tag, b"", None, None);
    assert_eq!(count_acknowledgements(&commands), 1);
}

#[test]
fn one_worker_handles_deliveries_one_after_the_other() {
    let first = NotificationRequest {
        user_id: 1,
        email: Some("a@b.c".to_string()),
        phone_number: None,
        destinations: vec!["email".to_string()],
        kind: NotificationKind::Marketing,
        message: Some("one".to_string()),
    };
    let (worker, commands) = drive(Worker::new(), 1, b"first", Some(first), None);
    assert_eq!(commands[2], send(Channel::Email, "a@b.c", "one"));
    let (worker, commands) = drive(worker, 2, b"second", None, None);
    assert_eq!(commands[0], archive(2, b"second"));
    assert_eq!(commands[3], Command::Acknowledge { delivery_tag: 2 });
    assert_eq!(worker, Worker::Idle);
}

#[test]
fn the_archive_write_comes_before_the_payload_is_decoded() {
    let (worker, command) =
        Worker::new().step(Event::Delivered { delivery_tag: 9, body: b"{".to_vec() });
    assert_eq!(command, Some(archive(9, b"{")));
    assert_eq!(worker, Worker::Archiving { delivery_tag: 9, body: b"{".to_vec() });
    let (worker, command) = worker.step(Event::Completed);
    assert_eq!(command, Some(decode(b"{")));
    assert_eq!(worker, Worker::Decoding { delivery_tag: 9, body: b"{".to_vec() });
}

#[test]
fn an_event_that_does_not_fit_the_state_changes_nothing() {
    let (worker, command) = Worker::new().step(Event::Completed);
    assert_eq!((worker, command), (Worker::Idle, None));

    let (worker, command) = Worker::new().step(Event::Decoded { request: None });
    assert_eq!((worker, command), (Worker::Idle, None));

    let archiving = Worker::Archiving { delivery_tag: 1, body: vec![1, 2] };
    let (worker, command) = archiving.clone().step(Event::Decoded { request: None });
    assert_eq!((worker, command), (archiving.clone(), None));
    let (worker, command) =
        archiving.clone().step(Event::Delivered { delivery_tag: 2, body: vec![] });
    assert_eq!((worker, command), (archiving, None));

    let decoding = Worker::Decoding { delivery_tag: 1, body: vec![1, 2] };
    let (worker, command) = decoding.clone().step(Event::Completed);
    assert_eq!((worker, command), (decoding.clone(), None));
    let (worker, command) = decoding.clone().step_with_draw(Event::Completed, 77);
    assert_eq!((worker, command), (decoding, None));

    let dispatching = Worker::Dispatching {
        delivery_tag: 1,
        pending: vec![send(Channel::Email, "a", "b")],
    };
    let (worker, command) = dispatching.clone().step(Event::Decoded { request: None });
    assert_eq!((worker, command), (dispatching, None));

    let acknowledging = Worker::Acknowledging { delivery_tag: 1 };
    let (worker, command) =
        acknowledging.clone().step(Event::Delivered { delivery_tag: 2, body: vec![] });
    assert_eq!((worker, command), (acknowledging, None));
}

#[test]
fn pending_commands_are_handed_out_first_to_last() {
    let dispatching = Worker::Dispatching {
        delivery_tag: 8,
        pending: vec![send(Channel::Email, "a", "1"), send(Channel::WhatsApp, "b", "2")],
    };
    let (worker, command) = dispatching.step(Event::Completed);
    assert_eq!(command, Some(send(Channel::Email, "a", "1")));
    let (worker, command) = worker.step(Event::Completed);
    assert_eq!(command, Some(send(Channel::WhatsApp, "b", "2")));
    assert_eq!(worker, Worker::Dispatching { delivery_tag: 8, pending: vec![] });
    let (worker, command) = worker.step(Event::Completed);
    assert_eq!(command, Some(Command::Acknowledge { delivery_tag: 8 }));
    assert_eq!(worker, Worker::Acknowledging { delivery_tag: 8 });
    let (worker, command) = worker.step(Event::Completed);
    assert_eq!(command, Some(Command::AwaitDelivery));
    assert_eq!(worker, Worker::Idle);
}

#[test]
fn queue_and_consumer_names_are_those_of_the_protocol() {
    assert_eq!(notification_worker::consumer::QUEUE_NAME, "notifications");
    assert_eq!(notification_worker::consumer::CONSUMER_TAG, "worker");
}

#[test]
fn a_busy_worker_takes_no_other_delivery() {
    let busy = [
        Worker::Archiving { delivery_tag: 1, body: vec![1] },
        Worker::Decoding { delivery_tag: 1, body: vec![1] },
        Worker::Dispatching { delivery_tag: 1, pending: vec![] },
        Worker::Acknowledging { delivery_tag: 1 },
    ];
    for state in busy {
        let (after, command) =
            state.clone().step(Event::Delivered { delivery_tag: 2, body: vec![2] });
        assert_eq!(after, state);
        assert_eq!(command, None);
    }
}
