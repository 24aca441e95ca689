use notification_worker::command::{Channel, Command};
use notification_worker::message::{NotificationKind, NotificationRequest};
use notification_worker::router::{
    deliver_code, deliver_message, dispatch, plan_dispatch, route,
};
use notification_worker::otp::issue_otp;
use notification_worker::store::StoreWrite;

fn request(kind: NotificationKind, destinations: &[&str]) -> NotificationRequest {
    NotificationRequest {
        user_id: 7,
        email: Some("x@y.com".to_string()),
        phone_number: Some("+1555".to_string()),
        destinations: destinations.iter().map(|d| d.to_string()).collect(),
        kind,
        message: Some("Booking confirmed".to_string()),
    }
}

fn send(channel: Channel, to: &str, content: &str) -> Command {
    Command::Send { channel, to: to.to_string(), content: content.to_string() }
}

fn unknown(name: &str) -> Command {
    Command::ReportUnknownDestination { name: name.to_string() }
}

#[test]
fn channel_names_are_matched_exactly() {
    assert_eq!(Channel::from_name("email"), Channel::Email);
    assert_eq!(Channel::from_name("whatsapp"), Channel::WhatsApp);
    assert_eq!(Channel::from_name("sms"), Channel::Unknown);
    assert_eq!(Channel::from_name(""), Channel::Unknown);
    assert_eq!(Channel::from_name("Email"), Channel::Unknown);
    assert_eq!(Channel::from_name("EMAIL"), Channel::Unknown);
    assert_eq!(Channel::from_name(" email"), Channel::Unknown);
    assert_eq!(Channel::from_name("email "), Channel::Unknown);
    assert_eq!(Channel::from_name("emai"), Channel::Unknown);
    assert_eq!(Channel::from_name("emails"), Channel::Unknown);
    assert_eq!(Channel::from_name("WhatsApp"), Channel::Unknown);
    assert_eq!(Channel::from_name("whatsap"), Channel::Unknown);
}

#[test]
fn route_follows_the_order_of_the_destinations() {
    let forward = request(NotificationKind::Alert, &["email", "whatsapp"]);
    assert_eq!(
        route(&forward, "hi"),
        vec![send(Channel::Email, "x@y.com", "hi"), send(Channel::WhatsApp, "+1555", "hi")]
    );
    let backward = request(NotificationKind::Alert, &["whatsapp", "email"]);
    assert_eq!(
        route(&backward, "hi"),
        vec![send(Channel::WhatsApp, "+1555", "hi"), send(Channel::Email, "x@y.com", "hi")]
    );
}

#[test]
fn route_sends_twice_to_a_destination_listed_twice() {
    let r = request(NotificationKind::Alert, &["email", "email", "whatsapp", "email"]);
    assert_eq!(
        route(&r, "hi"),
        vec![
            send(Channel::Email, "x@y.com", "hi"),
            send(Channel::Email, "x@y.com", "hi"),
            send(Channel::WhatsApp, "+1555", "hi"),
            send(Channel::Email, "x@y.com", "hi"),
        ]
    );
}

#[test]
fn route_without_destinations_is_empty() {
    let r = request(NotificationKind::Alert, &[]);
    assert!(route(&r, "hi").is_empty());
}

#[test]
fn route_skips_email_without_an_address() {
    let mut r = request(NotificationKind::Alert, &["email", "whatsapp"]);
    r.email = None;
    assert_eq!(route(&r, "hi"), vec![send(Channel::WhatsApp, "+1555", "hi")]);
}

#[test]
fn route_skips_whatsapp_without_a_phone_number() {
    let mut r = request(NotificationKind::Alert, &["email", "whatsapp"]);
    r.phone_number = None;
    assert_eq!(route(&r, "hi"), vec![send(Channel::Email, "x@y.com", "hi")]);
}

#[test]
fn route_with_no_address_at_all_sends_nothing() {
    let mut r = request(NotificationKind::Alert, &["email", "whatsapp", "email"]);
    r.email = None;
    r.phone_number = None;
    assert!(route(&r, "hi").is_empty());
}

#[test]
fn route_reports_unknown_destinations_and_sends_nothing_for_them() {
    let r = request(NotificationKind::Alert, &["sms", "pigeon", "Email"]);
    assert_eq!(route(&r, "hi"), vec![unknown("sms"), unknown("pigeon"), unknown("Email")]);
}

#[test]
fn route_mixes_sends_and_reports_in_order() {
    let r = request(NotificationKind::Alert, &["sms", "email", "fax", "whatsapp"]);
    assert_eq!(
        route(&r, "hi"),
        vec![
            unknown("sms"),
            send(Channel::Email, "x@y.com", "hi"),
            unknown("fax"),
            send(Channel::WhatsApp, "+1555", "hi"),
        ]
    );
}

#[test]
fn route_never_sends_on_the_unknown_channel() {
    let r = request(NotificationKind::Alert, &["sms", "email", "", "whatsapp", "push"]);
    for command in route(&r, "hi") {
        if let Command::Send { channel, .. } = command {
            assert_ne!(channel, Channel::Unknown);
        }
    }
}

#[test]
fn route_carries_the_content_unchanged() {
    let r = request(NotificationKind::Marketing, &["email"]);
    let content = "  50% off — ＄ naïve \n ";
    assert_eq!(route(&r, content), vec![send(Channel::Email, "x@y.com", content)]);
    assert_eq!(route(&r, ""), vec![send(Channel::Email, "x@y.com", "")]);
}

#[test]
fn alert_with_a_message_sends_the_message() {
    let r = request(NotificationKind::Alert, &["email", "whatsapp"]);
    let expected = vec![
        send(Channel::Email, "x@y.com", "Booking confirmed"),
        send(Channel::WhatsApp, "+1555", "Booking confirmed"),
    ];
    assert_eq!(plan_dispatch(&r, 0), expected);
    assert_eq!(plan_dispatch(&r, 123_456), expected);
    assert_eq!(dispatch(&r), expected);
    assert_eq!(deliver_message(&r), expected);
}

#[test]
fn marketing_with_a_message_sends_the_message() {
    let r = request(NotificationKind::Marketing, &["whatsapp"]);
    let expected = vec![send(Channel::WhatsApp, "+1555", "Booking confirmed")];
    assert_eq!(plan_dispatch(&r, 99), expected);
    assert_eq!(dispatch(&r), expected);
}

#[test]
fn alert_without_a_message_does_nothing() {
    let mut r = request(NotificationKind::Alert, &["email", "whatsapp", "sms"]);
    r.message = None;
    assert!(plan_dispatch(&r, 5).is_empty());
    assert!(dispatch(&r).is_empty());
    assert!(deliver_message(&r).is_empty());
}

#[test]
fn marketing_without_a_message_does_nothing() {
    let mut r = request(NotificationKind::Marketing, &["email", "whatsapp", "sms"]);
    r.message = None;
    assert!(plan_dispatch(&r, 5).is_empty());
    assert!(dispatch(&r).is_empty());
}

#[test]
fn otp_stores_the_code_and_then_sends_it() {
    let r = request(NotificationKind::Otp, &["email", "whatsapp"]);
    assert_eq!(
        plan_dispatch(&r, 3_000_042),
        vec![
            Command::Store(StoreWrite {
                key: "otp:7".to_string(),
                value: b"000042".to_vec(),
                expiry_seconds: Some(300),
            }),
            send(Channel::Email, "x@y.com", "000042"),
            send(Channel::WhatsApp, "+1555", "000042"),
        ]
    );
}

#[test]
fn otp_ignores_the_message_of_the_request() {
    let with = request(NotificationKind::Otp, &["email"]);
    let mut without = request(NotificationKind::Otp, &["email"]);
    without.message = None;
    assert_eq!(plan_dispatch(&with, 11), plan_dispatch(&without, 11));
    assert_eq!(
        plan_dispatch(&with, 11)[1],
        send(Channel::Email, "x@y.com", "000011")
    );
}

#[test]
fn otp_without_destinations_still_stores_the_code() {
    let r = request(NotificationKind::Otp, &[]);
    assert_eq!(
        plan_dispatch(&r, 654_321),
        vec![Command::Store(StoreWrite {
            key: "otp:7".to_string(),
            value: b"654321".to_vec(),
            expiry_seconds: Some(300),
        })]
    );
}

#[test]
fn otp_with_only_unknown_destinations_stores_and_reports() {
    let r = request(NotificationKind::Otp, &["sms"]);
    let plan = plan_dispatch(&r, 1);
    assert_eq!(plan.len(), 2);
    assert!(matches!(plan[0], Command::Store(_)));
    assert_eq!(plan[1], unknown("sms"));
}

#[test]
fn deliver_code_uses_the_code_of_the_record() {
    let r = request(NotificationKind::Otp, &["whatsapp"]);
    let record = issue_otp(7, 808);
    assert_eq!(
        deliver_code(&r, &record),
        vec![
            Command::Store(StoreWrite {
                key: "otp:7".to_string(),
                value: b"000808".to_vec(),
                expiry_seconds: Some(300),
            }),
            send(Channel::WhatsApp, "+1555", "000808"),
        ]
    );
}

#[test]
fn dispatch_of_an_otp_request_sends_the_code_it_stores() {
    let r = request(NotificationKind::Otp, &["email", "sms", "whatsapp"]);
    let mut i = 0;
    while i < 200 {
        let plan = dispatch(&r);
        assert_eq!(plan.len(), 4);
        let code = match &plan[0] {
            Command::Store(write) => {
                assert_eq!(write.key, "otp:7");
                assert_eq!(write.expiry_seconds, Some(300));
                assert_eq!(write.value.len(), 6);
                assert!(write.value.iter().all(|b| b.is_ascii_digit()));
                String::from_utf8(write.value.clone()).unwrap()
            }
            other => panic!("expected a store write, got {:?}", other),
        };
        assert_eq!(plan[1], send(Channel::Email, "x@y.com", &code));
        assert_eq!(plan[2], unknown("sms"));
        assert_eq!(plan[3], send(Channel::WhatsApp, "+1555", &code));
        i += 1;
    }
}
