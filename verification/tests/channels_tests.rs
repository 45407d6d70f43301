use channels::author::{author_start, AuthorStart};
use channels::link::find_message_link_opt_sequence;
use channels::payload::{greeting_payloads, hello_message, hello_message_now, signed_payloads};
use channels::reception::{MessageKind, ReceiveAction, ReceiveEvent, ReceiveFailure, Reception, Stage};
use channels::seed::{generate_seed, seed_from_samples, SEED_LENGTH};

fn run(kind: MessageKind, events: &[ReceiveEvent]) -> Vec<ReceiveAction> {
    let (mut reception, first) = Reception::new(kind);
    let mut actions = vec![first];
    for event in events {
        assert!(reception.expects(event));
        actions.push(reception.step(*event));
    }
    actions
}

#[test]
fn link_is_kept_when_parsed() {
    let address = String::from("channel");
    let id = String::from("message");
    let res = find_message_link_opt_sequence(&address, &id, Some(42u32));
    assert_eq!(res.ok(), Some(42u32));
}

#[test]
fn link_failure_names_both_parts() {
    let address = String::from("ABCDEF");
    let id = String::from("123456");
    let res = find_message_link_opt_sequence::<u32>(&address, &id, None);
    let err = res.err().expect("an error");
    assert_eq!(err.address, "ABCDEF");
    assert_eq!(err.identifier, "123456");
    assert_eq!(err.message(), "Failed to create Address from ABCDEF:123456");
}

#[test]
fn reception_of_two_announcements_succeeds() {
    let actions = run(
        MessageKind::Announcement,
        &[
            ReceiveEvent::Fetched { count: 2 },
            ReceiveEvent::HeaderRead { expected_type: true },
            ReceiveEvent::Unwrapped,
            ReceiveEvent::HeaderRead { expected_type: true },
            ReceiveEvent::Unwrapped,
        ],
    );
    assert_eq!(
        actions,
        vec![
            ReceiveAction::Fetch,
            ReceiveAction::ReadHeader { index: 0 },
            ReceiveAction::Unwrap { index: 0 },
            ReceiveAction::ReadHeader { index: 1 },
            ReceiveAction::Unwrap { index: 1 },
            ReceiveAction::Succeed,
        ]
    );
}

#[test]
fn reception_with_no_messages_succeeds() {
    let actions = run(MessageKind::SignedPacket, &[ReceiveEvent::Fetched { count: 0 }]);
    assert_eq!(actions, vec![ReceiveAction::Fetch, ReceiveAction::Succeed]);
}

#[test]
fn wrong_content_type_stops_before_unwrapping() {
    let actions = run(
        MessageKind::Announcement,
        &[
            ReceiveEvent::Fetched { count: 3 },
            ReceiveEvent::HeaderRead { expected_type: true },
            ReceiveEvent::Unwrapped,
            ReceiveEvent::HeaderRead { expected_type: false },
        ],
    );
    let last = *actions.last().unwrap();
    assert_eq!(last, ReceiveAction::Fail(ReceiveFailure::WrongContentType(MessageKind::Announcement)));
    assert!(!actions.contains(&ReceiveAction::Unwrap { index: 1 }));
}

#[test]
fn wrong_content_type_messages() {
    assert_eq!(
        ReceiveFailure::WrongContentType(MessageKind::Announcement).message().as_deref(),
        Some("Content type should be announce type")
    );
    assert_eq!(
        ReceiveFailure::WrongContentType(MessageKind::SignedPacket).message().as_deref(),
        Some("Content type should be signed type")
    );
    assert_eq!(ReceiveFailure::UnwrapFailed.message().as_deref(), Some("Error unwrapping packet"));
    assert_eq!(ReceiveFailure::Upstream.message(), None);
}

#[test]
fn signed_packet_unwrap_failure_is_reported() {
    let actions = run(
        MessageKind::SignedPacket,
        &[
            ReceiveEvent::Fetched { count: 1 },
            ReceiveEvent::HeaderRead { expected_type: true },
            ReceiveEvent::UnwrapFailed,
        ],
    );
    assert_eq!(*actions.last().unwrap(), ReceiveAction::Fail(ReceiveFailure::UnwrapFailed));
}

#[test]
fn announcement_unwrap_failure_is_passed_on() {
    let actions = run(
        MessageKind::Announcement,
        &[
            ReceiveEvent::Fetched { count: 1 },
            ReceiveEvent::HeaderRead { expected_type: true },
            ReceiveEvent::UnwrapFailed,
        ],
    );
    assert_eq!(*actions.last().unwrap(), ReceiveAction::Fail(ReceiveFailure::Upstream));
}

#[test]
fn fetch_and_header_failures_are_passed_on() {
    let actions = run(MessageKind::SignedPacket, &[ReceiveEvent::FetchFailed]);
    assert_eq!(*actions.last().unwrap(), ReceiveAction::Fail(ReceiveFailure::Upstream));
    let actions = run(
        MessageKind::SignedPacket,
        &[ReceiveEvent::Fetched { count: 4 }, ReceiveEvent::HeaderFailed],
    );
    assert_eq!(*actions.last().unwrap(), ReceiveAction::Fail(ReceiveFailure::Upstream));
}

#[test]
fn finished_reception_accepts_nothing() {
    let (mut reception, _) = Reception::new(MessageKind::Announcement);
    assert!(!reception.is_finished());
    assert!(!reception.expects(&ReceiveEvent::Unwrapped));
    reception.step(ReceiveEvent::FetchFailed);
    assert!(reception.is_finished());
    assert_eq!(reception.stage(), Stage::Finished);
    assert_eq!(reception.kind(), MessageKind::Announcement);
    for event in [
        ReceiveEvent::Fetched { count: 1 },
        ReceiveEvent::FetchFailed,
        ReceiveEvent::HeaderRead { expected_type: true },
        ReceiveEvent::HeaderFailed,
        ReceiveEvent::Unwrapped,
        ReceiveEvent::UnwrapFailed,
    ] {
        assert!(!reception.expects(&event));
    }
}

#[test]
fn seed_is_thirty_letters_or_digits() {
    let seed = generate_seed();
    assert_eq!(SEED_LENGTH, 30);
    assert_eq!(seed.chars().count(), 30);
    assert!(seed.chars().all(|c| c.is_ascii_alphanumeric()));
    let other = generate_seed();
    assert_ne!(seed, other);
}

#[test]
fn seed_from_samples_keeps_order() {
    assert_eq!(seed_from_samples(&vec![b'a', b'Z', b'0', b'q']), "aZ0q");
    assert_eq!(seed_from_samples(&vec![]), "");
}

#[test]
fn signed_payloads_are_utf8_and_unmasked() {
    let payloads = signed_payloads("héllo");
    assert_eq!(payloads.public, vec![b'h', 0xc3, 0xa9, b'l', b'l', b'o']);
    assert!(payloads.masked.is_empty());
}

#[test]
fn hello_message_is_compact_json() {
    assert_eq!(
        hello_message("2021-03-04T12:34:56.789+00:00"),
        "{\"message\":\"Hello\",\"timestamp\":\"2021-03-04T12:34:56.789+00:00\"}"
    );
}

#[test]
fn hello_message_escapes_quotes() {
    assert_eq!(hello_message("a\"b"), "{\"message\":\"Hello\",\"timestamp\":\"a\\\"b\"}");
}

#[test]
fn hello_message_now_has_a_time_stamp() {
    let text = hello_message_now();
    let prefix = "{\"message\":\"Hello\",\"timestamp\":\"";
    assert!(text.starts_with(prefix));
    assert!(text.ends_with("\"}"));
    let stamp = &text[prefix.len()..text.len() - 2];
    assert!(stamp.len() >= 25);
    assert!(stamp.chars().all(|c| c.is_ascii_digit() || "-+:T.".contains(c)));
}

#[test]
fn greeting_payloads_hold_the_greeting() {
    let payloads = greeting_payloads();
    let text = String::from_utf8(payloads.public).unwrap();
    assert!(text.starts_with("{\"message\":\"Hello\",\"timestamp\":\""));
    assert!(payloads.masked.is_empty());
}

#[test]
fn author_starts_new_channel_without_arguments() {
    let args = vec![String::from("author")];
    assert!(matches!(author_start(&args), AuthorStart::NewChannel));
    assert!(matches!(author_start(&vec![]), AuthorStart::NewChannel));
}

#[test]
fn author_resumes_with_seed_and_previous_message() {
    let args = vec![String::from("author"), String::from("SEED"), String::from("abc123")];
    match author_start(&args) {
        AuthorStart::Resume { seed, previous_message_id } => {
            assert_eq!(seed, "SEED");
            assert_eq!(previous_message_id, "abc123");
        }
        AuthorStart::NewChannel => panic!("expected a resumed channel"),
    }
}

#[test]
fn hello_message_escapes_control_characters() {
    assert_eq!(
        hello_message("\n\u{1}\\"),
        "{\"message\":\"Hello\",\"timestamp\":\"\\n\\u0001\\\\\"}"
    );
}

#[test]
fn header_failure_after_good_messages_is_passed_on() {
    let actions = run(
        MessageKind::SignedPacket,
        &[
            ReceiveEvent::Fetched { count: 3 },
            ReceiveEvent::HeaderRead { expected_type: true },
            ReceiveEvent::Unwrapped,
            ReceiveEvent::HeaderFailed,
        ],
    );
    assert_eq!(
        actions,
        vec![
            ReceiveAction::Fetch,
            ReceiveAction::ReadHeader { index: 0 },
            ReceiveAction::Unwrap { index: 0 },
            ReceiveAction::ReadHeader { index: 1 },
            ReceiveAction::Fail(ReceiveFailure::Upstream),
        ]
    );
}

#[test]
fn hello_message_now_ends_with_utc_offset() {
    let text = hello_message_now();
    assert!(text.ends_with("+00:00\"}"));
    assert_eq!(text.matches('T').count(), 1);
}
