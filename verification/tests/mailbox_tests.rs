use chatbus::envelope::BusError;
use chatbus::envelope::BusMessageTrait;
use chatbus::mailbox::Mailbox;
use chatbus::mailbox::RecvOutcome;
use chatbus::mailbox::SendOutcome;

fn text(s: &str) -> chatbus::envelope::BusMessageTypeEnum {
    s.to_string().as_bus_message()
}

fn expect_text(r: RecvOutcome) -> String {
    match r {
        RecvOutcome::Ready(env) => env.try_into_string().unwrap(),
        RecvOutcome::Empty => panic!("empty"),
        RecvOutcome::Lagged => panic!("lagged"),
        RecvOutcome::Closed => panic!("closed"),
    }
}

#[test]
fn fanout_two_cursors_get_the_same_publish() {
    let mut mb = Mailbox::with_capacity(4);
    let c1 = mb.add_cursor();
    let c2 = mb.add_cursor();
    mb.publish(text("ping")).unwrap();
    let (r1, n1) = mb.recv_at(c1);
    let (r2, n2) = mb.recv_at(c2);
    assert_eq!(expect_text(r1), "ping");
    assert_eq!(expect_text(r2), "ping");
    assert_eq!(n1, c1 + 1);
    assert_eq!(n2, c2 + 1);
}

#[test]
fn publish_with_no_cursor_succeeds() {
    let mut mb = Mailbox::with_capacity(4);
    assert_eq!(mb.publish(text("nobody listens")), Ok(()));
    assert_eq!(mb.published_count(), 1);
}

#[test]
fn slow_cursor_observes_lag_then_oldest_retained() {
    let mut mb = Mailbox::with_capacity(2);
    let c = mb.add_cursor();
    mb.publish(text("a")).unwrap();
    mb.publish(text("b")).unwrap();
    mb.publish(text("c")).unwrap();
    let (r, n) = mb.recv_at(c);
    assert!(matches!(r, RecvOutcome::Lagged));
    assert_eq!(n, 1);
    let (r, n) = mb.recv_at(n);
    assert_eq!(expect_text(r), "b");
    assert_eq!(n, 2);
    let (r, _) = mb.recv_at(n);
    assert_eq!(expect_text(r), "c");
}

#[test]
fn cursor_within_capacity_misses_nothing() {
    let mut mb = Mailbox::with_capacity(2);
    let c = mb.add_cursor();
    mb.publish(text("a")).unwrap();
    mb.publish(text("b")).unwrap();
    let (r, n) = mb.recv_at(c);
    assert_eq!(expect_text(r), "a");
    let (r, _) = mb.recv_at(n);
    assert_eq!(expect_text(r), "b");
}

#[test]
fn caught_up_cursor_sees_empty() {
    let mut mb = Mailbox::with_capacity(2);
    let c = mb.add_cursor();
    assert!(matches!(mb.recv_at(c).0, RecvOutcome::Empty));
    mb.publish(text("x")).unwrap();
    let (_, n) = mb.recv_at(c);
    assert!(matches!(mb.recv_at(n).0, RecvOutcome::Empty));
}

#[test]
fn feedback_full_at_capacity_then_drains() {
    let mut mb = Mailbox::with_capacity(2);
    let _c = mb.add_cursor();
    assert_eq!(mb.send_feedback(text("one")), SendOutcome::Sent);
    assert_eq!(mb.send_feedback(text("two")), SendOutcome::Sent);
    assert_eq!(mb.send_feedback(text("three")), SendOutcome::Full);
    assert_eq!(mb.feedback_len(), 2);
    let drained = expect_text(mb.recv_feedback());
    assert_eq!(drained, "one");
    assert_eq!(mb.send_feedback(text("three")), SendOutcome::Sent);
    assert_eq!(expect_text(mb.recv_feedback()), "two");
    assert_eq!(expect_text(mb.recv_feedback()), "three");
}

#[test]
fn feedback_closed_without_senders() {
    let mut mb = Mailbox::with_capacity(2);
    assert!(matches!(mb.recv_feedback(), RecvOutcome::Closed));
    let _c = mb.add_cursor();
    assert!(matches!(mb.recv_feedback(), RecvOutcome::Empty));
    mb.drop_sender();
    assert!(matches!(mb.recv_feedback(), RecvOutcome::Closed));
}

#[test]
fn closed_mailbox_rejects_publish_and_feedback() {
    let mut mb = Mailbox::with_capacity(2);
    let c = mb.add_cursor();
    mb.publish(text("last")).unwrap();
    mb.close();
    assert_eq!(mb.publish(text("late")), Err(BusError::Closed));
    assert_eq!(mb.send_feedback(text("late")), SendOutcome::Closed);
    let (r, n) = mb.recv_at(c);
    assert_eq!(expect_text(r), "last");
    assert!(matches!(mb.recv_at(n).0, RecvOutcome::Closed));
}

#[test]
fn wrong_typed_payload_is_a_mismatch_not_garbage() {
    let mut mb = Mailbox::with_capacity(2);
    let c = mb.add_cursor();
    let msg = chatbus::irc_parser::parse_message(&":a!b PRIVMSG #c :hey".to_string());
    mb.publish(msg.as_bus_message()).unwrap();
    let (r, _) = mb.recv_at(c);
    match r {
        RecvOutcome::Ready(env) => {
            assert_eq!(env.try_into_string().unwrap_err(), BusError::TypeMismatch);
        },
        _ => panic!("expected an envelope"),
    }
}
