use chatbus::bus::Bus;
use chatbus::bus::BusEntity;
use chatbus::bus::BusEntitySubscriber;
use chatbus::bus::TypedRecv;
use chatbus::envelope::BusMessageTrait;
use chatbus::mailbox::RecvOutcome;
use chatbus::mailbox::SendOutcome;

fn text(s: &str) -> chatbus::envelope::BusMessageTypeEnum {
    s.to_string().as_bus_message()
}

fn expect_ready_text(r: TypedRecv<String>) -> String {
    match r {
        TypedRecv::Ready(s) => s,
        TypedRecv::Empty => panic!("empty"),
        TypedRecv::Lagged => panic!("lagged"),
        TypedRecv::Closed => panic!("closed"),
        TypedRecv::TypeMismatch => panic!("type mismatch"),
    }
}

#[test]
fn register_then_lookup() {
    let mut bus = Bus::new();
    let e = bus.add_new_entity("twitch");
    assert_eq!(e.id(), "twitch");
    assert!(bus.get_entity("twitch").is_some());
    assert!(bus.get_entity("commands").is_none());
}

#[test]
fn lookup_never_blocks_on_absent_name() {
    let bus = Bus::new();
    assert!(bus.get_entity("nobody").is_none());
    let (found, version) = bus.poll_entity("nobody");
    assert!(found.is_none());
    assert_eq!(version, 0);
}

#[test]
fn version_moves_with_every_registration_and_removal() {
    let mut bus = Bus::new();
    assert_eq!(bus.version(), 0);
    let _a = bus.add_new_entity("a");
    assert_eq!(bus.version(), 1);
    let _b = bus.add_new_entity("b");
    assert_eq!(bus.version(), 2);
    assert!(bus.remove("a"));
    assert_eq!(bus.version(), 3);
    assert!(!bus.remove("a"));
}

#[test]
fn add_entity_registers_under_its_own_name() {
    let mut bus = Bus::new();
    let e = BusEntity::new(&mut bus, "tts");
    assert!(bus.get_entity("tts").is_none());
    bus.add_entity(e);
    assert!(bus.get_entity("tts").is_some());
}

#[test]
fn subscribe_to_unregistered_name_yields_nothing() {
    let mut bus = Bus::new();
    assert!(bus.subscribe_to_entity("ghost").is_none());
}

#[test]
fn replacement_updates_lookup_and_keeps_old_subscription() {
    let mut bus = Bus::new();
    let old_entity = bus.add_new_entity("A");
    let mut old_sub = bus.subscribe_to_entity("A").unwrap();

    let new_entity = bus.add_new_entity("A");
    let mut new_sub = bus.subscribe_to_entity("A").unwrap();

    // The old subscription hears the old entity, not the new one.
    new_entity.send_to_consumer(&mut bus, text("fresh")).unwrap();
    assert!(matches!(old_sub.recv(&bus), RecvOutcome::Empty));
    assert_eq!(expect_ready_text(new_sub.recv_string(&bus)), "fresh");

    old_entity.send_to_consumer(&mut bus, text("stale")).unwrap();
    assert_eq!(expect_ready_text(old_sub.recv_string(&bus)), "stale");
    assert!(matches!(new_sub.recv(&bus), RecvOutcome::Empty));
}

#[test]
fn removal_orphans_but_does_not_kill_the_mailbox() {
    let mut bus = Bus::new();
    let e = bus.add_new_entity("X");
    let mut sub = bus.subscribe_to_entity("X").unwrap();
    assert!(bus.remove("X"));
    assert!(bus.get_entity("X").is_none());
    e.send_to_consumer(&mut bus, text("still here")).unwrap();
    assert_eq!(expect_ready_text(sub.recv_string(&bus)), "still here");
}

#[test]
fn subscription_duplicate_has_independent_cursor_and_shared_sender() {
    let mut bus = Bus::new();
    let e = bus.add_new_entity("A");
    let sub = bus.subscribe_to_entity("A").unwrap();
    let mut reader = sub.duplicate(&mut bus);
    e.send_to_consumer(&mut bus, text("one")).unwrap();
    assert_eq!(expect_ready_text(reader.recv_string(&bus)), "one");
    // The first subscription's cursor did not move with the duplicate's.
    let mut first = sub;
    assert_eq!(expect_ready_text(first.recv_string(&bus)), "one");
    // Both share the feedback sender.
    assert_eq!(first.send(&mut bus, text("from the first")), SendOutcome::Sent);
    assert_eq!(reader.send(&mut bus, text("from the duplicate")), SendOutcome::Sent);
}

#[test]
fn unsubscribe_releases_the_feedback_sender() {
    let mut bus = Bus::new();
    let e = bus.add_new_entity("A");
    let sub = bus.subscribe_to_entity("A").unwrap();
    assert!(matches!(e.recv_from_consumer(&mut bus), RecvOutcome::Empty));
    sub.unsubscribe(&mut bus);
    assert!(matches!(e.recv_from_consumer(&mut bus), RecvOutcome::Closed));
}

#[test]
fn direct_subscription_on_an_entity_handle() {
    let mut bus = Bus::new();
    let e = bus.add_new_entity("A");
    let mut sub = BusEntitySubscriber::new(&mut bus, &e);
    e.send_to_consumer(&mut bus, text("direct")).unwrap();
    assert_eq!(expect_ready_text(sub.recv_string(&bus)), "direct");
}

#[test]
fn subscription_behind_by_more_than_capacity_observes_lag() {
    // The bus's mailboxes hold 1024 envelopes; 1025 publishes push an idle
    // subscription past its backlog.
    let mut bus = Bus::new();
    let e = bus.add_new_entity("A");
    let mut sub = bus.subscribe_to_entity("A").unwrap();
    for i in 0..1025 {
        e.send_to_consumer(&mut bus, text(&format!("m{}", i))).unwrap();
    }
    assert!(matches!(sub.recv(&bus), RecvOutcome::Lagged));
    // After the lag is reported, the cursor stands at the oldest retained
    // envelope rather than silently resynchronizing to the newest.
    assert_eq!(expect_ready_text(sub.recv_string(&bus)), "m1");
}

#[test]
fn closed_entity_rejects_publish_at_the_bus() {
    let mut bus = Bus::new();
    let e = bus.add_new_entity("A");
    let e_again = bus.get_entity("A").unwrap();
    e.close(&mut bus);
    assert_eq!(
        e_again.send_to_consumer(&mut bus, text("late")),
        Err(chatbus::envelope::BusError::Closed)
    );
}

struct Lcg(u64);

impl Lcg {
    fn next(&mut self) -> u64 {
        self.0 = self.0.wrapping_mul(6364136223846793005).wrapping_add(1442695040888963407);
        self.0 >> 33
    }
}

#[test]
fn discovery_race_randomized_interleavings() {
    let mut rng = Lcg(0x5eed);
    for _round in 0..100 {
        let mut bus = Bus::new();
        let mut entity: Option<BusEntity> = None;
        let mut sub: Option<BusEntitySubscriber> = None;
        let mut waited_version: Option<u64> = None;
        let mut steps = 0u32;
        while sub.is_none() {
            steps += 1;
            assert!(steps < 10_000, "discovery loop failed to finish");
            // Random interleaving: sometimes the registering task runs first.
            if entity.is_none() && rng.next() % 3 == 0 {
                entity = Some(bus.add_new_entity("B"));
            }
            // The subscribing task: wait until the wake counter moved past
            // what the failed check read, then recheck.
            if let Some(v) = waited_version {
                if bus.version() == v {
                    continue;
                }
                waited_version = None;
            }
            match bus.subscribe_to_entity("B") {
                Some(s) => sub = Some(s),
                None => waited_version = Some(bus.version()),
            }
        }
        // Liveness: the late subscription really works.
        entity.as_ref().unwrap().send_to_consumer(&mut bus, text("ping")).unwrap();
        assert_eq!(expect_ready_text(sub.as_mut().unwrap().recv_string(&bus)), "ping");
    }
}

#[test]
fn delayed_registration_completes_subscribe_only_afterwards() {
    let mut bus = Bus::new();
    let register_at = 5;
    let mut sub: Option<BusEntitySubscriber> = None;
    let mut completed_at = None;
    for step in 0..10 {
        if step == register_at {
            let _ = bus.add_new_entity("B");
        }
        if sub.is_none() {
            if let Some(s) = bus.subscribe_to_entity("B") {
                sub = Some(s);
                completed_at = Some(step);
            }
        }
    }
    // The subscribe completed, and not before the delayed registration ran.
    assert_eq!(completed_at, Some(register_at));
}
