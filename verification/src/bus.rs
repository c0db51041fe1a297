//! The bus: a registry mapping names to entities, each owning one mailbox,
//! plus a wake counter for blocking discovery.
//!
//! Entities and subscriptions are handles into an arena of mailboxes that
//! only grows. Re-registering a name points the registry at a fresh mailbox
//! and orphans the old one: subscriptions bound to it keep working against
//! it. The wake counter grows with every registration and removal; a caller
//! that looked a name up, found nothing, and read the counter can wait until
//! the counter moves past what it read and recheck, and cannot miss a
//! registration that way (see [`lemma_discovery_wakeup`]).

use vstd::prelude::*;
use crate::envelope::BusError;
use crate::envelope::BusMessageTypeEnum;
use crate::mailbox::Mailbox;
use crate::mailbox::MailboxModel;
use crate::mailbox::RecvOutcome;
use crate::mailbox::SendOutcome;
use crate::mailbox::DEFAULT_CAPACITY;

verus! {

/// Mathematical value of the bus.
#[verifier::ext_equal]
pub ghost struct BusModel {
    /// Every mailbox ever created, in creation order. The registry points
    /// into this arena; a replaced or removed entity keeps its slot, so
    /// subscriptions bound to it stay meaningful.
    pub mailboxes: Seq<MailboxModel>,
    /// Which arena slot each registered name currently maps to.
    pub registry: Map<Seq<char>, int>,
    /// The wake counter: grows with every registration and removal.
    pub version: nat,
}

impl BusModel {
    /// The slot registered under `name`, if any. Never blocks.
    pub open spec fn lookup(self, name: Seq<char>) -> Option<int> {
        if self.registry.dom().contains(name) {
            Some(self.registry[name])
        } else {
            None
        }
    }

    /// Registering a name: a fresh mailbox joins the arena, the name maps to
    /// it — replacing any earlier mapping — and the wake counter moves.
    pub open spec fn register(self, name: Seq<char>, mb: MailboxModel) -> BusModel {
        BusModel {
            mailboxes: self.mailboxes.push(mb),
            registry: self.registry.insert(name, self.mailboxes.len() as int),
            version: self.version + 1,
        }
    }

    /// Pointing a name at an existing arena slot, and moving the wake counter.
    pub open spec fn register_slot(self, name: Seq<char>, slot: int) -> BusModel {
        BusModel {
            registry: self.registry.insert(name, slot),
            version: self.version + 1,
            ..self
        }
    }

    /// Removing a name from the registry, and moving the wake counter. The
    /// slot's mailbox stays in the arena, orphaned.
    pub open spec fn remove(self, name: Seq<char>) -> BusModel {
        BusModel { registry: self.registry.remove(name), version: self.version + 1, ..self }
    }

    /// Replacing one slot's mailbox value, leaving everything else alone.
    pub open spec fn with_mailbox(self, slot: int, mb: MailboxModel) -> BusModel {
        BusModel { mailboxes: self.mailboxes.update(slot, mb), ..self }
    }
}

/// The registry that a name list denotes: entries later in the list override
/// earlier ones.
spec fn names_to_map(names: Seq<(String, usize)>) -> Map<Seq<char>, int>
    decreases names.len(),
{
    if names.len() == 0 {
        Map::empty()
    } else {
        names_to_map(names.drop_last()).insert(names.last().0@, names.last().1 as int)
    }
}

/// An entry that no later entry overrides decides the registry's value at its
/// key.
proof fn lemma_names_map_found(names: Seq<(String, usize)>, i: int)
    requires
        0 <= i < names.len(),
        forall|k: int| i < k < names.len() ==> (#[trigger] names[k]).0@ != names[i].0@,
    ensures
        names_to_map(names).dom().contains(names[i].0@),
        names_to_map(names)[names[i].0@] == names[i].1 as int,
    decreases names.len(),
{
    if i == names.len() - 1 {
    } else {
        let prefix = names.drop_last();
        assert(forall|k: int| i < k < prefix.len() ==> (#[trigger] prefix[k]).0@ != prefix[i].0@)
            by {
            assert(forall|k: int| 0 <= k < prefix.len() ==> #[trigger] prefix[k] == names[k]);
        }
        lemma_names_map_found(prefix, i);
        assert(names.last().0@ != names[i].0@);
    }
}

/// A key under which no entry stands is absent from the registry.
proof fn lemma_names_map_absent(names: Seq<(String, usize)>, n: Seq<char>)
    requires
        forall|k: int| 0 <= k < names.len() ==> (#[trigger] names[k]).0@ != n,
    ensures
        !names_to_map(names).dom().contains(n),
    decreases names.len(),
{
    if names.len() > 0 {
        let prefix = names.drop_last();
        assert(forall|k: int| 0 <= k < prefix.len() ==> (#[trigger] prefix[k]).0@ != n) by {
            assert(forall|k: int| 0 <= k < prefix.len() ==> #[trigger] prefix[k] == names[k]);
        }
        lemma_names_map_absent(prefix, n);
    }
}

/// Any entry's key is present in the registry.
proof fn lemma_names_map_contains(names: Seq<(String, usize)>, i: int)
    requires
        0 <= i < names.len(),
    ensures
        names_to_map(names).dom().contains(names[i].0@),
    decreases names.len(),
{
    if i < names.len() - 1 {
        let prefix = names.drop_last();
        assert(prefix[i] == names[i]);
        lemma_names_map_contains(prefix, i);
    }
}

/// The views of a sequence of mailboxes.
pub open spec fn mailboxes_view(v: Seq<Mailbox>) -> Seq<MailboxModel> {
    v.map_values(|m: Mailbox| m@)
}

/// The registry of named entities: a name-to-mailbox arena plus the wake
/// counter. One bus value is created at startup and shared by every task.
pub struct Bus {
    /// The arena: every mailbox ever created, in creation order.
    mailboxes: Vec<Mailbox>,
    /// Registration entries, oldest first; a later entry overrides an
    /// earlier one with the same name.
    names: Vec<(String, usize)>,
    /// The wake counter.
    version: u64,
}

impl View for Bus {
    type V = BusModel;

    closed spec fn view(&self) -> BusModel {
        BusModel {
            mailboxes: mailboxes_view(self.mailboxes@),
            registry: names_to_map(self.names@),
            version: self.version as nat,
        }
    }
}

impl Bus {
    /// Every registry entry points into the arena, and every mailbox in the
    /// arena is well formed.
    pub closed spec fn wf(self) -> bool {
        &&& forall|k: int|
            0 <= k < self.names@.len() ==> (#[trigger] self.names@[k]).1 < self.mailboxes@.len()
        &&& forall|k: int| 0 <= k < self.mailboxes@.len() ==> (#[trigger] self.mailboxes@[k]).wf()
    }

    /// A fresh bus: no entities, no registrations, the wake counter at zero.
    pub fn new() -> (b: Bus)
        ensures
            b.wf(),
            b@.mailboxes == Seq::<MailboxModel>::empty(),
            b@.registry == Map::<Seq<char>, int>::empty(),
            b@.version == 0,
    {
        let b = Bus { mailboxes: Vec::new(), names: Vec::new(), version: 0 };
        proof {
            assert(mailboxes_view(b.mailboxes@) =~= Seq::<MailboxModel>::empty());
        }
        b
    }

    /// The arena slot registered under `id`, if any. Never suspends.
    fn lookup_slot(&self, id: &str) -> (r: Option<usize>)
        requires
            self.wf(),
        ensures
            match r {
                Some(i) => self@.lookup(id@) == Some(i as int) && i < self@.mailboxes.len(),
                None => self@.lookup(id@) is None,
            },
    {
        let n = self.names.len();
        let mut k: usize = n;
        while k > 0
            invariant
                self.wf(),
                n == self.names@.len(),
                0 <= k <= n,
                forall|j: int| k <= j < n ==> (#[trigger] self.names@[j]).0@ != id@,
            decreases k,
        {
            k = k - 1;
            let entry = &self.names[k];
            if crate::strutil::str_eq(entry.0.as_str(), id) {
                proof {
                    lemma_names_map_found(self.names@, k as int);
                }
                return Some(entry.1);
            }
        }
        proof {
            lemma_names_map_absent(self.names@, id@);
        }
        None
    }

    /// Appends a registration entry and moves the wake counter.
    fn push_registration(&mut self, name: String, slot: usize)
        requires
            old(self).wf(),
            slot < old(self)@.mailboxes.len(),
            old(self)@.version < u64::MAX,
        ensures
            final(self).wf(),
            final(self)@ == old(self)@.register_slot(name@, slot as int),
    {
        let ghost pre = *self;
        self.names.push((name, slot));
        self.version = self.version + 1;
        proof {
            assert(self.names@.drop_last() =~= pre.names@);
            assert(final(self)@ =~= pre@.register_slot(name@, slot as int));
        }
    }

    /// Deletes the registry entry under `id`, if any, and moves the wake
    /// counter; tells whether an entry was there. Mailboxes stay in the
    /// arena, so subscriptions bound to a removed entity keep working.
    pub fn remove(&mut self, id: &str) -> (r: bool)
        requires
            old(self).wf(),
            old(self)@.version < u64::MAX,
        ensures
            final(self).wf(),
            final(self)@ == old(self)@.remove(id@),
            r == (old(self)@.lookup(id@) is Some),
    {
        let ghost pre = *self;
        let mut kept: Vec<(String, usize)> = Vec::new();
        let mut found = false;
        let n = self.names.len();
        let mut i: usize = 0;
        while i < n
            invariant
                n == self.names@.len(),
                0 <= i <= n,
                forall|k: int|
                    0 <= k < self.names@.len() ==> (#[trigger] self.names@[k]).1
                        < self.mailboxes@.len(),
                forall|k: int|
                    0 <= k < kept@.len() ==> (#[trigger] kept@[k]).1 < self.mailboxes@.len(),
                names_to_map(kept@) =~= names_to_map(self.names@.subrange(0, i as int)).remove(
                    id@,
                ),
                found == exists|k: int| 0 <= k < i && (#[trigger] self.names@[k]).0@ == id@,
            decreases n - i,
        {
            let entry = &self.names[i];
            let ghost prefix = self.names@.subrange(0, i as int);
            let ghost prefix1 = self.names@.subrange(0, i + 1);
            proof {
                assert(prefix1.drop_last() =~= prefix);
            }
            if crate::strutil::str_eq(entry.0.as_str(), id) {
                found = true;
                proof {
                    assert(names_to_map(kept@) =~= names_to_map(prefix1).remove(id@));
                }
            } else {
                let ghost kept_pre = kept@;
                kept.push((entry.0.clone(), entry.1));
                proof {
                    assert(kept@.drop_last() =~= kept_pre);
                    assert(names_to_map(kept@) =~= names_to_map(prefix1).remove(id@));
                }
            }
            i = i + 1;
        }
        proof {
            assert(self.names@.subrange(0, n as int) =~= self.names@);
        }
        self.names = kept;
        self.version = self.version + 1;
        proof {
            assert(final(self)@ =~= pre@.remove(id@));
            if found {
                let k = choose|k: int| 0 <= k < n && (#[trigger] pre.names@[k]).0@ == id@;
                lemma_names_map_contains(pre.names@, k);
            } else {
                lemma_names_map_absent(pre.names@, id@);
            }
        }
        found
    }
}

/// A named publish endpoint: a handle on one arena slot. Publishing fans out
/// to every subscription's cursor; the feedback queue drains here.
pub struct BusEntity {
    id: String,
    mailbox: usize,
}

impl BusEntity {
    /// The arena slot of the mailbox this handle owns.
    pub closed spec fn slot(self) -> int {
        self.mailbox as int
    }

    /// The name this entity was created under.
    pub closed spec fn id_view(self) -> Seq<char> {
        self.id@
    }

    /// The handle points into the bus's arena.
    pub open spec fn valid(self, b: BusModel) -> bool {
        0 <= self.slot() < b.mailboxes.len()
    }

    /// A fresh entity with its own empty mailbox, placed in the arena but not
    /// yet registered.
    pub fn new(bus: &mut Bus, id: &str) -> (e: BusEntity)
        requires
            old(bus).wf(),
        ensures
            final(bus).wf(),
            e.valid(final(bus)@),
            e.id_view() == id@,
            e.slot() == old(bus)@.mailboxes.len(),
            final(bus)@ == (BusModel {
                mailboxes: old(bus)@.mailboxes.push(
                    crate::mailbox::fresh_mailbox(DEFAULT_CAPACITY as nat),
                ),
                ..old(bus)@
            }),
    {
        let ghost pre = *bus;
        let mb = Mailbox::new();
        proof {
            assert(mb@ =~= crate::mailbox::fresh_mailbox(DEFAULT_CAPACITY as nat));
        }
        let slot = bus.mailboxes.len();
        bus.mailboxes.push(mb);
        proof {
            assert(mailboxes_view(bus.mailboxes@) =~= mailboxes_view(pre.mailboxes@).push(
                crate::mailbox::fresh_mailbox(DEFAULT_CAPACITY as nat),
            )) by {
                assert(forall|k: int| 0 <= k < pre.mailboxes@.len()
                    ==> #[trigger] mailboxes_view(pre.mailboxes@)[k] == pre.mailboxes@[k]@);
                assert(forall|k: int| 0 <= k < bus.mailboxes@.len()
                    ==> #[trigger] mailboxes_view(bus.mailboxes@)[k] == bus.mailboxes@[k]@);
            }
            assert(final(bus)@ =~= (BusModel {
                mailboxes: pre@.mailboxes.push(
                    crate::mailbox::fresh_mailbox(DEFAULT_CAPACITY as nat),
                ),
                ..pre@
            }));
        }
        BusEntity { id: id.to_owned(), mailbox: slot }
    }

    /// Does this handle point into the bus's arena? True for every handle
    /// the bus gave out, since the arena only grows.
    pub fn is_valid(&self, bus: &Bus) -> (b: bool)
        ensures
            b == self.valid(bus@),
    {
        self.mailbox < bus.mailboxes.len()
    }

    /// How many envelopes this entity ever published.
    pub fn published_count(&self, bus: &Bus) -> (n: u64)
        requires
            bus.wf(),
            self.valid(bus@),
        ensures
            n as nat == bus@.mailboxes[self.slot()].history.len(),
    {
        bus.mailboxes[self.mailbox].published_count()
    }

    /// The immutable name.
    pub fn id(&self) -> (r: &str)
        ensures
            r@ == self.id_view(),
    {
        self.id.as_str()
    }

    /// Publishes one envelope to every live subscription of this entity.
    /// Succeeds even with zero subscribers; never blocks; a subscription that
    /// cannot keep up loses the oldest envelopes instead. Fails with `Closed`
    /// exactly when the entity was torn down.
    pub fn send_to_consumer(&self, bus: &mut Bus, message: BusMessageTypeEnum) -> (r: Result<
        (),
        BusError,
    >)
        requires
            old(bus).wf(),
            self.valid(old(bus)@),
            old(bus)@.mailboxes[self.slot()].history.len() < u64::MAX,
        ensures
            final(bus).wf(),
            r == Ok::<(), BusError>(()) <==> old(bus)@.mailboxes[self.slot()].open,
            old(bus)@.mailboxes[self.slot()].open ==> final(bus)@ == old(bus)@.with_mailbox(
                self.slot(),
                old(bus)@.mailboxes[self.slot()].publish(message@),
            ),
            !old(bus)@.mailboxes[self.slot()].open ==> r == Err::<(), BusError>(BusError::Closed)
                && final(bus)@ == old(bus)@,
    {
        let ghost pre = *bus;
        let mb = &mut bus.mailboxes[self.mailbox];
        let r = mb.publish(message);
        proof {
            lemma_bus_one_slot_changed(pre, *bus, self.slot());
            if pre@.mailboxes[self.slot()].open {
                assert(final(bus)@ =~= pre@.with_mailbox(
                    self.slot(),
                    pre@.mailboxes[self.slot()].publish(message@),
                ));
            } else {
                assert(final(bus)@ =~= pre@);
            }
        }
        r
    }

    /// One feedback receive: the oldest envelope a subscriber sent back, or
    /// `Closed` exactly when the queue is empty and no subscription holds the
    /// feedback sender any more, or `Empty`. A caller that wants to block
    /// retries on `Empty`.
    pub fn recv_from_consumer(&self, bus: &mut Bus) -> (r: RecvOutcome)
        requires
            old(bus).wf(),
            self.valid(old(bus)@),
        ensures
            final(bus).wf(),
            r@ == old(bus)@.mailboxes[self.slot()].feedback_recv().0,
            final(bus)@ == old(bus)@.with_mailbox(
                self.slot(),
                old(bus)@.mailboxes[self.slot()].feedback_recv().1,
            ),
    {
        let ghost pre = *bus;
        let mb = &mut bus.mailboxes[self.mailbox];
        let r = mb.recv_feedback();
        proof {
            lemma_bus_one_slot_changed(pre, *bus, self.slot());
            assert(final(bus)@ =~= pre@.with_mailbox(
                self.slot(),
                pre@.mailboxes[self.slot()].feedback_recv().1,
            ));
        }
        r
    }

    /// Tears this entity down: its mailbox closes, publishes fail from now
    /// on, and subscriptions observe `Closed` once drained. The registry
    /// entry, if any, stays until [`Bus::remove`].
    pub fn close(self, bus: &mut Bus)
        requires
            old(bus).wf(),
            self.valid(old(bus)@),
        ensures
            final(bus).wf(),
            final(bus)@ == old(bus)@.with_mailbox(
                self.slot(),
                (MailboxModel { open: false, ..old(bus)@.mailboxes[self.slot()] }),
            ),
    {
        let ghost pre = *bus;
        let mb = &mut bus.mailboxes[self.mailbox];
        mb.close();
        proof {
            lemma_bus_one_slot_changed(pre, *bus, self.slot());
            assert(final(bus)@ =~= pre@.with_mailbox(
                self.slot(),
                (MailboxModel { open: false, ..pre@.mailboxes[self.slot()] }),
            ));
        }
    }
}

/// What one typed receive observed: the payload when the envelope's tag
/// matched the requested type, `TypeMismatch` when it did not, and the
/// channel conditions passed through.
#[derive(Debug)]
pub enum TypedRecv<T> {
    Ready(T),
    Empty,
    Lagged,
    Closed,
    TypeMismatch,
}

/// A subscriber's capability: a private receive cursor into one entity's
/// broadcast ring, plus a share in that entity's feedback sender.
pub struct BusEntitySubscriber {
    mailbox: usize,
    cursor: u64,
}

impl BusEntitySubscriber {
    /// The arena slot of the mailbox this subscription is bound to.
    pub closed spec fn slot(self) -> int {
        self.mailbox as int
    }

    /// The cursor: how many publishes of its mailbox this subscription has
    /// seen or skipped.
    pub closed spec fn cursor_val(self) -> nat {
        self.cursor as nat
    }

    /// The handle points into the bus's arena.
    pub open spec fn valid(self, b: BusModel) -> bool {
        0 <= self.slot() < b.mailboxes.len()
    }

    /// A new subscription bound to `entity`'s mailbox: one more feedback
    /// sender, and a cursor that observes exactly the envelopes published
    /// from this call on.
    pub fn new(bus: &mut Bus, entity: &BusEntity) -> (s: BusEntitySubscriber)
        requires
            old(bus).wf(),
            entity.valid(old(bus)@),
            old(bus)@.mailboxes[entity.slot()].senders < u64::MAX,
        ensures
            final(bus).wf(),
            s.valid(final(bus)@),
            s.slot() == entity.slot(),
            s.cursor_val() == old(bus)@.mailboxes[entity.slot()].history.len(),
            final(bus)@ == old(bus)@.with_mailbox(
                entity.slot(),
                (MailboxModel {
                    senders: old(bus)@.mailboxes[entity.slot()].senders + 1,
                    ..old(bus)@.mailboxes[entity.slot()]
                }),
            ),
    {
        let ghost pre = *bus;
        let mb = &mut bus.mailboxes[entity.mailbox];
        let cursor = mb.add_cursor();
        proof {
            lemma_bus_one_slot_changed(pre, *bus, entity.slot());
            assert(final(bus)@ =~= pre@.with_mailbox(
                entity.slot(),
                (MailboxModel {
                    senders: pre@.mailboxes[entity.slot()].senders + 1,
                    ..pre@.mailboxes[entity.slot()]
                }),
            ));
        }
        BusEntitySubscriber { mailbox: entity.mailbox, cursor }
    }

    /// Does this handle point into the bus's arena? True for every handle
    /// the bus gave out, since the arena only grows.
    pub fn is_valid(&self, bus: &Bus) -> (b: bool)
        ensures
            b == self.valid(bus@),
    {
        self.mailbox < bus.mailboxes.len()
    }

    /// One receive step: the next envelope in publish order, or `Empty` (a
    /// caller that wants to block retries after the next publish), or
    /// `Lagged` exactly when this cursor missed envelopes, or `Closed`. The
    /// bus itself does not change; only the cursor moves, as
    /// [`MailboxModel::recv_at`] says.
    pub fn recv(&mut self, bus: &Bus) -> (r: RecvOutcome)
        requires
            bus.wf(),
            old(self).valid(bus@),
        ensures
            final(self).slot() == old(self).slot(),
            r@ == bus@.mailboxes[old(self).slot()].recv_at(old(self).cursor_val()).0,
            final(self).cursor_val() == bus@.mailboxes[old(self).slot()].recv_at(
                old(self).cursor_val(),
            ).1,
    {
        let mb = &bus.mailboxes[self.mailbox];
        let step = mb.recv_at(self.cursor);
        self.cursor = step.1;
        step.0
    }

    /// One receive step, unwrapped at the text tag: `TypeMismatch` exactly
    /// when an envelope arrived whose tag is not text. The envelope is
    /// consumed either way.
    pub fn recv_string(&mut self, bus: &Bus) -> (r: TypedRecv<String>)
        requires
            bus.wf(),
            old(self).valid(bus@),
        ensures
            final(self).slot() == old(self).slot(),
            ({
                let step = bus@.mailboxes[old(self).slot()].recv_at(old(self).cursor_val());
                &&& final(self).cursor_val() == step.1
                &&& (step.0 matches crate::mailbox::RecvModel::Ready(e) ==> (match r {
                    TypedRecv::Ready(s) => crate::envelope::unwrap_text(e) == Ok::<
                        Seq<char>,
                        BusError,
                    >(s@),
                    TypedRecv::TypeMismatch => !(e is Text),
                    _ => false,
                }))
                &&& (step.0 is Empty ==> r is Empty)
                &&& (step.0 is Lagged ==> r is Lagged)
                &&& (step.0 is Closed ==> r is Closed)
            }),
    {
        match self.recv(bus) {
            RecvOutcome::Ready(envelope) => match envelope.try_into_string() {
                Ok(s) => TypedRecv::Ready(s),
                Err(_) => TypedRecv::TypeMismatch,
            },
            RecvOutcome::Empty => TypedRecv::Empty,
            RecvOutcome::Lagged => TypedRecv::Lagged,
            RecvOutcome::Closed => TypedRecv::Closed,
        }
    }

    /// One receive step, unwrapped at the protocol-message tag.
    pub fn recv_irc_message(&mut self, bus: &Bus) -> (r: TypedRecv<crate::irc_parser::Message>)
        requires
            bus.wf(),
            old(self).valid(bus@),
        ensures
            final(self).slot() == old(self).slot(),
            ({
                let step = bus@.mailboxes[old(self).slot()].recv_at(old(self).cursor_val());
                &&& final(self).cursor_val() == step.1
                &&& (step.0 matches crate::mailbox::RecvModel::Ready(e) ==> (match r {
                    TypedRecv::Ready(m) => crate::envelope::unwrap_irc(e) == Ok::<
                        crate::irc_parser::MessageView,
                        BusError,
                    >(m@),
                    TypedRecv::TypeMismatch => !(e is Irc),
                    _ => false,
                }))
                &&& (step.0 is Empty ==> r is Empty)
                &&& (step.0 is Lagged ==> r is Lagged)
                &&& (step.0 is Closed ==> r is Closed)
            }),
    {
        match self.recv(bus) {
            RecvOutcome::Ready(envelope) => match envelope.try_into_irc_message() {
                Ok(m) => TypedRecv::Ready(m),
                Err(_) => TypedRecv::TypeMismatch,
            },
            RecvOutcome::Empty => TypedRecv::Empty,
            RecvOutcome::Lagged => TypedRecv::Lagged,
            RecvOutcome::Closed => TypedRecv::Closed,
        }
    }

    /// Sends one envelope back to the owning entity over the shared feedback
    /// sender: queued, or `Full` exactly at capacity (a caller that wants to
    /// block retries after the entity drains), or `Closed` exactly when the
    /// entity is gone — as [`MailboxModel::feedback_send`] says.
    pub fn send(&self, bus: &mut Bus, message: BusMessageTypeEnum) -> (r: SendOutcome)
        requires
            old(bus).wf(),
            self.valid(old(bus)@),
        ensures
            final(bus).wf(),
            r == old(bus)@.mailboxes[self.slot()].feedback_send(message@).0,
            final(bus)@ == old(bus)@.with_mailbox(
                self.slot(),
                old(bus)@.mailboxes[self.slot()].feedback_send(message@).1,
            ),
    {
        let ghost pre = *bus;
        let mb = &mut bus.mailboxes[self.mailbox];
        let r = mb.send_feedback(message);
        proof {
            lemma_bus_one_slot_changed(pre, *bus, self.slot());
            assert(final(bus)@ =~= pre@.with_mailbox(
                self.slot(),
                pre@.mailboxes[self.slot()].feedback_send(message@).1,
            ));
        }
        r
    }

    /// An independent cursor at the same position, sharing the feedback
    /// sender: lets one logical subscriber split reading and writing across
    /// two tasks.
    pub fn duplicate(&self, bus: &mut Bus) -> (s: BusEntitySubscriber)
        requires
            old(bus).wf(),
            self.valid(old(bus)@),
            old(bus)@.mailboxes[self.slot()].senders < u64::MAX,
        ensures
            final(bus).wf(),
            s.valid(final(bus)@),
            s.slot() == self.slot(),
            s.cursor_val() == self.cursor_val(),
            final(bus)@ == old(bus)@.with_mailbox(
                self.slot(),
                (MailboxModel {
                    senders: old(bus)@.mailboxes[self.slot()].senders + 1,
                    ..old(bus)@.mailboxes[self.slot()]
                }),
            ),
    {
        let ghost pre = *bus;
        let mb = &mut bus.mailboxes[self.mailbox];
        let _ = mb.add_cursor();
        proof {
            lemma_bus_one_slot_changed(pre, *bus, self.slot());
            assert(final(bus)@ =~= pre@.with_mailbox(
                self.slot(),
                (MailboxModel {
                    senders: pre@.mailboxes[self.slot()].senders + 1,
                    ..pre@.mailboxes[self.slot()]
                }),
            ));
        }
        BusEntitySubscriber { mailbox: self.mailbox, cursor: self.cursor }
    }

    /// Lets this subscription go: its share of the feedback sender is
    /// released, so the entity can observe `Closed` once no share is left.
    pub fn unsubscribe(self, bus: &mut Bus)
        requires
            old(bus).wf(),
            self.valid(old(bus)@),
            old(bus)@.mailboxes[self.slot()].senders >= 1,
        ensures
            final(bus).wf(),
            final(bus)@ == old(bus)@.with_mailbox(
                self.slot(),
                (MailboxModel {
                    senders: (old(bus)@.mailboxes[self.slot()].senders - 1) as nat,
                    ..old(bus)@.mailboxes[self.slot()]
                }),
            ),
    {
        let ghost pre = *bus;
        let mb = &mut bus.mailboxes[self.mailbox];
        mb.drop_sender();
        proof {
            lemma_bus_one_slot_changed(pre, *bus, self.slot());
            assert(final(bus)@ =~= pre@.with_mailbox(
                self.slot(),
                (MailboxModel {
                    senders: (pre@.mailboxes[self.slot()].senders - 1) as nat,
                    ..pre@.mailboxes[self.slot()]
                }),
            ));
        }
    }
}

impl Bus {
    /// Creates a fresh entity with an empty mailbox and registers it under
    /// `id`, replacing any earlier entity of that name, and fires the wake
    /// signal. Never fails.
    pub fn add_new_entity(&mut self, id: &str) -> (e: BusEntity)
        requires
            old(self).wf(),
            old(self)@.version < u64::MAX,
        ensures
            final(self).wf(),
            e.valid(final(self)@),
            e.id_view() == id@,
            e.slot() == old(self)@.mailboxes.len(),
            final(self)@ == old(self)@.register(
                id@,
                crate::mailbox::fresh_mailbox(DEFAULT_CAPACITY as nat),
            ),
    {
        let ghost pre = *self;
        let e = BusEntity::new(self, id);
        let slot = e.mailbox;
        self.push_registration(id.to_owned(), slot);
        proof {
            assert(final(self)@ =~= pre@.register(
                id@,
                crate::mailbox::fresh_mailbox(DEFAULT_CAPACITY as nat),
            ));
        }
        e
    }

    /// Registers an already-created entity under its own name, replacing any
    /// earlier entity of that name, and fires the wake signal.
    pub fn add_entity(&mut self, entity: BusEntity)
        requires
            old(self).wf(),
            entity.valid(old(self)@),
            old(self)@.version < u64::MAX,
        ensures
            final(self).wf(),
            final(self)@ == old(self)@.register_slot(entity.id_view(), entity.slot()),
    {
        let BusEntity { id, mailbox } = entity;
        self.push_registration(id, mailbox);
    }

    /// Non-suspending lookup: a handle on the entity currently registered
    /// under `id`, or nothing exactly when the name is unregistered.
    pub fn get_entity(&self, id: &str) -> (r: Option<BusEntity>)
        requires
            self.wf(),
        ensures
            match r {
                Some(e) => self@.lookup(id@) == Some(e.slot()) && e.id_view() == id@ && e.valid(
                    self@,
                ),
                None => self@.lookup(id@) is None,
            },
    {
        match self.lookup_slot(id) {
            Some(slot) => Some(BusEntity { id: id.to_owned(), mailbox: slot }),
            None => None,
        }
    }

    /// One check of the check-then-wait discovery loop: the entity under
    /// `id`, if any, together with the wake counter read in the same step. A
    /// caller that got nothing waits until the counter moves past the value
    /// read here, then rechecks; [`lemma_discovery_wakeup`] is why a
    /// registration cannot slip between the check and the wait.
    pub fn poll_entity(&self, id: &str) -> (r: (Option<BusEntity>, u64))
        requires
            self.wf(),
        ensures
            match r.0 {
                Some(e) => self@.lookup(id@) == Some(e.slot()) && e.id_view() == id@ && e.valid(
                    self@,
                ),
                None => self@.lookup(id@) is None,
            },
            r.1 as nat == self@.version,
    {
        (self.get_entity(id), self.version)
    }

    /// Is every mailbox's feedback-sender count below the machine limit, so
    /// that one more subscription fits?
    pub fn senders_below_limit(&self) -> (b: bool)
        requires
            self.wf(),
        ensures
            b == forall|k: int|
                0 <= k < self@.mailboxes.len() ==> (#[trigger] self@.mailboxes[k]).senders
                    < u64::MAX,
    {
        let n = self.mailboxes.len();
        let mut k: usize = 0;
        while k < n
            invariant
                self.wf(),
                n == self.mailboxes@.len(),
                0 <= k <= n,
                forall|j: int| 0 <= j < k ==> (#[trigger] self@.mailboxes[j]).senders < u64::MAX,
            decreases n - k,
        {
            if self.mailboxes[k].sender_count() == u64::MAX {
                proof {
                    assert(self@.mailboxes[k as int].senders == u64::MAX);
                }
                return false;
            }
            proof {
                assert(self@.mailboxes[k as int].senders < u64::MAX);
            }
            k = k + 1;
        }
        true
    }

    /// The wake counter now.
    pub fn version(&self) -> (v: u64)
        ensures
            v as nat == self@.version,
    {
        self.version
    }

    /// Subscribes to the entity under `id` if one is registered: the lookup
    /// composed with binding a new subscription to that entity's mailbox.
    /// Nothing comes back exactly when the name is unregistered; a caller
    /// that wants to block composes this with the wake counter as
    /// [`Bus::poll_entity`] describes.
    pub fn subscribe_to_entity(&mut self, id: &str) -> (r: Option<BusEntitySubscriber>)
        requires
            old(self).wf(),
            forall|k: int|
                0 <= k < old(self)@.mailboxes.len()
                    ==> (#[trigger] old(self)@.mailboxes[k]).senders < u64::MAX,
        ensures
            final(self).wf(),
            match r {
                Some(s) => old(self)@.lookup(id@) == Some(s.slot()) && s.valid(final(self)@)
                    && s.cursor_val() == old(self)@.mailboxes[s.slot()].history.len()
                    && final(self)@ == old(self)@.with_mailbox(
                    s.slot(),
                    (MailboxModel {
                        senders: old(self)@.mailboxes[s.slot()].senders + 1,
                        ..old(self)@.mailboxes[s.slot()]
                    }),
                ),
                None => old(self)@.lookup(id@) is None && final(self)@ == old(self)@,
            },
    {
        let ghost pre = *self;
        match self.lookup_slot(id) {
            Some(slot) => {
                proof {
                    assert(pre@.mailboxes[slot as int] == pre.mailboxes@[slot as int]@);
                    assert(pre@.mailboxes[slot as int].senders < u64::MAX);
                }
                let mb = &mut self.mailboxes[slot];
                let cursor = mb.add_cursor();
                proof {
                    lemma_bus_one_slot_changed(pre, *self, slot as int);
                    assert(final(self)@ =~= pre@.with_mailbox(
                        slot as int,
                        (MailboxModel {
                            senders: pre@.mailboxes[slot as int].senders + 1,
                            ..pre@.mailboxes[slot as int]
                        }),
                    ));
                }
                Some(BusEntitySubscriber { mailbox: slot, cursor })
            },
            None => None,
        }
    }
}

/// Discovery: a registration is immediately visible to lookup, leaves every
/// other name alone, and strictly moves the wake counter. So a task that
/// checked a name, found nothing, read the counter in the same step, and
/// waits for the counter to move past that value cannot miss the
/// registration, however the two tasks interleave: the registration either
/// happened before the check (then the check found it) or after it (then the
/// counter moves and the waiter rechecks).
pub proof fn lemma_discovery_wakeup(b: BusModel, name: Seq<char>, mb: MailboxModel)
    ensures
        b.register(name, mb).lookup(name) == Some(b.mailboxes.len() as int),
        b.register(name, mb).version == b.version + 1,
        forall|other: Seq<char>|
            other != name ==> #[trigger] b.register(name, mb).lookup(other) == b.lookup(other),
{
}

/// Replacement: re-registering a name points lookup at the fresh mailbox,
/// while the old slot and every cursor into it stay exactly as they were — a
/// subscription bound to the replaced entity keeps receiving what that
/// entity publishes.
pub proof fn lemma_replacement(
    b: BusModel,
    name: Seq<char>,
    mb: MailboxModel,
    old_slot: int,
    cursor: nat,
)
    requires
        b.lookup(name) == Some(old_slot),
        0 <= old_slot < b.mailboxes.len(),
    ensures
        b.register(name, mb).lookup(name) == Some(b.mailboxes.len() as int),
        b.register(name, mb).mailboxes[old_slot] == b.mailboxes[old_slot],
        b.register(name, mb).mailboxes[old_slot].recv_at(cursor) == b.mailboxes[old_slot].recv_at(
            cursor,
        ),
{
}

/// After one arena element changed, the bus's model is the old model with
/// that one slot updated, and well-formedness carries over.
proof fn lemma_bus_one_slot_changed(pre: Bus, post: Bus, slot: int)
    requires
        pre.wf(),
        0 <= slot < pre.mailboxes@.len(),
        post.mailboxes@ == pre.mailboxes@.update(slot, post.mailboxes@[slot]),
        post.mailboxes@[slot].wf(),
        post.names@ == pre.names@,
        post.version == pre.version,
    ensures
        post.wf(),
        post@.mailboxes =~= pre@.mailboxes.update(slot, post.mailboxes@[slot]@),
        post@.registry == pre@.registry,
        post@.version == pre@.version,
{
    assert(forall|k: int| 0 <= k < pre.mailboxes@.len()
        ==> #[trigger] mailboxes_view(pre.mailboxes@)[k] == pre.mailboxes@[k]@);
    assert(forall|k: int| 0 <= k < post.mailboxes@.len()
        ==> #[trigger] mailboxes_view(post.mailboxes@)[k] == post.mailboxes@[k]@);
    assert(forall|k: int| 0 <= k < post.mailboxes@.len() ==> (#[trigger] post.mailboxes@[k]).wf())
        by {
        assert(forall|k: int|
            0 <= k < post.mailboxes@.len() && k != slot ==> post.mailboxes@[k]
                == pre.mailboxes@[k]);
    }
}

} // verus!
