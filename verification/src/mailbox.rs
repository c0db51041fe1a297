//! The mailbox backing one entity: a bounded broadcast ring that fans every
//! published envelope out to any number of receive cursors, and a bounded
//! feedback queue that many senders share and the owning entity drains.
//!
//! The broadcast side never blocks a publisher: a cursor that falls more than
//! the capacity behind observes `Lagged` and loses the oldest envelopes. The
//! feedback side is a FIFO queue that reports `Full` at capacity, so a sender
//! can suspend until the entity drains it.

use vstd::prelude::*;
use crate::envelope::BusError;
use crate::envelope::BusMessageTypeEnum;
use crate::envelope::EnvelopeView;

verus! {

/// Default bound of both sides of a mailbox.
pub const DEFAULT_CAPACITY: usize = 1024;

/// What one receive step observed, at the model level.
pub ghost enum RecvModel {
    /// The next envelope, in publish order.
    Ready(EnvelopeView),
    /// Nothing new yet; a caller that wants to block waits and retries.
    Empty,
    /// This cursor fell more than the capacity behind and lost envelopes.
    Lagged,
    /// No counterpart is left to ever produce a message.
    Closed,
}

/// What one feedback send observed.
#[derive(Debug, Clone, Copy, PartialEq, Eq, Structural)]
pub enum SendOutcome {
    /// The envelope was queued.
    Sent,
    /// The queue already holds `capacity` unconsumed envelopes; a caller that
    /// wants to block waits until the entity drains one and retries.
    Full,
    /// The owning entity is gone; the envelope can never be delivered.
    Closed,
}

/// What one broadcast receive or feedback receive observed.
#[derive(Debug)]
pub enum RecvOutcome {
    Ready(BusMessageTypeEnum),
    Empty,
    Lagged,
    Closed,
}

impl View for RecvOutcome {
    type V = RecvModel;

    open spec fn view(&self) -> RecvModel {
        match self {
            RecvOutcome::Ready(e) => RecvModel::Ready(e@),
            RecvOutcome::Empty => RecvModel::Empty,
            RecvOutcome::Lagged => RecvModel::Lagged,
            RecvOutcome::Closed => RecvModel::Closed,
        }
    }
}

/// The views of a sequence of envelopes.
pub open spec fn envelopes_view(v: Seq<BusMessageTypeEnum>) -> Seq<EnvelopeView> {
    v.map_values(|e: BusMessageTypeEnum| e@)
}

/// Mathematical value of a mailbox.
#[verifier::ext_equal]
pub ghost struct MailboxModel {
    /// The bound of both channels.
    pub capacity: nat,
    /// Every envelope ever published, oldest first; the ring retains the last
    /// `capacity` of them.
    pub history: Seq<EnvelopeView>,
    /// The unconsumed feedback envelopes, oldest first.
    pub feedback: Seq<EnvelopeView>,
    /// How many live feedback-sender handles exist.
    pub senders: nat,
    /// Whether the owning entity, with its broadcast sender and feedback
    /// receiver, is still alive.
    pub open: bool,
}

impl MailboxModel {
    /// Position of the oldest publish the ring still retains.
    pub open spec fn oldest_retained(self) -> int {
        if self.history.len() <= self.capacity {
            0
        } else {
            self.history.len() - self.capacity
        }
    }

    /// Publishing appends to the history; it never blocks and drops nothing
    /// but what the ring bound forces out.
    pub open spec fn publish(self, v: EnvelopeView) -> MailboxModel {
        MailboxModel { history: self.history.push(v), ..self }
    }

    /// One receive step of the cursor `cursor`: the observation and the
    /// cursor's next position.
    pub open spec fn recv_at(self, cursor: nat) -> (RecvModel, nat) {
        if cursor >= self.history.len() {
            (
                if self.open {
                    RecvModel::Empty
                } else {
                    RecvModel::Closed
                },
                cursor,
            )
        } else if cursor < self.oldest_retained() {
            (RecvModel::Lagged, self.oldest_retained() as nat)
        } else {
            (RecvModel::Ready(self.history[cursor as int]), (cursor + 1) as nat)
        }
    }

    /// One feedback send: the outcome and the mailbox afterwards.
    pub open spec fn feedback_send(self, v: EnvelopeView) -> (SendOutcome, MailboxModel) {
        if !self.open {
            (SendOutcome::Closed, self)
        } else if self.feedback.len() >= self.capacity {
            (SendOutcome::Full, self)
        } else {
            (SendOutcome::Sent, MailboxModel { feedback: self.feedback.push(v), ..self })
        }
    }

    /// One feedback receive: the observation and the mailbox afterwards.
    /// `Closed` comes exactly when the queue is empty and no sender is left.
    pub open spec fn feedback_recv(self) -> (RecvModel, MailboxModel) {
        if self.feedback.len() > 0 {
            (
                RecvModel::Ready(self.feedback[0]),
                MailboxModel { feedback: self.feedback.drop_first(), ..self },
            )
        } else if self.senders == 0 {
            (RecvModel::Closed, self)
        } else {
            (RecvModel::Empty, self)
        }
    }
}

/// A fresh mailbox's value: nothing published or queued, no senders, and its
/// entity alive.
pub open spec fn fresh_mailbox(capacity: nat) -> MailboxModel {
    MailboxModel {
        capacity,
        history: Seq::<EnvelopeView>::empty(),
        feedback: Seq::<EnvelopeView>::empty(),
        senders: 0,
        open: true,
    }
}

/// One broadcast ring plus one feedback queue, both bounded by `capacity`.
pub struct Mailbox {
    capacity: usize,
    /// The last `min(published, capacity)` published envelopes, oldest first.
    ring: Vec<BusMessageTypeEnum>,
    /// How many envelopes were ever published.
    published: u64,
    /// The views of every envelope ever published.
    history: Ghost<Seq<EnvelopeView>>,
    /// The unconsumed feedback envelopes, oldest first.
    feedback: Vec<BusMessageTypeEnum>,
    /// How many live feedback-sender handles exist.
    senders: u64,
    /// Whether the owning entity is still alive.
    open: bool,
}

impl View for Mailbox {
    type V = MailboxModel;

    closed spec fn view(&self) -> MailboxModel {
        MailboxModel {
            capacity: self.capacity as nat,
            history: self.history@,
            feedback: envelopes_view(self.feedback@),
            senders: self.senders as nat,
            open: self.open,
        }
    }
}

impl Mailbox {
    /// The ring holds exactly the retained tail of the history, the counters
    /// agree, and both bounds hold.
    pub closed spec fn wf(self) -> bool {
        &&& self.capacity >= 1
        &&& self.history@.len() == self.published
        &&& self.ring@.len() == if self.published <= self.capacity {
            self.published as int
        } else {
            self.capacity as int
        }
        &&& envelopes_view(self.ring@) == self.history@.subrange(
            self.history@.len() - self.ring@.len(),
            self.history@.len() as int,
        )
        &&& self.feedback@.len() <= self.capacity
    }

    /// A fresh mailbox with the given bound: nothing published, nothing
    /// queued, no senders, its entity alive.
    pub fn with_capacity(capacity: usize) -> (m: Mailbox)
        requires
            capacity >= 1,
        ensures
            m.wf(),
            m@.capacity == capacity as nat,
            m@.history == Seq::<EnvelopeView>::empty(),
            m@.feedback == Seq::<EnvelopeView>::empty(),
            m@.senders == 0,
            m@.open,
    {
        let m = Mailbox {
            capacity,
            ring: Vec::new(),
            published: 0,
            history: Ghost(Seq::empty()),
            feedback: Vec::new(),
            senders: 0,
            open: true,
        };
        proof {
            assert(envelopes_view(m.ring@) =~= m.history@.subrange(0, 0));
            assert(envelopes_view(m.feedback@) =~= Seq::<EnvelopeView>::empty());
        }
        m
    }

    /// A fresh mailbox with the default bound.
    pub fn new() -> (m: Mailbox)
        ensures
            m.wf(),
            m@.capacity == DEFAULT_CAPACITY as nat,
            m@.history == Seq::<EnvelopeView>::empty(),
            m@.feedback == Seq::<EnvelopeView>::empty(),
            m@.senders == 0,
            m@.open,
    {
        Mailbox::with_capacity(DEFAULT_CAPACITY)
    }

    /// Publishes one envelope to every cursor. Never blocks: a cursor that
    /// cannot keep up loses the oldest envelopes instead. Fails with `Closed`
    /// exactly when the owning entity is gone.
    pub fn publish(&mut self, message: BusMessageTypeEnum) -> (r: Result<(), BusError>)
        requires
            old(self).wf(),
            old(self)@.history.len() < u64::MAX,
        ensures
            final(self).wf(),
            old(self)@.open ==> r == Ok::<(), BusError>(()) && final(self)@ == old(
                self,
            )@.publish(message@),
            !old(self)@.open ==> r == Err::<(), BusError>(BusError::Closed) && final(self)@ == old(
                self,
            )@,
    {
        if !self.open {
            return Err(BusError::Closed);
        }
        let ghost v = message@;
        let ghost pre = *self;
        self.ring.push(message);
        if self.ring.len() > self.capacity {
            let _dropped = self.ring.remove(0);
        }
        self.published = self.published + 1;
        proof {
            self.history@ = self.history@.push(v);
        }
        proof {
            let hist = self.history@;
            let n = self.ring@.len() as int;
            assert(envelopes_view(self.ring@) =~= hist.subrange(hist.len() - n, hist.len() as int))
                by {
                assert(forall|k: int| 0 <= k < pre.ring@.len() ==> #[trigger] pre.ring@[k]@
                    == envelopes_view(pre.ring@)[k]);
                assert(forall|k: int| 0 <= k < n ==> #[trigger] envelopes_view(self.ring@)[k]
                    == self.ring@[k]@);
            }
            assert(final(self)@ =~= pre@.publish(v));
        }
        Ok(())
    }

    /// Registers a new cursor: one more feedback sender, and a cursor that
    /// observes exactly the envelopes published after this call.
    pub fn add_cursor(&mut self) -> (c: u64)
        requires
            old(self).wf(),
            old(self)@.senders < u64::MAX,
        ensures
            final(self).wf(),
            c == old(self)@.history.len(),
            final(self)@ == (MailboxModel { senders: old(self)@.senders + 1, ..old(self)@ }),
    {
        self.senders = self.senders + 1;
        proof {
            assert(final(self)@ =~= (MailboxModel { senders: old(self)@.senders + 1, ..old(self)@ }));
        }
        self.published
    }

    /// One receive step of the cursor `cursor`: the observation and the
    /// cursor's next position, as [`MailboxModel::recv_at`] gives them.
    /// The mailbox itself does not change.
    pub fn recv_at(&self, cursor: u64) -> (r: (RecvOutcome, u64))
        requires
            self.wf(),
        ensures
            r.0@ == self@.recv_at(cursor as nat).0,
            r.1 as nat == self@.recv_at(cursor as nat).1,
    {
        if cursor >= self.published {
            if self.open {
                (RecvOutcome::Empty, cursor)
            } else {
                (RecvOutcome::Closed, cursor)
            }
        } else {
            let oldest: u64 = self.published - self.ring.len() as u64;
            if cursor < oldest {
                (RecvOutcome::Lagged, oldest)
            } else {
                assert(cursor - oldest < self.ring@.len());
                let idx: usize = (cursor - oldest) as usize;
                let message = self.ring[idx].clone();
                proof {
                    assert(envelopes_view(self.ring@)[idx as int] == self.ring@[idx as int]@);
                    assert(self@.history[cursor as int] == self.ring@[idx as int]@);
                }
                (RecvOutcome::Ready(message), cursor + 1)
            }
        }
    }

    /// One feedback send, as [`MailboxModel::feedback_send`] gives it:
    /// `Closed` exactly when the entity is gone, `Full` exactly at capacity,
    /// queued otherwise.
    pub fn send_feedback(&mut self, message: BusMessageTypeEnum) -> (r: SendOutcome)
        requires
            old(self).wf(),
        ensures
            final(self).wf(),
            r == old(self)@.feedback_send(message@).0,
            final(self)@ == old(self)@.feedback_send(message@).1,
    {
        if !self.open {
            return SendOutcome::Closed;
        }
        if self.feedback.len() >= self.capacity {
            return SendOutcome::Full;
        }
        let ghost v = message@;
        let ghost pre = *self;
        self.feedback.push(message);
        proof {
            assert(envelopes_view(self.feedback@) =~= envelopes_view(pre.feedback@).push(v)) by {
                assert(forall|k: int| 0 <= k < pre.feedback@.len() ==> #[trigger] pre.feedback@[k]@
                    == envelopes_view(pre.feedback@)[k]);
                assert(forall|k: int| 0 <= k < self.feedback@.len()
                    ==> #[trigger] envelopes_view(self.feedback@)[k] == self.feedback@[k]@);
            }
            assert(final(self)@ =~= old(self)@.feedback_send(v).1);
        }
        SendOutcome::Sent
    }

    /// One feedback receive, as [`MailboxModel::feedback_recv`] gives it: the
    /// oldest queued envelope, or `Closed` exactly when the queue is empty
    /// and no sender is left, or `Empty`.
    pub fn recv_feedback(&mut self) -> (r: RecvOutcome)
        requires
            old(self).wf(),
        ensures
            final(self).wf(),
            r@ == old(self)@.feedback_recv().0,
            final(self)@ == old(self)@.feedback_recv().1,
    {
        if self.feedback.len() > 0 {
            let ghost pre = *self;
            let message = self.feedback.remove(0);
            proof {
                assert(envelopes_view(self.feedback@) =~= envelopes_view(
                    pre.feedback@,
                ).drop_first()) by {
                    assert(forall|k: int| 0 <= k < pre.feedback@.len()
                        ==> #[trigger] pre.feedback@[k]@ == envelopes_view(pre.feedback@)[k]);
                    assert(forall|k: int| 0 <= k < self.feedback@.len()
                        ==> #[trigger] envelopes_view(self.feedback@)[k] == self.feedback@[k]@);
                }
                assert(message@ == envelopes_view(pre.feedback@)[0]);
                assert(final(self)@ =~= old(self)@.feedback_recv().1);
            }
            RecvOutcome::Ready(message)
        } else if self.senders == 0 {
            RecvOutcome::Closed
        } else {
            RecvOutcome::Empty
        }
    }

    /// Lets one feedback-sender handle go: called when a subscription is
    /// dropped.
    pub fn drop_sender(&mut self)
        requires
            old(self).wf(),
            old(self)@.senders >= 1,
        ensures
            final(self).wf(),
            final(self)@ == (MailboxModel { senders: (old(self)@.senders - 1) as nat, ..old(self)@ }),
    {
        self.senders = self.senders - 1;
        proof {
            assert(final(self)@ =~= (MailboxModel {
                senders: (old(self)@.senders - 1) as nat,
                ..old(self)@
            }));
        }
    }

    /// Tears the owning entity down: publishes fail from now on, feedback
    /// sends observe `Closed`, and cursors observe `Closed` once drained.
    pub fn close(&mut self)
        requires
            old(self).wf(),
        ensures
            final(self).wf(),
            final(self)@ == (MailboxModel { open: false, ..old(self)@ }),
    {
        self.open = false;
        proof {
            assert(final(self)@ =~= (MailboxModel { open: false, ..old(self)@ }));
        }
    }

    /// How many feedback envelopes are queued and unconsumed.
    pub fn feedback_len(&self) -> (n: usize)
        ensures
            n == self@.feedback.len(),
    {
        self.feedback.len()
    }

    /// How many live feedback-sender handles exist.
    pub fn sender_count(&self) -> (n: u64)
        ensures
            n as nat == self@.senders,
    {
        self.senders
    }

    /// How many envelopes were ever published.
    pub fn published_count(&self) -> (n: u64)
        requires
            self.wf(),
        ensures
            n == self@.history.len(),
    {
        self.published
    }
}

/// Fan-out: after one publish, every cursor that stood fully caught up
/// receives exactly the published envelope, and steps past it — however many
/// such cursors there are, each observes its own copy.
pub proof fn lemma_fanout(m: MailboxModel, v: EnvelopeView, cursor: nat)
    requires
        m.capacity >= 1,
        cursor == m.history.len(),
    ensures
        m.publish(v).recv_at(cursor) == (RecvModel::Ready(v), (cursor + 1) as nat),
{
}

/// Lag: a cursor that has missed more than `capacity` publishes observes
/// `Lagged` on its next receive — not a silent skip, and not a stall.
pub proof fn lemma_lag(m: MailboxModel, cursor: nat)
    requires
        m.history.len() > cursor + m.capacity,
    ensures
        m.recv_at(cursor).0 == RecvModel::Lagged,
{
}

/// Backpressure: a feedback queue holding `capacity` unconsumed envelopes
/// takes nothing more — the send reports `Full` and changes nothing — and
/// after the entity drains one envelope, a send succeeds again.
pub proof fn lemma_backpressure(m: MailboxModel, v: EnvelopeView, w: EnvelopeView)
    requires
        m.open,
        m.capacity >= 1,
        m.feedback.len() == m.capacity,
    ensures
        m.feedback_send(v) == (SendOutcome::Full, m),
        m.feedback_recv().1.feedback_send(w).0 == SendOutcome::Sent,
        m.feedback_recv().1.feedback_send(w).1.feedback == m.feedback.drop_first().push(w),
{
}

} // verus!
