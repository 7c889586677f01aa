//! Timing-gated queue for buffered register writes.
//!
//! Buffered writes wait in first-in first-out order and are handed to the
//! engine one native tick at a time, never closer together than
//! `WRITE_DELAY` ticks.
use vstd::prelude::*;

verus! {

/// Number of native ticks that must separate two buffered writes.
pub const WRITE_DELAY: u64 = 2;

/// Number of addressable registers: bank 0 is `0x000..=0x0FF`, bank 1 is
/// `0x100..=0x1FF`.
pub const REGISTER_COUNT: u16 = 0x200;

/// One register write: an address in `0..REGISTER_COUNT` and a byte.
#[derive(Clone, Copy, Debug, PartialEq, Eq, Structural)]
pub struct RegWrite {
    pub reg: u16,
    pub value: u8,
}

/// What a queue looks like to a proof.
pub struct QueueState {
    /// Writes issued and not yet applied, oldest first.
    pub pending: Seq<RegWrite>,
    /// Ticks that must still pass before the next write may be applied.
    pub wait: nat,
    /// Ticks that have passed since the queue was made.
    pub now: nat,
    /// Every write ever issued, in issue order.
    pub issued: Seq<RegWrite>,
    /// Every write applied so far, with the tick it was applied on.
    pub applied: Seq<(RegWrite, nat)>,
    /// Earliest tick on which the next write may be applied.
    pub ready: nat,
}

/// The writes of `applied`, without their ticks.
pub open spec fn applied_writes(applied: Seq<(RegWrite, nat)>) -> Seq<RegWrite> {
    applied.map_values(|a: (RegWrite, nat)| a.0)
}

/// Consecutive applications are at least `WRITE_DELAY` ticks apart.
pub open spec fn spaced(applied: Seq<(RegWrite, nat)>) -> bool {
    forall|i: int|
        0 < i < applied.len() ==> #[trigger] applied[i].1 >= applied[i - 1].1 + WRITE_DELAY
}

/// What one tick does to a queue, and the write it hands out, if any.
pub open spec fn queue_step(q: QueueState) -> (QueueState, Option<RegWrite>) {
    if q.wait == 0 && q.pending.len() > 0 {
        (
            QueueState {
                pending: q.pending.drop_first(),
                wait: (WRITE_DELAY - 1) as nat,
                now: q.now + 1,
                applied: q.applied.push((q.pending[0], q.now)),
                ready: (q.now + WRITE_DELAY) as nat,
                ..q
            },
            Some(q.pending[0]),
        )
    } else {
        (
            QueueState {
                wait: if q.wait > 0 { (q.wait - 1) as nat } else { 0 },
                now: q.now + 1,
                ..q
            },
            None,
        )
    }
}

/// FIFO of buffered writes with a countdown to the next permitted write.
pub struct WriteQueue {
    pending: Vec<RegWrite>,
    wait: u64,
    now: Ghost<nat>,
    issued: Ghost<Seq<RegWrite>>,
    applied: Ghost<Seq<(RegWrite, nat)>>,
    ready: Ghost<nat>,
}

impl View for WriteQueue {
    type V = QueueState;

    closed spec fn view(&self) -> QueueState {
        QueueState {
            pending: self.pending@,
            wait: self.wait as nat,
            now: self.now@,
            issued: self.issued@,
            applied: self.applied@,
            ready: self.ready@,
        }
    }
}

impl WriteQueue {
    /// The queue's invariant.
    pub closed spec fn wf(&self) -> bool {
        &&& self.issued@ == applied_writes(self.applied@) + self.pending@
        &&& forall|i: int| 0 <= i < self.pending@.len() ==> #[trigger] self.pending@[i].reg < REGISTER_COUNT
        &&& spaced(self.applied@)
        &&& forall|i: int| 0 <= i < self.applied@.len() ==> #[trigger] self.applied@[i].1 < self.now@
        &&& self.applied@.len() > 0 ==> self.ready@ == self.applied@.last().1 + WRITE_DELAY
        &&& self.ready@ >= WRITE_DELAY
        &&& self.wait as int == if self.ready@ > self.now@ { self.ready@ - self.now@ } else { 0 }
    }

    /// An empty queue at tick zero. Tick zero counts as the time of the last
    /// write, so the first buffered write lands no earlier than `WRITE_DELAY`.
    pub fn new() -> (r: WriteQueue)
        ensures
            r.wf(),
            r@ == (QueueState {
                pending: Seq::empty(),
                wait: WRITE_DELAY as nat,
                now: 0,
                issued: Seq::empty(),
                applied: Seq::empty(),
                ready: WRITE_DELAY as nat,
            }),
    {
        let r = WriteQueue {
            pending: Vec::new(),
            wait: WRITE_DELAY,
            now: Ghost(0),
            issued: Ghost(Seq::empty()),
            applied: Ghost(Seq::empty()),
            ready: Ghost(WRITE_DELAY as nat),
        };
        assert(applied_writes(r.applied@) =~= Seq::empty());
        r
    }

    /// Number of writes waiting.
    pub fn len(&self) -> (r: usize)
        ensures
            r == self@.pending.len(),
    {
        self.pending.len()
    }

    /// Ticks that must still pass before the next write may be applied.
    pub fn wait(&self) -> (r: u64)
        ensures
            r == self@.wait,
    {
        self.wait
    }

    /// Appends a write at the back of the queue.
    pub fn push(&mut self, w: RegWrite)
        requires
            old(self).wf(),
            w.reg < REGISTER_COUNT,
        ensures
            final(self).wf(),
            final(self)@ == (QueueState {
                pending: old(self)@.pending.push(w),
                issued: old(self)@.issued.push(w),
                ..old(self)@
            }),
    {
        self.pending.push(w);
        self.issued = Ghost(self.issued@.push(w));
        assert(self.issued@ =~= applied_writes(self.applied@) + self.pending@);
    }

    /// Runs one tick: hands out the head write if the delay has passed, then
    /// counts the tick.
    pub fn step(&mut self) -> (r: Option<RegWrite>)
        requires
            old(self).wf(),
        ensures
            final(self).wf(),
            (final(self)@, r) == queue_step(old(self)@),
            r matches Some(w) ==> w.reg < REGISTER_COUNT,
    {
        if self.wait == 0 && self.pending.len() > 0 {
            let w = self.pending.remove(0);
            let ghost t = self.now@;
            let ghost old_applied = self.applied@;
            self.applied = Ghost(self.applied@.push((w, t)));
            self.ready = Ghost((t + WRITE_DELAY) as nat);
            self.now = Ghost(t + 1);
            self.wait = WRITE_DELAY - 1;
            assert(applied_writes(self.applied@) =~= applied_writes(old_applied).push(w));
            assert(self.issued@ =~= applied_writes(self.applied@) + self.pending@);
            assert(spaced(self.applied@)) by {
                assert forall|i: int| 0 < i < self.applied@.len() implies #[trigger] self.applied@[i].1
                    >= self.applied@[i - 1].1 + WRITE_DELAY by {
                    if i == self.applied@.len() - 1 && i > 0 {
                        assert(self.applied@[i - 1] == old_applied.last());
                    }
                }
            }
            Some(w)
        } else {
            if self.wait > 0 {
                self.wait = self.wait - 1;
            }
            self.now = Ghost(self.now@ + 1);
            None
        }
    }

    /// Writes leave in the order they were issued, none is lost, and two
    /// consecutive ones are applied at least `WRITE_DELAY` ticks apart; the
    /// next one waits for the same gap after the last.
    pub proof fn lemma_fifo_with_delay(&self)
        requires
            self.wf(),
        ensures
            self@.issued == applied_writes(self@.applied) + self@.pending,
            spaced(self@.applied),
            forall|i: int| 0 <= i < self@.applied.len() ==> #[trigger] self@.applied[i].1 < self@.now,
            self@.applied.len() > 0 ==> self@.ready == self@.applied.last().1 + WRITE_DELAY,
            self@.wait == if self@.ready > self@.now { self@.ready - self@.now } else { 0 },
    {
    }
}

} // verus!
