//! The boundary to the synthesis engine that renders audio.
use vstd::prelude::*;
use crate::schedule::{RegWrite, REGISTER_COUNT};

verus! {

/// One operation handed to an engine, as recorded in its history.
pub enum EngineOp {
    Write(RegWrite),
    Render([i16; 4]),
}

/// The write an operation carries, if it is one.
pub open spec fn op_input(op: EngineOp) -> Option<RegWrite> {
    match op {
        EngineOp::Write(w) => Some(w),
        EngineOp::Render(_) => None,
    }
}

/// A history with the rendered audio taken out: what the engine was told,
/// with a `None` for each tick.
pub open spec fn inputs(log: Seq<EngineOp>) -> Seq<Option<RegWrite>> {
    log.map_values(|op: EngineOp| op_input(op))
}

/// A synthesis engine: the oscillator, envelope and mixing arithmetic of one
/// emulated chip. It is deterministic: each frame it renders is a function
/// of its sample rate and of what it was told since its reset.
pub trait SynthEngine: Sized {
    /// The sample rate the engine was reset with.
    spec fn bound_rate(&self) -> u32;

    /// Every operation the engine has carried out since its reset, in order.
    spec fn history(&self) -> Seq<EngineOp>;

    /// The frame rendered by an engine at `sample_rate` whose history so far
    /// holds the inputs `told`.
    spec fn frame_of(sample_rate: u32, told: Seq<Option<RegWrite>>) -> [i16; 4];

    /// Fresh engine state, as after a hardware reset, bound to `sample_rate`.
    fn reset(sample_rate: u32) -> (r: Self)
        ensures
            r.bound_rate() == sample_rate,
            r.history() == Seq::<EngineOp>::empty(),
    ;

    /// Applies one register write at once.
    fn write_register(&mut self, reg: u16, value: u8)
        requires
            reg < REGISTER_COUNT,
        ensures
            final(self).bound_rate() == old(self).bound_rate(),
            final(self).history() == old(self).history().push(EngineOp::Write(RegWrite { reg, value })),
    ;

    /// Advances the engine by one tick at its native rate and returns the
    /// four-channel frame of that tick.
    fn render_frame(&mut self) -> (r: [i16; 4])
        ensures
            r == Self::frame_of(old(self).bound_rate(), inputs(old(self).history())),
            final(self).bound_rate() == old(self).bound_rate(),
            final(self).history() == old(self).history().push(EngineOp::Render(r)),
    ;
}

/// An engine that renders silence: every frame is zero. It lets a handle be
/// driven, and its write timing observed, with no synthesis behind it.
pub struct SilentEngine {
    rate: u32,
    log: Ghost<Seq<EngineOp>>,
}

impl SynthEngine for SilentEngine {
    closed spec fn bound_rate(&self) -> u32 {
        self.rate
    }

    closed spec fn history(&self) -> Seq<EngineOp> {
        self.log@
    }

    open spec fn frame_of(sample_rate: u32, told: Seq<Option<RegWrite>>) -> [i16; 4] {
        [0i16, 0, 0, 0]
    }

    fn reset(sample_rate: u32) -> (r: Self) {
        SilentEngine { rate: sample_rate, log: Ghost(Seq::empty()) }
    }

    fn write_register(&mut self, reg: u16, value: u8) {
        self.log = Ghost(self.log@.push(EngineOp::Write(RegWrite { reg, value })));
    }

    fn render_frame(&mut self) -> (r: [i16; 4]) {
        let r = [0i16, 0, 0, 0];
        self.log = Ghost(self.log@.push(EngineOp::Render(r)));
        r
    }
}

/// Number of ticks among the inputs `told`.
pub open spec fn ticks_in(told: Seq<Option<RegWrite>>) -> nat
    decreases told.len(),
{
    if told.len() == 0 {
        0
    } else {
        ticks_in(told.drop_last()) + if told.last() is None { 1nat } else { 0nat }
    }
}

/// Number of writes among the inputs `told`.
pub open spec fn writes_in(told: Seq<Option<RegWrite>>) -> nat
    decreases told.len(),
{
    if told.len() == 0 {
        0
    } else {
        writes_in(told.drop_last()) + if told.last() is Some { 1nat } else { 0nat }
    }
}

/// The last write among the inputs `told`, or a zero write to register 0.
pub open spec fn last_write(told: Seq<Option<RegWrite>>) -> RegWrite
    decreases told.len(),
{
    if told.len() == 0 {
        RegWrite { reg: 0, value: 0 }
    } else {
        match told.last() {
            Some(w) => w,
            None => last_write(told.drop_last()),
        }
    }
}

/// Counters in an echo frame run modulo this.
pub const ECHO_WRAP: u16 = 0x8000;

/// An engine whose audio reports what it was told. Each frame holds the
/// register and value of the last write, the number of this tick counting
/// from one, and the number of writes so far; the counts wrap at
/// `ECHO_WRAP`. It shows a driver exactly when each write took effect.
pub struct EchoEngine {
    rate: u32,
    last: RegWrite,
    ticks: u16,
    writes: u16,
    log: Ghost<Seq<EngineOp>>,
}

impl EchoEngine {
    #[verifier::type_invariant]
    spec fn echoes_history(&self) -> bool {
        &&& self.last == last_write(inputs(self.log@))
        &&& self.last.reg < REGISTER_COUNT
        &&& self.ticks as nat == ticks_in(inputs(self.log@)) % (ECHO_WRAP as nat)
        &&& self.writes as nat == writes_in(inputs(self.log@)) % (ECHO_WRAP as nat)
    }
}

proof fn lemma_inputs_step(log: Seq<EngineOp>, op: EngineOp)
    ensures
        inputs(log.push(op)).drop_last() == inputs(log),
        inputs(log.push(op)).last() == op_input(op),
        inputs(log.push(op)).len() > 0,
{
    assert(inputs(log.push(op)).drop_last() =~= inputs(log));
}

impl SynthEngine for EchoEngine {
    closed spec fn bound_rate(&self) -> u32 {
        self.rate
    }

    closed spec fn history(&self) -> Seq<EngineOp> {
        self.log@
    }

    open spec fn frame_of(sample_rate: u32, told: Seq<Option<RegWrite>>) -> [i16; 4] {
        [
            last_write(told).reg as i16,
            last_write(told).value as i16,
            ((ticks_in(told) + 1) % (ECHO_WRAP as nat)) as i16,
            (writes_in(told) % (ECHO_WRAP as nat)) as i16,
        ]
    }

    fn reset(sample_rate: u32) -> (r: Self) {
        let r = EchoEngine {
            rate: sample_rate,
            last: RegWrite { reg: 0, value: 0 },
            ticks: 0,
            writes: 0,
            log: Ghost(Seq::empty()),
        };
        assert(inputs(r.log@) =~= Seq::<Option<RegWrite>>::empty());
        r
    }

    fn write_register(&mut self, reg: u16, value: u8) {
        proof {
            use_type_invariant(&*self);
        }
        let ghost told = inputs(self.log@);
        let w = RegWrite { reg, value };
        let log = Ghost(self.log@.push(EngineOp::Write(w)));
        proof {
            lemma_inputs_step(self.log@, EngineOp::Write(w));
        }
        let writes = if self.writes == ECHO_WRAP - 1 { 0 } else { self.writes + 1 };
        *self = EchoEngine { rate: self.rate, last: w, ticks: self.ticks, writes, log };
    }

    fn render_frame(&mut self) -> (r: [i16; 4]) {
        proof {
            use_type_invariant(&*self);
        }
        let ticks = if self.ticks == ECHO_WRAP - 1 { 0 } else { self.ticks + 1 };
        let r = [self.last.reg as i16, self.last.value as i16, ticks as i16, self.writes as i16];
        let log = Ghost(self.log@.push(EngineOp::Render(r)));
        proof {
            lemma_inputs_step(self.log@, EngineOp::Render(r));
        }
        *self = EchoEngine { rate: self.rate, last: self.last, ticks, writes: self.writes, log };
        r
    }
}

} // verus!
