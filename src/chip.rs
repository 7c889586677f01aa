//! The chip state handle: register writes in and PCM frames out.
use vstd::prelude::*;
use crate::engine::{EngineOp, SynthEngine, inputs, op_input};
use crate::error::Opl3Error;
use crate::resample::{PHASE_ONE, MAX_RATIO, blend, blend_sample, rate_ratio, rate_supported, ratio_of};
use crate::schedule::{QueueState, RegWrite, WriteQueue, REGISTER_COUNT, queue_step, applied_writes, spaced, WRITE_DELAY};

verus! {

/// Shortest destination buffer that a single-frame generation accepts.
pub const SINGLE_FRAME_LEN: usize = 4;

/// Shortest destination buffer that a streaming generation accepts: one
/// stereo frame.
pub const STREAM_MIN_LEN: usize = 2;

/// What a chip handle looks like to a proof.
pub struct ChipState {
    /// Output rate in Hz, fixed when the handle was made.
    pub sample_rate: u32,
    /// Resampler position, in `PHASE_ONE` units past the older frame.
    pub phase: int,
    /// The older of the two native frames the resampler blends.
    pub prev: [i16; 4],
    /// The newer of the two native frames the resampler blends.
    pub cur: [i16; 4],
    /// The buffered-write queue.
    pub queue: QueueState,
    /// Everything handed to the engine since it was reset, in order.
    pub log: Seq<EngineOp>,
}

/// A freshly reset handle.
pub open spec fn fresh_state(sample_rate: u32) -> ChipState {
    ChipState {
        sample_rate,
        phase: 0,
        prev: [0i16, 0, 0, 0],
        cur: [0i16, 0, 0, 0],
        queue: QueueState {
            pending: Seq::empty(),
            wait: WRITE_DELAY as nat,
            now: 0,
            issued: Seq::empty(),
            applied: Seq::empty(),
            ready: WRITE_DELAY as nat,
        },
        log: Seq::empty(),
    }
}

/// The engine history just before the next tick renders: the buffered
/// write that is due, if any, has been handed over.
pub open spec fn log_with_due(s: ChipState) -> Seq<EngineOp> {
    match queue_step(s.queue).1 {
        Some(w) => s.log.push(EngineOp::Write(w)),
        None => s.log,
    }
}

/// The frame the engine renders on the next native tick.
pub open spec fn tick_frame<E: SynthEngine>(s: ChipState) -> [i16; 4] {
    E::frame_of(s.sample_rate, inputs(log_with_due(s)))
}

/// One native tick: the buffered write that is due, if any, reaches the
/// engine, then the engine renders `tick_frame`.
pub open spec fn after_tick<E: SynthEngine>(s: ChipState) -> ChipState {
    ChipState {
        queue: queue_step(s.queue).0,
        log: log_with_due(s).push(EngineOp::Render(tick_frame::<E>(s))),
        ..s
    }
}

/// `n` native ticks in a row.
pub open spec fn run<E: SynthEngine>(s: ChipState, n: nat) -> ChipState
    decreases n,
{
    if n == 0 {
        s
    } else {
        after_tick::<E>(run::<E>(s, (n - 1) as nat))
    }
}

/// The frame rendered on the `k`-th native tick from `s`, counting from zero.
pub open spec fn stream_frame<E: SynthEngine>(s: ChipState, k: nat) -> [i16; 4] {
    tick_frame::<E>(run::<E>(s, k))
}

/// The two frames the resampler blends after `n` native ticks from `s`.
pub open spec fn frames_after<E: SynthEngine>(s: ChipState, n: nat) -> ([i16; 4], [i16; 4]) {
    if n == 0 {
        (s.prev, s.cur)
    } else if n == 1 {
        (s.cur, stream_frame::<E>(s, 0))
    } else {
        (stream_frame::<E>(s, (n - 2) as nat), stream_frame::<E>(s, (n - 1) as nat))
    }
}

/// Native ticks one resampled frame takes.
pub open spec fn resample_ticks(s: ChipState) -> nat {
    (s.phase / rate_ratio(s.sample_rate)) as nat
}

/// One frame at the handle's rate.
pub open spec fn after_resample<E: SynthEngine>(s: ChipState) -> ChipState {
    let (p, c) = frames_after::<E>(s, resample_ticks(s));
    ChipState {
        phase: s.phase % rate_ratio(s.sample_rate) + PHASE_ONE,
        prev: p,
        cur: c,
        ..run::<E>(s, resample_ticks(s))
    }
}

/// Channel `i` of the next frame at the handle's rate.
pub open spec fn resampled_sample<E: SynthEngine>(s: ChipState, i: int) -> int {
    let (p, c) = frames_after::<E>(s, resample_ticks(s));
    let r = rate_ratio(s.sample_rate);
    blend(p[i], c[i], s.phase % r, r)
}

/// The state `n` native ticks into a resampled frame.
spec fn resample_partial<E: SynthEngine>(s: ChipState, n: nat) -> ChipState {
    let (p, c) = frames_after::<E>(s, n);
    ChipState {
        phase: s.phase - n * rate_ratio(s.sample_rate),
        prev: p,
        cur: c,
        ..run::<E>(s, n)
    }
}

proof fn lemma_run_keeps<E: SynthEngine>(s: ChipState, n: nat)
    ensures
        run::<E>(s, n).sample_rate == s.sample_rate,
        run::<E>(s, n).phase == s.phase,
        run::<E>(s, n).prev == s.prev,
        run::<E>(s, n).cur == s.cur,
    decreases n,
{
    if n > 0 {
        lemma_run_keeps::<E>(s, (n - 1) as nat);
    }
}

proof fn lemma_inputs_push(log: Seq<EngineOp>, op: EngineOp)
    ensures
        inputs(log.push(op)) == inputs(log).push(op_input(op)),
{
    assert(inputs(log.push(op)) =~= inputs(log).push(op_input(op)));
}

/// Audio is a function of what the engine was told: from two states at the
/// same rate, with the same queue and the same engine inputs, every
/// following native tick renders the same frame, and the states keep
/// agreeing. In particular two handles made at one rate and given one call
/// sequence produce identical audio.
pub proof fn lemma_audio_determined_by_inputs<E: SynthEngine>(s1: ChipState, s2: ChipState, n: nat)
    requires
        s1.sample_rate == s2.sample_rate,
        s1.queue == s2.queue,
        inputs(s1.log) == inputs(s2.log),
    ensures
        run::<E>(s1, n).queue == run::<E>(s2, n).queue,
        inputs(run::<E>(s1, n).log) == inputs(run::<E>(s2, n).log),
        forall|k: nat| k < n ==> #[trigger] stream_frame::<E>(s1, k) == stream_frame::<E>(s2, k),
    decreases n,
{
    if n > 0 {
        let m = (n - 1) as nat;
        lemma_audio_determined_by_inputs::<E>(s1, s2, m);
        lemma_run_keeps::<E>(s1, m);
        lemma_run_keeps::<E>(s2, m);
        let a = run::<E>(s1, m);
        let b = run::<E>(s2, m);
        match queue_step(a.queue).1 {
            Some(w) => {
                lemma_inputs_push(a.log, EngineOp::Write(w));
                lemma_inputs_push(b.log, EngineOp::Write(w));
            },
            None => {},
        }
        assert(tick_frame::<E>(a) == tick_frame::<E>(b));
        lemma_inputs_push(log_with_due(a), EngineOp::Render(tick_frame::<E>(a)));
        lemma_inputs_push(log_with_due(b), EngineOp::Render(tick_frame::<E>(b)));
        assert forall|k: nat| k < n implies #[trigger] stream_frame::<E>(s1, k) == stream_frame::<E>(s2, k) by {
            if k < m {
                assert(stream_frame::<E>(s1, k) == stream_frame::<E>(s2, k));
            }
        }
    }
}

/// One emulated OPL3 chip: an engine it owns alone, the queue of buffered
/// register writes, and the resampler to the handle's sample rate.
pub struct Opl3Chip<E> {
    engine: E,
    sample_rate: u32,
    ratio: i64,
    phase: i64,
    prev: [i16; 4],
    cur: [i16; 4],
    queue: WriteQueue,
}

impl<E: SynthEngine> View for Opl3Chip<E> {
    type V = ChipState;

    closed spec fn view(&self) -> ChipState {
        ChipState {
            sample_rate: self.sample_rate,
            phase: self.phase as int,
            prev: self.prev,
            cur: self.cur,
            queue: self.queue@,
            log: self.engine.history(),
        }
    }
}

impl<E: SynthEngine> Opl3Chip<E> {
    /// The handle's invariant.
    pub closed spec fn wf(&self) -> bool {
        &&& self.queue.wf()
        &&& self.engine.bound_rate() == self.sample_rate
        &&& rate_supported(self.sample_rate)
        &&& self.ratio == rate_ratio(self.sample_rate)
        &&& self.ratio <= MAX_RATIO
        &&& 0 <= self.phase < self.ratio + PHASE_ONE
    }

    /// Makes a chip bound to `sample_rate`, with a freshly reset engine.
    /// Fails with `InvalidConfiguration` on a rate below 49 Hz, zero
    /// included, before the engine is made.
    pub fn new(sample_rate: u32) -> (r: Result<Self, Opl3Error>)
        ensures
            rate_supported(sample_rate) <==> r is Ok,
            r is Ok ==> r->Ok_0.wf() && r->Ok_0@ == fresh_state(sample_rate),
            r is Err ==> r->Err_0 == (Opl3Error::InvalidConfiguration { sample_rate }),
    {
        let ratio = ratio_of(sample_rate);
        if ratio < 1 {
            return Err(Opl3Error::InvalidConfiguration { sample_rate });
        }
        let c = Opl3Chip {
            engine: E::reset(sample_rate),
            sample_rate,
            ratio,
            phase: 0,
            prev: [0i16, 0, 0, 0],
            cur: [0i16, 0, 0, 0],
            queue: WriteQueue::new(),
        };
        Ok(c)
    }

    /// Discards all state and starts again at `sample_rate`. On error the
    /// chip is left as it was.
    pub fn reset(&mut self, sample_rate: u32) -> (r: Result<(), Opl3Error>)
        requires
            old(self).wf(),
        ensures
            final(self).wf(),
            rate_supported(sample_rate) <==> r is Ok,
            r is Ok ==> final(self)@ == fresh_state(sample_rate),
            r is Err ==> r->Err_0 == (Opl3Error::InvalidConfiguration { sample_rate })
                && *final(self) == *old(self),
    {
        match Self::new(sample_rate) {
            Ok(c) => {
                *self = c;
                Ok(())
            },
            Err(e) => Err(e),
        }
    }

    /// The sample rate bound at construction.
    pub fn sample_rate(&self) -> (r: u32)
        ensures
            r == self@.sample_rate,
    {
        self.sample_rate
    }

    /// Number of buffered writes not yet applied.
    pub fn pending_writes(&self) -> (r: usize)
        requires
            self.wf(),
        ensures
            r == self@.queue.pending.len(),
    {
        self.queue.len()
    }

    /// Writes `value` to register `reg` at once: the engine has it before
    /// this returns, so the next frame rendered reflects it. Fails with
    /// `InvalidRegister` on an address above `0x1FF`.
    pub fn write_register(&mut self, reg: u16, value: u8) -> (r: Result<(), Opl3Error>)
        requires
            old(self).wf(),
        ensures
            final(self).wf(),
            reg < REGISTER_COUNT <==> r is Ok,
            r is Ok ==> final(self)@ == (ChipState {
                log: old(self)@.log.push(EngineOp::Write(RegWrite { reg, value })),
                ..old(self)@
            }),
            r is Err ==> r->Err_0 == (Opl3Error::InvalidRegister { reg }) && *final(self) == *old(self),
    {
        if reg >= REGISTER_COUNT {
            return Err(Opl3Error::InvalidRegister { reg });
        }
        self.engine.write_register(reg, value);
        Ok(())
    }

    /// Queues a write of `value` to register `reg`. It reaches the engine
    /// during a later generation call, after the writes queued before it and
    /// at least `WRITE_DELAY` native ticks after the previous one. Fails with
    /// `InvalidRegister` on an address above `0x1FF`.
    pub fn write_register_buffered(&mut self, reg: u16, value: u8) -> (r: Result<(), Opl3Error>)
        requires
            old(self).wf(),
        ensures
            final(self).wf(),
            reg < REGISTER_COUNT <==> r is Ok,
            r is Ok ==> final(self)@ == (ChipState {
                queue: QueueState {
                    pending: old(self)@.queue.pending.push(RegWrite { reg, value }),
                    issued: old(self)@.queue.issued.push(RegWrite { reg, value }),
                    ..old(self)@.queue
                },
                ..old(self)@
            }),
            r is Err ==> r->Err_0 == (Opl3Error::InvalidRegister { reg }) && *final(self) == *old(self),
    {
        if reg >= REGISTER_COUNT {
            return Err(Opl3Error::InvalidRegister { reg });
        }
        self.queue.push(RegWrite { reg, value });
        Ok(())
    }

    /// Buffered writes reach the engine in the order they were issued, none
    /// is dropped, and each lands at least `WRITE_DELAY` native ticks after
    /// the buffered write before it; the next one waits out the same gap.
    pub proof fn lemma_buffered_writes_fifo(&self)
        requires
            self.wf(),
        ensures
            self@.queue.issued == applied_writes(self@.queue.applied) + self@.queue.pending,
            spaced(self@.queue.applied),
            forall|i: int| 0 <= i < self@.queue.applied.len() ==> #[trigger] self@.queue.applied[i].1 < self@.queue.now,
            self@.queue.applied.len() > 0 ==> self@.queue.ready == self@.queue.applied.last().1 + WRITE_DELAY,
            self@.queue.wait == if self@.queue.ready > self@.queue.now {
                self@.queue.ready - self@.queue.now
            } else {
                0
            },
    {
        self.queue.lemma_fifo_with_delay();
    }

    /// One native tick: applies the buffered write that is due, then renders.
    fn tick(&mut self) -> (f: [i16; 4])
        requires
            old(self).wf(),
        ensures
            final(self).wf(),
            final(self)@ == after_tick::<E>(old(self)@),
            f == tick_frame::<E>(old(self)@),
    {
        let due = self.queue.step();
        match due {
            Some(w) => {
                self.engine.write_register(w.reg, w.value);
            },
            None => {},
        }
        self.engine.render_frame()
    }

    /// One frame at the handle's sample rate, blended from native frames.
    fn resampled_frame(&mut self) -> (out: [i16; 4])
        requires
            old(self).wf(),
        ensures
            final(self).wf(),
            final(self)@ == after_resample::<E>(old(self)@),
            forall|i: int| 0 <= i < 4 ==> out[i] == resampled_sample::<E>(old(self)@, i),
    {
        let ghost s0 = self@;
        let ghost mut n: nat = 0;
        proof {
            lemma_run_keeps::<E>(s0, n);
            assert(self@ == resample_partial::<E>(s0, n));
        }
        while self.phase >= self.ratio
            invariant
                self.wf(),
                s0.sample_rate == self.sample_rate,
                self.ratio == rate_ratio(s0.sample_rate),
                self@ == resample_partial::<E>(s0, n),
                self.phase >= 0,
            decreases self.phase,
        {
            proof {
                lemma_run_keeps::<E>(s0, n);
            }
            let f = self.tick();
            self.prev = self.cur;
            self.cur = f;
            self.phase = self.phase - self.ratio;
            proof {
                assert((n + 1) * self.ratio == n * self.ratio + self.ratio) by (nonlinear_arith);
                n = n + 1;
                lemma_run_keeps::<E>(s0, n);
                assert(self@ == resample_partial::<E>(s0, n));
            }
        }
        proof {
            let r = self.ratio as int;
            assert(s0.phase == n * r + self.phase);
            vstd::arithmetic::div_mod::lemma_fundamental_div_mod_converse(
                s0.phase, r, n as int, self.phase as int);
            assert(n * r == r * n) by (nonlinear_arith);
        }
        let p = self.phase;
        let r = self.ratio;
        let a = self.prev;
        let b = self.cur;
        let out = [
            blend_sample(a[0], b[0], p, r),
            blend_sample(a[1], b[1], p, r),
            blend_sample(a[2], b[2], p, r),
            blend_sample(a[3], b[3], p, r),
        ];
        self.phase = p + PHASE_ONE;
        out
    }

    /// Renders one native-rate frame and stores its first two channels in
    /// `buffer[0..2]`. Fails with `BufferTooSmall`, touching nothing, on a
    /// buffer shorter than `SINGLE_FRAME_LEN`.
    pub fn generate(&mut self, buffer: &mut [i16]) -> (r: Result<(), Opl3Error>)
        requires
            old(self).wf(),
        ensures
            final(self).wf(),
            old(buffer)@.len() >= SINGLE_FRAME_LEN <==> r is Ok,
            r is Ok ==> final(self)@ == after_tick::<E>(old(self)@)
                && final(buffer)@ == old(buffer)@.update(0, tick_frame::<E>(old(self)@)[0])
                    .update(1, tick_frame::<E>(old(self)@)[1]),
            r is Err ==> r->Err_0 == (Opl3Error::BufferTooSmall {
                len: old(buffer)@.len() as usize,
                required: SINGLE_FRAME_LEN,
            }) && *final(self) == *old(self) && final(buffer)@ == old(buffer)@,
    {
        if buffer.len() < SINGLE_FRAME_LEN {
            return Err(Opl3Error::BufferTooSmall { len: buffer.len(), required: SINGLE_FRAME_LEN });
        }
        let f = self.tick();
        buffer[0] = f[0];
        buffer[1] = f[1];
        Ok(())
    }

    /// Renders one native-rate frame and stores all four channels in
    /// `buffer[0..4]`. Fails with `BufferTooSmall`, touching nothing, on a
    /// buffer shorter than `SINGLE_FRAME_LEN`.
    pub fn generate_4ch(&mut self, buffer: &mut [i16]) -> (r: Result<(), Opl3Error>)
        requires
            old(self).wf(),
        ensures
            final(self).wf(),
            old(buffer)@.len() >= SINGLE_FRAME_LEN <==> r is Ok,
            r is Ok ==> final(self)@ == after_tick::<E>(old(self)@)
                && final(buffer)@ == old(buffer)@.update(0, tick_frame::<E>(old(self)@)[0])
                    .update(1, tick_frame::<E>(old(self)@)[1])
                    .update(2, tick_frame::<E>(old(self)@)[2])
                    .update(3, tick_frame::<E>(old(self)@)[3]),
            r is Err ==> r->Err_0 == (Opl3Error::BufferTooSmall {
                len: old(buffer)@.len() as usize,
                required: SINGLE_FRAME_LEN,
            }) && *final(self) == *old(self) && final(buffer)@ == old(buffer)@,
    {
        if buffer.len() < SINGLE_FRAME_LEN {
            return Err(Opl3Error::BufferTooSmall { len: buffer.len(), required: SINGLE_FRAME_LEN });
        }
        let f = self.tick();
        buffer[0] = f[0];
        buffer[1] = f[1];
        buffer[2] = f[2];
        buffer[3] = f[3];
        Ok(())
    }

    /// Produces one frame at the handle's sample rate and stores its first
    /// two channels in `buffer[0..2]`. Fails with `BufferTooSmall`, touching
    /// nothing, on a buffer shorter than `SINGLE_FRAME_LEN`.
    pub fn generate_resampled(&mut self, buffer: &mut [i16]) -> (r: Result<(), Opl3Error>)
        requires
            old(self).wf(),
        ensures
            final(self).wf(),
            old(buffer)@.len() >= SINGLE_FRAME_LEN <==> r is Ok,
            r is Ok ==> final(self)@ == after_resample::<E>(old(self)@)
                && final(buffer)@.len() == old(buffer)@.len()
                && final(buffer)@[0] == resampled_sample::<E>(old(self)@, 0)
                && final(buffer)@[1] == resampled_sample::<E>(old(self)@, 1)
                && forall|j: int| 2 <= j < old(buffer)@.len() ==> final(buffer)@[j] == old(buffer)@[j],
            r is Err ==> r->Err_0 == (Opl3Error::BufferTooSmall {
                len: old(buffer)@.len() as usize,
                required: SINGLE_FRAME_LEN,
            }) && *final(self) == *old(self) && final(buffer)@ == old(buffer)@,
    {
        if buffer.len() < SINGLE_FRAME_LEN {
            return Err(Opl3Error::BufferTooSmall { len: buffer.len(), required: SINGLE_FRAME_LEN });
        }
        let out = self.resampled_frame();
        buffer[0] = out[0];
        buffer[1] = out[1];
        Ok(())
    }

    /// Produces one frame at the handle's sample rate and stores all four
    /// channels in `buffer[0..4]`. Fails with `BufferTooSmall`, touching
    /// nothing, on a buffer shorter than `SINGLE_FRAME_LEN`.
    pub fn generate_4ch_resampled(&mut self, buffer: &mut [i16]) -> (r: Result<(), Opl3Error>)
        requires
            old(self).wf(),
        ensures
            final(self).wf(),
            old(buffer)@.len() >= SINGLE_FRAME_LEN <==> r is Ok,
            r is Ok ==> final(self)@ == after_resample::<E>(old(self)@)
                && final(buffer)@.len() == old(buffer)@.len()
                && (forall|i: int| 0 <= i < 4 ==> final(buffer)@[i] == resampled_sample::<E>(old(self)@, i))
                && forall|j: int| 4 <= j < old(buffer)@.len() ==> final(buffer)@[j] == old(buffer)@[j],
            r is Err ==> r->Err_0 == (Opl3Error::BufferTooSmall {
                len: old(buffer)@.len() as usize,
                required: SINGLE_FRAME_LEN,
            }) && *final(self) == *old(self) && final(buffer)@ == old(buffer)@,
    {
        if buffer.len() < SINGLE_FRAME_LEN {
            return Err(Opl3Error::BufferTooSmall { len: buffer.len(), required: SINGLE_FRAME_LEN });
        }
        let out = self.resampled_frame();
        buffer[0] = out[0];
        buffer[1] = out[1];
        buffer[2] = out[2];
        buffer[3] = out[3];
        Ok(())
    }

    /// Fills `buffer` with `buffer.len() / 2` native-rate stereo frames,
    /// one tick each, applying buffered writes as they fall due. An odd
    /// trailing sample is left alone, since frames are never split. Fails
    /// with `BufferTooSmall`, touching nothing, on a buffer that cannot hold
    /// one frame.
    pub fn generate_stream(&mut self, buffer: &mut [i16]) -> (r: Result<(), Opl3Error>)
        requires
            old(self).wf(),
        ensures
            final(self).wf(),
            old(buffer)@.len() >= STREAM_MIN_LEN <==> r is Ok,
            r is Ok ==> final(self)@ == run::<E>(old(self)@, (old(buffer)@.len() / 2) as nat),
            r is Ok ==> final(buffer)@.len() == old(buffer)@.len(),
            r is Ok ==> forall|k: int| 0 <= k < old(buffer)@.len() / 2 ==>
                final(buffer)@[2 * k] == #[trigger] stream_frame::<E>(old(self)@, k as nat)[0]
                && final(buffer)@[2 * k + 1] == stream_frame::<E>(old(self)@, k as nat)[1],
            r is Ok ==> forall|j: int| 2 * (old(buffer)@.len() / 2) <= j < old(buffer)@.len()
                ==> final(buffer)@[j] == old(buffer)@[j],
            r is Err ==> r->Err_0 == (Opl3Error::BufferTooSmall {
                len: old(buffer)@.len() as usize,
                required: STREAM_MIN_LEN,
            }) && *final(self) == *old(self) && final(buffer)@ == old(buffer)@,
    {
        if buffer.len() < STREAM_MIN_LEN {
            return Err(Opl3Error::BufferTooSmall { len: buffer.len(), required: STREAM_MIN_LEN });
        }
        let ghost s0 = self@;
        let ghost b0 = buffer@;
        let n = buffer.len();
        let frames = n / 2;
        let mut i: usize = 0;
        while i < frames
            invariant
                self.wf(),
                n == b0.len(),
                frames == n / 2,
                2 * frames <= n,
                i <= frames,
                self@ == run::<E>(s0, i as nat),
                buffer@.len() == b0.len(),
                forall|k: int| 0 <= k < i ==> buffer@[2 * k] == #[trigger] stream_frame::<E>(s0, k as nat)[0]
                    && buffer@[2 * k + 1] == stream_frame::<E>(s0, k as nat)[1],
                forall|j: int| 2 * i <= j < b0.len() ==> buffer@[j] == b0[j],
            decreases frames - i,
        {
            let f = self.tick();
            assert(f == stream_frame::<E>(s0, i as nat));
            let ghost i0 = i;
            let ghost before = buffer@;
            buffer[2 * i] = f[0];
            buffer[2 * i + 1] = f[1];
            assert(buffer@ == before.update(2 * i0, f[0]).update(2 * i0 + 1, f[1]));
            i = i + 1;
            assert forall|k: int| 0 <= k < i implies buffer@[2 * k] == #[trigger] stream_frame::<E>(s0, k as nat)[0]
                && buffer@[2 * k + 1] == stream_frame::<E>(s0, k as nat)[1] by {
                if k < i0 {
                    assert(before[2 * k] == stream_frame::<E>(s0, k as nat)[0]);
                    assert(buffer@[2 * k] == before[2 * k]);
                    assert(buffer@[2 * k + 1] == before[2 * k + 1]);
                } else {
                    assert(k == i0);
                    assert(buffer@[2 * k] == f[0]);
                    assert(buffer@[2 * k + 1] == f[1]);
                }
            }
        }
        assert(i == b0.len() / 2);
        assert forall|k: int| 0 <= k < old(buffer)@.len() / 2 implies
            buffer@[2 * k] == #[trigger] stream_frame::<E>(old(self)@, k as nat)[0]
            && buffer@[2 * k + 1] == stream_frame::<E>(old(self)@, k as nat)[1] by {
            assert(buffer@[2 * k] == stream_frame::<E>(s0, k as nat)[0]);
        }
        Ok(())
    }

    /// Fills `first` and `second` together with `first.len() / 2` native-rate
    /// frames, one tick each: channels 0 and 1 go to `first`, channels 2 and
    /// 3 to `second`, one pair per frame. Fails with `BufferMismatch` when
    /// the lengths differ, else with `BufferTooSmall` when they cannot hold
    /// one frame; either way nothing is touched.
    pub fn generate_4ch_stream(&mut self, first: &mut [i16], second: &mut [i16]) -> (r: Result<(), Opl3Error>)
        requires
            old(self).wf(),
        ensures
            final(self).wf(),
            (old(first)@.len() == old(second)@.len() && old(first)@.len() >= STREAM_MIN_LEN) <==> r is Ok,
            r is Ok ==> final(self)@ == run::<E>(old(self)@, (old(first)@.len() / 2) as nat)
                && final(first)@.len() == old(first)@.len()
                && final(second)@.len() == old(second)@.len()
                && (forall|k: int| 0 <= k < old(first)@.len() / 2 ==>
                    final(first)@[2 * k] == #[trigger] stream_frame::<E>(old(self)@, k as nat)[0]
                    && final(first)@[2 * k + 1] == stream_frame::<E>(old(self)@, k as nat)[1]
                    && final(second)@[2 * k] == stream_frame::<E>(old(self)@, k as nat)[2]
                    && final(second)@[2 * k + 1] == stream_frame::<E>(old(self)@, k as nat)[3])
                && forall|j: int| 2 * (old(first)@.len() / 2) <= j < old(first)@.len() ==>
                    final(first)@[j] == old(first)@[j] && final(second)@[j] == old(second)@[j],
            old(first)@.len() != old(second)@.len() ==> r == Err::<(), Opl3Error>(Opl3Error::BufferMismatch {
                first: old(first)@.len() as usize,
                second: old(second)@.len() as usize,
            }),
            old(first)@.len() == old(second)@.len() && old(first)@.len() < STREAM_MIN_LEN
                ==> r == Err::<(), Opl3Error>(Opl3Error::BufferTooSmall {
                len: old(first)@.len() as usize,
                required: STREAM_MIN_LEN,
            }),
            r is Err ==> *final(self) == *old(self) && final(first)@ == old(first)@
                && final(second)@ == old(second)@,
    {
        if first.len() != second.len() {
            return Err(Opl3Error::BufferMismatch { first: first.len(), second: second.len() });
        }
        if first.len() < STREAM_MIN_LEN {
            return Err(Opl3Error::BufferTooSmall { len: first.len(), required: STREAM_MIN_LEN });
        }
        let ghost s0 = self@;
        let ghost a0 = first@;
        let ghost b0 = second@;
        let n = first.len();
        let frames = n / 2;
        let mut i: usize = 0;
        while i < frames
            invariant
                self.wf(),
                n == a0.len(),
                frames == n / 2,
                2 * frames <= n,
                a0.len() == b0.len(),
                i <= frames,
                self@ == run::<E>(s0, i as nat),
                first@.len() == a0.len(),
                second@.len() == b0.len(),
                forall|k: int| 0 <= k < i ==> first@[2 * k] == #[trigger] stream_frame::<E>(s0, k as nat)[0]
                    && first@[2 * k + 1] == stream_frame::<E>(s0, k as nat)[1]
                    && second@[2 * k] == stream_frame::<E>(s0, k as nat)[2]
                    && second@[2 * k + 1] == stream_frame::<E>(s0, k as nat)[3],
                forall|j: int| 2 * i <= j < a0.len() ==> first@[j] == a0[j] && second@[j] == b0[j],
            decreases frames - i,
        {
            let f = self.tick();
            assert(f == stream_frame::<E>(s0, i as nat));
            let ghost i0 = i;
            let ghost fa = first@;
            let ghost fb = second@;
            first[2 * i] = f[0];
            first[2 * i + 1] = f[1];
            second[2 * i] = f[2];
            second[2 * i + 1] = f[3];
            assert(first@ == fa.update(2 * i0, f[0]).update(2 * i0 + 1, f[1]));
            assert(second@ == fb.update(2 * i0, f[2]).update(2 * i0 + 1, f[3]));
            i = i + 1;
            assert forall|k: int| 0 <= k < i implies first@[2 * k] == #[trigger] stream_frame::<E>(s0, k as nat)[0]
                && first@[2 * k + 1] == stream_frame::<E>(s0, k as nat)[1]
                && second@[2 * k] == stream_frame::<E>(s0, k as nat)[2]
                && second@[2 * k + 1] == stream_frame::<E>(s0, k as nat)[3] by {
                if k < i0 {
                    assert(fa[2 * k] == stream_frame::<E>(s0, k as nat)[0]);
                    assert(first@[2 * k] == fa[2 * k] && first@[2 * k + 1] == fa[2 * k + 1]);
                    assert(second@[2 * k] == fb[2 * k] && second@[2 * k + 1] == fb[2 * k + 1]);
                } else {
                    assert(k == i0);
                    assert(first@[2 * k] == f[0] && first@[2 * k + 1] == f[1]);
                    assert(second@[2 * k] == f[2] && second@[2 * k + 1] == f[3]);
                }
            }
        }
        assert(i == a0.len() / 2);
        assert forall|k: int| 0 <= k < old(first)@.len() / 2 implies
            first@[2 * k] == #[trigger] stream_frame::<E>(old(self)@, k as nat)[0]
            && first@[2 * k + 1] == stream_frame::<E>(old(self)@, k as nat)[1]
            && second@[2 * k] == stream_frame::<E>(old(self)@, k as nat)[2]
            && second@[2 * k + 1] == stream_frame::<E>(old(self)@, k as nat)[3] by {
            assert(first@[2 * k] == stream_frame::<E>(s0, k as nat)[0]);
        }
        Ok(())
    }
}

} // verus!
