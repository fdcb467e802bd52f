//! The tempo clock: turns "one more output frame" into a position on the grid.
use vstd::arithmetic::div_mod::{lemma_fundamental_div_mod_converse, lemma_small_mod};
use vstd::prelude::*;

verus! {

/// Frames that make one beat at `bpm` beats per minute and `rate` frames per second.
pub open spec fn frames_per_beat_of(bpm: nat, rate: nat) -> nat {
    (rate * 60) / bpm
}

/// Whether a clock can run at this tempo: the division is defined, the product
/// fits a machine word, and a beat lasts at least one frame.
pub open spec fn valid_tempo(bpm: usize, rate: usize) -> bool {
    &&& bpm > 0
    &&& rate * 60 <= usize::MAX
    &&& frames_per_beat_of(bpm as nat, rate as nat) >= 1
}

/// A position in the pattern: the beat and the frame within that beat.
pub struct Looper {
    pub beat: usize,
    pub sub_beat_frame: usize,
    pub frames_per_beat: usize,
    pub pattern_len: usize,
}

impl Looper {
    pub open spec fn wf(&self) -> bool {
        &&& self.frames_per_beat >= 1
        &&& self.pattern_len >= 1
        &&& self.beat < self.pattern_len
        &&& self.sub_beat_frame < self.frames_per_beat
    }

    /// Frames in one full pass of the pattern.
    pub open spec fn period(&self) -> int {
        self.pattern_len * self.frames_per_beat
    }

    /// Frames elapsed since the start of the pattern.
    pub open spec fn position(&self) -> int {
        self.beat * self.frames_per_beat + self.sub_beat_frame
    }

    /// The phase that one more frame leads to.
    pub open spec fn stepped(&self) -> Looper {
        if self.sub_beat_frame + 1 < self.frames_per_beat {
            Looper { sub_beat_frame: (self.sub_beat_frame + 1) as usize, ..*self }
        } else {
            Looper { beat: ((self.beat + 1) % (self.pattern_len as int)) as usize, sub_beat_frame: 0, ..*self }
        }
    }

    /// The phase after `k` more frames.
    pub open spec fn advanced(&self, k: nat) -> Looper
        decreases k,
    {
        if k == 0 {
            *self
        } else {
            self.advanced((k - 1) as nat).stepped()
        }
    }

    /// Position within the pattern of the phase after one frame.
    pub proof fn lemma_stepped_position(&self)
        requires
            self.wf(),
        ensures
            self.stepped().wf(),
            self.stepped().frames_per_beat == self.frames_per_beat,
            self.stepped().pattern_len == self.pattern_len,
            self.stepped().position() == (self.position() + 1) % self.period(),
    {
        let b = self.beat as int;
        let f = self.frames_per_beat as int;
        let n = self.pattern_len as int;
        let x = self.sub_beat_frame as int;
        let s = self.stepped();
        assert(b * f + x + 1 <= n * f) by (nonlinear_arith)
            requires 0 <= b < n, 0 <= x < f;
        if x + 1 < f {
            assert(s.position() == self.position() + 1);
            assert(b * f + x + 1 < n * f) by (nonlinear_arith)
                requires 0 <= b < n, 0 <= x, x + 1 < f;
        } else if b + 1 < n {
            lemma_small_mod((b + 1) as nat, n as nat);
            assert(s.position() == (b + 1) * f) by (nonlinear_arith)
                requires s.position() == s.beat * f + s.sub_beat_frame, s.beat == b + 1, s.sub_beat_frame == 0;
            assert((b + 1) * f == b * f + f) by (nonlinear_arith);
            assert(self.position() + 1 < self.period()) by (nonlinear_arith)
                requires self.position() + 1 == (b + 1) * f, b + 1 < n, f >= 1, self.period() == n * f;
        } else {
            vstd::arithmetic::div_mod::lemma_mod_self_0(n);
            assert(s.beat == 0);
            assert((b + 1) * f == b * f + f) by (nonlinear_arith);
            assert(self.position() + 1 == self.period());
        }
        if self.position() + 1 < self.period() {
            lemma_small_mod((self.position() + 1) as nat, self.period() as nat);
        }
    }

    /// Where the phase stands after `k` more frames: `k` frames further on,
    /// counted round the pattern.
    pub proof fn lemma_advanced_position(&self, k: nat)
        requires
            self.wf(),
        ensures
            self.advanced(k).wf(),
            self.advanced(k).frames_per_beat == self.frames_per_beat,
            self.advanced(k).pattern_len == self.pattern_len,
            self.advanced(k).position() == (self.position() + k) % self.period(),
        decreases k,
    {
        self.lemma_position_in_period();
        if k == 0 {
            lemma_small_mod(self.position() as nat, self.period() as nat);
        } else {
            let prev = self.advanced((k - 1) as nat);
            self.lemma_advanced_position((k - 1) as nat);
            prev.lemma_stepped_position();
            let p = self.period();
            vstd::arithmetic::div_mod::lemma_add_mod_noop_right(1, self.position() + k - 1, p);
        }
    }

    /// A phase lies within one pass of the pattern.
    pub proof fn lemma_position_in_period(&self)
        requires
            self.wf(),
        ensures
            0 <= self.position() < self.period(),
    {
        let b = self.beat as int;
        let f = self.frames_per_beat as int;
        let n = self.pattern_len as int;
        let x = self.sub_beat_frame as int;
        assert(0 <= b * f + x < n * f) by (nonlinear_arith)
            requires 0 <= b < n, 0 <= x < f;
    }

    /// Two phases of one clock with the same position are the same phase.
    pub proof fn lemma_position_determines(&self, other: Looper)
        requires
            self.wf(),
            other.wf(),
            other.frames_per_beat == self.frames_per_beat,
            other.pattern_len == self.pattern_len,
            other.position() == self.position(),
        ensures
            other == *self,
    {
        let f = self.frames_per_beat as int;
        lemma_fundamental_div_mod_converse(self.position(), f, self.beat as int, self.sub_beat_frame as int);
        lemma_fundamental_div_mod_converse(other.position(), f, other.beat as int, other.sub_beat_frame as int);
    }

    /// A clock at the start of the pattern.
    pub fn new(bpm: usize, rate: usize, pattern_len: usize) -> (r: Looper)
        requires
            valid_tempo(bpm, rate),
            pattern_len >= 1,
        ensures
            r.wf(),
            r.beat == 0,
            r.sub_beat_frame == 0,
            r.frames_per_beat == frames_per_beat_of(bpm as nat, rate as nat),
            r.pattern_len == pattern_len,
    {
        let frames_per_beat: usize = (rate * 60) / bpm;
        Looper { beat: 0, sub_beat_frame: 0, frames_per_beat, pattern_len }
    }

    /// Moves on by one frame and returns the new `(beat, sub_beat_frame)`.
    pub fn next(&mut self) -> (r: (usize, usize))
        requires
            old(self).wf(),
        ensures
            *final(self) == old(self).stepped(),
            final(self).wf(),
            r == (final(self).beat, final(self).sub_beat_frame),
    {
        let sample: usize = self.sub_beat_frame + 1;
        let new_beats: usize = sample / self.frames_per_beat;
        proof {
            let f = self.frames_per_beat as int;
            let x = sample as int;
            if x < f {
                assert(x / f == 0 && x % f == x) by (nonlinear_arith)
                    requires 0 <= x < f;
                let b = self.beat as int;
                let n = self.pattern_len as int;
                assert(b % n == b) by (nonlinear_arith)
                    requires 0 <= b < n;
            } else {
                assert(x / f == 1 && x % f == 0) by (nonlinear_arith)
                    requires x == f, f >= 1;
            }
        }
        self.sub_beat_frame = sample % self.frames_per_beat;
        self.beat = (self.beat + new_beats) % self.pattern_len;
        (self.beat, self.sub_beat_frame)
    }
}

/// Advancing a clock by one full pass of the pattern, `pattern_len ×
/// frames_per_beat` frames, brings it back to the phase it started from; in
/// particular a fresh clock returns to beat 0, frame 0.
pub proof fn looper_periodic(l: Looper)
    requires
        l.wf(),
    ensures
        l.advanced(l.period() as nat) == l,
        l.beat == 0 && l.sub_beat_frame == 0 ==> l.advanced(l.period() as nat).beat == 0
            && l.advanced(l.period() as nat).sub_beat_frame == 0,
{
    l.lemma_position_in_period();
    let p = l.period();
    l.lemma_advanced_position(p as nat);
    vstd::arithmetic::div_mod::lemma_mod_add_multiples_vanish(l.position(), p);
    lemma_small_mod(l.position() as nat, p as nat);
    l.lemma_position_determines(l.advanced(p as nat));
}

} // verus!
