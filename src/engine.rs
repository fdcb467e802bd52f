//! The real-time side: the state last received, the clock, and the renderer
//! that fills stereo output buffers.
use crate::config::Config;
use crate::looper::{valid_tempo, Looper};
use crate::state::{EngineState, EngineView};
use crate::track::AudioTrack;
use vstd::prelude::*;

verus! {

/// Ticks the first `n` track slots of `v` at clock phase `(beat, sub)`, in slot
/// order. Gives the tracks afterwards and the sums of the left and right values
/// of every assigned track among them; an empty slot adds nothing.
pub open spec fn mix_prefix(v: EngineView, beat: int, sub: usize, n: nat) -> (Seq<Option<AudioTrack>>, int, int)
    decreases n,
{
    if n == 0 {
        (v.tracks, 0, 0)
    } else {
        let i = n - 1;
        let prev = mix_prefix(v, beat, sub, (n - 1) as nat);
        match v.tracks[i] {
            None => prev,
            Some(t) => {
                let (t2, out) = t.ticked(v.step_on(i, beat), sub);
                (prev.0.update(i, Some(t2)), prev.1 + out.0, prev.2 + out.1)
            },
        }
    }
}

/// One output frame: the clock moves on by one frame, then every track is
/// ticked at the new phase and the tracks' values are summed.
pub open spec fn rendered_frame(v: EngineView, lp: Looper) -> (EngineView, Looper, (int, int)) {
    let lp2 = lp.stepped();
    let m = mix_prefix(v, lp2.beat as int, lp2.sub_beat_frame, v.tracks.len());
    (EngineView { tracks: m.0, ..v }, lp2, (m.1, m.2))
}

/// `n` output frames while playing: the state and clock afterwards and the frames.
pub open spec fn rendered(v: EngineView, lp: Looper, n: nat) -> (EngineView, Looper, Seq<(int, int)>)
    decreases n,
{
    if n == 0 {
        (v, lp, Seq::empty())
    } else {
        let prev = rendered(v, lp, (n - 1) as nat);
        let f = rendered_frame(prev.0, prev.1);
        (f.0, f.1, prev.2.push(f.2))
    }
}

/// A buffer of `n` frames: silence with nothing moved while paused, otherwise
/// `n` rendered frames.
pub open spec fn buffer(v: EngineView, lp: Looper, n: nat) -> (EngineView, Looper, Seq<(int, int)>) {
    if v.playing {
        rendered(v, lp, n)
    } else {
        (v, lp, Seq::new(n, |k: int| (0int, 0int)))
    }
}

/// The tracks and sums of `mix_prefix` stay in shape: slots keep their
/// assignment, later slots are untouched, tracks stay well formed, and each sum
/// is bounded by the number of slots mixed.
pub proof fn lemma_mix_prefix(v: EngineView, beat: int, sub: usize, n: nat)
    requires
        v.wf(),
        n <= v.tracks.len(),
    ensures
        mix_prefix(v, beat, sub, n).0.len() == v.tracks.len(),
        forall|j: int| n <= j < v.tracks.len() ==> #[trigger] mix_prefix(v, beat, sub, n).0[j] == v.tracks[j],
        forall|j: int| 0 <= j < v.tracks.len() ==> (#[trigger] mix_prefix(v, beat, sub, n).0[j] is Some
            <==> v.tracks[j] is Some),
        forall|j: int| 0 <= j < v.tracks.len() ==> (#[trigger] mix_prefix(v, beat, sub, n).0[j] matches Some(t) ==> t.wf()),
        -32768 * n <= mix_prefix(v, beat, sub, n).1 <= 32768 * n,
        -32768 * n <= mix_prefix(v, beat, sub, n).2 <= 32768 * n,
    decreases n,
{
    if n > 0 {
        lemma_mix_prefix(v, beat, sub, (n - 1) as nat);
        let m = mix_prefix(v, beat, sub, n);
        let p = mix_prefix(v, beat, sub, (n - 1) as nat);
        assert forall|j: int| 0 <= j < v.tracks.len() implies (#[trigger] m.0[j] matches Some(t) ==> t.wf()) by {
            if j != n - 1 {
                assert(m.0[j] == p.0[j]);
            }
        }
        assert(32768 * n == 32768 * (n - 1) + 32768) by (nonlinear_arith);
    }
}

/// The frames rendered keep the state in shape and move the clock on by one
/// frame each.
pub proof fn lemma_rendered(v: EngineView, lp: Looper, n: nat)
    requires
        v.wf(),
        lp.wf(),
        lp.pattern_len == v.config.steps(),
    ensures
        rendered(v, lp, n).0.wf(),
        rendered(v, lp, n).0.config == v.config,
        rendered(v, lp, n).0.grid == v.grid,
        rendered(v, lp, n).0.playing == v.playing,
        rendered(v, lp, n).0.bpm == v.bpm,
        rendered(v, lp, n).1 == lp.advanced(n),
        rendered(v, lp, n).2.len() == n,
        forall|j: int| 0 <= j < v.tracks.len() ==> (#[trigger] rendered(v, lp, n).0.tracks[j] is Some
            <==> v.tracks[j] is Some),
    decreases n,
{
    if n > 0 {
        lemma_rendered(v, lp, (n - 1) as nat);
        let prev = rendered(v, lp, (n - 1) as nat);
        lp.lemma_advanced_position((n - 1) as nat);
        let lp2 = prev.1.stepped();
        lemma_mix_prefix(prev.0, lp2.beat as int, lp2.sub_beat_frame, prev.0.tracks.len());
    }
}

/// The state the real-time side holds after adopting `snapshots` in order,
/// one by one, starting from `current`.
pub open spec fn adopted_all(current: EngineView, snapshots: Seq<EngineView>) -> EngineView
    decreases snapshots.len(),
{
    if snapshots.len() == 0 {
        current
    } else {
        adopted_all(snapshots[0], snapshots.subrange(1, snapshots.len() as int))
    }
}

/// Adopting a nonempty run of snapshots leaves the last of them.
pub proof fn lemma_adopted_all_last(current: EngineView, snapshots: Seq<EngineView>)
    requires
        snapshots.len() > 0,
    ensures
        adopted_all(current, snapshots) == snapshots.last(),
    decreases snapshots.len(),
{
    let rest = snapshots.subrange(1, snapshots.len() as int);
    if rest.len() > 0 {
        lemma_adopted_all_last(snapshots[0], rest);
        assert(rest.last() == snapshots.last());
    } else {
        assert(adopted_all(snapshots[0], rest) == snapshots[0]);
    }
}

/// Pausing keeps the clock where it stood and gives silence, however many
/// frames go by; playing resumed afterwards goes on from that very phase, `m`
/// frames on after `m` frames, not from the start of the pattern.
pub proof fn pause_freezes_position(paused: EngineView, resumed: EngineView, lp: Looper, n: nat, m: nat)
    requires
        paused.wf(),
        !paused.playing,
        resumed.wf(),
        resumed.playing,
        resumed.config == paused.config,
        lp.wf(),
        lp.pattern_len == paused.config.steps(),
    ensures
        buffer(paused, lp, n).1 == lp,
        buffer(paused, lp, n).2 == Seq::new(n, |k: int| (0int, 0int)),
        buffer(resumed, buffer(paused, lp, n).1, m).1 == lp.advanced(m),
{
    lemma_rendered(resumed, lp, m);
}

/// However many of the reducer's published snapshots are dropped on the way,
/// the real-time side ends on the reducer's final state as long as the last
/// one is delivered: `delivered` lists, in increasing order, the indices of
/// the snapshots that arrive.
pub proof fn latest_snapshot_wins(current: EngineView, published: Seq<EngineView>, delivered: Seq<int>)
    requires
        published.len() > 0,
        delivered.len() > 0,
        forall|a: int, b: int| 0 <= a < b < delivered.len() ==> delivered[a] < delivered[b],
        forall|a: int| 0 <= a < delivered.len() ==> 0 <= #[trigger] delivered[a] < published.len(),
        delivered.last() == published.len() - 1,
    ensures
        adopted_all(current, delivered.map_values(|i: int| published[i])) == published.last(),
{
    lemma_adopted_all_last(current, delivered.map_values(|i: int| published[i]));
}

/// Two states that differ at most in the grid row of slot `i`, which holds no
/// track, mix the same tracks and sums.
pub proof fn lemma_mix_ignores_row(v: EngineView, w: EngineView, i: int, beat: int, sub: usize, n: nat)
    requires
        v.wf(),
        w.tracks == v.tracks,
        0 <= i < v.tracks.len(),
        v.tracks[i] is None,
        n <= v.tracks.len(),
        0 <= beat < v.config.steps(),
        forall|j: int| 0 <= j < v.tracks.len() && j != i ==> #[trigger] w.step_on(j, beat) == v.step_on(j, beat),
    ensures
        mix_prefix(w, beat, sub, n) == mix_prefix(v, beat, sub, n),
    decreases n,
{
    if n > 0 {
        lemma_mix_ignores_row(v, w, i, beat, sub, (n - 1) as nat);
        if n - 1 != i {
            assert(w.step_on(n - 1, beat) == v.step_on(n - 1, beat));
        }
    }
}

/// A slot with no sample never adds anything to the output: rendering gives
/// the same frames whatever its grid row holds.
pub proof fn unassigned_track_silent(v: EngineView, w: EngineView, i: int, lp: Looper, n: nat)
    requires
        v.wf(),
        w.wf(),
        w.config == v.config,
        w.tracks == v.tracks,
        w.playing == v.playing,
        0 <= i < v.tracks.len(),
        v.tracks[i] is None,
        forall|j: int, s: int| 0 <= j < v.tracks.len() && j != i && 0 <= s < v.config.steps()
            ==> #[trigger] w.step_on(j, s) == v.step_on(j, s),
        lp.wf(),
        lp.pattern_len == v.config.steps(),
    ensures
        buffer(w, lp, n).2 == buffer(v, lp, n).2,
{
    lemma_rendered_ignores_row(v, w, i, lp, n);
}

/// Rendering two states that differ at most in the row of empty slot `i`
/// moves both the same way.
pub proof fn lemma_rendered_ignores_row(v: EngineView, w: EngineView, i: int, lp: Looper, n: nat)
    requires
        v.wf(),
        w.wf(),
        w.config == v.config,
        w.tracks == v.tracks,
        0 <= i < v.tracks.len(),
        v.tracks[i] is None,
        forall|j: int, s: int| 0 <= j < v.tracks.len() && j != i && 0 <= s < v.config.steps()
            ==> #[trigger] w.step_on(j, s) == v.step_on(j, s),
        lp.wf(),
        lp.pattern_len == v.config.steps(),
    ensures
        rendered(w, lp, n).0.tracks == rendered(v, lp, n).0.tracks,
        rendered(w, lp, n).1 == rendered(v, lp, n).1,
        rendered(w, lp, n).2 == rendered(v, lp, n).2,
    decreases n,
{
    lemma_rendered(v, lp, n);
    lemma_rendered(w, lp, n);
    if n > 0 {
        lemma_rendered_ignores_row(v, w, i, lp, (n - 1) as nat);
        lp.lemma_advanced_position((n - 1) as nat);
        lemma_rendered(v, lp, (n - 1) as nat);
        lemma_rendered(w, lp, (n - 1) as nat);
        let pv = rendered(v, lp, (n - 1) as nat);
        let pw = rendered(w, lp, (n - 1) as nat);
        let lp2 = pv.1.stepped();
        pv.1.lemma_stepped_position();
        lemma_mix_prefix(pv.0, lp2.beat as int, lp2.sub_beat_frame, pv.0.tracks.len());
        assert(pv.0.tracks[i] is None);
        assert forall|j: int| 0 <= j < pv.0.tracks.len() && j != i
            implies #[trigger] pw.0.step_on(j, lp2.beat as int) == pv.0.step_on(j, lp2.beat as int) by {
            assert(w.step_on(j, lp2.beat as int) == v.step_on(j, lp2.beat as int));
        }
        lemma_mix_ignores_row(pv.0, pw.0, i, lp2.beat as int, lp2.sub_beat_frame, pv.0.tracks.len());
    }
}

/// The real-time engine: the state last adopted and the clock.
pub struct Engine {
    pub state: EngineState,
    pub looper: Looper,
}

impl Engine {
    pub open spec fn wf(&self) -> bool {
        &&& self.state.wf()
        &&& self.looper.wf()
        &&& self.looper.pattern_len == self.state.config.steps()
    }

    /// An engine with the initial state of `config`, its clock at the start of
    /// the pattern at the configured tempo and output rate `rate`.
    pub fn new(config: Config, rate: usize) -> (r: Engine)
        requires
            config.wf(),
            valid_tempo(config.default_bpm, rate),
        ensures
            r.wf(),
            r.state@ == EngineState::new_view(config),
            r.looper.beat == 0,
            r.looper.sub_beat_frame == 0,
            r.looper.frames_per_beat == crate::looper::frames_per_beat_of(config.default_bpm as nat, rate as nat),
    {
        let state = EngineState::new(config);
        proof {
            assert(config.bars * config.beats_per_bar >= 1) by (nonlinear_arith)
                requires config.bars >= 1, config.beats_per_bar >= 1;
        }
        let looper = Looper::new(config.default_bpm, rate, config.pattern_len());
        Engine { state, looper }
    }

    /// Takes a published snapshot as the state to play; the clock goes on
    /// from where it stands.
    pub fn adopt(&mut self, snapshot: EngineState)
        requires
            old(self).wf(),
            snapshot.wf(),
            snapshot.config == old(self).state.config,
        ensures
            final(self).wf(),
            final(self).state@ == snapshot@,
            final(self).looper == old(self).looper,
    {
        self.state = snapshot;
    }

    /// Renders one frame: moves the clock on, ticks every assigned track at the
    /// new phase and returns the sums of their left and right values.
    pub fn next_frame(&mut self) -> (r: (i64, i64))
        requires
            old(self).wf(),
        ensures
            final(self).wf(),
            rendered_frame(old(self).state@, old(self).looper) == (final(self).state@, final(self).looper, (
                r.0 as int,
                r.1 as int,
            )),
    {
        let ghost v0 = self.state@;
        let (beat, sub) = self.looper.next();
        let mut left: i64 = 0;
        let mut right: i64 = 0;
        let n = self.state.tracks.len();
        let mut i: usize = 0;
        while i < n
            invariant
                v0.wf(),
                self.wf(),
                n == v0.tracks.len(),
                i <= n,
                self.looper == old(self).looper.stepped(),
                beat == self.looper.beat,
                sub == self.looper.sub_beat_frame,
                self.state@ == (EngineView { tracks: mix_prefix(v0, beat as int, sub, i as nat).0, ..v0 }),
                left as int == mix_prefix(v0, beat as int, sub, i as nat).1,
                right as int == mix_prefix(v0, beat as int, sub, i as nat).2,
            decreases n - i,
        {
            proof {
                lemma_mix_prefix(v0, beat as int, sub, i as nat);
                lemma_mix_prefix(v0, beat as int, sub, (i + 1) as nat);
                assert(v0.config.track_count <= crate::config::MAX_TRACKS);
                assert(32768 * (i + 1) <= 32768 * 4294967295) by (nonlinear_arith)
                    requires i + 1 <= 4294967295;
            }
            let active = self.state.is_step_on(i, beat);
            let slot = self.state.tracks[i].take();
            match slot {
                None => {},
                Some(t) => {
                    let mut t = t;
                    let out = t.tick(active, sub);
                    self.state.tracks.set(i, Some(t));
                    left = left + out.0 as i64;
                    right = right + out.1 as i64;
                },
            }
            i = i + 1;
            proof {
                let m = mix_prefix(v0, beat as int, sub, i as nat);
                assert(self.state.tracks@ =~= m.0);
            }
        }
        (left, right)
    }

    /// Fills one output buffer per side. While paused every frame is silent
    /// and nothing moves; while playing frame `k` is the `k`-th rendered frame.
    pub fn render(&mut self, left: &mut Vec<i64>, right: &mut Vec<i64>)
        requires
            old(self).wf(),
            old(left)@.len() == old(right)@.len(),
        ensures
            final(self).wf(),
            final(left)@.len() == old(left)@.len(),
            final(right)@.len() == old(right)@.len(),
            final(self).state@ == buffer(old(self).state@, old(self).looper, old(left)@.len()).0,
            final(self).looper == buffer(old(self).state@, old(self).looper, old(left)@.len()).1,
            forall|k: int| 0 <= k < old(left)@.len() ==> (final(left)@[k] as int, final(right)@[k] as int)
                == #[trigger] buffer(old(self).state@, old(self).looper, old(left)@.len()).2[k],
    {
        let ghost v0 = self.state@;
        let ghost lp0 = self.looper;
        let n = left.len();
        let mut k: usize = 0;
        if !self.state.playing {
            while k < n
                invariant
                    k <= n,
                    n == left@.len(),
                    left@.len() == right@.len(),
                    self.wf(),
                    self.state@ == v0,
                    self.looper == lp0,
                    forall|j: int| 0 <= j < k ==> left@[j] == 0 && right@[j] == 0,
                decreases n - k,
            {
                left.set(k, 0);
                right.set(k, 0);
                k = k + 1;
            }
            return;
        }
        while k < n
            invariant
                k <= n,
                n == left@.len(),
                left@.len() == right@.len(),
                v0.wf(),
                lp0.wf(),
                lp0.pattern_len == v0.config.steps(),
                self.wf(),
                self.state@ == rendered(v0, lp0, k as nat).0,
                self.looper == rendered(v0, lp0, k as nat).1,
                forall|j: int| 0 <= j < k ==> (left@[j] as int, right@[j] as int)
                    == #[trigger] rendered(v0, lp0, k as nat).2[j],
            decreases n - k,
        {
            proof {
                lemma_rendered(v0, lp0, k as nat);
            }
            let (l, r) = self.next_frame();
            left.set(k, l);
            right.set(k, r);
            proof {
                let prev = rendered(v0, lp0, k as nat);
                let cur = rendered(v0, lp0, (k + 1) as nat);
                assert(cur.2 == prev.2.push(rendered_frame(prev.0, prev.1).2));
                assert forall|j: int| 0 <= j < k + 1 implies (left@[j] as int, right@[j] as int)
                    == #[trigger] cur.2[j] by {
                    if j < k {
                        assert(cur.2[j] == prev.2[j]);
                    }
                }
            }
            k = k + 1;
        }
    }
}

} // verus!
