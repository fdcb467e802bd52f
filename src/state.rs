//! The authoritative engine state, the commands that change it, and the
//! reducer transition that applies one command.
use crate::config::Config;
use crate::sample::{share, Sample};
use crate::track::AudioTrack;
use std::sync::Arc;
use vstd::prelude::*;

verus! {

/// A control command from the editor.
pub enum Command {
    AssignSample(usize, Sample),
    SetStep(usize, usize, bool),
    Play,
    Pause,
    Shutdown,
}

/// What the reducer did with a command.
#[derive(Clone, Copy, PartialEq, Eq, Structural, Debug)]
pub enum Outcome {
    /// The state changed; the new state is to be published.
    Updated,
    /// A track or step index was out of range; the state is unchanged.
    Rejected,
    /// The reducer is to stop; the state is unchanged.
    Shutdown,
}

/// What the reducer does after a command: publish a copy of the new state,
/// publish nothing, or stop.
pub enum Reaction {
    Publish(EngineState),
    Ignore,
    Stop,
}

/// What should be playing: a sample per track slot, the step grid, the
/// play/pause flag and the tempo. `grid` holds one row of `steps` cells per
/// track, row after row.
pub struct EngineState {
    pub config: Config,
    pub tracks: Vec<Option<AudioTrack>>,
    pub grid: Vec<bool>,
    pub playing: bool,
    pub bpm: usize,
}

/// The mathematical value of an engine state.
pub struct EngineView {
    pub config: Config,
    pub tracks: Seq<Option<AudioTrack>>,
    pub grid: Seq<bool>,
    pub playing: bool,
    pub bpm: usize,
}

impl View for EngineState {
    type V = EngineView;

    open spec fn view(&self) -> EngineView {
        EngineView {
            config: self.config,
            tracks: self.tracks@,
            grid: self.grid@,
            playing: self.playing,
            bpm: self.bpm,
        }
    }
}

/// Index of the cell of track `t` at step `s` in a grid of `steps` steps per row.
pub open spec fn cell(steps: nat, t: int, s: int) -> int {
    t * steps + s
}

impl EngineView {
    pub open spec fn wf(&self) -> bool {
        &&& self.config.wf()
        &&& self.tracks.len() == self.config.track_count
        &&& self.grid.len() == self.config.cells()
        &&& self.bpm >= 1
        &&& forall|i: int| 0 <= i < self.tracks.len() ==> (#[trigger] self.tracks[i] matches Some(t) ==> t.wf())
    }

    /// Whether track `t` is marked active at step `s`.
    pub open spec fn step_on(&self, t: int, s: int) -> bool {
        self.grid[cell(self.config.steps(), t, s)]
    }
}

/// Cells of a grid row lie inside the grid.
pub proof fn lemma_cell_in_grid(c: Config, t: int, s: int)
    requires
        c.wf(),
        0 <= t < c.track_count,
        0 <= s < c.steps(),
    ensures
        0 <= cell(c.steps(), t, s) < c.cells(),
{
    let n = c.steps() as int;
    let k = c.track_count as int;
    assert(0 <= t * n + s < k * n) by (nonlinear_arith)
        requires 0 <= t < k, 0 <= s < n;
}

/// What applying `cmd` to `o` does, giving `n` and reporting `r`. A sample
/// assignment puts an idle track at the start of the new sample in the slot; a
/// step toggle sets one cell; play and pause set the flag. An index out of
/// range is rejected and shutdown asks the reducer to stop; both leave the
/// state as it was. Every outcome keeps the state well formed, and no command
/// changes the configuration or the tempo.
pub open spec fn applied(o: EngineView, cmd: Command, n: EngineView, r: Outcome) -> bool {
    &&& n.wf()
    &&& n.config == o.config
    &&& n.bpm == o.bpm
    &&& match cmd {
        Command::AssignSample(i, smp) => if i < o.config.track_count {
            &&& r == Outcome::Updated
            &&& n.tracks.len() == o.tracks.len()
            &&& forall|j: int| 0 <= j < o.tracks.len() && j != i ==> #[trigger] n.tracks[j] == o.tracks[j]
            &&& n.tracks[i as int] matches Some(t)
            &&& *t.sample == smp && !t.playing && t.cursor == 0
            &&& n.grid == o.grid
            &&& n.playing == o.playing
        } else {
            r == Outcome::Rejected && n == o
        },
        Command::SetStep(t, s, active) => if t < o.config.track_count && s < o.config.steps() {
            &&& r == Outcome::Updated
            &&& n.grid == o.grid.update(cell(o.config.steps(), t as int, s as int), active)
            &&& n.tracks == o.tracks
            &&& n.playing == o.playing
        } else {
            r == Outcome::Rejected && n == o
        },
        Command::Play => r == Outcome::Updated && n == (EngineView { playing: true, ..o }),
        Command::Pause => r == Outcome::Updated && n == (EngineView { playing: false, ..o }),
        Command::Shutdown => r == Outcome::Shutdown && n == o,
    }
}

impl EngineState {
    pub open spec fn wf(&self) -> bool {
        self@.wf()
    }

    /// The initial state of `config`.
    pub open spec fn new_view(config: Config) -> EngineView {
        EngineView {
            config,
            tracks: Seq::new(config.track_count as nat, |i: int| None::<AudioTrack>),
            grid: Seq::new(config.cells(), |i: int| false),
            playing: false,
            bpm: config.default_bpm,
        }
    }

    /// No samples, an empty grid, paused, at the configured tempo.
    pub fn new(config: Config) -> (r: EngineState)
        requires
            config.wf(),
        ensures
            r.wf(),
            r@ == EngineState::new_view(config),
    {
        let mut tracks: Vec<Option<AudioTrack>> = Vec::new();
        let mut i: usize = 0;
        while i < config.track_count
            invariant
                i <= config.track_count,
                tracks@ == Seq::new(i as nat, |j: int| None::<AudioTrack>),
            decreases config.track_count - i,
        {
            tracks.push(None);
            i = i + 1;
            assert(tracks@ =~= Seq::new(i as nat, |j: int| None::<AudioTrack>));
        }
        let cells: usize = config.track_count * config.pattern_len();
        let mut grid: Vec<bool> = Vec::new();
        let mut j: usize = 0;
        while j < cells
            invariant
                j <= cells,
                cells == config.cells(),
                grid@ == Seq::new(j as nat, |k: int| false),
            decreases cells - j,
        {
            grid.push(false);
            j = j + 1;
            assert(grid@ =~= Seq::new(j as nat, |k: int| false));
        }
        EngineState { config, tracks, grid, playing: false, bpm: config.default_bpm }
    }

    /// Whether track `t` is marked active at step `s`.
    pub fn is_step_on(&self, t: usize, s: usize) -> (r: bool)
        requires
            self.wf(),
            t < self.config.track_count,
            s < self.config.steps(),
        ensures
            r == self@.step_on(t as int, s as int),
    {
        proof {
            lemma_cell_in_grid(self.config, t as int, s as int);
        }
        self.grid[t * self.config.pattern_len() + s]
    }

    /// A full copy, sharing the samples.
    pub fn snapshot(&self) -> (r: EngineState)
        requires
            self.wf(),
        ensures
            r@ == self@,
    {
        let mut tracks: Vec<Option<AudioTrack>> = Vec::new();
        let mut i: usize = 0;
        while i < self.tracks.len()
            invariant
                i <= self.tracks@.len(),
                tracks@ == self.tracks@.subrange(0, i as int),
            decreases self.tracks@.len() - i,
        {
            let copy = match &self.tracks[i] {
                None => None,
                Some(t) => Some(AudioTrack { sample: share(&t.sample), playing: t.playing, cursor: t.cursor }),
            };
            tracks.push(copy);
            i = i + 1;
            assert(tracks@ =~= self.tracks@.subrange(0, i as int));
        }
        let mut grid: Vec<bool> = Vec::new();
        let mut j: usize = 0;
        while j < self.grid.len()
            invariant
                j <= self.grid@.len(),
                grid@ == self.grid@.subrange(0, j as int),
            decreases self.grid@.len() - j,
        {
            grid.push(self.grid[j]);
            j = j + 1;
            assert(grid@ =~= self.grid@.subrange(0, j as int));
        }
        assert(tracks@ =~= self.tracks@);
        assert(grid@ =~= self.grid@);
        EngineState { config: self.config, tracks, grid, playing: self.playing, bpm: self.bpm }
    }

    /// Applies one command, as `applied` describes.
    pub fn apply(&mut self, cmd: Command) -> (r: Outcome)
        requires
            old(self).wf(),
        ensures
            applied(old(self)@, cmd, final(self)@, r),
    {
        match cmd {
            Command::AssignSample(i, smp) => {
                if i < self.tracks.len() {
                    let track = AudioTrack::new(Arc::new(smp));
                    self.tracks.set(i, Some(track));
                    proof {
                        assert forall|j: int| 0 <= j < self.tracks@.len() implies (
                            #[trigger] self.tracks@[j] matches Some(t) ==> t.wf()) by {
                            if j != i {
                                assert(old(self).tracks@[j] == self.tracks@[j]);
                            }
                        }
                    }
                    Outcome::Updated
                } else {
                    Outcome::Rejected
                }
            },
            Command::SetStep(t, s, active) => {
                if t < self.config.track_count && s < self.config.pattern_len() {
                    proof {
                        lemma_cell_in_grid(self.config, t as int, s as int);
                    }
                    let k: usize = t * self.config.pattern_len() + s;
                    self.grid.set(k, active);
                    Outcome::Updated
                } else {
                    Outcome::Rejected
                }
            },
            Command::Play => {
                self.playing = true;
                Outcome::Updated
            },
            Command::Pause => {
                self.playing = false;
                Outcome::Updated
            },
            Command::Shutdown => Outcome::Shutdown,
        }
    }

    /// One step of the reducer: applies `cmd` and, when the state changed,
    /// gives a full copy of it to publish; a rejected command publishes
    /// nothing, and shutdown stops the reducer.
    pub fn reduce(&mut self, cmd: Command) -> (r: Reaction)
        requires
            old(self).wf(),
        ensures
            applied(
                old(self)@,
                cmd,
                final(self)@,
                match r {
                    Reaction::Publish(_) => Outcome::Updated,
                    Reaction::Ignore => Outcome::Rejected,
                    Reaction::Stop => Outcome::Shutdown,
                },
            ),
            r matches Reaction::Publish(s) ==> s.wf() && s@ == final(self)@,
    {
        match self.apply(cmd) {
            Outcome::Updated => Reaction::Publish(self.snapshot()),
            Outcome::Rejected => Reaction::Ignore,
            Outcome::Shutdown => Reaction::Stop,
        }
    }
}

} // verus!
