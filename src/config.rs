//! The fixed shape of a run: grid size, track count and starting tempo.
use vstd::prelude::*;

verus! {

/// Most tracks a configuration may have: enough that the mixed sum of all
/// tracks' 16-bit values always fits an `i64`.
pub const MAX_TRACKS: usize = 4294967295;

/// The immutable configuration, fixed at startup and handed to each component.
#[derive(Clone, Copy, PartialEq, Eq, Structural)]
pub struct Config {
    pub bars: usize,
    pub beats_per_bar: usize,
    pub track_count: usize,
    pub default_bpm: usize,
}

impl Config {
    pub open spec fn wf(&self) -> bool {
        &&& self.bars >= 1
        &&& self.beats_per_bar >= 1
        &&& self.bars * self.beats_per_bar <= usize::MAX
        &&& self.track_count <= MAX_TRACKS
        &&& self.track_count * (self.bars * self.beats_per_bar) <= usize::MAX
        &&& self.default_bpm >= 1
    }

    /// Beats in one pass of the pattern.
    pub open spec fn steps(&self) -> nat {
        (self.bars * self.beats_per_bar) as nat
    }

    /// Cells of the step grid: one per track and beat.
    pub open spec fn cells(&self) -> nat {
        self.track_count as nat * self.steps()
    }

    /// A configuration with these values, or `None` when they give an empty
    /// pattern, a zero tempo, too many tracks, or a grid that does not fit memory.
    pub fn new(bars: usize, beats_per_bar: usize, track_count: usize, default_bpm: usize) -> (r: Option<Config>)
        ensures
            r is Some <==> (Config { bars, beats_per_bar, track_count, default_bpm }).wf(),
            r matches Some(c) ==> c == (Config { bars, beats_per_bar, track_count, default_bpm }),
    {
        if bars == 0 || beats_per_bar == 0 || default_bpm == 0 || track_count > MAX_TRACKS {
            return None;
        }
        let steps = bars.checked_mul(beats_per_bar);
        match steps {
            None => None,
            Some(n) => match track_count.checked_mul(n) {
                None => None,
                Some(_) => Some(Config { bars, beats_per_bar, track_count, default_bpm }),
            },
        }
    }

    /// Four bars of four beats, twenty tracks, 240 beats per minute.
    pub fn standard() -> (r: Config)
        ensures
            r.wf(),
            r == (Config { bars: 4, beats_per_bar: 4, track_count: 20, default_bpm: 240 }),
    {
        Config { bars: 4, beats_per_bar: 4, track_count: 20, default_bpm: 240 }
    }

    /// Beats in one pass of the pattern.
    pub fn pattern_len(&self) -> (r: usize)
        requires
            self.wf(),
        ensures
            r == self.steps(),
    {
        self.bars * self.beats_per_bar
    }
}

} // verus!
