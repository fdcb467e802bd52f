//! The playback state machine of one track: idle, or playing a shared sample
//! from a cursor that moves one frame per output frame.
use crate::sample::Sample;
use std::sync::Arc;
use vstd::prelude::*;

verus! {

/// Whether a track restarts at this point of the clock: its step is active
/// and the clock stands exactly on a beat boundary.
pub open spec fn retriggers(active: bool, sub_beat_frame: usize) -> bool {
    active && sub_beat_frame == 0
}

/// The trigger rule of a track, as a test on a step and a clock phase.
pub fn should_retrigger(active: bool, sub_beat_frame: usize) -> (r: bool)
    ensures
        r == retriggers(active, sub_beat_frame),
{
    active && sub_beat_frame == 0
}

/// A playback cursor over one shared sample.
pub struct AudioTrack {
    pub sample: Arc<Sample>,
    pub playing: bool,
    pub cursor: usize,
}

impl AudioTrack {
    /// The cursor is at a frame of the sample, or at 0.
    pub open spec fn wf(&self) -> bool {
        self.cursor == 0 || self.cursor < self.sample.frame_count()
    }

    /// Whether the next output frame comes from the sample.
    pub open spec fn sounding(&self) -> bool {
        self.playing && self.cursor < self.sample.frame_count()
    }

    /// The track after one output frame, and the frame it gives out: a sounding
    /// track gives the frame at its cursor and moves on, going idle after its
    /// last frame; any other track is idle and silent.
    pub open spec fn progressed(&self) -> (AudioTrack, (i16, i16)) {
        if self.sounding() {
            let more = self.cursor + 1 < self.sample.frame_count();
            (
                AudioTrack {
                    playing: more,
                    cursor: if more { (self.cursor + 1) as usize } else { self.cursor },
                    ..*self
                },
                self.sample.frame(self.cursor as int),
            )
        } else {
            (AudioTrack { playing: false, ..*self }, (0, 0))
        }
    }

    /// The track restarted from its first frame.
    pub open spec fn restarted(&self) -> AudioTrack {
        AudioTrack { playing: true, cursor: 0, ..*self }
    }

    /// One output frame of the track with its step `active` at clock frame
    /// `sub_beat_frame` of the beat: restart if the rule says so, then progress.
    pub open spec fn ticked(&self, active: bool, sub_beat_frame: usize) -> (AudioTrack, (i16, i16)) {
        if retriggers(active, sub_beat_frame) {
            self.restarted().progressed()
        } else {
            self.progressed()
        }
    }

    /// An idle track at the start of `sample`.
    pub fn new(sample: Arc<Sample>) -> (r: AudioTrack)
        ensures
            r.sample == sample,
            !r.playing,
            r.cursor == 0,
            r.wf(),
    {
        AudioTrack { sample, playing: false, cursor: 0 }
    }

    /// Restarts playback from the first frame.
    pub fn reset(&mut self)
        ensures
            *final(self) == old(self).restarted(),
    {
        self.cursor = 0;
        self.playing = true;
    }

    /// Gives out the current frame and moves the cursor on by one.
    pub fn progress(&mut self) -> (r: (i16, i16))
        requires
            old(self).wf(),
        ensures
            (*final(self), r) == old(self).progressed(),
            final(self).wf(),
    {
        let n = self.sample.frames();
        if self.playing && self.cursor < n {
            let out = self.sample.frame_at(self.cursor);
            if self.cursor + 1 < n {
                self.cursor = self.cursor + 1;
            } else {
                self.playing = false;
            }
            out
        } else {
            self.playing = false;
            (0, 0)
        }
    }

    /// One output frame: retrigger when the step is active on a beat boundary,
    /// then progress.
    pub fn tick(&mut self, active: bool, sub_beat_frame: usize) -> (r: (i16, i16))
        requires
            old(self).wf(),
        ensures
            (*final(self), r) == old(self).ticked(active, sub_beat_frame),
            final(self).wf(),
    {
        if should_retrigger(active, sub_beat_frame) {
            self.reset();
        }
        self.progress()
    }
}

/// A track whose step is active when the clock reaches a beat boundary plays
/// from its first frame again, wherever its cursor stood and whether or not it
/// was already playing.
pub proof fn retrigger_restarts(t: AudioTrack)
    requires
        t.wf(),
        t.sample.frame_count() >= 1,
    ensures
        t.ticked(true, 0) == t.restarted().progressed(),
        t.ticked(true, 0).1 == t.sample.frame(0),
        t.ticked(true, 0).0.cursor <= 1,
{
}

/// The cursor never passes the last frame of the sample; a track that gives out
/// its last frame goes idle, and an idle track stays idle and silent until it
/// is restarted.
pub proof fn exhaustion(t: AudioTrack)
    requires
        t.wf(),
    ensures
        t.progressed().0.wf(),
        t.sample.frame_count() >= 1 ==> t.progressed().0.cursor < t.sample.frame_count(),
        t.playing && t.cursor + 1 == t.sample.frame_count() ==> !t.progressed().0.playing,
        !t.playing ==> !t.progressed().0.playing && t.progressed().1 == (0i16, 0i16),
{
}

/// A mono sample gives the same value on both sides; a sample of two or more
/// channels gives channel 0 on the left and channel 1 on the right.
pub proof fn mono_stereo_fan_out(s: Sample, i: int)
    requires
        0 <= i < s.frame_count(),
    ensures
        s.channels == 1 ==> s.frame(i) == (s.data@[i], s.data@[i]),
        s.channels >= 2 ==> s.frame(i) == (s.data@[i * s.channels], s.data@[i * s.channels + 1]),
{
}

} // verus!
