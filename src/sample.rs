//! Decoded audio: interleaved integer PCM frames, shared read-only by tracks.
use std::sync::Arc;
use vstd::prelude::*;

verus! {

/// An immutable decoded sound. `data` holds the frames interleaved, one value
/// per channel; a value `x` stands for the level `x / i16::MAX`.
pub struct Sample {
    pub sample_rate: usize,
    pub channels: usize,
    pub data: Vec<i16>,
}

impl Sample {
    /// Whole frames in the data; none when there is no channel.
    pub open spec fn frame_count(&self) -> nat {
        if self.channels == 0 {
            0
        } else {
            self.data@.len() / (self.channels as nat)
        }
    }

    /// The `(left, right)` pair of frame `i`: a mono value goes to both sides,
    /// otherwise channel 0 is left and channel 1 is right.
    pub open spec fn frame(&self, i: int) -> (i16, i16) {
        let base = i * self.channels;
        if self.channels == 1 {
            (self.data@[base], self.data@[base])
        } else {
            (self.data@[base], self.data@[base + 1])
        }
    }

    pub fn new(sample_rate: usize, channels: usize, data: Vec<i16>) -> (r: Sample)
        ensures
            r.sample_rate == sample_rate,
            r.channels == channels,
            r.data@ == data@,
    {
        Sample { sample_rate, channels, data }
    }

    /// Number of whole frames.
    pub fn frames(&self) -> (r: usize)
        ensures
            r == self.frame_count(),
    {
        if self.channels == 0 {
            0
        } else {
            self.data.len() / self.channels
        }
    }

    /// The `(left, right)` pair of frame `i`.
    pub fn frame_at(&self, i: usize) -> (r: (i16, i16))
        requires
            i < self.frame_count(),
        ensures
            r == self.frame(i as int),
    {
        let c = self.channels;
        let len = self.data.len();
        proof {
            assert((i + 1) * c <= len) by (nonlinear_arith)
                requires i < len / c, c >= 1;
            assert((i + 1) * c == i * c + c) by (nonlinear_arith);
        }
        let base: usize = i * c;
        if c == 1 {
            (self.data[base], self.data[base])
        } else {
            (self.data[base], self.data[base + 1])
        }
    }
}

/// Relies on `Arc::clone`: it gives another pointer to the same sample, so the
/// value seen through it is the one shared.
#[verifier::external_body]
pub(crate) fn share(s: &Arc<Sample>) -> (r: Arc<Sample>)
    ensures
        r == *s,
{
    Arc::clone(s)
}

} // verus!
