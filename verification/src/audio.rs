//! In-memory recordings: shared, immutable buffers of PCM frames.
//!
//! A recording is loaded once and then played by any number of voices at
//! the same time; each voice holds its own handle into the shared buffer
//! and its own cursor, and nothing ever writes to the frames again.
use std::sync::Arc;

use vstd::prelude::*;

use crate::MAX_FRAMES;
use crate::SAMPLE_MAX;
use crate::SAMPLE_MIN;

verus! {

/// Relies on `std::sync::Arc::as_ref`: borrows the shared value the
/// handle points to.
#[verifier::external_body]
fn arc_data(a: &Arc<Vec<i64>>) -> (r: &Vec<i64>)
    ensures
        r@ == a@,
{
    a.as_ref()
}

/// Relies on `std::sync::Arc::clone`: returns a new handle to the same
/// shared value.
#[verifier::external_body]
fn arc_clone(a: &Arc<Vec<i64>>) -> (r: Arc<Vec<i64>>)
    ensures
        r == *a,
{
    Arc::clone(a)
}

/// One recording: a shared handle to an immutable sequence of frames.
///
/// Each frame is one sample in `SAMPLE_MIN ..= SAMPLE_MAX`. Cloning an
/// `Audio` clones the handle, never the frame data.
#[derive(Debug, PartialEq)]
pub struct Audio {
    data: Arc<Vec<i64>>,
}

impl Audio {
    /// The recording's frames, oldest first.
    pub closed spec fn frames(&self) -> Seq<i64> {
        self.data@
    }

    /// The recording is short enough to address in fixed-point
    /// positions and to index on this machine, and every sample is
    /// representable.
    pub open spec fn wf(&self) -> bool {
        &&& self.frames().len() <= MAX_FRAMES
        &&& self.frames().len() <= usize::MAX
        &&& forall|i: int|
            0 <= i < self.frames().len() ==> SAMPLE_MIN <= #[trigger] self.frames()[i]
                <= SAMPLE_MAX
    }

    /// Wrap the given frames as a shared recording.
    pub fn new(data: Vec<i64>) -> (r: Audio)
        requires
            data@.len() <= MAX_FRAMES,
            forall|i: int|
                0 <= i < data@.len() ==> SAMPLE_MIN <= #[trigger] data@[i] <= SAMPLE_MAX,
        ensures
            r.frames() == data@,
            r.wf(),
    {
        let n = data.len();
        proof {
            assert(data@.len() == n);
        }
        Audio { data: Arc::new(data) }
    }

    /// How many frames the recording holds.
    pub fn len(&self) -> (n: usize)
        ensures
            n == self.frames().len(),
    {
        arc_data(&self.data).len()
    }

    /// The frame at index `i`.
    pub fn frame_at(&self, i: usize) -> (s: i64)
        requires
            i < self.frames().len(),
        ensures
            s == self.frames()[i as int],
    {
        let d = arc_data(&self.data);
        d[i]
    }
}

impl Clone for Audio {
    /// A new handle to the same recording.
    fn clone(&self) -> (r: Self)
        ensures
            r == *self,
    {
        Audio { data: arc_clone(&self.data) }
    }
}

/// A recording restricted to the frames in `start .. end`.
#[derive(Debug, Clone)]
pub struct Range {
    /// The start index of the range.
    pub start: usize,
    /// The end index of the range.
    pub end: usize,
    /// The recording the range plays from.
    pub audio: Audio,
}

impl Range {
    /// The frames the range exposes: the chosen slice of the recording,
    /// or nothing when the bounds do not fit it.
    pub open spec fn frames(&self) -> Seq<i64> {
        if self.start <= self.end && self.end <= self.audio.frames().len() {
            self.audio.frames().subrange(self.start as int, self.end as int)
        } else {
            Seq::empty()
        }
    }

    /// Construct a new `Range` with the maximum playback range.
    pub fn new(audio: Audio) -> (r: Range)
        ensures
            r.start == 0,
            r.end == audio.frames().len(),
            r.audio == audio,
            r.frames() == audio.frames(),
    {
        let end = audio.len();
        let r = Range { start: 0, end, audio };
        proof {
            assert(r.frames() =~= r.audio.frames());
        }
        r
    }

    /// How many frames the range exposes.
    pub fn len(&self) -> (n: usize)
        ensures
            n == self.frames().len(),
    {
        if self.start <= self.end && self.end <= self.audio.len() {
            self.end - self.start
        } else {
            0
        }
    }

    /// The frame at index `i` of the range.
    pub fn frame_at(&self, i: usize) -> (s: i64)
        requires
            i < self.frames().len(),
        ensures
            s == self.frames()[i as int],
    {
        self.audio.frame_at(self.start + i)
    }
}

} // verus!
