//! Markers describing where a voice's PCM frames come from.
use vstd::prelude::*;

verus! {

/// The source of samples, which may be either dynamic or static.
pub trait Source {}

/// Samples produced on the fly while the instrument runs.
pub struct Dynamic;

/// Samples recorded ahead of time and held in memory.
pub struct Static;

/// A source that can hand out its PCM samples as an iterator.
pub trait PcmSampleSource {
    fn samples<I, S>(&self) -> I where I: Iterator<Item = S>;
}

} // verus!
