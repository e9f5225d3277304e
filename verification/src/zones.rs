//! The zone map: maps frequency and velocity ranges to audio samples,
//! answering "which recording should play this note?".
//!
//! Zones are kept in a list ordered by `range_lt`, a total lexicographic
//! order on ranges (frequency bounds first, then velocity bounds).
//! Lookup returns the first zone, in stored order, whose frequency range
//! contains the note (half-open) and whose velocity range contains the
//! velocity (closed); overlapping zones are allowed, and the earliest
//! match wins.
use vstd::prelude::*;

use crate::audio::Audio;
use crate::Hz;
use crate::Velocity;
use crate::MAX_HZ;
use crate::MAX_VELOCITY;

verus! {

/// A continuous range of `T` from the `min` to the `max`.
#[derive(Debug, Clone, Copy, PartialEq)]
pub struct Range<T> {
    pub min: T,
    pub max: T,
}

impl Range<Hz> {
    /// Is the given frequency at or above the `min` and strictly below
    /// the `max`.
    pub fn is_over(&self, hz: Hz) -> (r: bool)
        ensures
            r == (self.min <= hz && hz < self.max),
    {
        self.min <= hz && hz < self.max
    }
}

impl Range<Velocity> {
    /// Is the given velocity at or above the `min` and at or below the
    /// `max`.
    pub fn is_over(&self, vel: Velocity) -> (r: bool)
        ensures
            r == (self.min <= vel && vel <= self.max),
    {
        self.min <= vel && vel <= self.max
    }
}

/// A 2-dimensional space, represented as a frequency range and a
/// velocity range.
#[derive(Debug, Clone, Copy, PartialEq)]
pub struct HzVelRange {
    pub hz: Range<Hz>,
    pub vel: Range<Velocity>,
}

/// The total order zones are stored in: by lower frequency bound, then
/// upper frequency bound, then lower velocity bound, then upper
/// velocity bound.
pub open spec fn range_lt(a: HzVelRange, b: HzVelRange) -> bool {
    ||| a.hz.min < b.hz.min
    ||| (a.hz.min == b.hz.min && a.hz.max < b.hz.max)
    ||| (a.hz.min == b.hz.min && a.hz.max == b.hz.max && a.vel.min < b.vel.min)
    ||| (a.hz.min == b.hz.min && a.hz.max == b.hz.max && a.vel.min == b.vel.min
        && a.vel.max < b.vel.max)
}

impl HzVelRange {
    /// Does `self` come strictly before `other` in stored order.
    pub fn lt(&self, other: &HzVelRange) -> (r: bool)
        ensures
            r == range_lt(*self, *other),
    {
        if self.hz.min != other.hz.min {
            self.hz.min < other.hz.min
        } else if self.hz.max != other.hz.max {
            self.hz.max < other.hz.max
        } else if self.vel.min != other.vel.min {
            self.vel.min < other.vel.min
        } else {
            self.vel.max < other.vel.max
        }
    }
}

/// A performable sample with some base playback frequency and velocity.
///
/// `base_hz` is the pitch the recording was captured at; a note
/// triggered at another pitch is resampled by the ratio of the two.
#[derive(Debug, PartialEq)]
pub struct Sample {
    pub base_hz: Hz,
    pub base_vel: Velocity,
    pub audio: Audio,
}

impl Sample {
    /// The sample's pitch and velocity are representable and its
    /// recording is well formed.
    pub open spec fn wf(&self) -> bool {
        &&& 1 <= self.base_hz < MAX_HZ
        &&& self.base_vel <= MAX_VELOCITY
        &&& self.audio.wf()
    }

    /// Constructor for a new `Sample` with the given base frequency and
    /// velocity.
    pub fn new(base_hz: Hz, base_vel: Velocity, audio: Audio) -> (r: Sample)
        requires
            1 <= base_hz < MAX_HZ,
            base_vel <= MAX_VELOCITY,
            audio.wf(),
        ensures
            r == (Sample { base_hz, base_vel, audio }),
            r.wf(),
    {
        Sample { base_hz, base_vel, audio }
    }
}

impl Clone for Sample {
    /// An equal sample sharing the same recording.
    fn clone(&self) -> (r: Self)
        ensures
            r == *self,
    {
        Sample { base_hz: self.base_hz, base_vel: self.base_vel, audio: self.audio.clone() }
    }
}

/// A range paired with a specific sample.
#[derive(Debug, PartialEq)]
pub struct SampleOverRange {
    pub range: HzVelRange,
    pub sample: Sample,
}

impl Clone for SampleOverRange {
    /// An equal pair sharing the same recording.
    fn clone(&self) -> (r: Self)
        ensures
            r == *self,
    {
        SampleOverRange { range: self.range, sample: self.sample.clone() }
    }
}

/// Does the zone contain the given note: frequency within the zone's
/// half-open frequency range and velocity within its closed velocity
/// range.
pub open spec fn zone_matches(p: SampleOverRange, hz: Hz, vel: Velocity) -> bool {
    &&& p.range.hz.min <= hz < p.range.hz.max
    &&& p.range.vel.min <= vel <= p.range.vel.max
}

/// The index of the first zone that contains the note, if any.
pub open spec fn first_match(pairs: Seq<SampleOverRange>, hz: Hz, vel: Velocity) -> Option<int>
    decreases pairs.len(),
{
    if pairs.len() == 0 {
        None
    } else if zone_matches(pairs[0], hz, vel) {
        Some(0int)
    } else {
        match first_match(pairs.drop_first(), hz, vel) {
            Some(j) => Some(j + 1),
            None => None,
        }
    }
}

/// `first_match` points at a matching zone preceded only by zones that
/// do not match, and is `None` exactly when no zone matches.
pub proof fn lemma_first_match(pairs: Seq<SampleOverRange>, hz: Hz, vel: Velocity)
    ensures
        match first_match(pairs, hz, vel) {
            Some(j) => 0 <= j < pairs.len() && zone_matches(pairs[j], hz, vel) && forall|k: int|
                0 <= k < j ==> !zone_matches(#[trigger] pairs[k], hz, vel),
            None => forall|k: int|
                0 <= k < pairs.len() ==> !zone_matches(#[trigger] pairs[k], hz, vel),
        },
    decreases pairs.len(),
{
    if pairs.len() > 0 && !zone_matches(pairs[0], hz, vel) {
        let rest = pairs.drop_first();
        lemma_first_match(rest, hz, vel);
        match first_match(rest, hz, vel) {
            Some(j) => {
                assert forall|k: int| 0 <= k < j + 1 implies !zone_matches(
                    #[trigger] pairs[k],
                    hz,
                    vel,
                ) by {
                    if k > 0 {
                        assert(rest[k - 1] == pairs[k]);
                        assert(!zone_matches(rest[k - 1], hz, vel));
                    }
                }
            },
            None => {
                assert forall|k: int| 0 <= k < pairs.len() implies !zone_matches(
                    #[trigger] pairs[k],
                    hz,
                    vel,
                ) by {
                    if k > 0 {
                        assert(rest[k - 1] == pairs[k]);
                        assert(!zone_matches(rest[k - 1], hz, vel));
                    }
                }
            },
        }
    }
}

/// The converse: an index that matches and is preceded only by
/// non-matching zones is the `first_match`.
pub proof fn lemma_first_match_is(pairs: Seq<SampleOverRange>, hz: Hz, vel: Velocity, i: int)
    requires
        0 <= i < pairs.len(),
        zone_matches(pairs[i], hz, vel),
        forall|k: int| 0 <= k < i ==> !zone_matches(#[trigger] pairs[k], hz, vel),
    ensures
        first_match(pairs, hz, vel) == Some(i),
{
    lemma_first_match(pairs, hz, vel);
    match first_match(pairs, hz, vel) {
        Some(j) => {
            if j < i {
                assert(!zone_matches(pairs[j], hz, vel));
            } else if i < j {
                assert(!zone_matches(pairs[i], hz, vel));
            }
        },
        None => {
            assert(!zone_matches(pairs[i], hz, vel));
        },
    }
}

/// When no zone contains the note, `first_match` is `None`.
pub proof fn lemma_first_match_none(pairs: Seq<SampleOverRange>, hz: Hz, vel: Velocity)
    requires
        forall|k: int| 0 <= k < pairs.len() ==> !zone_matches(#[trigger] pairs[k], hz, vel),
    ensures
        first_match(pairs, hz, vel) is None,
{
    lemma_first_match(pairs, hz, vel);
    match first_match(pairs, hz, vel) {
        Some(j) => {
            assert(!zone_matches(pairs[j], hz, vel));
        },
        None => {},
    }
}

/// Where a new range is inserted: just before the first stored range
/// that is strictly greater, or at the end.
pub open spec fn insert_pos(pairs: Seq<SampleOverRange>, r: HzVelRange) -> int
    decreases pairs.len(),
{
    if pairs.len() == 0 {
        0
    } else if range_lt(r, pairs[0].range) {
        0
    } else {
        1 + insert_pos(pairs.drop_first(), r)
    }
}

/// `insert_pos` is within bounds, everything before it is not greater
/// than the new range, and the entry at it (if any) is greater.
pub proof fn lemma_insert_pos(pairs: Seq<SampleOverRange>, r: HzVelRange)
    ensures
        0 <= insert_pos(pairs, r) <= pairs.len(),
        forall|k: int|
            0 <= k < insert_pos(pairs, r) ==> !range_lt(r, (#[trigger] pairs[k]).range),
        insert_pos(pairs, r) < pairs.len() ==> range_lt(r, pairs[insert_pos(pairs, r)].range),
    decreases pairs.len(),
{
    if pairs.len() > 0 && !range_lt(r, pairs[0].range) {
        let rest = pairs.drop_first();
        lemma_insert_pos(rest, r);
        let j = insert_pos(rest, r);
        assert forall|k: int| 0 <= k < j + 1 implies !range_lt(r, (#[trigger] pairs[k]).range) by {
            if k > 0 {
                assert(rest[k - 1] == pairs[k]);
                assert(!range_lt(r, rest[k - 1].range));
            }
        }
        if j < rest.len() {
            assert(rest[j] == pairs[j + 1]);
        }
    }
}

/// The converse: a position with those properties is `insert_pos`.
pub proof fn lemma_insert_pos_is(pairs: Seq<SampleOverRange>, r: HzVelRange, i: int)
    requires
        0 <= i <= pairs.len(),
        forall|k: int| 0 <= k < i ==> !range_lt(r, (#[trigger] pairs[k]).range),
        i < pairs.len() ==> range_lt(r, pairs[i].range),
    ensures
        insert_pos(pairs, r) == i,
{
    lemma_insert_pos(pairs, r);
    let j = insert_pos(pairs, r);
    if j < i {
        assert(range_lt(r, pairs[j].range));
    } else if i < j {
        assert(!range_lt(r, pairs[i].range));
    }
}

/// A type that maps frequency and velocity ranges to audio samples.
#[derive(Debug, PartialEq)]
pub struct ZoneMap {
    pub pairs: Vec<SampleOverRange>,
}

impl Clone for ZoneMap {
    /// A map with equal zones sharing the same recordings.
    fn clone(&self) -> (r: Self)
        ensures
            r.pairs@ == self.pairs@,
    {
        let mut pairs: Vec<SampleOverRange> = Vec::new();
        let mut i: usize = 0;
        while i < self.pairs.len()
            invariant
                i <= self.pairs@.len(),
                pairs@.len() == i,
                forall|k: int| 0 <= k < i ==> pairs@[k] == self.pairs@[k],
            decreases self.pairs@.len() - i,
        {
            pairs.push(self.pairs[i].clone());
            i = i + 1;
        }
        proof {
            assert(pairs@ =~= self.pairs@);
        }
        ZoneMap { pairs }
    }
}

impl ZoneMap {
    /// Every zone's sample is well formed.
    pub open spec fn wf(&self) -> bool {
        forall|i: int| 0 <= i < self.pairs@.len() ==> (#[trigger] self.pairs@[i]).sample.wf()
    }

    /// Construct an empty `ZoneMap`.
    pub fn empty() -> (r: ZoneMap)
        ensures
            r.pairs@.len() == 0,
            r.wf(),
    {
        ZoneMap { pairs: Vec::new() }
    }

    /// Construct a `ZoneMap` from a series of boundaries, building
    /// contiguous zones: each entry's frequency and velocity become the
    /// upper bounds of its zone and the lower bounds of the next,
    /// starting from frequency 0 and full velocity.
    pub fn from_sequential_steps(steps: Vec<(Hz, Velocity, Sample)>) -> (r: ZoneMap)
        requires
            forall|k: int| 0 <= k < steps@.len() ==> (#[trigger] steps@[k]).2.wf(),
        ensures
            r.pairs@.len() == steps@.len(),
            forall|k: int|
                0 <= k < steps@.len() ==> {
                    let p = #[trigger] r.pairs@[k];
                    &&& p.range.hz.min == if k == 0 {
                        0
                    } else {
                        steps@[k - 1].0
                    }
                    &&& p.range.hz.max == steps@[k].0
                    &&& p.range.vel.min == if k == 0 {
                        MAX_VELOCITY
                    } else {
                        steps@[k - 1].1
                    }
                    &&& p.range.vel.max == steps@[k].1
                    &&& p.sample == steps@[k].2
                },
            r.wf(),
    {
        let mut pairs: Vec<SampleOverRange> = Vec::new();
        let mut last_hz: Hz = 0;
        let mut last_vel: Velocity = MAX_VELOCITY;
        let mut i: usize = 0;
        while i < steps.len()
            invariant
                i <= steps@.len(),
                pairs@.len() == i,
                last_hz == if i == 0 {
                    0u64
                } else {
                    steps@[i - 1].0
                },
                last_vel == if i == 0 {
                    MAX_VELOCITY
                } else {
                    steps@[i - 1].1
                },
                forall|k: int| 0 <= k < steps@.len() ==> (#[trigger] steps@[k]).2.wf(),
                forall|k: int|
                    0 <= k < i ==> {
                        let p = #[trigger] pairs@[k];
                        &&& p.range.hz.min == if k == 0 {
                            0
                        } else {
                            steps@[k - 1].0
                        }
                        &&& p.range.hz.max == steps@[k].0
                        &&& p.range.vel.min == if k == 0 {
                            MAX_VELOCITY
                        } else {
                            steps@[k - 1].1
                        }
                        &&& p.range.vel.max == steps@[k].1
                        &&& p.sample == steps@[k].2
                    },
            decreases steps@.len() - i,
        {
            let (hz, vel, ref sample) = steps[i];
            let range = HzVelRange {
                hz: Range { min: last_hz, max: hz },
                vel: Range { min: last_vel, max: vel },
            };
            pairs.push(SampleOverRange { range, sample: sample.clone() });
            last_hz = hz;
            last_vel = vel;
            i = i + 1;
        }
        ZoneMap { pairs }
    }

    /// Creates a `ZoneMap` with a single sample mapped to the entire
    /// frequency and velocity range.
    pub fn from_single_sample(sample: Sample) -> (r: ZoneMap)
        requires
            sample.wf(),
        ensures
            r.pairs@.len() == 1,
            r.pairs@[0].range == (HzVelRange {
                hz: Range { min: 0u64, max: MAX_HZ },
                vel: Range { min: 0u32, max: MAX_VELOCITY },
            }),
            r.pairs@[0].sample == sample,
            r.wf(),
    {
        let range = HzVelRange {
            hz: Range { min: 0, max: MAX_HZ },
            vel: Range { min: 0, max: MAX_VELOCITY },
        };
        let mut pairs: Vec<SampleOverRange> = Vec::new();
        pairs.push(SampleOverRange { range, sample });
        ZoneMap { pairs }
    }

    /// Inserts a range-to-sample mapping into the map, keeping the
    /// zones ordered by `range_lt`; an equal range goes after the
    /// existing ones.
    pub fn insert(&mut self, range: HzVelRange, sample: Sample)
        requires
            old(self).wf(),
            sample.wf(),
        ensures
            final(self).pairs@ == old(self).pairs@.insert(
                insert_pos(old(self).pairs@, range),
                (SampleOverRange { range, sample }),
            ),
            final(self).wf(),
    {
        proof {
            lemma_insert_pos(self.pairs@, range);
        }
        let pair_count = self.pairs.len();
        let mut i: usize = 0;
        while i < pair_count
            invariant
                self.pairs@ == old(self).pairs@,
                old(self).wf(),
                sample.wf(),
                pair_count == self.pairs@.len(),
                i <= self.pairs@.len(),
                forall|k: int| 0 <= k < i ==> !range_lt(range, (#[trigger] self.pairs@[k]).range),
            decreases pair_count - i,
        {
            if range.lt(&self.pairs[i].range) {
                proof {
                    lemma_insert_pos_is(self.pairs@, range, i as int);
                }
                self.pairs.insert(i, SampleOverRange { range, sample });
                proof {
                    lemma_wf_after_insert(old(self).pairs@, self.pairs@, i as int);
                }
                return ;
            }
            i = i + 1;
        }
        proof {
            lemma_insert_pos_is(self.pairs@, range, pair_count as int);
        }
        self.pairs.push(SampleOverRange { range, sample });
        proof {
            assert(self.pairs@ =~= old(self).pairs@.insert(
                old(self).pairs@.len() as int,
                (SampleOverRange { range, sample }),
            ));
            lemma_wf_after_insert(old(self).pairs@, self.pairs@, old(self).pairs@.len() as int);
        }
    }

    /// Returns the sample of the first zone, in stored order, that
    /// contains the given frequency and velocity, or `None` when no
    /// zone does. Callers treat `None` as "ignore the note".
    pub fn sample(&self, hz: Hz, vel: Velocity) -> (r: Option<Sample>)
        ensures
            match first_match(self.pairs@, hz, vel) {
                Some(j) => r == Some(self.pairs@[j].sample),
                None => r is None,
            },
    {
        let pair_count = self.pairs.len();
        let mut i: usize = 0;
        while i < pair_count
            invariant
                pair_count == self.pairs@.len(),
                i <= self.pairs@.len(),
                forall|k: int| 0 <= k < i ==> !zone_matches(#[trigger] self.pairs@[k], hz, vel),
            decreases pair_count - i,
        {
            let pair = &self.pairs[i];
            if pair.range.hz.is_over(hz) && pair.range.vel.is_over(vel) {
                proof {
                    lemma_first_match_is(self.pairs@, hz, vel, i as int);
                }
                return Some(pair.sample.clone());
            }
            i = i + 1;
        }
        proof {
            lemma_first_match_none(self.pairs@, hz, vel);
        }
        None
    }
}

/// When a note lies inside exactly one zone's ranges, lookup returns
/// that zone's sample: `sample` returns `pairs[i].sample` whenever
/// zone `i` contains the note and no other zone does, however the
/// zones were inserted.
pub proof fn lemma_lookup_unique_zone(m: ZoneMap, hz: Hz, vel: Velocity, i: int)
    requires
        0 <= i < m.pairs@.len(),
        zone_matches(m.pairs@[i], hz, vel),
        forall|j: int|
            0 <= j < m.pairs@.len() && j != i ==> !zone_matches(#[trigger] m.pairs@[j], hz, vel),
    ensures
        first_match(m.pairs@, hz, vel) == Some(i),
{
    lemma_first_match_is(m.pairs@, hz, vel, i);
}

/// When a note lies outside every zone, lookup returns `None`.
pub proof fn lemma_lookup_no_zone(m: ZoneMap, hz: Hz, vel: Velocity)
    requires
        forall|j: int| 0 <= j < m.pairs@.len() ==> !zone_matches(#[trigger] m.pairs@[j], hz, vel),
    ensures
        first_match(m.pairs@, hz, vel) is None,
{
    lemma_first_match_none(m.pairs@, hz, vel);
}

/// Inserting a well-formed sample into a well-formed zone list keeps
/// every sample well formed.
proof fn lemma_wf_after_insert(before: Seq<SampleOverRange>, after: Seq<SampleOverRange>, j: int)
    requires
        0 <= j <= before.len(),
        after == before.insert(j, after[j]),
        forall|i: int| 0 <= i < before.len() ==> (#[trigger] before[i]).sample.wf(),
        after[j].sample.wf(),
    ensures
        forall|i: int| 0 <= i < after.len() ==> (#[trigger] after[i]).sample.wf(),
{
    assert forall|i: int| 0 <= i < after.len() implies (#[trigger] after[i]).sample.wf() by {
        if i < j {
            assert(after[i] == before[i]);
        } else if i > j {
            assert(after[i] == before[i - 1]);
        }
    }
}

} // verus!
