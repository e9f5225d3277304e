//! Playback: a forward-only playhead over a recording, a fixed-point
//! rate converter that resamples it to an arbitrary pitch ratio, and
//! the voice state a triggered note is rendered from.
//!
//! Positions and rates are fixed-point numbers in 1/`RATIO_ONE`ths of a
//! source frame. A rate of `RATIO_ONE` plays the recording unmodified;
//! `2 * RATIO_ONE` plays it an octave up, consuming two source frames
//! per output frame; fractional positions are rendered by linear
//! interpolation between the two nearest source frames.
use vstd::arithmetic::div_mod::lemma_div_by_multiple;
use vstd::arithmetic::div_mod::lemma_div_is_ordered;
use vstd::arithmetic::div_mod::lemma_div_nonincreasing;
use vstd::arithmetic::div_mod::lemma_div_pos_is_pos;
use vstd::arithmetic::div_mod::lemma_fundamental_div_mod;
use vstd::arithmetic::mul::lemma_mul_inequality;
use vstd::arithmetic::mul::lemma_mul_nonnegative;
use vstd::prelude::*;

use crate::audio::Audio;
use crate::zones::Sample;
use crate::Hz;
use crate::Velocity;
use crate::MAX_HZ;
use crate::MAX_RATIO;
use crate::MAX_VELOCITY;
use crate::RATIO_ONE;
use crate::SAMPLE_MAX;
use crate::SAMPLE_MIN;

verus! {

/// A forward-only cursor over a recording's frames.
#[derive(Debug, PartialEq)]
pub struct Playhead {
    /// The position of the playhead over the recording.
    pub idx: usize,
    /// The recording the playhead reads from.
    pub audio: Audio,
}

impl Playhead {
    /// The cursor sits within the recording.
    pub open spec fn wf(&self) -> bool {
        &&& self.audio.wf()
        &&& self.idx <= self.audio.frames().len()
    }

    /// Wrap the given recording with a `Playhead` starting from 0.
    pub fn new(audio: Audio) -> (r: Playhead)
        ensures
            r.idx == 0,
            r.audio == audio,
    {
        Self::from_idx(0, audio)
    }

    /// Wrap the given recording with a `Playhead` starting from the
    /// given index, clamped to the recording's end.
    pub fn from_idx(idx: usize, audio: Audio) -> (r: Playhead)
        ensures
            r.idx == if idx <= audio.frames().len() {
                idx as int
            } else {
                audio.frames().len() as int
            },
            r.audio == audio,
            audio.wf() ==> r.wf(),
    {
        let len = audio.len();
        let clamped = if idx <= len {
            idx
        } else {
            len
        };
        Playhead { idx: clamped, audio }
    }

    /// The frame under the cursor, advancing past it; `None` once the
    /// cursor has passed the end of the recording.
    pub fn next(&mut self) -> (r: Option<i64>)
        ensures
            final(self).audio == old(self).audio,
            if old(self).idx < old(self).audio.frames().len() {
                &&& r == Some(old(self).audio.frames()[old(self).idx as int])
                &&& final(self).idx == old(self).idx + 1
            } else {
                &&& r is None
                &&& final(self).idx == old(self).idx
            },
    {
        let len = self.audio.len();
        if self.idx < len {
            let s = self.audio.frame_at(self.idx);
            self.idx = self.idx + 1;
            Some(s)
        } else {
            None
        }
    }
}

impl Clone for Playhead {
    /// An equal playhead sharing the same recording.
    fn clone(&self) -> (r: Self)
        ensures
            r == *self,
    {
        Playhead { idx: self.idx, audio: self.audio.clone() }
    }
}

/// Linear interpolation between samples `a` and `b`, `frac`
/// 1/`RATIO_ONE`ths of the way from `a` to `b`, rounded towards `a`.
pub open spec fn lerp(a: i64, b: i64, frac: int) -> int {
    if b >= a {
        a + (b - a) * frac / (RATIO_ONE as int)
    } else {
        a - (a - b) * frac / (RATIO_ONE as int)
    }
}

/// The interpolated sample lies between the two it interpolates.
pub proof fn lemma_lerp_in_range(a: i64, b: i64, frac: int)
    requires
        0 <= frac < RATIO_ONE,
    ensures
        b >= a ==> a <= lerp(a, b, frac) <= b,
        b < a ==> b <= lerp(a, b, frac) <= a,
{
    let unit = RATIO_ONE as int;
    let d: int = if b >= a {
        b - a
    } else {
        a - b
    };
    lemma_mul_nonnegative(d, frac);
    lemma_div_pos_is_pos(d * frac, unit);
    lemma_mul_inequality(frac, unit, d);
    vstd::arithmetic::mul::lemma_mul_is_commutative(frac, d);
    vstd::arithmetic::mul::lemma_mul_is_commutative(unit, d);
    lemma_div_is_ordered(d * frac, d * unit, unit);
    lemma_div_by_multiple(d, unit);
}

/// Linear interpolation, executable: `frac` is in 1/`RATIO_ONE`ths.
fn lerp_exec(a: i64, b: i64, frac: u64) -> (r: i64)
    requires
        SAMPLE_MIN <= a <= SAMPLE_MAX,
        SAMPLE_MIN <= b <= SAMPLE_MAX,
        frac < RATIO_ONE,
    ensures
        r == lerp(a, b, frac as int),
        SAMPLE_MIN <= r <= SAMPLE_MAX,
{
    proof {
        lemma_lerp_in_range(a, b, frac as int);
    }
    if b >= a {
        let d: u64 = (b - a) as u64;
        let q: u64 = d * frac / RATIO_ONE;
        proof {
            lemma_mul_nonnegative(d as int, frac as int);
        }
        a + (q as i64)
    } else {
        let d: u64 = (a - b) as u64;
        let q: u64 = d * frac / RATIO_ONE;
        proof {
            lemma_mul_nonnegative(d as int, frac as int);
        }
        a - (q as i64)
    }
}

/// Resamples a playhead's recording at a variable fixed-point rate,
/// producing one output frame per call until the rate would carry the
/// position past the frames the recording holds.
#[derive(Debug, PartialEq)]
pub struct RateConverter {
    /// The cursor at the integer part of the playback position.
    pub source: Playhead,
    /// The fractional part of the playback position, below `RATIO_ONE`.
    pub frac: u64,
    /// How far the position advances per output frame, in
    /// 1/`RATIO_ONE`ths of a source frame.
    pub ratio: u64,
}

/// The converter's playback position, in 1/`RATIO_ONE`ths of a frame.
pub open spec fn conv_pos(c: RateConverter) -> int {
    c.source.idx * (RATIO_ONE as int) + c.frac
}

/// The index of the last source frame the current position needs: the
/// frame under it, or the one after when it sits between two frames.
pub open spec fn conv_needed(c: RateConverter) -> int {
    if c.frac == 0 {
        c.source.idx as int
    } else {
        c.source.idx + 1
    }
}

/// The converter is exhausted: producing a frame would need source
/// frames beyond the recording's length.
pub open spec fn conv_exhausted(c: RateConverter) -> bool {
    conv_needed(c) >= c.source.audio.frames().len()
}

/// The frame the converter produces at its current position.
pub open spec fn conv_output(c: RateConverter) -> int {
    let frames = c.source.audio.frames();
    if c.frac == 0 {
        frames[c.source.idx as int] as int
    } else {
        lerp(frames[c.source.idx as int], frames[c.source.idx + 1], c.frac as int)
    }
}

/// The converter is well formed: its recording is, its position sits
/// within the recording, and its rate is representable.
pub open spec fn conv_wf(c: RateConverter) -> bool {
    &&& c.source.wf()
    &&& c.frac < RATIO_ONE
    &&& (c.source.idx == c.source.audio.frames().len() ==> c.frac == 0)
    &&& c.ratio <= MAX_RATIO
}

/// The converter's state after producing one frame: the position has
/// advanced by `ratio`, clamped to the end of the recording. An
/// exhausted converter does not move.
pub open spec fn conv_step(c: RateConverter) -> RateConverter {
    if conv_exhausted(c) {
        c
    } else {
        let unit = RATIO_ONE as int;
        let cap = c.source.audio.frames().len() * unit;
        let total = conv_pos(c) + c.ratio;
        let newpos = if total > cap {
            cap
        } else {
            total
        };
        RateConverter {
            source: Playhead { idx: (newpos / unit) as usize, audio: c.source.audio },
            frac: (newpos % unit) as u64,
            ratio: c.ratio,
        }
    }
}

/// What one call of `next_frame` returns: the frame at the current
/// position, or `None` once the converter is exhausted.
pub open spec fn conv_result(c: RateConverter) -> Option<i64> {
    if conv_exhausted(c) {
        None
    } else {
        Some(conv_output(c) as i64)
    }
}

/// The converter's state after `n` frames have been requested.
pub open spec fn conv_run(c: RateConverter, n: nat) -> RateConverter
    decreases n,
{
    if n == 0 {
        c
    } else {
        conv_step(conv_run(c, (n - 1) as nat))
    }
}

/// A non-exhausted well-formed converter produces a sample in range.
pub proof fn lemma_conv_output_in_range(c: RateConverter)
    requires
        conv_wf(c),
        !conv_exhausted(c),
    ensures
        SAMPLE_MIN <= conv_output(c) <= SAMPLE_MAX,
{
    let frames = c.source.audio.frames();
    if c.frac != 0 {
        lemma_lerp_in_range(frames[c.source.idx as int], frames[c.source.idx + 1], c.frac as int);
    }
}

impl RateConverter {
    /// Wrap the given playhead, resampling it at the given rate.
    pub fn scale_playback_hz(source: Playhead, ratio: u64) -> (r: RateConverter)
        requires
            ratio <= MAX_RATIO,
        ensures
            r.source == source,
            r.frac == 0,
            r.ratio == ratio,
            source.wf() ==> conv_wf(r),
    {
        RateConverter { source, frac: 0, ratio }
    }

    /// Change the playback rate; the position does not move.
    pub fn set_playback_hz_scale(&mut self, ratio: u64)
        requires
            ratio <= MAX_RATIO,
        ensures
            *final(self) == (RateConverter { ratio, ..*old(self) }),
    {
        self.ratio = ratio;
    }

    /// The wrapped playhead.
    pub fn source(&self) -> (r: &Playhead)
        ensures
            *r == self.source,
    {
        &self.source
    }

    /// Produce one output frame and advance the position by `ratio`,
    /// or report exhaustion, leaving the converter unchanged.
    pub fn next_frame(&mut self) -> (r: Option<i64>)
        requires
            conv_wf(*old(self)),
        ensures
            r == conv_result(*old(self)),
            *final(self) == conv_step(*old(self)),
            conv_wf(*final(self)),
    {
        let len = self.source.audio.len();
        let idx = self.source.idx;
        let frac = self.frac;
        if frac == 0 {
            if idx >= len {
                return None;
            }
        } else {
            if idx + 1 >= len {
                return None;
            }
        }
        let a = self.source.audio.frame_at(idx);
        let out: i64 = if frac == 0 {
            a
        } else {
            let b = self.source.audio.frame_at(idx + 1);
            lerp_exec(a, b, frac)
        };
        let pos: u64 = (idx as u64) * RATIO_ONE + frac;
        let cap: u64 = (len as u64) * RATIO_ONE;
        let total: u64 = pos + self.ratio;
        let newpos: u64 = if total > cap {
            cap
        } else {
            total
        };
        let new_idx: u64 = newpos / RATIO_ONE;
        let new_frac: u64 = newpos % RATIO_ONE;
        proof {
            lemma_fundamental_div_mod(newpos as int, RATIO_ONE as int);
            lemma_div_is_ordered(newpos as int, cap as int, RATIO_ONE as int);
            lemma_div_by_multiple(len as int, RATIO_ONE as int);
            lemma_div_pos_is_pos(newpos as int, RATIO_ONE as int);
        }
        self.source.idx = new_idx as usize;
        self.frac = new_frac;
        Some(out)
    }
}

impl Clone for RateConverter {
    /// An equal converter sharing the same recording.
    fn clone(&self) -> (r: Self)
        ensures
            r == *self,
    {
        RateConverter { source: self.source.clone(), frac: self.frac, ratio: self.ratio }
    }
}

/// A sample that is currently being played back: the note that
/// triggered it, the sample's base pitch and velocity, when it was
/// triggered, and the converter rendering it.
#[derive(Debug, PartialEq)]
pub struct PlayingSample {
    /// The pitch at which the `note_on` was triggered.
    pub note_on_hz: Hz,
    /// The velocity with which the `note_on` was triggered.
    pub note_on_vel: Velocity,
    /// The pitch the recording was captured at.
    pub base_hz: Hz,
    /// The velocity the recording was captured at.
    pub base_vel: Velocity,
    /// When the note was triggered, on the engine's logical clock;
    /// smaller is older, and the oldest voice is the one stolen.
    pub time_of_note_on: u64,
    /// Rate-adjustable interpolation of the recording.
    pub rate_converter: RateConverter,
}

impl PlayingSample {
    /// Pitches, velocities and converter state are representable.
    pub open spec fn wf(&self) -> bool {
        &&& 1 <= self.base_hz < MAX_HZ
        &&& self.base_vel <= MAX_VELOCITY
        &&& self.note_on_hz < MAX_HZ
        &&& self.note_on_vel <= MAX_VELOCITY
        &&& conv_wf(self.rate_converter)
    }

    /// Construct a new `PlayingSample` from the given note, the sample
    /// matched for it, and the trigger time; playback starts from the
    /// beginning of the recording.
    pub fn new(hz: Hz, vel: Velocity, sample: Sample, time: u64) -> (r: PlayingSample)
        requires
            sample.wf(),
            hz < MAX_HZ,
            vel <= MAX_VELOCITY,
        ensures
            r == playing_sample_spec(0, hz, vel, sample, time),
            r.wf(),
    {
        Self::from_playhead_idx(0, hz, vel, sample, time)
    }

    /// Construct a new `PlayingSample` whose recording begins playing
    /// from the given playhead index (clamped to the recording's end),
    /// at the unit rate until the engine sets the note's rate.
    pub fn from_playhead_idx(idx: usize, hz: Hz, vel: Velocity, sample: Sample, time: u64) -> (r:
        PlayingSample)
        requires
            sample.wf(),
            hz < MAX_HZ,
            vel <= MAX_VELOCITY,
        ensures
            r == playing_sample_spec(idx as int, hz, vel, sample, time),
            r.wf(),
    {
        let Sample { base_hz, base_vel, audio } = sample;
        let playhead = Playhead::from_idx(idx, audio);
        let rate_converter = RateConverter::scale_playback_hz(playhead, RATIO_ONE);
        PlayingSample {
            note_on_hz: hz,
            note_on_vel: vel,
            base_hz,
            base_vel,
            time_of_note_on: time,
            rate_converter,
        }
    }
}

/// The voice seated for note `(hz, vel)` over `sample`, playing from
/// position `idx` (clamped to the recording's end) at the unit rate.
pub open spec fn playing_sample_spec(
    idx: int,
    hz: Hz,
    vel: Velocity,
    sample: Sample,
    time: u64,
) -> PlayingSample {
    let len = sample.audio.frames().len() as int;
    PlayingSample {
        note_on_hz: hz,
        note_on_vel: vel,
        base_hz: sample.base_hz,
        base_vel: sample.base_vel,
        time_of_note_on: time,
        rate_converter: RateConverter {
            source: Playhead {
                idx: (if idx <= len {
                    idx
                } else {
                    len
                }) as usize,
                audio: sample.audio,
            },
            frac: 0,
            ratio: RATIO_ONE,
        },
    }
}

impl Clone for PlayingSample {
    /// An equal voice sharing the same recording.
    fn clone(&self) -> (r: Self)
        ensures
            r == *self,
    {
        PlayingSample {
            note_on_hz: self.note_on_hz,
            note_on_vel: self.note_on_vel,
            base_hz: self.base_hz,
            base_vel: self.base_vel,
            time_of_note_on: self.time_of_note_on,
            rate_converter: self.rate_converter.clone(),
        }
    }
}

/// The playback rate for a note: `hz / base_hz` in `RATIO_ONE`ths.
pub open spec fn ratio_of(hz: Hz, base_hz: Hz) -> int {
    (hz as int) * (RATIO_ONE as int) / (base_hz as int)
}

/// Compute the playback rate for a note over a sample's base pitch.
fn playback_ratio(hz: Hz, base_hz: Hz) -> (r: u64)
    requires
        hz < MAX_HZ,
        1 <= base_hz,
    ensures
        r == ratio_of(hz, base_hz),
        r <= MAX_RATIO,
{
    let num: u64 = hz * RATIO_ONE;
    proof {
        lemma_div_nonincreasing(num as int, base_hz as int);
    }
    num / base_hz
}

/// A sample scaled by an amplitude and a velocity, both in thousandths
/// of full scale, rounded towards zero.
pub open spec fn scale_amp(w: int, amp: u32, vel: u32) -> int {
    let denom = (MAX_VELOCITY * MAX_VELOCITY) as int;
    if w >= 0 {
        w * amp * vel / denom
    } else {
        -((-w) * amp * vel / denom)
    }
}

/// Scaling by amplitudes within full scale never grows a sample.
proof fn lemma_scale_amp_in_range(w: i64, amp: u32, vel: u32)
    requires
        SAMPLE_MIN <= w <= SAMPLE_MAX,
        amp <= MAX_VELOCITY,
        vel <= MAX_VELOCITY,
    ensures
        w >= 0 ==> 0 <= scale_amp(w as int, amp, vel) <= w,
        w < 0 ==> w <= scale_amp(w as int, amp, vel) <= 0,
{
    let denom = (MAX_VELOCITY * MAX_VELOCITY) as int;
    let m: int = if w >= 0 {
        w as int
    } else {
        -(w as int)
    };
    let a = amp as int;
    let b = vel as int;
    lemma_mul_nonnegative(m, a);
    lemma_mul_nonnegative(m * a, b);
    lemma_div_pos_is_pos(m * a * b, denom);
    assert(a * b <= denom) by (nonlinear_arith)
        requires
            0 <= a <= 1000,
            0 <= b <= 1000,
            denom == 1000000,
    ;
    assert(m * a * b <= m * denom) by (nonlinear_arith)
        requires
            0 <= m,
            0 <= a,
            0 <= b,
            a * b <= denom,
    ;
    lemma_div_is_ordered(m * a * b, m * denom, denom);
    lemma_div_by_multiple(m, denom);
}

/// Scale a sample by an amplitude and a velocity.
fn scale_sample(w: i64, amp: u32, vel: u32) -> (r: i64)
    requires
        SAMPLE_MIN <= w <= SAMPLE_MAX,
        amp <= MAX_VELOCITY,
        vel <= MAX_VELOCITY,
    ensures
        r == scale_amp(w as int, amp, vel),
        SAMPLE_MIN <= r <= SAMPLE_MAX,
{
    proof {
        lemma_scale_amp_in_range(w, amp, vel);
    }
    let denom: u64 = (MAX_VELOCITY * MAX_VELOCITY) as u64;
    let m: u64 = if w >= 0 {
        w as u64
    } else {
        (-w) as u64
    };
    proof {
        assert((m as int) * (amp as int) <= 2147483648000 && (m as int) * (amp as int) * (
        vel as int) <= 2147483648000000) by (nonlinear_arith)
            requires
                0 <= m as int <= 2147483648,
                0 <= amp <= 1000,
                0 <= vel <= 1000,
        ;
    }
    let q: u64 = m * (amp as u64) * (vel as u64) / denom;
    if w >= 0 {
        q as i64
    } else {
        -(q as i64)
    }
}

/// A mixing sum clamped to the representable sample range.
pub open spec fn clamp(x: int) -> int {
    if x > SAMPLE_MAX as int {
        SAMPLE_MAX as int
    } else if x < SAMPLE_MIN as int {
        SAMPLE_MIN as int
    } else {
        x
    }
}

/// Add a scaled sample into the accumulator, saturating at the sample
/// range.
fn clamp_add(acc: i64, s: i64) -> (r: i64)
    requires
        SAMPLE_MIN <= acc <= SAMPLE_MAX,
        SAMPLE_MIN <= s <= SAMPLE_MAX,
    ensures
        r == clamp(acc + s),
        SAMPLE_MIN <= r <= SAMPLE_MAX,
{
    let sum = acc + s;
    if sum > SAMPLE_MAX {
        SAMPLE_MAX
    } else if sum < SAMPLE_MIN {
        SAMPLE_MIN
    } else {
        sum
    }
}

/// The per-voice signal a frequency/amplitude generator yields for one
/// render tick: an amplitude in thousandths of full scale and the
/// note's instantaneous frequency, or `None` once the voice has ended.
pub type VoiceSignal = Option<(Velocity, Hz)>;

/// Every signal's amplitude and frequency are representable.
pub open spec fn sigs_wf(sigs: Seq<VoiceSignal>) -> bool {
    forall|i: int|
        0 <= i < sigs.len() ==> match #[trigger] sigs[i] {
            Some(s) => s.0 <= MAX_VELOCITY && s.1 < MAX_HZ,
            None => true,
        }
}

/// The signal the built-in constant generator yields for a slot: the
/// voice's own trigger velocity and pitch, for as long as it plays.
pub open spec fn default_sig(s: Option<PlayingSample>) -> VoiceSignal {
    match s {
        Some(v) => Some((v.note_on_vel, v.note_on_hz)),
        None => None,
    }
}

/// The constant generator's signals for a whole pool.
pub open spec fn default_sigs(vs: Seq<Option<PlayingSample>>) -> Seq<VoiceSignal> {
    Seq::new(vs.len(), |i: int| default_sig(vs[i]))
}

/// A slot's voice with its converter rate set for the signalled pitch.
pub open spec fn voice_with_ratio(v: PlayingSample, hz: Hz) -> RateConverter {
    RateConverter { ratio: ratio_of(hz, v.base_hz) as u64, ..v.rate_converter }
}

/// A slot after one render tick: cleared when empty, when its signal
/// has ended, or when its source is exhausted at the signalled rate;
/// otherwise its converter has advanced one output frame.
pub open spec fn tick_slot(s: Option<PlayingSample>, sig: VoiceSignal) -> Option<PlayingSample> {
    match s {
        None => None,
        Some(v) => match sig {
            None => None,
            Some((amp, hz)) => {
                let c = voice_with_ratio(v, hz);
                if conv_exhausted(c) {
                    None
                } else {
                    Some(PlayingSample { rate_converter: conv_step(c), ..v })
                }
            },
        },
    }
}

/// What a slot contributes to the mixed output frame: its converter's
/// output scaled by the signalled amplitude and the voice's base
/// velocity; silence when it is empty, ended or exhausted.
pub open spec fn tick_slot_out(s: Option<PlayingSample>, sig: VoiceSignal) -> int {
    match s {
        None => 0,
        Some(v) => match sig {
            None => 0,
            Some((amp, hz)) => {
                let c = voice_with_ratio(v, hz);
                if conv_exhausted(c) {
                    0
                } else {
                    scale_amp(conv_output(c), amp, v.base_vel)
                }
            },
        },
    }
}

/// The mix of the first `n` slots' contributions, saturating at the
/// sample range after each addition.
pub open spec fn mix_upto(
    vs: Seq<Option<PlayingSample>>,
    sigs: Seq<VoiceSignal>,
    n: int,
) -> int
    decreases n,
{
    if n <= 0 {
        0
    } else {
        clamp(mix_upto(vs, sigs, n - 1) + tick_slot_out(vs[n - 1], sigs[n - 1]))
    }
}

/// A whole pool after one render tick under the constant generator.
pub open spec fn tick_all(vs: Seq<Option<PlayingSample>>) -> Seq<Option<PlayingSample>> {
    Seq::new(vs.len(), |i: int| tick_slot(vs[i], default_sig(vs[i])))
}

/// The pool after `n` render ticks under the constant generator.
pub open spec fn engine_vs_after(vs: Seq<Option<PlayingSample>>, n: nat) -> Seq<
    Option<PlayingSample>,
>
    decreases n,
{
    if n == 0 {
        vs
    } else {
        tick_all(engine_vs_after(vs, (n - 1) as nat))
    }
}

/// The frame the `n`th render tick outputs under the constant
/// generator (counting from 0).
pub open spec fn engine_out_at(vs: Seq<Option<PlayingSample>>, n: nat) -> int {
    let w = engine_vs_after(vs, n);
    mix_upto(w, default_sigs(w), w.len() as int)
}

/// A converter at the unit rate reproduces its source's frames in
/// order: after `n` frames the playhead has advanced exactly `n`
/// frames from its origin, and the next frame, if the source still
/// holds one, is exactly the source frame there.
pub proof fn lemma_unit_ratio_reproduces(c: RateConverter, n: nat)
    requires
        conv_wf(c),
        c.ratio == RATIO_ONE,
        c.frac == 0,
        c.source.idx + n <= c.source.audio.frames().len(),
    ensures
        conv_run(c, n).source.audio == c.source.audio,
        conv_run(c, n).ratio == RATIO_ONE,
        conv_run(c, n).frac == 0,
        conv_run(c, n).source.idx == c.source.idx + n,
        conv_wf(conv_run(c, n)),
        c.source.idx + n < c.source.audio.frames().len() ==> conv_result(conv_run(c, n)) == Some(
            c.source.audio.frames()[c.source.idx + n],
        ),
    decreases n,
{
    let u = RATIO_ONE as int;
    let len = c.source.audio.frames().len() as int;
    if n > 0 {
        lemma_unit_ratio_reproduces(c, (n - 1) as nat);
        let prev = conv_run(c, (n - 1) as nat);
        let i1 = c.source.idx + n;
        assert(!conv_exhausted(prev));
        assert(conv_pos(prev) + prev.ratio == i1 * u) by (nonlinear_arith)
            requires
                conv_pos(prev) == (i1 - 1) * u,
                prev.ratio == u,
        ;
        lemma_mul_inequality(i1, len, u);
        vstd::arithmetic::mul::lemma_mul_is_commutative(i1, u);
        vstd::arithmetic::mul::lemma_mul_is_commutative(len, u);
        lemma_div_by_multiple(i1, u);
        vstd::arithmetic::div_mod::lemma_mod_multiples_basic(i1, u);
        assert(conv_run(c, n) == conv_step(prev));
    }
}

/// A converter at twice the unit rate consumes exactly two source
/// frames per output frame: after `n` frames the playhead has
/// advanced `2 * n` frames from its origin — twice what the unit rate
/// consumes over the same `n` frames.
pub proof fn lemma_double_ratio_consumes_twice(c: RateConverter, n: nat)
    requires
        conv_wf(c),
        c.ratio == 2 * RATIO_ONE,
        c.frac == 0,
        c.source.idx + 2 * n <= c.source.audio.frames().len(),
    ensures
        conv_run(c, n).source.audio == c.source.audio,
        conv_run(c, n).ratio == 2 * RATIO_ONE,
        conv_run(c, n).frac == 0,
        conv_run(c, n).source.idx == c.source.idx + 2 * n,
        conv_wf(conv_run(c, n)),
    decreases n,
{
    let u = RATIO_ONE as int;
    let len = c.source.audio.frames().len() as int;
    if n > 0 {
        lemma_double_ratio_consumes_twice(c, (n - 1) as nat);
        let prev = conv_run(c, (n - 1) as nat);
        let i1 = c.source.idx + 2 * n;
        assert(prev.source.idx < len);
        assert(!conv_exhausted(prev));
        assert(conv_pos(prev) + prev.ratio == i1 * u) by (nonlinear_arith)
            requires
                conv_pos(prev) == (i1 - 2) * u,
                prev.ratio == 2 * u,
        ;
        lemma_mul_inequality(i1, len, u);
        vstd::arithmetic::mul::lemma_mul_is_commutative(i1, u);
        vstd::arithmetic::mul::lemma_mul_is_commutative(len, u);
        lemma_div_by_multiple(i1, u);
        vstd::arithmetic::div_mod::lemma_mod_multiples_basic(i1, u);
        assert(conv_run(c, n) == conv_step(prev));
    }
}

/// Does any pool slot hold a sounding voice.
pub open spec fn any_voice(vs: Seq<Option<PlayingSample>>) -> bool {
    exists|i: int| 0 <= i < vs.len() && (#[trigger] vs[i]) is Some
}

/// Slots that all contribute silence mix to silence.
proof fn lemma_mix_silent(vs: Seq<Option<PlayingSample>>, sigs: Seq<VoiceSignal>, n: int)
    requires
        forall|k: int| 0 <= k < n ==> tick_slot_out(#[trigger] vs[k], sigs[k]) == 0,
    ensures
        mix_upto(vs, sigs, n) == 0,
    decreases n,
{
    if n > 0 {
        lemma_mix_silent(vs, sigs, n - 1);
    }
}

/// When only the first slot contributes, the mix is that single
/// contribution, clamped.
proof fn lemma_mix_single(vs: Seq<Option<PlayingSample>>, sigs: Seq<VoiceSignal>, n: int)
    requires
        n >= 1,
        forall|k: int| 1 <= k < n ==> tick_slot_out(#[trigger] vs[k], sigs[k]) == 0,
    ensures
        mix_upto(vs, sigs, n) == clamp(tick_slot_out(vs[0], sigs[0])),
    decreases n,
{
    if n == 1 {
        assert(mix_upto(vs, sigs, 0) == 0);
        assert(mix_upto(vs, sigs, 1) == clamp(0 + tick_slot_out(vs[0], sigs[0])));
    } else {
        lemma_mix_single(vs, sigs, n - 1);
        assert(tick_slot_out(vs[n - 1], sigs[n - 1]) == 0);
        assert(mix_upto(vs, sigs, n) == clamp(mix_upto(vs, sigs, n - 1) + 0));
    }
}

/// A note at the sample's own pitch plays at the unit rate.
proof fn lemma_ratio_of_unit(hz: Hz)
    requires
        1 <= hz,
    ensures
        ratio_of(hz, hz) == RATIO_ONE,
{
    vstd::arithmetic::div_mod::lemma_div_multiples_vanish(RATIO_ONE as int, hz as int);
}

/// Full amplitude at full base velocity passes a sample through
/// unchanged.
proof fn lemma_scale_amp_identity(w: int)
    requires
        SAMPLE_MIN <= w <= SAMPLE_MAX,
    ensures
        scale_amp(w, MAX_VELOCITY, MAX_VELOCITY) == w,
{
    if w >= 0 {
        assert(w * 1000 * 1000 == w * 1000000) by (nonlinear_arith);
        lemma_div_by_multiple(w, 1000000);
    } else {
        let m = -w;
        assert(m * 1000 * 1000 == m * 1000000) by (nonlinear_arith);
        lemma_div_by_multiple(m, 1000000);
    }
}

/// End to end, under the constant generator: a pool whose one voice
/// plays a recording at its own base pitch and full velocity renders
/// the recording's remaining frames unchanged, one per tick; the tick
/// after the last frame outputs silence and clears the voice, and the
/// pool holds a sounding voice up to exactly that tick.
pub proof fn lemma_single_voice_end_to_end(vs: Seq<Option<PlayingSample>>, v: PlayingSample, n: nat)
    requires
        vs.len() > 0,
        vs[0] == Some(v),
        forall|k: int| 1 <= k < vs.len() ==> (#[trigger] vs[k]) is None,
        v.wf(),
        v.note_on_hz == v.base_hz,
        v.note_on_vel == MAX_VELOCITY,
        v.base_vel == MAX_VELOCITY,
        v.rate_converter.frac == 0,
    ensures
        engine_vs_after(vs, n).len() == vs.len(),
        forall|k: int| 1 <= k < vs.len() ==> (#[trigger] engine_vs_after(vs, n)[k]) is None,
        v.rate_converter.source.idx + n <= v.rate_converter.source.audio.frames().len() ==> (
        engine_vs_after(vs, n)[0] matches Some(p)
            && p.rate_converter.source.audio == v.rate_converter.source.audio
            && p.rate_converter.source.idx == v.rate_converter.source.idx + n
            && p.rate_converter.frac == 0 && p.note_on_hz == v.note_on_hz && p.note_on_vel
            == v.note_on_vel && p.base_hz == v.base_hz && p.base_vel == v.base_vel && p.wf()),
        v.rate_converter.source.idx + n > v.rate_converter.source.audio.frames().len()
            ==> engine_vs_after(vs, n)[0] is None,
        any_voice(engine_vs_after(vs, n)) <==> v.rate_converter.source.idx + n
            <= v.rate_converter.source.audio.frames().len(),
        v.rate_converter.source.idx + n < v.rate_converter.source.audio.frames().len()
            ==> engine_out_at(vs, n) == v.rate_converter.source.audio.frames()[v.rate_converter.source.idx
            + n],
        v.rate_converter.source.idx + n >= v.rate_converter.source.audio.frames().len()
            ==> engine_out_at(vs, n) == 0,
    decreases n,
{
    let u = RATIO_ONE as int;
    let idx0 = v.rate_converter.source.idx as int;
    let a = v.rate_converter.source.audio;
    let frames = a.frames();
    let len = frames.len() as int;
    let w = engine_vs_after(vs, n);
    if n > 0 {
        lemma_single_voice_end_to_end(vs, v, (n - 1) as nat);
        let wp = engine_vs_after(vs, (n - 1) as nat);
        assert(w == tick_all(wp));
        assert forall|k: int| 1 <= k < vs.len() implies (#[trigger] w[k]) is None by {
            assert(wp[k] is None);
            assert(w[k] == tick_slot(wp[k], default_sig(wp[k])));
        }
        if idx0 + n - 1 <= len {
            match wp[0] {
                Some(p) => {
                    lemma_ratio_of_unit(p.base_hz);
                    let c = voice_with_ratio(p, p.note_on_hz);
                    assert(c.ratio == RATIO_ONE);
                    assert(w[0] == tick_slot(wp[0], default_sig(wp[0])));
                    if idx0 + n - 1 < len {
                        assert(!conv_exhausted(c));
                        let i1 = idx0 + n;
                        assert(conv_pos(c) + c.ratio == i1 * u) by (nonlinear_arith)
                            requires
                                conv_pos(c) == (i1 - 1) * u,
                                c.ratio == u,
                        ;
                        lemma_mul_inequality(i1, len, u);
                        vstd::arithmetic::mul::lemma_mul_is_commutative(i1, u);
                        vstd::arithmetic::mul::lemma_mul_is_commutative(len, u);
                        lemma_div_by_multiple(i1, u);
                        vstd::arithmetic::div_mod::lemma_mod_multiples_basic(i1, u);
                        assert(w[0] matches Some(q) && q.rate_converter == conv_step(c));
                    } else {
                        assert(conv_exhausted(c));
                        assert(w[0] is None);
                    }
                },
                None => {
                    assert(false);
                },
            }
        } else {
            assert(wp[0] is None);
            assert(w[0] == tick_slot(wp[0], default_sig(wp[0])));
        }
    }
    if idx0 + n <= len {
        assert(w[0] is Some);
        assert(any_voice(w));
    } else {
        assert forall|k: int| 0 <= k < w.len() implies !((#[trigger] w[k]) is Some) by {
            if k >= 1 {
                assert(w[k] is None);
            }
        }
        assert(!any_voice(w));
    }
    let sigs = default_sigs(w);
    if idx0 + n < len {
        match w[0] {
            Some(p) => {
                lemma_ratio_of_unit(p.base_hz);
                let c = voice_with_ratio(p, p.note_on_hz);
                assert(!conv_exhausted(c));
                assert(conv_output(c) == frames[idx0 + n]);
                lemma_scale_amp_identity(frames[idx0 + n] as int);
                assert(sigs[0] == default_sig(w[0]));
                assert(tick_slot_out(w[0], sigs[0]) == frames[idx0 + n]);
                assert forall|k: int| 1 <= k < w.len() implies tick_slot_out(
                    #[trigger] w[k],
                    sigs[k],
                ) == 0 by {
                    assert(w[k] is None);
                }
                lemma_mix_single(w, sigs, w.len() as int);
                assert(clamp(frames[idx0 + n] as int) == frames[idx0 + n]);
            },
            None => {
                assert(false);
            },
        }
    } else {
        assert forall|k: int| 0 <= k < w.len() implies tick_slot_out(
            #[trigger] w[k],
            sigs[k],
        ) == 0 by {
            if k == 0 {
                match w[0] {
                    Some(p) => {
                        lemma_ratio_of_unit(p.base_hz);
                        assert(conv_exhausted(voice_with_ratio(p, p.note_on_hz)));
                    },
                    None => {},
                }
            } else {
                assert(w[k] is None);
            }
        }
        lemma_mix_silent(w, sigs, w.len() as int);
    }
}

/// The pool of playback voices: one optional sounding sample per slot.
///
/// In mono modes every slot mirrors the same voice (unison); in poly
/// mode each slot holds its own note.
#[derive(Debug, Clone, PartialEq)]
pub struct Voices {
    /// The slots, one per configured voice of polyphony.
    pub map: Vec<Option<PlayingSample>>,
}

/// A sampler instrument: the zone map that matches notes to
/// recordings, the note-dispatch mode, the voice pool, and a logical
/// clock that orders voices by trigger time.
#[derive(Debug)]
pub struct Sampler {
    /// The note-dispatch policy.
    pub mode: crate::mode::Dynamic,
    /// Which recording plays which note.
    pub map: crate::zones::ZoneMap,
    /// The pool of playback voices.
    pub voices: Voices,
    /// The next trigger time: incremented on every `note_on`.
    pub next_time: u64,
}

impl Sampler {
    /// The map, the mode and every pooled voice are well formed.
    pub open spec fn wf(&self) -> bool {
        &&& self.map.wf()
        &&& crate::mode::dynamic_wf(self.mode)
        &&& crate::mode::slots_wf(self.voices.map@)
    }

    /// Construct a new `Sampler` with the given mode and zone map and
    /// a single voice of polyphony.
    pub fn new(mode: crate::mode::Dynamic, map: crate::zones::ZoneMap) -> (r: Sampler)
        requires
            map.wf(),
            crate::mode::dynamic_wf(mode),
        ensures
            r.mode == mode,
            r.map == map,
            r.voices.map@.len() == 1,
            r.voices.map@[0] is None,
            r.next_time == 0,
            r.wf(),
    {
        let mut slots: Vec<Option<PlayingSample>> = Vec::new();
        slots.push(None);
        Sampler { mode, map, voices: Voices { map: slots }, next_time: 0 }
    }

    /// Construct a `Sampler` with a mono legato playback mode.
    pub fn legato(map: crate::zones::ZoneMap) -> (r: Sampler)
        requires
            map.wf(),
        ensures
            r.mode matches crate::mode::Dynamic::Mono(m) && m.0 == crate::mode::MonoKind::Legato
                && m.1@.len() == 0,
            r.map == map,
            r.voices.map@.len() == 1,
            r.voices.map@[0] is None,
            r.next_time == 0,
            r.wf(),
    {
        Self::new(crate::mode::Dynamic::legato(), map)
    }

    /// Construct a `Sampler` with a mono retrigger playback mode.
    pub fn retrigger(map: crate::zones::ZoneMap) -> (r: Sampler)
        requires
            map.wf(),
        ensures
            r.mode matches crate::mode::Dynamic::Mono(m) && m.0
                == crate::mode::MonoKind::Retrigger && m.1@.len() == 0,
            r.map == map,
            r.voices.map@.len() == 1,
            r.voices.map@[0] is None,
            r.next_time == 0,
            r.wf(),
    {
        Self::new(crate::mode::Dynamic::retrigger(), map)
    }

    /// Construct a `Sampler` with a poly playback mode.
    pub fn poly(map: crate::zones::ZoneMap) -> (r: Sampler)
        requires
            map.wf(),
        ensures
            r.mode is Poly,
            r.map == map,
            r.voices.map@.len() == 1,
            r.voices.map@[0] is None,
            r.next_time == 0,
            r.wf(),
    {
        Self::new(crate::mode::Dynamic::poly(), map)
    }

    /// Build the `Sampler` with the given number of voices.
    pub fn num_voices(self, n: usize) -> (r: Sampler)
        requires
            self.wf(),
        ensures
            r.mode == self.mode,
            r.map == self.map,
            r.next_time == self.next_time,
            r.voices.map@.len() == n,
            forall|k: int| 0 <= k < n ==> (#[trigger] r.voices.map@[k]) is None,
            r.wf(),
    {
        let mut s = self;
        s.set_num_voices(n);
        s
    }

    /// The number of voices the pool holds.
    pub fn voice_count(&self) -> (n: usize)
        ensures
            n == self.voices.map@.len(),
    {
        self.voices.map.len()
    }

    /// Set the number of voices: the pool is rebuilt empty, clearing
    /// every sounding voice. This is an administrative operation, not
    /// part of the render path.
    pub fn set_num_voices(&mut self, n: usize)
        requires
            old(self).wf(),
        ensures
            final(self).mode == old(self).mode,
            final(self).map == old(self).map,
            final(self).next_time == old(self).next_time,
            final(self).voices.map@.len() == n,
            forall|k: int| 0 <= k < n ==> (#[trigger] final(self).voices.map@[k]) is None,
            final(self).wf(),
    {
        let mut slots: Vec<Option<PlayingSample>> = Vec::new();
        let mut i: usize = 0;
        while i < n
            invariant
                i <= n,
                slots@.len() == i,
                forall|k: int| 0 <= k < i ==> (#[trigger] slots@[k]) is None,
            decreases n - i,
        {
            slots.push(None);
            i = i + 1;
        }
        self.voices.map = slots;
    }

    /// Begin playback of a note: the mode decides which slots are
    /// seated with the zone map's sample for the note; a note no zone
    /// matches is silently ignored. The logical clock advances.
    pub fn note_on(&mut self, note_hz: Hz, note_vel: Velocity)
        requires
            old(self).wf(),
            note_hz < MAX_HZ,
            note_vel <= MAX_VELOCITY,
        ensures
            crate::mode::dynamic_note_on_post(
                old(self).mode,
                final(self).mode,
                old(self).voices.map@,
                final(self).voices.map@,
                old(self).map,
                note_hz,
                note_vel,
                old(self).next_time,
            ),
            final(self).map == old(self).map,
            final(self).next_time == if old(self).next_time < u64::MAX {
                old(self).next_time + 1
            } else {
                old(self).next_time as int
            },
            final(self).wf(),
    {
        let t = self.next_time;
        if self.next_time < u64::MAX {
            self.next_time = self.next_time + 1;
        }
        self.mode.note_on(note_hz, note_vel, &self.map, &mut self.voices.map, t);
    }

    /// Stop playback of the note that was triggered with the matching
    /// frequency; a pitch with no sounding match is a no-op.
    pub fn note_off(&mut self, note_hz: Hz)
        requires
            old(self).wf(),
        ensures
            crate::mode::dynamic_note_off_post(
                old(self).mode,
                final(self).mode,
                old(self).voices.map@,
                final(self).voices.map@,
                old(self).map,
                note_hz,
            ),
            final(self).map == old(self).map,
            final(self).next_time == old(self).next_time,
            final(self).wf(),
    {
        self.mode.note_off(note_hz, &self.map, &mut self.voices.map);
    }

    /// Stop playback: clear every voice and every held note.
    pub fn stop(&mut self)
        requires
            old(self).wf(),
        ensures
            final(self).voices.map@.len() == 0,
            final(self).map == old(self).map,
            final(self).next_time == old(self).next_time,
            match (old(self).mode, final(self).mode) {
                (crate::mode::Dynamic::Mono(m0), crate::mode::Dynamic::Mono(m1)) => m1.0 == m0.0
                    && m1.1@.len() == 0,
                (crate::mode::Dynamic::Poly(_), crate::mode::Dynamic::Poly(_)) => true,
                _ => false,
            },
            final(self).wf(),
    {
        match &mut self.mode {
            crate::mode::Dynamic::Mono(m) => {
                m.1 = Vec::new();
            },
            crate::mode::Dynamic::Poly(_) => {},
        }
        self.voices.map = Vec::new();
    }

    /// Returns whether or not the `Sampler` is currently playing any
    /// notes.
    pub fn is_active(&self) -> (r: bool)
        ensures
            r == any_voice(self.voices.map@),
    {
        let n = self.voices.map.len();
        let mut i: usize = 0;
        while i < n
            invariant
                n == self.voices.map@.len(),
                i <= n,
                forall|k: int| 0 <= k < i ==> (#[trigger] self.voices.map@[k]) is None,
            decreases n - i,
        {
            let some = match &self.voices.map[i] {
                Some(_) => true,
                None => false,
            };
            if some {
                assert(self.voices.map@[i as int] is Some);
                return true;
            }
            i = i + 1;
        }
        false
    }

    /// One render tick driven by an external frequency/amplitude
    /// generator: `signals[k]` is what the generator yielded for slot
    /// `k` this tick. Each sounding voice is resampled at
    /// `hz / base_hz`, scaled by `amplitude * base_vel`, and summed
    /// into the output with saturation; a slot whose signal has ended
    /// or whose recording is exhausted is cleared and contributes
    /// silence.
    pub fn next_frame_with_signals(&mut self, signals: &Vec<VoiceSignal>) -> (out: i64)
        requires
            old(self).wf(),
            signals@.len() == old(self).voices.map@.len(),
            sigs_wf(signals@),
        ensures
            final(self).voices.map@.len() == old(self).voices.map@.len(),
            forall|k: int|
                0 <= k < old(self).voices.map@.len() ==> #[trigger] final(self).voices.map@[k]
                    == tick_slot(old(self).voices.map@[k], signals@[k]),
            out == mix_upto(
                old(self).voices.map@,
                signals@,
                old(self).voices.map@.len() as int,
            ),
            SAMPLE_MIN <= out <= SAMPLE_MAX,
            final(self).mode == old(self).mode,
            final(self).map == old(self).map,
            final(self).next_time == old(self).next_time,
            final(self).wf(),
    {
        let n = self.voices.map.len();
        let mut acc: i64 = 0;
        let mut k: usize = 0;
        while k < n
            invariant
                n == self.voices.map@.len(),
                n == old(self).voices.map@.len(),
                n == signals@.len(),
                k <= n,
                sigs_wf(signals@),
                crate::mode::slots_wf(old(self).voices.map@),
                self.mode == old(self).mode,
                self.map == old(self).map,
                self.next_time == old(self).next_time,
                old(self).map.wf(),
                crate::mode::dynamic_wf(old(self).mode),
                crate::mode::slots_wf(self.voices.map@),
                forall|j: int|
                    0 <= j < k ==> #[trigger] self.voices.map@[j] == tick_slot(
                        old(self).voices.map@[j],
                        signals@[j],
                    ),
                forall|j: int| k <= j < n ==> #[trigger] self.voices.map@[j] == old(self).voices.map@[j],
                acc == mix_upto(old(self).voices.map@, signals@, k as int),
                SAMPLE_MIN <= acc <= SAMPLE_MAX,
            decreases n - k,
        {
            let cur: Option<PlayingSample> = match &self.voices.map[k] {
                Some(v) => Some(v.clone()),
                None => None,
            };
            let sig: VoiceSignal = signals[k];
            match cur {
                None => {},
                Some(mut v) => {
                    let ghost v0 = v;
                    proof {
                        assert(old(self).voices.map@[k as int] == Some(v0));
                    }
                    match sig {
                        None => {
                            self.voices.map.set(k, None);
                        },
                        Some((amp, hz)) => {
                            let ratio = playback_ratio(hz, v.base_hz);
                            v.rate_converter.set_playback_hz_scale(ratio);
                            proof {
                                assert(v.rate_converter == voice_with_ratio(v0, hz));
                            }
                            match v.rate_converter.next_frame() {
                                Some(w) => {
                                    proof {
                                        lemma_conv_output_in_range(voice_with_ratio(v0, hz));
                                    }
                                    let sc = scale_sample(w, amp, v.base_vel);
                                    acc = clamp_add(acc, sc);
                                    self.voices.map.set(k, Some(v));
                                },
                                None => {
                                    self.voices.map.set(k, None);
                                },
                            }
                        },
                    }
                },
            }
            k = k + 1;
        }
        acc
    }

    /// One render tick under the built-in constant generator: every
    /// sounding voice plays at its own trigger pitch and velocity
    /// until its recording runs out.
    pub fn next_frame(&mut self) -> (out: i64)
        requires
            old(self).wf(),
        ensures
            final(self).voices.map@ == tick_all(old(self).voices.map@),
            out == engine_out_at(old(self).voices.map@, 0),
            SAMPLE_MIN <= out <= SAMPLE_MAX,
            final(self).mode == old(self).mode,
            final(self).map == old(self).map,
            final(self).next_time == old(self).next_time,
            final(self).wf(),
    {
        let n = self.voices.map.len();
        let mut signals: Vec<VoiceSignal> = Vec::new();
        let mut k: usize = 0;
        while k < n
            invariant
                n == self.voices.map@.len(),
                self.voices.map@ == old(self).voices.map@,
                k <= n,
                signals@.len() == k,
                crate::mode::slots_wf(self.voices.map@),
                forall|j: int|
                    0 <= j < k ==> #[trigger] signals@[j] == default_sig(self.voices.map@[j]),
            decreases n - k,
        {
            let sig: VoiceSignal = match &self.voices.map[k] {
                Some(v) => Some((v.note_on_vel, v.note_on_hz)),
                None => None,
            };
            signals.push(sig);
            k = k + 1;
        }
        proof {
            assert(signals@ =~= default_sigs(self.voices.map@));
        }
        let out = self.next_frame_with_signals(&signals);
        proof {
            assert(self.voices.map@ =~= tick_all(old(self).voices.map@));
        }
        out
    }

    /// Mix frames from the sampler into the given buffer, one render
    /// tick per frame, saturating at the sample range.
    pub fn fill_slice(&mut self, output: &mut Vec<i64>)
        requires
            old(self).wf(),
            forall|k: int|
                0 <= k < old(output)@.len() ==> SAMPLE_MIN <= #[trigger] old(output)@[k]
                    <= SAMPLE_MAX,
        ensures
            final(output)@.len() == old(output)@.len(),
            forall|k: int|
                0 <= k < old(output)@.len() ==> #[trigger] final(output)@[k] == clamp(
                    old(output)@[k] + engine_out_at(old(self).voices.map@, k as nat),
                ),
            final(self).voices.map@ == engine_vs_after(
                old(self).voices.map@,
                old(output)@.len() as nat,
            ),
            final(self).mode == old(self).mode,
            final(self).map == old(self).map,
            final(self).next_time == old(self).next_time,
            final(self).wf(),
    {
        let n = output.len();
        let mut k: usize = 0;
        while k < n
            invariant
                n == output@.len(),
                n == old(output)@.len(),
                k <= n,
                self.wf(),
                self.mode == old(self).mode,
                self.map == old(self).map,
                self.next_time == old(self).next_time,
                self.voices.map@ == engine_vs_after(old(self).voices.map@, k as nat),
                forall|j: int|
                    0 <= j < n ==> SAMPLE_MIN <= #[trigger] old(output)@[j] <= SAMPLE_MAX,
                forall|j: int| k <= j < n ==> #[trigger] output@[j] == old(output)@[j],
                forall|j: int|
                    0 <= j < k ==> #[trigger] output@[j] == clamp(
                        old(output)@[j] + engine_out_at(old(self).voices.map@, j as nat),
                    ),
            decreases n - k,
        {
            let f = self.next_frame();
            let mixed = clamp_add(output[k], f);
            output.set(k, mixed);
            k = k + 1;
        }
    }
}

} // verus!
