//! The "mode" with which the sampler handles notes: monophonic
//! (legato or retrigger, all pool slots in unison, with a stack of
//! held notes to fall back to) or polyphonic (one slot per note,
//! stealing the longest-sounding voice when the pool is full), and a
//! tagged union of the two that can be switched at run time.
use vstd::prelude::*;

use crate::sampler::playing_sample_spec;
use crate::sampler::PlayingSample;
use crate::zones::first_match;
use crate::zones::lemma_first_match;
use crate::zones::ZoneMap;
use crate::Hz;
use crate::Velocity;
use crate::MAX_HZ;
use crate::MAX_VELOCITY;

verus! {

/// How a monophonic sampler starts a new or fallback note.
#[derive(Clone, Copy, Debug, PartialEq, Eq, Structural)]
pub enum MonoKind {
    /// Continue from the sounding voice's playhead: pitch glide
    /// without an audio discontinuity.
    Legato,
    /// Always restart the recording from its beginning.
    Retrigger,
}

/// Monophonic mode: the kind of retriggering, and the stack of
/// previously-triggered, still-held pitches, most recent last.
#[derive(Debug, PartialEq)]
pub struct Mono(pub MonoKind, pub Vec<Hz>);

/// Polyphonic mode: one voice per note, stealing the oldest.
#[derive(Clone, Copy, Debug, PartialEq)]
pub struct Poly;

/// A tagged union of the modes, so an engine's mode can be switched at
/// run time without recompiling against a fixed type.
#[derive(Debug, PartialEq)]
pub enum Dynamic {
    Mono(Mono),
    Poly(Poly),
}

/// Every pitch on the note stack is representable.
pub open spec fn mono_wf(m: Mono) -> bool {
    forall|i: int| 0 <= i < m.1@.len() ==> #[trigger] m.1@[i] < MAX_HZ
}

/// Mode well-formedness: `Poly` carries no state.
pub open spec fn dynamic_wf(d: Dynamic) -> bool {
    match d {
        Dynamic::Mono(m) => mono_wf(m),
        Dynamic::Poly(_) => true,
    }
}

/// Every occupied slot holds a well-formed voice.
pub open spec fn slots_wf(vs: Seq<Option<PlayingSample>>) -> bool {
    forall|i: int|
        0 <= i < vs.len() ==> match #[trigger] vs[i] {
            Some(p) => p.wf(),
            None => true,
        }
}

/// Does the slot hold a voice triggered at the given pitch.
pub open spec fn slot_matches(s: Option<PlayingSample>, hz: Hz) -> bool {
    match s {
        Some(p) => p.note_on_hz == hz,
        None => false,
    }
}

/// The playhead index of the slot's voice (0 for an empty slot).
pub open spec fn slot_idx(s: Option<PlayingSample>) -> int {
    match s {
        Some(p) => p.rate_converter.source.idx as int,
        None => 0,
    }
}

/// The trigger time of the slot's voice (0 for an empty slot).
pub open spec fn slot_time(s: Option<PlayingSample>) -> u64 {
    match s {
        Some(p) => p.time_of_note_on,
        None => 0,
    }
}

/// Some slot holds a voice triggered at the given pitch.
pub open spec fn any_match(vs: Seq<Option<PlayingSample>>, hz: Hz) -> bool {
    exists|i: int| 0 <= i < vs.len() && slot_matches(#[trigger] vs[i], hz)
}

/// The first slot holding a voice triggered at the given pitch.
pub open spec fn first_active_match(vs: Seq<Option<PlayingSample>>, hz: Hz) -> Option<int>
    decreases vs.len(),
{
    if vs.len() == 0 {
        None
    } else if slot_matches(vs[0], hz) {
        Some(0int)
    } else {
        match first_active_match(vs.drop_first(), hz) {
            Some(j) => Some(j + 1),
            None => None,
        }
    }
}

/// `first_active_match` finds a matching slot preceded only by
/// non-matching ones, and is `None` exactly when no slot matches.
pub proof fn lemma_first_active_match(vs: Seq<Option<PlayingSample>>, hz: Hz)
    ensures
        match first_active_match(vs, hz) {
            Some(j) => 0 <= j < vs.len() && slot_matches(vs[j], hz) && forall|k: int|
                0 <= k < j ==> !slot_matches(#[trigger] vs[k], hz),
            None => forall|k: int| 0 <= k < vs.len() ==> !slot_matches(#[trigger] vs[k], hz),
        },
    decreases vs.len(),
{
    if vs.len() > 0 && !slot_matches(vs[0], hz) {
        let rest = vs.drop_first();
        lemma_first_active_match(rest, hz);
        match first_active_match(rest, hz) {
            Some(j) => {
                assert forall|k: int| 0 <= k < j + 1 implies !slot_matches(
                    #[trigger] vs[k],
                    hz,
                ) by {
                    if k > 0 {
                        assert(rest[k - 1] == vs[k]);
                        assert(!slot_matches(rest[k - 1], hz));
                    }
                }
                assert(rest[j] == vs[j + 1]);
            },
            None => {
                assert forall|k: int| 0 <= k < vs.len() implies !slot_matches(
                    #[trigger] vs[k],
                    hz,
                ) by {
                    if k > 0 {
                        assert(rest[k - 1] == vs[k]);
                        assert(!slot_matches(rest[k - 1], hz));
                    }
                }
            },
        }
    }
}

/// The converse: a matching slot preceded only by non-matching ones is
/// the `first_active_match`.
pub proof fn lemma_first_active_match_is(vs: Seq<Option<PlayingSample>>, hz: Hz, i: int)
    requires
        0 <= i < vs.len(),
        slot_matches(vs[i], hz),
        forall|k: int| 0 <= k < i ==> !slot_matches(#[trigger] vs[k], hz),
    ensures
        first_active_match(vs, hz) == Some(i),
{
    lemma_first_active_match(vs, hz);
    match first_active_match(vs, hz) {
        Some(j) => {
            if j < i {
                assert(!slot_matches(vs[j], hz));
            } else if i < j {
                assert(!slot_matches(vs[i], hz));
            }
        },
        None => {
            assert(!slot_matches(vs[i], hz));
        },
    }
}

/// The first empty slot, if any.
pub open spec fn first_empty(vs: Seq<Option<PlayingSample>>) -> Option<int>
    decreases vs.len(),
{
    if vs.len() == 0 {
        None
    } else if vs[0] is None {
        Some(0int)
    } else {
        match first_empty(vs.drop_first()) {
            Some(j) => Some(j + 1),
            None => None,
        }
    }
}

/// `first_empty` finds an empty slot preceded only by occupied ones,
/// and is `None` exactly when every slot is occupied.
pub proof fn lemma_first_empty(vs: Seq<Option<PlayingSample>>)
    ensures
        match first_empty(vs) {
            Some(j) => 0 <= j < vs.len() && vs[j] is None && forall|k: int|
                0 <= k < j ==> (#[trigger] vs[k]) is Some,
            None => forall|k: int| 0 <= k < vs.len() ==> (#[trigger] vs[k]) is Some,
        },
    decreases vs.len(),
{
    if vs.len() > 0 && vs[0] is Some {
        let rest = vs.drop_first();
        lemma_first_empty(rest);
        match first_empty(rest) {
            Some(j) => {
                assert forall|k: int| 0 <= k < j + 1 implies (#[trigger] vs[k]) is Some by {
                    if k > 0 {
                        assert(rest[k - 1] == vs[k]);
                        assert(rest[k - 1] is Some);
                    }
                }
                assert(rest[j] == vs[j + 1]);
            },
            None => {
                assert forall|k: int| 0 <= k < vs.len() implies (#[trigger] vs[k]) is Some by {
                    if k > 0 {
                        assert(rest[k - 1] == vs[k]);
                        assert(rest[k - 1] is Some);
                    }
                }
            },
        }
    }
}

/// The converse: an empty slot preceded only by occupied ones is the
/// `first_empty`.
pub proof fn lemma_first_empty_is(vs: Seq<Option<PlayingSample>>, i: int)
    requires
        0 <= i < vs.len(),
        vs[i] is None,
        forall|k: int| 0 <= k < i ==> (#[trigger] vs[k]) is Some,
    ensures
        first_empty(vs) == Some(i),
{
    lemma_first_empty(vs);
    match first_empty(vs) {
        Some(j) => {
            if j < i {
                assert(vs[j] is Some);
            } else if i < j {
                assert(vs[i] is Some);
            }
        },
        None => {
            assert(vs[i] is Some);
        },
    }
}

/// The slot holding the longest-sounding voice: the smallest trigger
/// time, and the lowest index among slots that tie. Meaningful when
/// the pool is non-empty and fully occupied.
pub open spec fn oldest_voice_idx(vs: Seq<Option<PlayingSample>>) -> int
    decreases vs.len(),
{
    if vs.len() <= 1 {
        0
    } else {
        let j = oldest_voice_idx(vs.drop_last());
        if slot_time(vs.last()) < slot_time(vs[j]) {
            vs.len() - 1
        } else {
            j
        }
    }
}

/// `oldest_voice_idx` has the smallest trigger time, strictly smaller
/// than every slot before it.
pub proof fn lemma_oldest_voice_idx(vs: Seq<Option<PlayingSample>>)
    requires
        vs.len() > 0,
    ensures
        0 <= oldest_voice_idx(vs) < vs.len(),
        forall|k: int|
            0 <= k < vs.len() ==> slot_time(vs[oldest_voice_idx(vs)]) <= slot_time(
                #[trigger] vs[k],
            ),
        forall|k: int|
            0 <= k < oldest_voice_idx(vs) ==> slot_time(vs[oldest_voice_idx(vs)]) < slot_time(
                #[trigger] vs[k],
            ),
    decreases vs.len(),
{
    if vs.len() > 1 {
        let prefix = vs.drop_last();
        lemma_oldest_voice_idx(prefix);
        assert forall|k: int| 0 <= k < vs.len() - 1 implies prefix[k] == vs[k] by {}
    }
}

/// Remove the most recent occurrence of a pitch from the note stack,
/// if there is one.
pub open spec fn remove_last_spec(s: Seq<Hz>, hz: Hz) -> Seq<Hz>
    decreases s.len(),
{
    if s.len() == 0 {
        s
    } else if s.last() == hz {
        s.drop_last()
    } else {
        remove_last_spec(s.drop_last(), hz).push(s.last())
    }
}

/// A stack without the pitch is left unchanged.
pub proof fn lemma_remove_last_absent(s: Seq<Hz>, hz: Hz)
    requires
        forall|k: int| 0 <= k < s.len() ==> #[trigger] s[k] != hz,
    ensures
        remove_last_spec(s, hz) == s,
    decreases s.len(),
{
    if s.len() > 0 {
        lemma_remove_last_absent(s.drop_last(), hz);
        assert(remove_last_spec(s, hz) =~= s);
    }
}

/// Removing the last occurrence at index `k` removes exactly that
/// element.
pub proof fn lemma_remove_last_at(s: Seq<Hz>, hz: Hz, k: int)
    requires
        0 <= k < s.len(),
        s[k] == hz,
        forall|m: int| k < m < s.len() ==> #[trigger] s[m] != hz,
    ensures
        remove_last_spec(s, hz) == s.remove(k),
    decreases s.len(),
{
    if k == s.len() - 1 {
        assert(s.last() == hz);
        assert(remove_last_spec(s, hz) =~= s.remove(k));
    } else {
        assert(s.last() != hz);
        lemma_remove_last_at(s.drop_last(), hz, k);
        assert(remove_last_spec(s, hz) =~= s.remove(k));
    }
}

/// A removal keeps every pitch representable.
pub proof fn lemma_remove_last_wf(s: Seq<Hz>, hz: Hz)
    requires
        forall|i: int| 0 <= i < s.len() ==> #[trigger] s[i] < MAX_HZ,
    ensures
        forall|i: int|
            0 <= i < remove_last_spec(s, hz).len() ==> #[trigger] remove_last_spec(s, hz)[i]
                < MAX_HZ,
    decreases s.len(),
{
    let r = remove_last_spec(s, hz);
    if s.len() == 0 {
    } else if s.last() == hz {
        assert forall|i: int| 0 <= i < r.len() implies #[trigger] r[i] < MAX_HZ by {
            assert(r[i] == s[i]);
        }
    } else {
        lemma_remove_last_wf(s.drop_last(), hz);
        let inner = remove_last_spec(s.drop_last(), hz);
        assert forall|i: int| 0 <= i < r.len() implies #[trigger] r[i] < MAX_HZ by {
            if i < inner.len() {
                assert(r[i] == inner[i]);
            } else {
                assert(r[i] == s.last());
            }
        }
    }
}

/// The voice seated for a note against a zone map: the matched zone's
/// sample played from position `idx`, or `None` when no zone matches.
pub open spec fn play_from_idx_spec(
    idx: int,
    hz: Hz,
    vel: Velocity,
    map: ZoneMap,
    time: u64,
) -> Option<PlayingSample> {
    match first_match(map.pairs@, hz, vel) {
        Some(j) => Some(playing_sample_spec(idx, hz, vel, map.pairs@[j].sample, time)),
        None => None,
    }
}

/// Look up the zone for a note and seat a voice playing its sample
/// from the given playhead index; `None` when no zone matches.
fn play_sample_from_playhead_idx(
    idx: usize,
    hz: Hz,
    vel: Velocity,
    map: &ZoneMap,
    time: u64,
) -> (r: Option<PlayingSample>)
    requires
        map.wf(),
        hz < MAX_HZ,
        vel <= MAX_VELOCITY,
    ensures
        r == play_from_idx_spec(idx as int, hz, vel, *map, time),
        r matches Some(p) ==> p.wf(),
{
    proof {
        lemma_first_match(map.pairs@, hz, vel);
    }
    match map.sample(hz, vel) {
        Some(sample) => Some(PlayingSample::from_playhead_idx(idx, hz, vel, sample, time)),
        None => None,
    }
}

/// Seat a voice for a note from the beginning of the matched sample.
fn play_sample(hz: Hz, vel: Velocity, map: &ZoneMap, time: u64) -> (r: Option<PlayingSample>)
    requires
        map.wf(),
        hz < MAX_HZ,
        vel <= MAX_VELOCITY,
    ensures
        r == play_from_idx_spec(0, hz, vel, *map, time),
        r matches Some(p) ==> p.wf(),
{
    play_sample_from_playhead_idx(0, hz, vel, map, time)
}

/// Where a monophonic note-on starts playback: under `Legato`, if some
/// sounding voice matches the previous top of the note stack, that
/// voice's current playhead index; otherwise the beginning.
pub open spec fn mono_start_idx(m: Mono, vs: Seq<Option<PlayingSample>>) -> int {
    if m.0 == MonoKind::Legato && m.1@.len() > 0 {
        match first_active_match(vs, m.1@.last()) {
            Some(i) => slot_idx(vs[i]),
            None => 0,
        }
    } else {
        0
    }
}

/// What a monophonic note-on does: the pitch is pushed onto the note
/// stack, and when a zone matches, every pool slot is seated with the
/// same voice, starting from `mono_start_idx`; a note with no zone
/// leaves the pool untouched.
pub open spec fn mono_note_on_post(
    m0: Mono,
    m1: Mono,
    vs0: Seq<Option<PlayingSample>>,
    vs1: Seq<Option<PlayingSample>>,
    map: ZoneMap,
    hz: Hz,
    vel: Velocity,
    time: u64,
) -> bool {
    &&& m1.0 == m0.0
    &&& m1.1@ == m0.1@.push(hz)
    &&& match play_from_idx_spec(mono_start_idx(m0, vs0), hz, vel, map, time) {
        Some(nv) => vs1.len() == vs0.len() && forall|k: int|
            0 <= k < vs1.len() ==> #[trigger] vs1[k] == Some(nv),
        None => vs1 == vs0,
    }
}

/// How one slot is re-seated when a monophonic note-off falls back to
/// the most recent held pitch: an occupied slot is re-triggered at the
/// fallback pitch with its own velocity and time, continuing from its
/// playhead under `Legato` and from the beginning under `Retrigger`;
/// a slot is left alone when empty or when no zone matches.
pub open spec fn mono_reseat_slot(
    kind: MonoKind,
    s: Option<PlayingSample>,
    fb: Hz,
    map: ZoneMap,
) -> Option<PlayingSample> {
    match s {
        None => None,
        Some(p) => {
            let idx = if kind == MonoKind::Legato {
                p.rate_converter.source.idx as int
            } else {
                0
            };
            match play_from_idx_spec(idx, fb, p.note_on_vel, map, p.time_of_note_on) {
                Some(nv) => Some(nv),
                None => Some(p),
            }
        },
    }
}

/// What a monophonic note-off does: the most recent occurrence of the
/// pitch is popped from the note stack; when no sounding voice matches
/// the pitch the pool is untouched; otherwise the pool falls back to
/// the most recent remaining pitch, or is cleared when none is held.
pub open spec fn mono_note_off_post(
    m0: Mono,
    m1: Mono,
    vs0: Seq<Option<PlayingSample>>,
    vs1: Seq<Option<PlayingSample>>,
    map: ZoneMap,
    hz: Hz,
) -> bool {
    let stack1 = remove_last_spec(m0.1@, hz);
    &&& m1.0 == m0.0
    &&& m1.1@ == stack1
    &&& if !any_match(vs0, hz) {
        vs1 == vs0
    } else if stack1.len() == 0 {
        vs1.len() == vs0.len() && forall|k: int|
            0 <= k < vs1.len() ==> (#[trigger] vs1[k]) is None
    } else {
        vs1.len() == vs0.len() && forall|k: int|
            0 <= k < vs1.len() ==> #[trigger] vs1[k] == mono_reseat_slot(
                m0.0,
                vs0[k],
                stack1.last(),
                map,
            )
    }
}

/// What a polyphonic note-on does: a note with no zone is ignored;
/// otherwise the new voice takes the first empty slot, and when the
/// pool is full it replaces the slot at `oldest_voice_idx` — the
/// longest-sounding voice — leaving every other slot undisturbed.
pub open spec fn poly_note_on_post(
    vs0: Seq<Option<PlayingSample>>,
    vs1: Seq<Option<PlayingSample>>,
    map: ZoneMap,
    hz: Hz,
    vel: Velocity,
    time: u64,
) -> bool {
    match play_from_idx_spec(0, hz, vel, map, time) {
        None => vs1 == vs0,
        Some(nv) => match first_empty(vs0) {
            Some(e) => vs1 == vs0.update(e, Some(nv)),
            None => if vs0.len() == 0 {
                vs1 == vs0
            } else {
                vs1 == vs0.update(oldest_voice_idx(vs0), Some(nv))
            },
        },
    }
}

/// What a polyphonic note-off does: every slot whose voice was
/// triggered at the pitch is cleared at once, and no other slot moves.
pub open spec fn poly_note_off_post(
    vs0: Seq<Option<PlayingSample>>,
    vs1: Seq<Option<PlayingSample>>,
    hz: Hz,
) -> bool {
    vs1.len() == vs0.len() && forall|k: int|
        0 <= k < vs1.len() ==> #[trigger] vs1[k] == (if slot_matches(vs0[k], hz) {
            None
        } else {
            vs0[k]
        })
}

impl Mono {
    /// Monophonic mode that glides into new notes.
    pub fn legato() -> (r: Mono)
        ensures
            r.0 == MonoKind::Legato,
            r.1@.len() == 0,
            mono_wf(r),
    {
        Mono(MonoKind::Legato, Vec::new())
    }

    /// Monophonic mode that restarts every note from the beginning.
    pub fn retrigger() -> (r: Mono)
        ensures
            r.0 == MonoKind::Retrigger,
            r.1@.len() == 0,
            mono_wf(r),
    {
        Mono(MonoKind::Retrigger, Vec::new())
    }

    /// Handle a `note_on` event: push the pitch onto the note stack
    /// and seat the matched sample on every slot in unison.
    pub fn note_on(
        &mut self,
        hz: Hz,
        vel: Velocity,
        map: &ZoneMap,
        voices: &mut Vec<Option<PlayingSample>>,
        time: u64,
    )
        requires
            map.wf(),
            mono_wf(*old(self)),
            slots_wf(old(voices)@),
            hz < MAX_HZ,
            vel <= MAX_VELOCITY,
        ensures
            mono_note_on_post(
                *old(self),
                *final(self),
                old(voices)@,
                final(voices)@,
                *map,
                hz,
                vel,
                time,
            ),
            mono_wf(*final(self)),
            slots_wf(final(voices)@),
    {
        let stack_len = self.1.len();
        let prev_top: Option<Hz> = if stack_len > 0 {
            Some(self.1[stack_len - 1])
        } else {
            None
        };
        self.1.push(hz);
        let is_legato = match self.0 {
            MonoKind::Legato => true,
            MonoKind::Retrigger => false,
        };
        let start_idx: usize = if is_legato {
            match prev_top {
                Some(ph) => {
                    match find_first_active(voices, ph) {
                        Some(vi) => {
                            match &voices[vi] {
                                Some(p) => p.rate_converter.source.idx,
                                None => 0,
                            }
                        },
                        None => 0,
                    }
                },
                None => 0,
            }
        } else {
            0
        };
        proof {
            assert(start_idx as int == mono_start_idx(*old(self), old(voices)@));
        }
        let seated = play_sample_from_playhead_idx(start_idx, hz, vel, map, time);
        match seated {
            Some(s) => {
                let ghost nv = s;
                let n = voices.len();
                let mut i: usize = 0;
                while i < n
                    invariant
                        n == voices@.len(),
                        n == old(voices)@.len(),
                        i <= n,
                        s == nv,
                        nv.wf(),
                        self.0 == old(self).0,
                        self.1@ == old(self).1@.push(hz),
                        play_from_idx_spec(
                            mono_start_idx(*old(self), old(voices)@),
                            hz,
                            vel,
                            *map,
                            time,
                        ) == Some(nv),
                        forall|k: int| 0 <= k < i ==> #[trigger] voices@[k] == Some(nv),
                        forall|k: int|
                            i <= k < n ==> match #[trigger] voices@[k] {
                                Some(p) => p.wf(),
                                None => true,
                            },
                    decreases n - i,
                {
                    voices.set(i, Some(s.clone()));
                    i = i + 1;
                }
            },
            None => {},
        }
    }

    /// Handle a `note_off` event: pop the pitch from the note stack
    /// and, if a sounding voice matched it, fall back to the most
    /// recent held pitch or clear the pool.
    pub fn note_off(
        &mut self,
        hz: Hz,
        map: &ZoneMap,
        voices: &mut Vec<Option<PlayingSample>>,
    )
        requires
            map.wf(),
            mono_wf(*old(self)),
            slots_wf(old(voices)@),
        ensures
            mono_note_off_post(
                *old(self),
                *final(self),
                old(voices)@,
                final(voices)@,
                *map,
                hz,
            ),
            mono_wf(*final(self)),
            slots_wf(final(voices)@),
    {
        remove_last(&mut self.1, hz);
        proof {
            lemma_remove_last_wf(old(self).1@, hz);
        }
        let should_reset = find_any_active(voices, hz);
        if !should_reset {
            return ;
        }
        let stack_len = self.1.len();
        let n = voices.len();
        if stack_len > 0 {
            let fb = self.1[stack_len - 1];
            let is_legato = match self.0 {
                MonoKind::Legato => true,
                MonoKind::Retrigger => false,
            };
            let mut i: usize = 0;
            while i < n
                invariant
                    n == voices@.len(),
                    n == old(voices)@.len(),
                    i <= n,
                    map.wf(),
                    fb < MAX_HZ,
                    is_legato == (old(self).0 == MonoKind::Legato),
                    self.0 == old(self).0,
                    self.1@ == remove_last_spec(old(self).1@, hz),
                    remove_last_spec(old(self).1@, hz).len() > 0,
                    any_match(old(voices)@, hz),
                    fb == remove_last_spec(old(self).1@, hz).last(),
                    forall|k: int|
                        0 <= k < i ==> #[trigger] voices@[k] == mono_reseat_slot(
                            old(self).0,
                            old(voices)@[k],
                            fb,
                            *map,
                        ),
                    forall|k: int| i <= k < n ==> #[trigger] voices@[k] == old(voices)@[k],
                    slots_wf(old(voices)@),
                    slots_wf(voices@),
                decreases n - i,
            {
                let reseated: Option<PlayingSample> = match &voices[i] {
                    None => None,
                    Some(p) => {
                        let idx: usize = if is_legato {
                            p.rate_converter.source.idx
                        } else {
                            0
                        };
                        match play_sample_from_playhead_idx(idx, fb, p.note_on_vel, map, p.time_of_note_on) {
                            Some(s) => Some(s),
                            None => None,
                        }
                    },
                };
                match reseated {
                    Some(s) => {
                        voices.set(i, Some(s));
                    },
                    None => {},
                }
                i = i + 1;
            }
        } else {
            let mut i: usize = 0;
            while i < n
                invariant
                    n == voices@.len(),
                    n == old(voices)@.len(),
                    i <= n,
                    self.0 == old(self).0,
                    self.1@ == remove_last_spec(old(self).1@, hz),
                    remove_last_spec(old(self).1@, hz).len() == 0,
                    any_match(old(voices)@, hz),
                    forall|k: int| 0 <= k < i ==> (#[trigger] voices@[k]) is None,
                decreases n - i,
            {
                voices.set(i, None);
                i = i + 1;
            }
        }
    }
}

impl Poly {
    /// Handle a `note_on` event: seat the matched sample on the first
    /// empty slot, or steal the longest-sounding voice's slot.
    pub fn note_on(
        &self,
        hz: Hz,
        vel: Velocity,
        map: &ZoneMap,
        voices: &mut Vec<Option<PlayingSample>>,
        time: u64,
    )
        requires
            map.wf(),
            slots_wf(old(voices)@),
            hz < MAX_HZ,
            vel <= MAX_VELOCITY,
        ensures
            poly_note_on_post(old(voices)@, final(voices)@, *map, hz, vel, time),
            slots_wf(final(voices)@),
    {
        let seated = play_sample(hz, vel, map, time);
        let s = match seated {
            Some(s) => s,
            None => {
                return ;
            },
        };
        let ghost nv = s;
        proof {
            assert(play_from_idx_spec(0, hz, vel, *map, time) == Some(nv));
        }
        let n = voices.len();
        let mut i: usize = 0;
        while i < n
            invariant
                n == voices@.len(),
                i <= n,
                voices@ == old(voices)@,
                s == nv,
                nv.wf(),
                slots_wf(old(voices)@),
                play_from_idx_spec(0, hz, vel, *map, time) == Some(nv),
                forall|k: int| 0 <= k < i ==> (#[trigger] voices@[k]) is Some,
            decreases n - i,
        {
            let is_empty = match &voices[i] {
                None => true,
                Some(_) => false,
            };
            if is_empty {
                proof {
                    lemma_first_empty_is(voices@, i as int);
                }
                voices.set(i, Some(s));
                return ;
            }
            i = i + 1;
        }
        proof {
            lemma_first_empty(voices@);
        }
        if n == 0 {
            return ;
        }
        let mut best: usize = 0;
        let mut best_time: u64 = match &voices[0] {
            Some(p) => p.time_of_note_on,
            None => 0,
        };
        let mut j: usize = 1;
        proof {
            assert(voices@.take(1).drop_last() =~= voices@.take(0));
            assert(voices@.take(1).last() == voices@[0]);
        }
        while j < n
            invariant
                n == voices@.len(),
                1 <= j <= n,
                voices@ == old(voices)@,
                s == nv,
                nv.wf(),
                slots_wf(old(voices)@),
                play_from_idx_spec(0, hz, vel, *map, time) == Some(nv),
                first_empty(old(voices)@) is None,
                best < j,
                best as int == oldest_voice_idx(voices@.take(j as int)),
                best_time == slot_time(voices@[best as int]),
            decreases n - j,
        {
            let t = match &voices[j] {
                Some(p) => p.time_of_note_on,
                None => 0,
            };
            proof {
                let pre = voices@.take(j as int);
                let cur = voices@.take(j + 1int);
                assert(cur.drop_last() =~= pre);
                assert(cur.last() == voices@[j as int]);
            }
            if t < best_time {
                best = j;
                best_time = t;
            }
            j = j + 1;
        }
        proof {
            assert(voices@.take(n as int) =~= voices@);
        }
        voices.set(best, Some(s));
    }

    /// Handle a `note_off` event: clear every slot whose voice was
    /// triggered at the released pitch.
    pub fn note_off(
        &self,
        hz: Hz,
        _map: &ZoneMap,
        voices: &mut Vec<Option<PlayingSample>>,
    )
        ensures
            poly_note_off_post(old(voices)@, final(voices)@, hz),
            slots_wf(old(voices)@) ==> slots_wf(final(voices)@),
    {
        let n = voices.len();
        let mut i: usize = 0;
        while i < n
            invariant
                n == voices@.len(),
                i <= n,
                forall|k: int|
                    0 <= k < i ==> #[trigger] voices@[k] == (if slot_matches(old(voices)@[k], hz) {
                        None::<PlayingSample>
                    } else {
                        old(voices)@[k]
                    }),
                forall|k: int| i <= k < n ==> #[trigger] voices@[k] == old(voices)@[k],
            decreases n - i,
        {
            let clear = match &voices[i] {
                Some(p) => p.note_on_hz == hz,
                None => false,
            };
            if clear {
                voices.set(i, None);
            }
            i = i + 1;
        }
    }
}

/// What a mode-dispatched note-on does: the variant is preserved and
/// the wrapped mode's policy applies.
pub open spec fn dynamic_note_on_post(
    d0: Dynamic,
    d1: Dynamic,
    vs0: Seq<Option<PlayingSample>>,
    vs1: Seq<Option<PlayingSample>>,
    map: ZoneMap,
    hz: Hz,
    vel: Velocity,
    time: u64,
) -> bool {
    match (d0, d1) {
        (Dynamic::Mono(m0), Dynamic::Mono(m1)) => mono_note_on_post(
            m0,
            m1,
            vs0,
            vs1,
            map,
            hz,
            vel,
            time,
        ),
        (Dynamic::Poly(_), Dynamic::Poly(_)) => poly_note_on_post(vs0, vs1, map, hz, vel, time),
        _ => false,
    }
}

/// What a mode-dispatched note-off does: the variant is preserved and
/// the wrapped mode's policy applies.
pub open spec fn dynamic_note_off_post(
    d0: Dynamic,
    d1: Dynamic,
    vs0: Seq<Option<PlayingSample>>,
    vs1: Seq<Option<PlayingSample>>,
    map: ZoneMap,
    hz: Hz,
) -> bool {
    match (d0, d1) {
        (Dynamic::Mono(m0), Dynamic::Mono(m1)) => mono_note_off_post(m0, m1, vs0, vs1, map, hz),
        (Dynamic::Poly(_), Dynamic::Poly(_)) => poly_note_off_post(vs0, vs1, hz),
        _ => false,
    }
}

impl Dynamic {
    /// A dynamic mode initialised to mono legato.
    pub fn legato() -> (r: Dynamic)
        ensures
            r matches Dynamic::Mono(m) && m.0 == MonoKind::Legato && m.1@.len() == 0,
            dynamic_wf(r),
    {
        Dynamic::Mono(Mono::legato())
    }

    /// A dynamic mode initialised to mono retrigger.
    pub fn retrigger() -> (r: Dynamic)
        ensures
            r matches Dynamic::Mono(m) && m.0 == MonoKind::Retrigger && m.1@.len() == 0,
            dynamic_wf(r),
    {
        Dynamic::Mono(Mono::retrigger())
    }

    /// A dynamic mode initialised to poly.
    pub fn poly() -> (r: Dynamic)
        ensures
            r is Poly,
            dynamic_wf(r),
    {
        Dynamic::Poly(Poly)
    }

    /// Handle a `note_on` event with whichever mode is active.
    pub fn note_on(
        &mut self,
        hz: Hz,
        vel: Velocity,
        map: &ZoneMap,
        voices: &mut Vec<Option<PlayingSample>>,
        time: u64,
    )
        requires
            map.wf(),
            dynamic_wf(*old(self)),
            slots_wf(old(voices)@),
            hz < MAX_HZ,
            vel <= MAX_VELOCITY,
        ensures
            dynamic_note_on_post(
                *old(self),
                *final(self),
                old(voices)@,
                final(voices)@,
                *map,
                hz,
                vel,
                time,
            ),
            dynamic_wf(*final(self)),
            slots_wf(final(voices)@),
    {
        match self {
            Dynamic::Mono(m) => m.note_on(hz, vel, map, voices, time),
            Dynamic::Poly(p) => p.note_on(hz, vel, map, voices, time),
        }
    }

    /// Handle a `note_off` event with whichever mode is active.
    pub fn note_off(
        &mut self,
        hz: Hz,
        map: &ZoneMap,
        voices: &mut Vec<Option<PlayingSample>>,
    )
        requires
            map.wf(),
            dynamic_wf(*old(self)),
            slots_wf(old(voices)@),
        ensures
            dynamic_note_off_post(
                *old(self),
                *final(self),
                old(voices)@,
                final(voices)@,
                *map,
                hz,
            ),
            dynamic_wf(*final(self)),
            slots_wf(final(voices)@),
    {
        match self {
            Dynamic::Mono(m) => m.note_off(hz, map, voices),
            Dynamic::Poly(p) => p.note_off(hz, map, voices),
        }
    }
}

/// Triggering a note against a full pool steals exactly one voice:
/// the slot of the longest-sounding voice (smallest trigger time,
/// lowest index on ties) is re-seated with the new note, and every
/// other slot is undisturbed.
pub proof fn lemma_poly_steals_oldest(
    vs0: Seq<Option<PlayingSample>>,
    vs1: Seq<Option<PlayingSample>>,
    map: ZoneMap,
    hz: Hz,
    vel: Velocity,
    time: u64,
    zi: int,
)
    requires
        poly_note_on_post(vs0, vs1, map, hz, vel, time),
        vs0.len() > 0,
        forall|k: int| 0 <= k < vs0.len() ==> (#[trigger] vs0[k]) is Some,
        first_match(map.pairs@, hz, vel) == Some(zi),
        0 <= zi < map.pairs@.len(),
    ensures
        vs1.len() == vs0.len(),
        0 <= oldest_voice_idx(vs0) < vs0.len(),
        vs1[oldest_voice_idx(vs0)] == Some(
            playing_sample_spec(0, hz, vel, map.pairs@[zi].sample, time),
        ),
        forall|k: int|
            0 <= k < vs0.len() && k != oldest_voice_idx(vs0) ==> #[trigger] vs1[k] == vs0[k],
        forall|k: int|
            0 <= k < vs0.len() ==> slot_time(vs0[oldest_voice_idx(vs0)]) <= slot_time(
                #[trigger] vs0[k],
            ),
{
    lemma_first_empty(vs0);
    match first_empty(vs0) {
        Some(j) => {
            assert(vs0[j] is Some);
        },
        None => {},
    }
    lemma_oldest_voice_idx(vs0);
}

/// Triggering pitch B before pitch A's note-off under mono legato
/// continues from A's playhead: every seated voice's playhead index
/// equals the index A's voice had immediately before the trigger.
pub proof fn lemma_legato_continues_playhead(
    m0: Mono,
    m1: Mono,
    vs0: Seq<Option<PlayingSample>>,
    vs1: Seq<Option<PlayingSample>>,
    map: ZoneMap,
    hz: Hz,
    vel: Velocity,
    time: u64,
    vi: int,
    zi: int,
)
    requires
        mono_note_on_post(m0, m1, vs0, vs1, map, hz, vel, time),
        m0.0 == MonoKind::Legato,
        m0.1@.len() > 0,
        first_active_match(vs0, m0.1@.last()) == Some(vi),
        0 <= vi < vs0.len(),
        first_match(map.pairs@, hz, vel) == Some(zi),
        0 <= zi < map.pairs@.len(),
        slot_idx(vs0[vi]) <= map.pairs@[zi].sample.audio.frames().len(),
    ensures
        vs1.len() == vs0.len(),
        forall|k: int|
            0 <= k < vs1.len() ==> (#[trigger] vs1[k] matches Some(p)
                && p.rate_converter.source.idx == slot_idx(vs0[vi]) && p.rate_converter.frac == 0
                && p.note_on_hz == hz),
{
    assert(mono_start_idx(m0, vs0) == slot_idx(vs0[vi]));
}

/// The same trigger under mono retrigger restarts from the beginning:
/// every seated voice's playhead index is 0.
pub proof fn lemma_retrigger_restarts(
    m0: Mono,
    m1: Mono,
    vs0: Seq<Option<PlayingSample>>,
    vs1: Seq<Option<PlayingSample>>,
    map: ZoneMap,
    hz: Hz,
    vel: Velocity,
    time: u64,
    zi: int,
)
    requires
        mono_note_on_post(m0, m1, vs0, vs1, map, hz, vel, time),
        m0.0 == MonoKind::Retrigger,
        first_match(map.pairs@, hz, vel) == Some(zi),
        0 <= zi < map.pairs@.len(),
    ensures
        vs1.len() == vs0.len(),
        forall|k: int|
            0 <= k < vs1.len() ==> (#[trigger] vs1[k] matches Some(p)
                && p.rate_converter.source.idx == 0 && p.rate_converter.frac == 0
                && p.note_on_hz == hz),
{
    assert(mono_start_idx(m0, vs0) == 0);
}

/// A note-off for a pitch that no sounding voice matches and that is
/// not on the held-note stack is a no-op: the voice pool and the mode
/// state are unchanged.
pub proof fn lemma_note_off_unknown_pitch_is_noop(
    d0: Dynamic,
    d1: Dynamic,
    vs0: Seq<Option<PlayingSample>>,
    vs1: Seq<Option<PlayingSample>>,
    map: ZoneMap,
    hz: Hz,
)
    requires
        dynamic_note_off_post(d0, d1, vs0, vs1, map, hz),
        !any_match(vs0, hz),
        d0 matches Dynamic::Mono(m) ==> forall|k: int|
            0 <= k < m.1@.len() ==> #[trigger] m.1@[k] != hz,
    ensures
        vs1 == vs0,
        match (d0, d1) {
            (Dynamic::Mono(m0), Dynamic::Mono(m1)) => m1.0 == m0.0 && m1.1@ == m0.1@,
            (Dynamic::Poly(_), Dynamic::Poly(_)) => true,
            _ => false,
        },
{
    match (d0, d1) {
        (Dynamic::Mono(m0), Dynamic::Mono(m1)) => {
            lemma_remove_last_absent(m0.1@, hz);
        },
        (Dynamic::Poly(_), Dynamic::Poly(_)) => {
            assert forall|k: int| 0 <= k < vs0.len() implies #[trigger] vs1[k] == vs0[k] by {
                assert(!slot_matches(vs0[k], hz));
            }
            assert(vs1 =~= vs0);
        },
        _ => {},
    }
}

/// The first slot holding a voice triggered at the given pitch, as an
/// index into the pool.
fn find_first_active(voices: &Vec<Option<PlayingSample>>, hz: Hz) -> (r: Option<usize>)
    ensures
        match r {
            Some(u) => first_active_match(voices@, hz) == Some(u as int) && u < voices@.len()
                && slot_matches(voices@[u as int], hz),
            None => first_active_match(voices@, hz) is None,
        },
{
    let n = voices.len();
    let mut i: usize = 0;
    while i < n
        invariant
            n == voices@.len(),
            i <= n,
            forall|k: int| 0 <= k < i ==> !slot_matches(#[trigger] voices@[k], hz),
        decreases n - i,
    {
        let matched = match &voices[i] {
            Some(p) => p.note_on_hz == hz,
            None => false,
        };
        if matched {
            proof {
                lemma_first_active_match_is(voices@, hz, i as int);
            }
            return Some(i);
        }
        i = i + 1;
    }
    proof {
        lemma_first_active_match(voices@, hz);
        match first_active_match(voices@, hz) {
            Some(j) => {
                assert(!slot_matches(voices@[j], hz));
            },
            None => {},
        }
    }
    None
}

/// Whether any slot holds a voice triggered at the given pitch.
fn find_any_active(voices: &Vec<Option<PlayingSample>>, hz: Hz) -> (r: bool)
    ensures
        r == any_match(voices@, hz),
{
    let n = voices.len();
    let mut i: usize = 0;
    while i < n
        invariant
            n == voices@.len(),
            i <= n,
            forall|k: int| 0 <= k < i ==> !slot_matches(#[trigger] voices@[k], hz),
        decreases n - i,
    {
        let matched = match &voices[i] {
            Some(p) => p.note_on_hz == hz,
            None => false,
        };
        if matched {
            assert(slot_matches(voices@[i as int], hz));
            return true;
        }
        i = i + 1;
    }
    false
}

/// Remove the most recent occurrence of the pitch from the stack.
fn remove_last(stack: &mut Vec<Hz>, hz: Hz)
    ensures
        final(stack)@ == remove_last_spec(old(stack)@, hz),
{
    let n = stack.len();
    let mut i: usize = n;
    while i > 0
        invariant
            n == stack@.len(),
            i <= n,
            stack@ == old(stack)@,
            forall|m: int| i <= m < n ==> #[trigger] stack@[m] != hz,
        decreases i,
    {
        i = i - 1;
        if stack[i] == hz {
            proof {
                lemma_remove_last_at(stack@, hz, i as int);
            }
            stack.remove(i);
            return ;
        }
    }
    proof {
        lemma_remove_last_absent(stack@, hz);
    }
}

} // verus!
