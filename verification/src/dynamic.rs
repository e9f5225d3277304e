//! Constructors for samplers whose mode is chosen at run time.
use vstd::prelude::*;

use crate::mode::Dynamic;
use crate::mode::MonoKind;
use crate::sampler::Sampler;
use crate::zones::ZoneMap;

verus! {

impl Sampler {
    /// Construct a sampler with the given run-time mode.
    pub fn dynamic(mode: Dynamic, map: ZoneMap) -> (r: Sampler)
        requires
            map.wf(),
            crate::mode::dynamic_wf(mode),
        ensures
            r.mode == mode,
            r.map == map,
            r.voices.map@.len() == 1,
            r.voices.map@[0] is None,
            r.next_time == 0,
            r.wf(),
    {
        Self::new(mode, map)
    }

    /// Construct a dynamic sampler initialised to mono legato.
    pub fn dynamic_legato(map: ZoneMap) -> (r: Sampler)
        requires
            map.wf(),
        ensures
            r.mode matches Dynamic::Mono(m) && m.0 == MonoKind::Legato && m.1@.len() == 0,
            r.map == map,
            r.voices.map@.len() == 1,
            r.voices.map@[0] is None,
            r.next_time == 0,
            r.wf(),
    {
        Self::dynamic(Dynamic::legato(), map)
    }

    /// Construct a dynamic sampler initialised to mono retrigger.
    pub fn dynamic_retrigger(map: ZoneMap) -> (r: Sampler)
        requires
            map.wf(),
        ensures
            r.mode matches Dynamic::Mono(m) && m.0 == MonoKind::Retrigger && m.1@.len() == 0,
            r.map == map,
            r.voices.map@.len() == 1,
            r.voices.map@[0] is None,
            r.next_time == 0,
            r.wf(),
    {
        Self::dynamic(Dynamic::retrigger(), map)
    }

    /// Construct a dynamic sampler initialised to poly.
    pub fn dynamic_poly(map: ZoneMap) -> (r: Sampler)
        requires
            map.wf(),
        ensures
            r.mode is Poly,
            r.map == map,
            r.voices.map@.len() == 1,
            r.voices.map@[0] is None,
            r.next_time == 0,
            r.wf(),
    {
        Self::dynamic(Dynamic::poly(), map)
    }
}

} // verus!
