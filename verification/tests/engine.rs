use sampler::audio::Audio;
use sampler::mode::Dynamic;
use sampler::sampler::Sampler;
use sampler::sampler::VoiceSignal;
use sampler::zones::Sample;
use sampler::zones::ZoneMap;
use sampler::MAX_VELOCITY;

fn one_zone_map(base_hz: u64, frames: Vec<i64>) -> ZoneMap {
    ZoneMap::from_single_sample(Sample::new(base_hz, MAX_VELOCITY, Audio::new(frames)))
}

#[test]
fn end_to_end_single_zone_renders_source_then_goes_silent() {
    let mut s = Sampler::poly(one_zone_map(440_000, vec![10, -20, 30]));
    assert!(!s.is_active());
    s.note_on(440_000, MAX_VELOCITY);
    assert!(s.is_active());
    assert_eq!(s.next_frame(), 10);
    assert_eq!(s.next_frame(), -20);
    assert_eq!(s.next_frame(), 30);
    assert!(s.is_active());
    assert_eq!(s.next_frame(), 0);
    assert!(!s.is_active());
    assert_eq!(s.next_frame(), 0);
    assert!(!s.is_active());
}

#[test]
fn note_with_no_zone_is_silently_ignored() {
    let mut map = ZoneMap::empty();
    map.insert(
        sampler::zones::HzVelRange {
            hz: sampler::zones::Range { min: 100_000, max: 200_000 },
            vel: sampler::zones::Range { min: 0, max: MAX_VELOCITY },
        },
        Sample::new(150_000, MAX_VELOCITY, Audio::new(vec![1, 2, 3])),
    );
    let mut s = Sampler::poly(map);
    s.note_on(500_000, MAX_VELOCITY);
    assert!(!s.is_active());
    assert_eq!(s.next_frame(), 0);
}

#[test]
fn note_off_for_a_pitch_never_triggered_is_a_noop() {
    let mut s = Sampler::poly(one_zone_map(440_000, vec![10, 20])).num_voices(2);
    s.note_on(440_000, MAX_VELOCITY);
    let before = s.voices.clone();
    s.note_off(999_000);
    assert_eq!(s.voices, before);
    assert!(s.is_active());

    let mut m = Sampler::legato(one_zone_map(440_000, vec![10, 20]));
    m.note_on(440_000, MAX_VELOCITY);
    let before = m.voices.clone();
    m.note_off(999_000);
    assert_eq!(m.voices, before);
    assert!(m.is_active());
}

#[test]
fn poly_note_off_clears_matching_voices() {
    let mut s = Sampler::poly(one_zone_map(440_000, vec![10, 20, 30])).num_voices(2);
    s.note_on(100_000, MAX_VELOCITY);
    s.note_on(200_000, MAX_VELOCITY);
    assert!(s.voices.map[0].is_some());
    assert!(s.voices.map[1].is_some());
    s.note_off(100_000);
    assert!(s.voices.map[0].is_none());
    assert!(s.voices.map[1].is_some());
}

#[test]
fn poly_full_pool_steals_the_longest_sounding_voice() {
    let mut s = Sampler::poly(one_zone_map(440_000, vec![10, 20, 30])).num_voices(2);
    s.note_on(100_000, MAX_VELOCITY);
    s.note_on(200_000, MAX_VELOCITY);
    // Pool of two is full; the third note steals the oldest (slot 0).
    s.note_on(300_000, MAX_VELOCITY);
    assert_eq!(s.voices.map[0].as_ref().unwrap().note_on_hz, 300_000);
    // The other voice is undisturbed.
    assert_eq!(s.voices.map[1].as_ref().unwrap().note_on_hz, 200_000);
}

#[test]
fn poly_prefers_an_empty_slot_over_stealing() {
    let mut s = Sampler::poly(one_zone_map(440_000, vec![10, 20, 30])).num_voices(3);
    s.note_on(100_000, MAX_VELOCITY);
    s.note_on(200_000, MAX_VELOCITY);
    assert!(s.voices.map[2].is_none());
    s.note_on(300_000, MAX_VELOCITY);
    assert_eq!(s.voices.map[0].as_ref().unwrap().note_on_hz, 100_000);
    assert_eq!(s.voices.map[1].as_ref().unwrap().note_on_hz, 200_000);
    assert_eq!(s.voices.map[2].as_ref().unwrap().note_on_hz, 300_000);
}

#[test]
fn legato_continues_from_the_previous_playhead_index() {
    let mut s = Sampler::legato(one_zone_map(440_000, vec![10, 20, 30, 40]));
    s.note_on(440_000, MAX_VELOCITY);
    s.next_frame();
    s.next_frame();
    let idx_before = s.voices.map[0].as_ref().unwrap().rate_converter.source().idx;
    assert_eq!(idx_before, 2);
    s.note_on(880_000, MAX_VELOCITY);
    let v = s.voices.map[0].as_ref().unwrap();
    assert_eq!(v.rate_converter.source().idx, 2);
    assert_eq!(v.note_on_hz, 880_000);
}

#[test]
fn retrigger_restarts_from_the_beginning() {
    let mut s = Sampler::retrigger(one_zone_map(440_000, vec![10, 20, 30, 40]));
    s.note_on(440_000, MAX_VELOCITY);
    s.next_frame();
    s.next_frame();
    assert_eq!(s.voices.map[0].as_ref().unwrap().rate_converter.source().idx, 2);
    s.note_on(880_000, MAX_VELOCITY);
    let v = s.voices.map[0].as_ref().unwrap();
    assert_eq!(v.rate_converter.source().idx, 0);
    assert_eq!(v.note_on_hz, 880_000);
}

#[test]
fn mono_note_off_falls_back_to_the_held_note() {
    let mut s = Sampler::legato(one_zone_map(440_000, vec![10, 20, 30, 40]));
    s.note_on(440_000, MAX_VELOCITY);
    s.next_frame();
    // The octave up glides on from index 1 and advances two frames per
    // tick.
    s.note_on(880_000, MAX_VELOCITY);
    s.next_frame();
    assert_eq!(s.voices.map[0].as_ref().unwrap().rate_converter.source().idx, 3);
    // Releasing the sounding note falls back to the still-held one,
    // continuing from the current playhead under legato.
    s.note_off(880_000);
    let v = s.voices.map[0].as_ref().unwrap();
    assert_eq!(v.note_on_hz, 440_000);
    assert_eq!(v.rate_converter.source().idx, 3);
    // Releasing the last held note clears the pool.
    s.note_off(440_000);
    assert!(!s.is_active());
}

#[test]
fn mono_retrigger_note_off_fallback_restarts() {
    let mut s = Sampler::retrigger(one_zone_map(440_000, vec![10, 20, 30, 40]));
    s.note_on(440_000, MAX_VELOCITY);
    s.next_frame();
    s.note_on(880_000, MAX_VELOCITY);
    s.next_frame();
    assert_eq!(s.voices.map[0].as_ref().unwrap().rate_converter.source().idx, 2);
    s.note_off(880_000);
    let v = s.voices.map[0].as_ref().unwrap();
    assert_eq!(v.note_on_hz, 440_000);
    assert_eq!(v.rate_converter.source().idx, 0);
}

#[test]
fn mono_pools_play_in_unison() {
    let mut s = Sampler::legato(one_zone_map(440_000, vec![100, 0])).num_voices(2);
    s.note_on(440_000, MAX_VELOCITY);
    assert!(s.voices.map[0].is_some());
    assert!(s.voices.map[1].is_some());
    // Two unison voices at full velocity: the mix saturates the sum.
    assert_eq!(s.next_frame(), 200);
}

#[test]
fn velocity_scales_the_output() {
    let mut s = Sampler::poly(one_zone_map(440_000, vec![100, -100]));
    s.note_on(440_000, 500);
    assert_eq!(s.next_frame(), 50);
    assert_eq!(s.next_frame(), -50);
}

#[test]
fn base_velocity_scales_the_output_too() {
    let map = ZoneMap::from_single_sample(Sample::new(440_000, 500, Audio::new(vec![100])));
    let mut s = Sampler::poly(map);
    s.note_on(440_000, MAX_VELOCITY);
    assert_eq!(s.next_frame(), 50);
}

#[test]
fn octave_up_note_plays_at_double_rate() {
    let mut s = Sampler::poly(one_zone_map(440_000, vec![0, 1, 2, 3, 4, 5]));
    s.note_on(880_000, MAX_VELOCITY);
    assert_eq!(s.next_frame(), 0);
    assert_eq!(s.next_frame(), 2);
    assert_eq!(s.next_frame(), 4);
    assert_eq!(s.next_frame(), 0);
    assert!(!s.is_active());
}

#[test]
fn external_generator_signals_drive_the_tick() {
    let mut s = Sampler::poly(one_zone_map(440_000, vec![100, 100, 100, 100]));
    s.note_on(440_000, MAX_VELOCITY);
    let sigs: Vec<VoiceSignal> = vec![Some((500, 440_000))];
    assert_eq!(s.next_frame_with_signals(&sigs), 50);
    // A `None` signal means the voice has ended: the slot is cleared.
    let sigs: Vec<VoiceSignal> = vec![None];
    assert_eq!(s.next_frame_with_signals(&sigs), 0);
    assert!(!s.is_active());
}

#[test]
fn fill_slice_mixes_into_the_buffer() {
    let mut s = Sampler::legato(one_zone_map(440_000, vec![10, -20, 30]));
    s.note_on(440_000, MAX_VELOCITY);
    let mut out: Vec<i64> = vec![1, 1, 1, 1, 1];
    s.fill_slice(&mut out);
    assert_eq!(out, vec![11, -19, 31, 1, 1]);
    assert!(!s.is_active());
}

#[test]
fn stop_clears_voices_and_held_notes() {
    let mut s = Sampler::legato(one_zone_map(440_000, vec![10, 20]));
    s.note_on(100_000, MAX_VELOCITY);
    s.note_on(200_000, MAX_VELOCITY);
    s.stop();
    assert!(!s.is_active());
    assert_eq!(s.voice_count(), 0);
    match &s.mode {
        Dynamic::Mono(m) => assert!(m.1.is_empty()),
        Dynamic::Poly(_) => panic!("mode changed"),
    }
}

#[test]
fn set_num_voices_resizes_and_clears() {
    let mut s = Sampler::poly(one_zone_map(440_000, vec![10, 20])).num_voices(3);
    assert_eq!(s.voice_count(), 3);
    s.note_on(440_000, MAX_VELOCITY);
    assert!(s.is_active());
    s.set_num_voices(2);
    assert_eq!(s.voice_count(), 2);
    assert!(!s.is_active());
}

#[test]
fn dynamic_constructors_pick_the_mode() {
    let map = one_zone_map(440_000, vec![10]);
    let s = Sampler::dynamic_legato(map.clone());
    assert!(matches!(s.mode, Dynamic::Mono(_)));
    let s = Sampler::dynamic_retrigger(map.clone());
    assert!(matches!(s.mode, Dynamic::Mono(_)));
    let s = Sampler::dynamic_poly(map.clone());
    assert!(matches!(s.mode, Dynamic::Poly(_)));
    let s = Sampler::dynamic(Dynamic::poly(), map);
    assert!(matches!(s.mode, Dynamic::Poly(_)));
    assert_eq!(s.voice_count(), 1);
}
