use sampler::audio::Audio;
use sampler::audio::Range;
use sampler::sampler::Playhead;
use sampler::sampler::RateConverter;
use sampler::RATIO_ONE;
use sampler::SAMPLE_MAX;
use sampler::SAMPLE_MIN;

fn audio(frames: Vec<i64>) -> Audio {
    Audio::new(frames)
}

#[test]
fn audio_len_and_frame_at() {
    let a = audio(vec![10, -20, 30]);
    assert_eq!(a.len(), 3);
    assert_eq!(a.frame_at(0), 10);
    assert_eq!(a.frame_at(1), -20);
    assert_eq!(a.frame_at(2), 30);
    let b = a.clone();
    assert_eq!(b.len(), 3);
    assert_eq!(b.frame_at(2), 30);
}

#[test]
fn audio_range_slices_a_recording() {
    let full = Range::new(audio(vec![1, 2, 3, 4]));
    assert_eq!(full.start, 0);
    assert_eq!(full.end, 4);
    assert_eq!(full.len(), 4);

    let part = Range { start: 1, end: 3, audio: audio(vec![1, 2, 3, 4]) };
    assert_eq!(part.len(), 2);
    assert_eq!(part.frame_at(0), 2);
    assert_eq!(part.frame_at(1), 3);

    let bad = Range { start: 3, end: 1, audio: audio(vec![1, 2, 3, 4]) };
    assert_eq!(bad.len(), 0);
    let bad = Range { start: 0, end: 9, audio: audio(vec![1, 2, 3, 4]) };
    assert_eq!(bad.len(), 0);
}

#[test]
fn playhead_yields_frames_then_none() {
    let mut ph = Playhead::new(audio(vec![5, 6]));
    assert_eq!(ph.next(), Some(5));
    assert_eq!(ph.next(), Some(6));
    assert_eq!(ph.next(), None);
    assert_eq!(ph.next(), None);
    assert_eq!(ph.idx, 2);
}

#[test]
fn playhead_from_idx_clamps_to_the_end() {
    let ph = Playhead::from_idx(10, audio(vec![5, 6]));
    assert_eq!(ph.idx, 2);
    let ph = Playhead::from_idx(1, audio(vec![5, 6]));
    assert_eq!(ph.idx, 1);
}

#[test]
fn unit_ratio_reproduces_the_source() {
    let mut c = RateConverter::scale_playback_hz(Playhead::new(audio(vec![10, -20, 30])), RATIO_ONE);
    assert_eq!(c.next_frame(), Some(10));
    assert_eq!(c.next_frame(), Some(-20));
    assert_eq!(c.next_frame(), Some(30));
    assert_eq!(c.next_frame(), None);
    assert_eq!(c.next_frame(), None);
}

#[test]
fn double_ratio_consumes_two_frames_per_output() {
    let mut c = RateConverter::scale_playback_hz(
        Playhead::new(audio(vec![0, 1, 2, 3, 4, 5])),
        2 * RATIO_ONE,
    );
    assert_eq!(c.next_frame(), Some(0));
    assert_eq!(c.next_frame(), Some(2));
    assert_eq!(c.next_frame(), Some(4));
    // Three output frames consumed six source frames: twice the three
    // that the unit ratio would have consumed.
    assert_eq!(c.source().idx, 6);
    assert_eq!(c.next_frame(), None);
}

#[test]
fn half_ratio_interpolates_between_frames() {
    let mut c = RateConverter::scale_playback_hz(Playhead::new(audio(vec![0, 100])), RATIO_ONE / 2);
    assert_eq!(c.next_frame(), Some(0));
    assert_eq!(c.next_frame(), Some(50));
    assert_eq!(c.next_frame(), Some(100));
    assert_eq!(c.next_frame(), None);
}

#[test]
fn interpolation_works_downhill_too() {
    let mut c = RateConverter::scale_playback_hz(Playhead::new(audio(vec![100, 0])), RATIO_ONE / 2);
    assert_eq!(c.next_frame(), Some(100));
    assert_eq!(c.next_frame(), Some(50));
    assert_eq!(c.next_frame(), Some(0));
    assert_eq!(c.next_frame(), None);
}

#[test]
fn quarter_ratio_interpolates_quarters() {
    let mut c = RateConverter::scale_playback_hz(Playhead::new(audio(vec![0, 100])), RATIO_ONE / 4);
    assert_eq!(c.next_frame(), Some(0));
    assert_eq!(c.next_frame(), Some(25));
    assert_eq!(c.next_frame(), Some(50));
    assert_eq!(c.next_frame(), Some(75));
    assert_eq!(c.next_frame(), Some(100));
    assert_eq!(c.next_frame(), None);
}

#[test]
fn rate_can_change_between_frames() {
    let mut c = RateConverter::scale_playback_hz(
        Playhead::new(audio(vec![0, 10, 20, 30, 40])),
        RATIO_ONE,
    );
    assert_eq!(c.next_frame(), Some(0));
    c.set_playback_hz_scale(2 * RATIO_ONE);
    assert_eq!(c.next_frame(), Some(10));
    assert_eq!(c.next_frame(), Some(30));
    c.set_playback_hz_scale(RATIO_ONE);
    assert_eq!(c.next_frame(), None);
}

#[test]
fn starting_mid_recording_keeps_the_contract() {
    let mut c = RateConverter::scale_playback_hz(
        Playhead::from_idx(2, audio(vec![9, 9, 10, 20, 30])),
        RATIO_ONE,
    );
    assert_eq!(c.next_frame(), Some(10));
    assert_eq!(c.next_frame(), Some(20));
    assert_eq!(c.next_frame(), Some(30));
    assert_eq!(c.next_frame(), None);
}

#[test]
fn extreme_samples_survive_interpolation() {
    let mut c = RateConverter::scale_playback_hz(
        Playhead::new(audio(vec![SAMPLE_MIN, SAMPLE_MAX])),
        RATIO_ONE / 2,
    );
    assert_eq!(c.next_frame(), Some(SAMPLE_MIN));
    let mid = c.next_frame().unwrap();
    assert!(SAMPLE_MIN <= mid && mid <= SAMPLE_MAX);
    assert_eq!(c.next_frame(), Some(SAMPLE_MAX));
    assert_eq!(c.next_frame(), None);
}
