use spcplay::clock::{scale, EndState, Phase, PlaybackClock, RenderOutcome, SAMPLE_RATE};

fn ratio(gain: (u64, u64)) -> f64 {
    gain.0 as f64 / gain.1 as f64
}

#[test]
fn sample_rate_is_the_engine_rate() {
    assert_eq!(SAMPLE_RATE, 32000);
}

#[test]
fn fade_window_from_two_seconds_and_one_second_fade() {
    let end_state = EndState::from_tag(2, 1000);
    assert_eq!(end_state.fade_start_sample(), 64000);
    assert_eq!(end_state.end_sample(), 96000);
}

#[test]
fn attenuation_factor_at_start_middle_and_end() {
    let end_state = EndState::from_tag(2, 1000);
    assert_eq!(ratio(end_state.gain_at(64000)), 1.0);
    assert_eq!(ratio(end_state.gain_at(80000)), 0.5);
    assert_eq!(ratio(end_state.gain_at(96000)), 0.0);
    assert_eq!(end_state.gain_at(80000), (16000, 32000));
    assert_eq!(end_state.gain_at(0), (1, 1));
    assert_eq!(end_state.gain_at(96000), (0, 1));
    assert_eq!(end_state.gain_at(95999), (1, 32000));
}

#[test]
fn phases_follow_the_position() {
    let end_state = EndState::from_tag(2, 1000);
    assert_eq!(end_state.phase_at(0), Phase::Normal);
    assert_eq!(end_state.phase_at(63999), Phase::Normal);
    assert_eq!(end_state.phase_at(64000), Phase::FadingOut);
    assert_eq!(end_state.phase_at(95999), Phase::FadingOut);
    assert_eq!(end_state.phase_at(96000), Phase::Ended);
    assert_eq!(end_state.phase_at(u64::MAX), Phase::Ended);
}

#[test]
fn fade_length_rounds_by_whole_frames() {
    let end_state = EndState::from_tag(0, 1);
    assert_eq!(end_state.fade_start_sample(), 0);
    assert_eq!(end_state.end_sample(), 32);
    let end_state = EndState::from_tag(999, 99999);
    assert_eq!(end_state.fade_start_sample(), 31_968_000);
    assert_eq!(end_state.end_sample(), 31_968_000 + 3_199_968);
}

#[test]
fn extreme_tag_values_do_not_overflow() {
    let end_state = EndState::from_tag(i32::MAX, i32::MAX);
    assert_eq!(end_state.fade_start_sample(), 2147483647i64 * 32000);
    assert_eq!(end_state.end_sample(), 2147483647i64 * 32000 + 2147483647i64 * 32);
    let end_state = EndState::from_tag(i32::MIN, i32::MIN);
    assert_eq!(end_state.fade_start_sample(), -2147483648i64 * 32000);
    assert_eq!(end_state.end_sample(), -2147483648i64 * 32000 - 2147483648i64 * 32);
    assert_eq!(end_state.phase_at(0), Phase::Ended);
}

#[test]
fn negative_start_with_positive_end_fades_from_the_first_frame() {
    let end_state = EndState::from_tag(-1, 2000);
    assert_eq!(end_state.fade_start_sample(), -32000);
    assert_eq!(end_state.end_sample(), 32000);
    assert_eq!(end_state.phase_at(0), Phase::FadingOut);
    assert_eq!(end_state.gain_at(0), (32000, 64000));
    assert_eq!(end_state.attenuate(0, 1000), 500);
}

#[test]
fn window_that_ends_before_it_starts_is_ended() {
    let end_state = EndState::from_tag(2, -1000);
    assert_eq!(end_state.end_sample(), 32000);
    assert_eq!(end_state.phase_at(31999), Phase::Normal);
    assert_eq!(end_state.phase_at(32000), Phase::Ended);
    assert_eq!(end_state.phase_at(64000), Phase::Ended);
    assert_eq!(end_state.attenuate(40000, 123), 0);
}

#[test]
fn empty_fade_window_cuts_from_full_level_to_silence() {
    let end_state = EndState::from_tag(1, 0);
    assert_eq!(end_state.phase_at(31999), Phase::Normal);
    assert_eq!(end_state.phase_at(32000), Phase::Ended);
    assert_eq!(end_state.attenuate(31999, -7), -7);
    assert_eq!(end_state.attenuate(32000, -7), 0);
}

#[test]
fn scale_rounds_toward_zero() {
    assert_eq!(scale(1001, 1, 2), 500);
    assert_eq!(scale(-1001, 1, 2), -500);
    assert_eq!(scale(5, 1, 3), 1);
    assert_eq!(scale(-5, 1, 3), -1);
    assert_eq!(scale(2, 1, 3), 0);
    assert_eq!(scale(-2, 1, 3), 0);
    assert_eq!(scale(i16::MAX, 1, 1), i16::MAX);
    assert_eq!(scale(i16::MIN, 1, 1), i16::MIN);
    assert_eq!(scale(i16::MIN, 0, 1), 0);
    assert_eq!(scale(i16::MIN, 0x20_0000_0000, 0x20_0000_0000), i16::MIN);
    assert_eq!(scale(i16::MIN, 0x10_0000_0000, 0x20_0000_0000), -16384);
}

#[test]
fn attenuation_never_rises_along_the_ramp() {
    let end_state = EndState::from_tag(0, 10);
    let mut previous_high = i16::MAX;
    let mut previous_low = i16::MIN;
    for pos in 0..400u64 {
        let high = end_state.attenuate(pos, i16::MAX);
        let low = end_state.attenuate(pos, i16::MIN);
        assert!(high <= previous_high);
        assert!(low >= previous_low);
        assert!(high >= 0);
        assert!(low <= 0);
        previous_high = high;
        previous_low = low;
    }
    assert_eq!(end_state.attenuate(0, i16::MAX), i16::MAX);
    assert_eq!(end_state.attenuate(320, i16::MAX), 0);
    assert_eq!(end_state.attenuate(160, 1000), 500);
}

#[test]
fn render_passes_samples_through_before_the_fade() {
    let mut clock = PlaybackClock::new(Some(EndState::from_tag(2, 1000)));
    let mut out = [1i16, -2, 3, -4, i16::MAX, i16::MIN];
    let outcome = clock.render(&mut out);
    assert_eq!(outcome, RenderOutcome { frames_written: 3, finished: false });
    assert_eq!(out, [1, -2, 3, -4, i16::MAX, i16::MIN]);
    assert_eq!(clock.sample_pos(), 3);
    assert_eq!(clock.phase(), Phase::Normal);
    assert_eq!(clock.gain(), (1, 1));
}

#[test]
fn render_attenuates_each_frame_by_its_own_position() {
    let mut clock = PlaybackClock::new(Some(EndState::from_tag(0, 1)));
    let mut out = [3200i16; 8];
    let outcome = clock.render(&mut out);
    assert_eq!(outcome.frames_written, 4);
    assert!(!outcome.finished);
    assert_eq!(out, [3200, 3200, 3100, 3100, 3000, 3000, 2900, 2900]);
    assert_eq!(clock.sample_pos(), 4);
    assert_eq!(clock.gain(), (28, 32));
}

#[test]
fn render_across_the_end_silences_the_rest_and_reports_once() {
    let mut clock = PlaybackClock::with_position(Some(EndState::from_tag(2, 1000)), 95998);
    let mut out = [-32000i16, 32000, -32000, 32000, 1234, -1234, 77, 88];
    let outcome = clock.render(&mut out);
    assert_eq!(outcome, RenderOutcome { frames_written: 4, finished: true });
    assert_eq!(out, [-2, 2, -1, 1, 0, 0, 0, 0]);
    assert_eq!(clock.phase(), Phase::Ended);
    assert!(clock.is_finished());
    for _ in 0..5 {
        let mut out = [500i16, -500, 32767, -32768];
        let outcome = clock.render(&mut out);
        assert_eq!(outcome, RenderOutcome { frames_written: 2, finished: false });
        assert_eq!(out, [0, 0, 0, 0]);
        assert_eq!(clock.phase(), Phase::Ended);
    }
}

#[test]
fn end_is_reported_by_the_call_that_reaches_it_exactly() {
    let mut clock = PlaybackClock::with_position(Some(EndState::from_tag(2, 1000)), 95998);
    let mut out = [100i16; 2];
    assert!(!clock.render(&mut out).finished);
    assert_eq!(clock.sample_pos(), 95999);
    let mut out = [100i16; 2];
    assert!(clock.render(&mut out).finished);
    assert_eq!(clock.sample_pos(), 96000);
    let mut out = [100i16; 2];
    assert!(!clock.render(&mut out).finished);
    assert_eq!(out, [0, 0]);
}

#[test]
fn end_at_zero_is_reported_by_the_first_call() {
    let mut clock = PlaybackClock::new(Some(EndState::from_tag(0, 0)));
    assert_eq!(clock.phase(), Phase::Ended);
    assert!(!clock.is_finished());
    let mut out: [i16; 0] = [];
    let outcome = clock.render(&mut out);
    assert_eq!(outcome, RenderOutcome { frames_written: 0, finished: true });
    let outcome = clock.render(&mut out);
    assert_eq!(outcome, RenderOutcome { frames_written: 0, finished: false });
}

#[test]
fn no_end_state_stays_normal_at_any_position() {
    let mut clock = PlaybackClock::new(None);
    let mut total = 0u64;
    for round in 0..20 {
        let mut out = vec![0i16; 20000];
        for (i, sample) in out.iter_mut().enumerate() {
            *sample = (i as i16).wrapping_mul(31).wrapping_add(round);
        }
        let raw = out.clone();
        let outcome = clock.render(&mut out);
        total += 10000;
        assert_eq!(outcome, RenderOutcome { frames_written: 10000, finished: false });
        assert_eq!(out, raw);
        assert_eq!(clock.sample_pos(), total);
        assert_eq!(clock.phase(), Phase::Normal);
        assert_eq!(clock.gain(), (1, 1));
    }
    let mut clock = PlaybackClock::with_position(None, u64::MAX - 1);
    let mut out = [9i16, -9, 8, -8, 7, -7];
    let outcome = clock.render(&mut out);
    assert_eq!(outcome, RenderOutcome { frames_written: 3, finished: false });
    assert_eq!(out, [9, -9, 8, -8, 7, -7]);
    assert_eq!(clock.phase(), Phase::Normal);
    assert!(!clock.is_finished());
}

#[test]
fn position_stops_at_the_largest_value() {
    let mut clock = PlaybackClock::with_position(None, u64::MAX - 1);
    let mut out = [0i16; 6];
    clock.render(&mut out);
    assert_eq!(clock.sample_pos(), u64::MAX);
    clock.render(&mut out);
    assert_eq!(clock.sample_pos(), u64::MAX);
    let mut clock = PlaybackClock::with_position(Some(EndState::from_tag(2, 1000)), u64::MAX - 1);
    let mut out = [5i16; 6];
    let outcome = clock.render(&mut out);
    assert!(outcome.finished);
    assert_eq!(out, [0; 6]);
    assert_eq!(clock.sample_pos(), u64::MAX);
}

#[test]
fn pause_freezes_the_position_and_gives_silence() {
    let mut clock = PlaybackClock::with_position(Some(EndState::from_tag(2, 1000)), 70000);
    clock.set_paused(true);
    assert!(clock.is_paused());
    for _ in 0..7 {
        let mut out = [1000i16; 10];
        let outcome = clock.render(&mut out);
        assert_eq!(outcome, RenderOutcome { frames_written: 5, finished: false });
        assert_eq!(out, [0; 10]);
        assert_eq!(clock.sample_pos(), 70000);
    }
    clock.set_paused(false);
    assert!(!clock.is_paused());
    assert_eq!(clock.gain(), (26000, 32000));
}

#[test]
fn pausing_and_resuming_gives_the_same_attenuation_as_never_pausing() {
    let end_state = EndState::from_tag(0, 2);
    let mut paused = PlaybackClock::new(Some(end_state));
    let mut straight = PlaybackClock::new(Some(end_state));
    let mut heard_paused: Vec<i16> = Vec::new();
    let mut heard_straight: Vec<i16> = Vec::new();
    let mut reports_paused = 0;
    let mut reports_straight = 0;
    for call in 0..12 {
        if call == 3 {
            paused.set_paused(true);
            for _ in 0..9 {
                let mut out = [30000i16; 14];
                assert!(!paused.render(&mut out).finished);
                assert_eq!(out, [0; 14]);
            }
            paused.set_paused(false);
        }
        let mut out = [30000i16; 14];
        if paused.render(&mut out).finished {
            reports_paused += 1;
        }
        heard_paused.extend_from_slice(&out);
        let mut out = [30000i16; 14];
        if straight.render(&mut out).finished {
            reports_straight += 1;
        }
        heard_straight.extend_from_slice(&out);
        assert_eq!(paused.sample_pos(), straight.sample_pos());
    }
    assert_eq!(heard_paused, heard_straight);
    assert_eq!(reports_paused, 1);
    assert_eq!(reports_straight, 1);
    assert_eq!(heard_straight[0], 30000);
    assert_eq!(heard_straight[2 * 32], 15000);
    assert_eq!(heard_straight[2 * 64], 0);
}

#[test]
fn pause_on_a_track_past_its_end_reports_only_after_resuming() {
    let mut clock = PlaybackClock::with_position(Some(EndState::from_tag(1, 0)), 40000);
    clock.set_paused(true);
    let mut out = [1i16; 4];
    assert!(!clock.render(&mut out).finished);
    assert!(!clock.is_finished());
    clock.set_paused(false);
    assert!(clock.render(&mut out).finished);
    assert!(!clock.render(&mut out).finished);
}

#[test]
fn odd_length_buffer_counts_whole_frames() {
    let mut clock = PlaybackClock::new(Some(EndState::from_tag(0, 1)));
    let mut out = [3200i16; 5];
    let outcome = clock.render(&mut out);
    assert_eq!(outcome.frames_written, 2);
    assert_eq!(out, [3200, 3200, 3100, 3100, 3000]);
    assert_eq!(clock.sample_pos(), 2);
}

#[test]
fn end_state_getter_returns_what_the_clock_was_made_with() {
    let end_state = EndState::from_tag(3, 500);
    let clock = PlaybackClock::new(Some(end_state));
    assert_eq!(clock.end_state(), Some(end_state));
    assert_eq!(PlaybackClock::new(None).end_state(), None);
}

#[test]
fn two_renders_give_what_one_render_of_both_buffers_gives() {
    let end_state = EndState::from_tag(0, 1);
    let raw: Vec<i16> = (0..80).map(|i| 3200 - 40 * i as i16).collect();
    let mut whole = PlaybackClock::with_position(Some(end_state), 5);
    let mut in_one = raw.clone();
    let outcome = whole.render(&mut in_one);
    assert_eq!(outcome, RenderOutcome { frames_written: 40, finished: true });
    for split in [0usize, 2, 26, 54, 78, 80] {
        let mut halves = PlaybackClock::with_position(Some(end_state), 5);
        let mut in_two = raw.clone();
        let (first, second) = in_two.split_at_mut(split);
        let first_outcome = halves.render(first);
        let second_outcome = halves.render(second);
        assert_eq!(first_outcome.frames_written + second_outcome.frames_written, 40);
        assert!(first_outcome.finished != second_outcome.finished);
        assert_eq!(in_two, in_one);
        assert_eq!(halves.sample_pos(), whole.sample_pos());
    }
    assert_eq!(in_one[0], 2700);
    assert_eq!(in_one[53], 33);
    assert_eq!(in_one[54], 0);
}

#[test]
fn raw_samples_are_needed_only_while_running_before_the_end() {
    let end_state = EndState::from_tag(0, 1);
    let mut clock = PlaybackClock::new(Some(end_state));
    assert!(clock.needs_raw_samples());
    clock.set_paused(true);
    assert!(!clock.needs_raw_samples());
    clock.set_paused(false);
    let mut out = [100i16; 62];
    clock.render(&mut out);
    assert!(clock.needs_raw_samples());
    let mut out = [100i16; 2];
    clock.render(&mut out);
    assert_eq!(clock.phase(), Phase::Ended);
    assert!(!clock.needs_raw_samples());
    let mut out = [i16::MIN; 6];
    clock.render(&mut out);
    assert_eq!(out, [0; 6]);
    assert!(PlaybackClock::with_position(None, u64::MAX).needs_raw_samples());
}
