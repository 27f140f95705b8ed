use polymod::track::{calculate_length, Pattern, Sample, SampleFormat, Track};
use polymod::track_player::{
    process_channel, AdvanceOutput, TrackChannel, TrackPlayer, VoiceAction,
};
use polymod::{Effect, ModuleType, Note, PianoKey};

fn sine_sample() -> Sample {
    let data: Vec<u8> = (0..64).map(|i| (128.0 + 100.0 * (i as f64 / 8.0).sin()) as u8).collect();
    let fmt = SampleFormat { channels: 1, sample_rate: 8000, bits_per_sample: 8 };
    Sample::new(&data, fmt, false, 0, -1, 64, 64)
}

fn make_track(patterns: Vec<Pattern>, orders: Vec<u8>, tempo: u8, speed: u8) -> Track {
    let (length, seek_table) = calculate_length(&patterns, &orders, tempo, speed);
    Track {
        mod_type: ModuleType::IT,
        patterns,
        orders,
        samples: vec![sine_sample()],
        tempo,
        speed,
        global_volume: 128,
        pans: vec![32; 64],
        mix_volume: 48,
        length_half_samples: length,
        seek_table,
    }
}

fn note_on(key: PianoKey, octave: u8) -> Note {
    Note::new(key, octave, Some(0), Some(64), Effect::NoEffect)
}

fn effect_only(effect: Effect) -> Note {
    Note::new(PianoKey::NoNote, 0, None, None, effect)
}

/// S1: at tempo 125 and speed 6, one row lasts 0.12 s, which is 11520 calls
/// for one interleaved value each.
#[test]
fn row_lasts_11520_half_samples() {
    let track = make_track(vec![Pattern::new(64, 64)], vec![0], 125, 6);
    let mut player = TrackPlayer::new(&track);
    let mut calls: u64 = 0;
    while player.current_row == 0 && calls < 100_000 {
        player.advance();
        calls += 1;
    }
    assert_eq!(calls, 11520);
    assert_eq!(player.current_row, 1);
}

/// S2: a middle-C note with sample 0 and full volume retriggers voice 0 at
/// note number 40 (unit pitch ratio) with a positive volume.
#[test]
fn note_trigger_plays_voice_zero() {
    let mut pattern = Pattern::new(64, 4);
    pattern.set_note(0, 0, note_on(PianoKey::C, 5));
    let track = make_track(vec![pattern], vec![0], 125, 1);
    let mut player = TrackPlayer::new(&track);
    let out: AdvanceOutput = player.advance();
    assert!(out.playing);
    let mut played = false;
    for action in &out.actions {
        if let VoiceAction::Play { voice, sample, note, volume_num, .. } = action {
            assert_eq!(*voice, 0);
            assert_eq!(*sample, 0);
            assert_eq!(*note, 40);
            assert!(*volume_num > 0);
            played = true;
        }
    }
    assert!(played);
}

/// S3: a pattern break at row 3 moves to the next order when row 3 completes,
/// landing on the break's target row.
#[test]
fn pattern_break_lands_on_target_row() {
    let mut p0 = Pattern::new(64, 64);
    p0.set_note(0, 3, effect_only(Effect::PatternBreak(10)));
    let p1 = Pattern::new(64, 64);
    let track = make_track(vec![p0, p1], vec![0, 1], 125, 6);
    let mut player = TrackPlayer::new(&track);
    let mut calls: u64 = 0;
    while player.current_order == 0 && calls < 1_000_000 {
        player.advance();
        calls += 1;
    }
    assert_eq!(player.current_order, 1);
    assert_eq!(player.current_row, 10);
    // Rows 0..=3 of pattern 0 played before the jump took hold.
    assert_eq!(calls, 4 * 11520);
}

/// S4: a backward position jump truncates the dry run at the jump's order,
/// and ends non-looping playback there with silence ever after.
#[test]
fn backward_jump_truncates_and_stops() {
    let p0 = Pattern::new(64, 64);
    let p1 = Pattern::new(64, 64);
    let mut p2 = Pattern::new(64, 64);
    p2.set_note(0, 0, effect_only(Effect::PositionJump(0)));
    let track = make_track(vec![p0, p1, p2], vec![0, 1, 2], 125, 6);
    // The dry run counts exactly the two full patterns before the jump.
    assert_eq!(track.length_half_samples, 2 * 64 * 11520);

    let mut player = TrackPlayer::new(&track);
    player.looping = false;
    let mut calls: u64 = 0;
    loop {
        let out = player.advance();
        calls += 1;
        if !out.playing {
            break;
        }
        assert!(calls < 10_000_000);
    }
    assert!(player.ended);
    // Playback ends after the jump's row at the top of order 2 has played.
    assert_eq!(calls, (2 * 64 + 1) * 11520);
    // P9: once ended, every later call is silent and changes nothing.
    for _ in 0..1000 {
        let out = player.advance();
        assert!(!out.playing);
        assert!(out.actions.is_empty());
    }
    assert!(player.ended);
}

fn slide_channel() -> TrackChannel {
    TrackChannel {
        enabled: true,
        current_sample: Some(0),
        note_volume: 30,
        vol_memory: 0,
        pitch_memory: 0,
        offset_memory: 0,
        high_offset: 0,
    }
}

/// S5: an `Fx` parameter is a fine slide: its low nibble acts once, on tick
/// 0, and on no other tick; `0xF0` in particular masks to a slide of zero.
#[test]
fn fine_volume_slide_acts_on_tick_zero_only() {
    let track = make_track(vec![Pattern::new(64, 4)], vec![0], 125, 6);
    let note = effect_only(Effect::VolumeSlide(0xF5));
    let (out0, acts0) = process_channel(&track, 0, &note, slide_channel(), 0, 0, 128);
    assert_eq!(out0.st.note_volume, 25);
    assert!(acts0.iter().any(|a| matches!(a, VoiceAction::SetVolume { .. })));
    for tick in 1u8..6 {
        let (out, acts) = process_channel(&track, 0, &note, slide_channel(), tick, 0, 128);
        assert_eq!(out.st.note_volume, 30);
        assert!(acts.is_empty());
    }
    // The masked low nibble of 0xF0 is zero: the volume stays put.
    let zero = effect_only(Effect::VolumeSlide(0xF0));
    let (outz, _) = process_channel(&track, 0, &zero, slide_channel(), 0, 0, 128);
    assert_eq!(outz.st.note_volume, 30);
}

/// S5: `VolumeSlide(0x0F)` keeps the final revision's semantics: the special
/// `0F` parameter slides down by 15 on every tick, tick 0 included.
#[test]
fn d0f_volume_slide_acts_every_tick() {
    let track = make_track(vec![Pattern::new(64, 4)], vec![0], 125, 6);
    let note = effect_only(Effect::VolumeSlide(0x0F));
    for tick in 0u8..6 {
        let (out, _) = process_channel(&track, 0, &note, slide_channel(), tick, 0, 128);
        assert_eq!(out.st.note_volume, 15);
    }
}

/// P8: a zero parameter reuses the slide memory: two successive zero slides
/// equal two successive slides with the remembered parameter.
#[test]
fn volume_slide_memory_reuse() {
    let track = make_track(vec![Pattern::new(64, 4)], vec![0], 125, 6);
    let mut st = slide_channel();
    st.vol_memory = 0x02;
    let zero = effect_only(Effect::VolumeSlide(0));
    let named = effect_only(Effect::VolumeSlide(0x02));
    for tick in [1u8, 2] {
        let (out_zero, acts_zero) = process_channel(&track, 0, &zero, st, tick, 0, 128);
        let (out_named, acts_named) = process_channel(&track, 0, &named, st, tick, 0, 128);
        assert_eq!(out_zero, out_named);
        assert_eq!(acts_zero, acts_named);
        st = out_zero.st;
    }
    assert_eq!(st.note_volume, 30 - 2 - 2);
}

/// A global-volume change scales only notes triggered afterwards.
#[test]
fn set_global_volume_affects_later_notes() {
    let mut pattern = Pattern::new(64, 4);
    pattern.set_note(0, 0, effect_only(Effect::SetGlobalVolume(0)));
    pattern.set_note(1, 0, note_on(PianoKey::C, 5));
    let track = make_track(vec![pattern], vec![0], 125, 1);
    let mut player = TrackPlayer::new(&track);
    let out = player.advance();
    assert_eq!(player.global_volume, 0);
    let mut volume_of_play = None;
    for action in &out.actions {
        if let VoiceAction::Play { volume_num, .. } = action {
            volume_of_play = Some(*volume_num);
        }
    }
    // Channel 1's note fired after channel 0 zeroed the global volume.
    assert_eq!(volume_of_play, Some(0));
}

/// A tempo command on tick 0 retimes the tick immediately.
#[test]
fn tempo_effect_retimes_tick() {
    let mut pattern = Pattern::new(64, 4);
    pattern.set_note(0, 0, effect_only(Effect::Tempo(150)));
    let track = make_track(vec![pattern], vec![0], 125, 6);
    let mut player = TrackPlayer::new(&track);
    assert_eq!(player.half_samples_per_tick, 1920);
    player.advance();
    assert_eq!(player.current_tempo, 150);
    assert_eq!(player.half_samples_per_tick, 1600);
}

/// Tempo tuning scales the tick length: half the reciprocal doubles the rate.
#[test]
fn tempo_tuning_scales_tick() {
    let track = make_track(vec![Pattern::new(64, 4)], vec![0], 125, 6);
    let mut player = TrackPlayer::new(&track);
    player.set_tempo_tuning(0x100000000 / 2);
    assert_eq!(player.half_samples_per_tick, 960);
    player.set_tempo_tuning(0x100000000);
    assert_eq!(player.half_samples_per_tick, 1920);
}

/// P6: the stored length equals the sum of every recorded row's duration.
#[test]
fn length_is_sum_of_row_durations() {
    let mut p0 = Pattern::new(64, 16);
    p0.set_note(0, 4, effect_only(Effect::SetSpeed(3)));
    p0.set_note(0, 8, effect_only(Effect::Tempo(150)));
    let p1 = Pattern::new(64, 8);
    let track = make_track(vec![p0, p1], vec![0, 1], 125, 6);
    let mut sum: u64 = 0;
    for entry in &track.seek_table {
        for row in &entry.rows {
            let hspt = polymod::track_player::calculate_half_samples_per_tick(row.tempo) as u64;
            assert_eq!(row.start, sum);
            sum += row.speed as u64 * hspt;
        }
    }
    assert_eq!(track.length_half_samples, sum);
}

/// S6 and P7: seeking lands on the last row starting at or before the target,
/// and adopts that row's recorded speed and tempo.
#[test]
fn seek_lands_on_row_and_adopts_tempo() {
    let mut pattern = Pattern::new(64, 64);
    pattern.set_note(0, 10, effect_only(Effect::Tempo(150)));
    let track = make_track(vec![pattern], vec![0], 125, 6);
    let mut player = TrackPlayer::new(&track);

    // Rows 0..=9 last 11520 half-samples at tempo 125; row 10 on, 9600 at 150.
    let row20_start = 10 * 11520 + 10 * 9600;
    let landed = player.seek_half_samples(row20_start + 5);
    assert_eq!(landed, row20_start);
    assert_eq!(player.current_order, 0);
    assert_eq!(player.current_row, 20);
    assert_eq!(player.current_tempo, 150);
    assert_eq!(player.current_speed, 6);
    assert_eq!(player.current_tick, 0);
    assert_eq!(player.current_half_sample, 0);

    // P7: the landed row starts at or before the target and the next one after it.
    let rows = &track.seek_table[0].rows;
    assert!(rows[20].start <= row20_start + 5);
    assert!(rows[21].start > row20_start + 5);

    // Seeking to the exact start of the track lands on row 0.
    let landed0 = player.seek_half_samples(0);
    assert_eq!(landed0, 0);
    assert_eq!(player.current_row, 0);
    assert_eq!(player.current_tempo, 125);
}

/// A dry run that records no rows leaves a seek unanswered and untouched.
#[test]
fn seek_without_recorded_rows_changes_nothing() {
    let mut pattern = Pattern::new(64, 64);
    pattern.set_note(0, 0, effect_only(Effect::PositionJump(0)));
    let track = make_track(vec![pattern], vec![0], 125, 6);
    assert_eq!(track.length_half_samples, 0);
    let mut player = TrackPlayer::new(&track);
    let landed = player.seek_half_samples(12345);
    assert_eq!(landed, 0);
    assert_eq!(player.current_row, 0);
    assert_eq!(player.current_order, 0);
}

/// Sample-offset commands seek the voice, extended by the high-offset memory.
#[test]
fn sample_offset_uses_high_offset() {
    let track = make_track(vec![Pattern::new(64, 4)], vec![0], 125, 6);
    let mut st = slide_channel();
    let (out, _) = process_channel(
        &track,
        0,
        &effect_only(Effect::Special(0xA2)),
        st,
        0,
        0,
        128,
    );
    st = out.st;
    assert_eq!(st.high_offset, 2 * 65536);
    let note = Note::new(PianoKey::C, 5, Some(0), None, Effect::SampleOffset(3));
    let (_, acts) = process_channel(&track, 0, &note, st, 0, 0, 128);
    assert!(acts
        .iter()
        .any(|a| matches!(a, VoiceAction::SeekFrames { frame, .. } if *frame == 3 * 256 + 2 * 65536)));
}

/// A note cut releases the voice and clears the channel's sample.
#[test]
fn note_cut_stops_voice() {
    let track = make_track(vec![Pattern::new(64, 4)], vec![0], 125, 6);
    let note = Note::new(PianoKey::NoteCut, 0, None, None, Effect::NoEffect);
    let (out, acts) = process_channel(&track, 3, &note, slide_channel(), 0, 0, 128);
    assert_eq!(out.st.current_sample, None);
    assert_eq!(out.st.note_volume, 0);
    assert!(acts.iter().any(|a| matches!(a, VoiceAction::Stop { voice: 3 })));
}

/// A looping song wraps from the last order back to the first.
#[test]
fn looping_song_wraps_to_start() {
    let track = make_track(vec![Pattern::new(64, 1)], vec![0], 125, 1);
    let mut player = TrackPlayer::new(&track);
    let mut calls: u64 = 0;
    // One row of one tick: 1920 half-samples, then the song wraps.
    while calls < 1920 {
        let out = player.advance();
        assert!(out.playing);
        calls += 1;
    }
    assert_eq!(player.current_order, 0);
    assert_eq!(player.current_row, 0);
    assert!(!player.ended);
}

/// Tracks the player cannot walk are reported unplayable: an empty order
/// list, an order naming a missing pattern, or a pattern without rows.
#[test]
fn unplayable_tracks_are_detected() {
    let ok = make_track(vec![Pattern::new(64, 4)], vec![0], 125, 6);
    assert!(ok.is_playable());

    let no_orders = make_track(vec![Pattern::new(64, 4)], vec![], 125, 6);
    assert!(!no_orders.is_playable());

    let missing_pattern = make_track(vec![Pattern::new(64, 4)], vec![0, 7], 125, 6);
    assert!(!missing_pattern.is_playable());

    let empty_pattern = make_track(vec![Pattern::new(64, 0)], vec![0], 125, 6);
    assert!(!empty_pattern.is_playable());
}
