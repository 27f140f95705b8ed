use polymod::binary::{BinaryReader, BinaryWriter};
use polymod::it_utils::{effect_bytes, get_effect, instrument_from_byte, note_from_byte, note_to_byte};
use polymod::track::{fix_sample, Sample, SampleFormat};
use polymod::track_player::{calculate_half_samples_per_tick, note_number};
use polymod::{Arr2D, Effect, Note, PianoKey};

#[test]
fn test_notes() {
    let mut pattern = polymod::track::Pattern::new(64, 64);
    pattern.set_note(
        0,
        0,
        Note {
            initialized: true,
            key: PianoKey::C,
            octave: 5,
            sample: Some(0),
            volume: Some(64),
            effect: Effect::NoEffect,
        },
    );
}

#[test]
fn arr2d_row_major_access() {
    let mut grid: Arr2D<u8> = Arr2D::new(3, 2, 0);
    assert_eq!(grid.columns(), 3);
    assert_eq!(grid.rows(), 2);
    grid.set(2, 1, 9);
    grid.set(0, 0, 7);
    assert_eq!(*grid.get(2, 1), 9);
    assert_eq!(*grid.get(0, 0), 7);
    assert_eq!(*grid.get(1, 1), 0);
}

#[test]
fn effect_table_maps_all_opcodes() {
    assert_eq!(get_effect(0, 9), Effect::NoEffect);
    assert_eq!(get_effect(1, 6), Effect::SetSpeed(6));
    assert_eq!(get_effect(2, 3), Effect::PositionJump(3));
    assert_eq!(get_effect(3, 10), Effect::PatternBreak(10));
    assert_eq!(get_effect(4, 0xF0), Effect::VolumeSlide(0xF0));
    assert_eq!(get_effect(15, 2), Effect::SampleOffset(2));
    assert_eq!(get_effect(19, 0x81), Effect::Special(0x81));
    assert_eq!(get_effect(20, 150), Effect::Tempo(150));
    assert_eq!(get_effect(26, 1), Effect::MidiMacro(1));
    assert_eq!(get_effect(27, 1), Effect::NoEffect);
    assert_eq!(get_effect(255, 1), Effect::NoEffect);
}

#[test]
fn effect_bytes_round_trip() {
    for opcode in 0u8..=26 {
        let effect = get_effect(opcode, 0x42);
        let (op2, param2) = effect_bytes(effect);
        assert_eq!(get_effect(op2, param2), effect);
    }
}

#[test]
fn note_byte_round_trip() {
    let keys = [
        PianoKey::C,
        PianoKey::CSharp,
        PianoKey::D,
        PianoKey::DSharp,
        PianoKey::E,
        PianoKey::F,
        PianoKey::FSharp,
        PianoKey::G,
        PianoKey::GSharp,
        PianoKey::A,
        PianoKey::ASharp,
        PianoKey::B,
    ];
    for octave in 0u8..=9 {
        for (i, key) in keys.iter().enumerate() {
            let byte = note_to_byte(*key, octave);
            assert_eq!(byte, octave * 12 + i as u8);
            assert_eq!(note_from_byte(byte), (*key, octave));
        }
    }
    assert_eq!(note_from_byte(note_to_byte(PianoKey::NoteOff, 0)), (PianoKey::NoteOff, 0));
    assert_eq!(note_from_byte(note_to_byte(PianoKey::NoteCut, 0)), (PianoKey::NoteCut, 0));
    assert_eq!(note_from_byte(note_to_byte(PianoKey::NoNote, 0)), (PianoKey::NoNote, 0));
}

#[test]
fn half_samples_per_tick_matches_float_formula() {
    for tempo in 0x21u8..=255 {
        let expected = ((2.5 / tempo as f64) * 2.0 * 48000.0) as u32;
        assert_eq!(calculate_half_samples_per_tick(tempo), expected);
    }
    assert_eq!(calculate_half_samples_per_tick(125), 1920);
}

/// The f64 playback-rate formula the audio backend applies to engine note
/// numbers: `2^((note - 49) / 12)` scaled by the sample-rate multiplier.
fn playback_rate(note: i32, multiplier: f64) -> f64 {
    2f64.powf((note as f64 - 49.0) / 12.0) * multiplier
}

#[test]
fn middle_c_has_unit_ratio() {
    // The engine's rate multiplier cancels middle C's exponent exactly.
    let multiplier = 2f64.powf(9.0 / 12.0);
    let rate = playback_rate(note_number(PianoKey::C, 5), multiplier);
    assert!((rate - 1.0).abs() < 1e-12);
}

#[test]
fn octave_up_doubles_rate() {
    let multiplier = 2f64.powf(9.0 / 12.0);
    let low = playback_rate(note_number(PianoKey::C, 5), multiplier);
    let high = playback_rate(note_number(PianoKey::C, 6), multiplier);
    assert!((high / low - 2.0).abs() < 1e-12);
}

#[test]
fn binary_writer_little_endian() {
    let mut w = BinaryWriter::new();
    w.write_u32(0x46464952);
    assert_eq!(w.get_data(), &[0x52, 0x49, 0x46, 0x46]);
    w.write_u16(3);
    assert_eq!(w.position(), 6);
    assert_eq!(w.get_data(), &[0x52, 0x49, 0x46, 0x46, 0x03, 0x00]);
}

#[test]
fn binary_writer_set_position_zero_fills_and_patches() {
    let mut w = BinaryWriter::new();
    w.write_u32(0);
    w.write_bytes(&[1, 2, 3]);
    let end = w.position();
    w.set_position(0);
    w.write_u32(0xAABBCCDD);
    assert_eq!(w.get_data(), &[0xDD, 0xCC, 0xBB, 0xAA, 1, 2, 3]);
    w.set_position(end + 2);
    assert_eq!(w.get_data(), &[0xDD, 0xCC, 0xBB, 0xAA, 1, 2, 3, 0, 0]);
}

#[test]
fn binary_reader_reads_and_stops_at_end() {
    let data = [0x01u8, 0x02, 0x03, 0x04, 0x05];
    let mut r = BinaryReader::new(&data);
    assert_eq!(r.read_u32(), Some(0x04030201));
    assert_eq!(r.read_u8(), Some(5));
    assert_eq!(r.read_u8(), None);
    let mut r2 = BinaryReader::new(&data);
    assert_eq!(r2.read_u16(), Some(0x0201));
    assert_eq!(r2.read_bytes(3), Some(vec![3, 4, 5]));
}

#[test]
fn eight_bit_samples_are_recentred() {
    let fmt = SampleFormat { channels: 1, sample_rate: 8000, bits_per_sample: 8 };
    let sample = Sample::new(&[0, 127, 128, 255], fmt, false, 0, -1, 64, 64);
    assert_eq!(sample.data, vec![128, 255, 0, 127]);
    assert_eq!(sample.global_volume, 64);
    assert_eq!(sample.default_volume, 64);

    let fmt16 = SampleFormat { channels: 1, sample_rate: 8000, bits_per_sample: 16 };
    let mut raw = vec![0u8, 127, 128, 255];
    fix_sample(&mut raw, &fmt16);
    assert_eq!(raw, vec![0, 127, 128, 255]);
}

#[test]
fn instrument_byte_wraps_one_based() {
    // Instrument bytes are one-based: byte 1 is sample 0.
    assert_eq!(instrument_from_byte(1), 0);
    assert_eq!(instrument_from_byte(255), 254);
    // A zero byte wraps to the last index, the inverse of encoding sample 255.
    assert_eq!(instrument_from_byte(0), 255);
}
