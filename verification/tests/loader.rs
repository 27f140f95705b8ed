use polymod::binary::BinaryWriter;
use polymod::track::{LoadError, Track};
use polymod::{Effect, PianoKey};

/// Write the fixed 192-byte IT header.
fn write_header(
    w: &mut BinaryWriter,
    num_orders: u16,
    num_instruments: u16,
    num_samples: u16,
    num_patterns: u16,
    flags: u16,
) {
    w.write_bytes(b"IMPM");
    w.write_bytes(&[0u8; 26]); // title
    w.write_u16(0); // pattern highlight
    w.write_u16(num_orders);
    w.write_u16(num_instruments);
    w.write_u16(num_samples);
    w.write_u16(num_patterns);
    w.write_bytes(b"trkr");
    w.write_u16(flags);
    w.write_u16(0); // special
    w.write_bytes(&[128, 48, 6, 125]); // global volume, mix volume, speed, tempo
    w.write_bytes(&[0u8; 12]);
    w.write_bytes(&[32u8; 64]); // pans
    w.write_bytes(&[64u8; 64]); // channel volumes
    assert_eq!(w.position(), 0xC0);
}

/// A complete one-sample, one-pattern module: two orders (the pattern, then
/// the 255 terminator), a 16-frame 8-bit mono sample, and a 4-row pattern
/// whose first cell plays C-5 on sample 0 at volume 64.
fn build_module() -> Vec<u8> {
    let mut w = BinaryWriter::new();
    write_header(&mut w, 2, 0, 1, 1, 0);
    w.write_bytes(&[0, 255]); // orders
    let sample_offset_at = w.position();
    w.write_u32(0); // sample header offset, patched below
    let pattern_offset_at = w.position();
    w.write_u32(0); // pattern offset, patched below

    let sample_header = w.position();
    w.write_bytes(b"IMPS");
    w.write_bytes(&[0u8; 12]); // dos name
    w.write_bytes(&[0]); // unused
    w.write_bytes(&[64]); // sample global volume
    w.write_bytes(&[0]); // flags: 8-bit, mono, no loop
    w.write_bytes(&[64]); // default volume
    w.write_bytes(&[0u8; 26]); // name
    w.write_bytes(&[0, 0]); // convert, default pan
    w.write_u32(16); // frames
    w.write_u32(0); // loop start
    w.write_u32(0); // loop end
    w.write_u32(8000); // sample rate
    w.write_bytes(&[0u8; 8]); // sustain
    let data_pointer_at = w.position();
    w.write_u32(0); // data pointer, patched below

    let sample_data = w.position();
    w.write_bytes(&[128u8; 16]);

    let pattern = w.position();
    w.write_u16(0); // packed length, unused by the loader
    w.write_u16(4); // rows
    w.write_u32(0); // reserved
    // Row 0: channel 0, all fields present: C-5, sample 1 (1-based), volume 64,
    // no effect.
    w.write_bytes(&[0x81, 15, 60, 1, 64, 0, 0, 0]);
    // Rows 1..=3 are empty.
    w.write_bytes(&[0, 0, 0]);

    let end = w.position();
    w.set_position(sample_offset_at);
    w.write_u32(sample_header as u32);
    w.set_position(pattern_offset_at);
    w.write_u32(pattern as u32);
    w.set_position(data_pointer_at);
    w.write_u32(sample_data as u32);
    w.set_position(end);
    w.get_data().to_vec()
}

/// P1 and the loader's field mapping on a well-formed file.
#[test]
fn load_minimal_module() {
    let data = build_module();
    let track = Track::from_it(&data).expect("well-formed module loads");
    assert_eq!(track.patterns.len(), 1);
    assert_eq!(track.samples.len(), 1);
    assert_eq!(track.orders, vec![0, 255]);
    assert_eq!(track.tempo, 125);
    assert_eq!(track.speed, 6);
    assert_eq!(track.global_volume, 128);
    assert_eq!(track.mix_volume, 48);
    assert_eq!(track.pans, vec![32u8; 64]);

    let pattern = &track.patterns[0];
    assert_eq!(pattern.channels, 64);
    assert_eq!(pattern.rows, 4);
    let cell = pattern.notes.get(0, 0);
    assert!(cell.initialized);
    assert_eq!(cell.key, PianoKey::C);
    assert_eq!(cell.octave, 5);
    assert_eq!(cell.sample, Some(0)); // instrument byte 1 is sample index 0
    assert_eq!(cell.volume, Some(64));
    assert_eq!(cell.effect, Effect::NoEffect);
    assert!(!pattern.notes.get(1, 0).initialized);
    assert!(!pattern.notes.get(0, 1).initialized);

    // 8-bit sample data is re-centred from bias 128 to signed.
    assert_eq!(track.samples[0].data, vec![0u8; 16]);
    assert_eq!(track.samples[0].format.sample_rate, 8000);
    assert_eq!(track.samples[0].format.bits_per_sample, 8);
    assert!(!track.samples[0].looping);

    // The dry run: one order of four rows at tempo 125, speed 6.
    assert_eq!(track.seek_table.len(), 1);
    assert_eq!(track.seek_table[0].rows.len(), 4);
    assert_eq!(track.length_half_samples, 4 * 6 * 1920);
    assert!(track.is_playable());
}

#[test]
fn empty_file_is_truncated() {
    assert!(matches!(Track::from_it(&[]), Err(LoadError::Truncated)));
    assert!(matches!(Track::from_it(&[0x49, 0x4D]), Err(LoadError::Truncated)));
}

#[test]
fn wrong_magic_is_rejected() {
    let mut data = build_module();
    data[0] = b'X';
    assert!(matches!(Track::from_it(&data), Err(LoadError::InvalidMagic)));
}

#[test]
fn instrument_modules_are_rejected() {
    let mut w = BinaryWriter::new();
    write_header(&mut w, 0, 0, 0, 0, 4);
    assert!(matches!(Track::from_it(w.get_data()), Err(LoadError::InstrumentsUnsupported)));
}

#[test]
fn wrong_sample_magic_is_rejected() {
    let data = build_module();
    // Find the sample header and break its magic.
    let pos = data.windows(4).position(|win| win == b"IMPS").unwrap();
    let mut broken = data.clone();
    broken[pos] = b'X';
    assert!(matches!(Track::from_it(&broken), Err(LoadError::InvalidSampleMagic)));
}

#[test]
fn truncated_header_is_rejected() {
    let data = build_module();
    assert!(matches!(Track::from_it(&data[..100]), Err(LoadError::Truncated)));
    assert!(matches!(Track::from_it(&data[..193]), Err(LoadError::Truncated)));
}

#[test]
fn zero_pattern_offset_gives_default_pattern() {
    let mut w = BinaryWriter::new();
    write_header(&mut w, 1, 0, 0, 1, 0);
    w.write_bytes(&[0]); // orders
    w.write_u32(0); // pattern offset 0: default empty pattern
    let track = Track::from_it(w.get_data()).expect("loads");
    assert_eq!(track.patterns.len(), 1);
    assert_eq!(track.patterns[0].channels, 64);
    assert_eq!(track.patterns[0].rows, 64);
    assert!(!track.patterns[0].notes.get(5, 5).initialized);
}

/// The loaded module drives the engine: the first clock step triggers the
/// pattern's middle-C note on voice 0.
#[test]
fn loaded_module_plays_its_note() {
    let data = build_module();
    let track = Track::from_it(&data).expect("loads");
    let mut player = polymod::track_player::TrackPlayer::new(&track);
    let out = player.advance();
    assert!(out.playing);
    assert!(out.actions.iter().any(|a| matches!(
        a,
        polymod::track_player::VoiceAction::Play { voice: 0, sample: 0, note: 40, .. }
    )));
}

/// A file that ends before its pattern-offset table is rejected as truncated.
#[test]
fn truncated_pattern_table_is_rejected() {
    let mut w = BinaryWriter::new();
    write_header(&mut w, 1, 0, 0, 1, 0);
    w.write_bytes(&[0]); // the order list; the pattern offsets never follow
    assert!(matches!(Track::from_it(w.get_data()), Err(LoadError::Truncated)));
}
