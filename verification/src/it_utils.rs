//! The IT effect table: raw opcode and parameter bytes to and from [`Effect`].

use vstd::prelude::*;
use crate::Effect;

verus! {

/// The effect a raw IT opcode byte and parameter byte stand for. Opcodes
/// `1..=26` map to the parametric commands in order; anything else is no effect.
pub open spec fn spec_effect(it_effect: u8, param: u8) -> Effect {
    match it_effect {
        1u8 => Effect::SetSpeed(param),
        2u8 => Effect::PositionJump(param),
        3u8 => Effect::PatternBreak(param),
        4u8 => Effect::VolumeSlide(param),
        5u8 => Effect::PortamentoDown(param),
        6u8 => Effect::PortamentoUp(param),
        7u8 => Effect::TonePortamento(param),
        8u8 => Effect::Vibrato(param),
        9u8 => Effect::Tremor(param),
        10u8 => Effect::Arpeggio(param),
        11u8 => Effect::VolumeSlideVibrato(param),
        12u8 => Effect::VolumeSlideTonePortamento(param),
        13u8 => Effect::SetChannelVolume(param),
        14u8 => Effect::ChannelVolumeSlide(param),
        15u8 => Effect::SampleOffset(param),
        16u8 => Effect::PanningSlide(param),
        17u8 => Effect::Retrigger(param),
        18u8 => Effect::Tremolo(param),
        19u8 => Effect::Special(param),
        20u8 => Effect::Tempo(param),
        21u8 => Effect::FineVibrato(param),
        22u8 => Effect::SetGlobalVolume(param),
        23u8 => Effect::GlobalVolumeSlide(param),
        24u8 => Effect::SetPanning(param),
        25u8 => Effect::Panbrello(param),
        26u8 => Effect::MidiMacro(param),
        _ => Effect::NoEffect,
    }
}

/// Decode a raw effect column: opcode byte plus parameter byte.
pub fn get_effect(it_effect: u8, param: u8) -> (r: Effect)
    ensures
        r == spec_effect(it_effect, param),
{
    match it_effect {
        1 => Effect::SetSpeed(param),
        2 => Effect::PositionJump(param),
        3 => Effect::PatternBreak(param),
        4 => Effect::VolumeSlide(param),
        5 => Effect::PortamentoDown(param),
        6 => Effect::PortamentoUp(param),
        7 => Effect::TonePortamento(param),
        8 => Effect::Vibrato(param),
        9 => Effect::Tremor(param),
        10 => Effect::Arpeggio(param),
        11 => Effect::VolumeSlideVibrato(param),
        12 => Effect::VolumeSlideTonePortamento(param),
        13 => Effect::SetChannelVolume(param),
        14 => Effect::ChannelVolumeSlide(param),
        15 => Effect::SampleOffset(param),
        16 => Effect::PanningSlide(param),
        17 => Effect::Retrigger(param),
        18 => Effect::Tremolo(param),
        19 => Effect::Special(param),
        20 => Effect::Tempo(param),
        21 => Effect::FineVibrato(param),
        22 => Effect::SetGlobalVolume(param),
        23 => Effect::GlobalVolumeSlide(param),
        24 => Effect::SetPanning(param),
        25 => Effect::Panbrello(param),
        26 => Effect::MidiMacro(param),
        _ => Effect::NoEffect,
    }
}

/// The raw opcode and parameter bytes of an effect; no effect is `(0, 0)`.
pub open spec fn spec_effect_bytes(effect: Effect) -> (u8, u8) {
    match effect {
        Effect::NoEffect => (0u8, 0u8),
        Effect::SetSpeed(p) => (1u8, p),
        Effect::PositionJump(p) => (2u8, p),
        Effect::PatternBreak(p) => (3u8, p),
        Effect::VolumeSlide(p) => (4u8, p),
        Effect::PortamentoDown(p) => (5u8, p),
        Effect::PortamentoUp(p) => (6u8, p),
        Effect::TonePortamento(p) => (7u8, p),
        Effect::Vibrato(p) => (8u8, p),
        Effect::Tremor(p) => (9u8, p),
        Effect::Arpeggio(p) => (10u8, p),
        Effect::VolumeSlideVibrato(p) => (11u8, p),
        Effect::VolumeSlideTonePortamento(p) => (12u8, p),
        Effect::SetChannelVolume(p) => (13u8, p),
        Effect::ChannelVolumeSlide(p) => (14u8, p),
        Effect::SampleOffset(p) => (15u8, p),
        Effect::PanningSlide(p) => (16u8, p),
        Effect::Retrigger(p) => (17u8, p),
        Effect::Tremolo(p) => (18u8, p),
        Effect::Special(p) => (19u8, p),
        Effect::Tempo(p) => (20u8, p),
        Effect::FineVibrato(p) => (21u8, p),
        Effect::SetGlobalVolume(p) => (22u8, p),
        Effect::GlobalVolumeSlide(p) => (23u8, p),
        Effect::SetPanning(p) => (24u8, p),
        Effect::Panbrello(p) => (25u8, p),
        Effect::MidiMacro(p) => (26u8, p),
    }
}

/// Encode an effect back into its raw opcode and parameter bytes;
/// no effect becomes the pair `(0, 0)`.
pub fn effect_bytes(effect: Effect) -> (r: (u8, u8))
    ensures
        r == spec_effect_bytes(effect),
        spec_effect(r.0, r.1) == effect,
        effect is NoEffect ==> r == (0u8, 0u8),
{
    match effect {
        Effect::NoEffect => (0, 0),
        Effect::SetSpeed(p) => (1, p),
        Effect::PositionJump(p) => (2, p),
        Effect::PatternBreak(p) => (3, p),
        Effect::VolumeSlide(p) => (4, p),
        Effect::PortamentoDown(p) => (5, p),
        Effect::PortamentoUp(p) => (6, p),
        Effect::TonePortamento(p) => (7, p),
        Effect::Vibrato(p) => (8, p),
        Effect::Tremor(p) => (9, p),
        Effect::Arpeggio(p) => (10, p),
        Effect::VolumeSlideVibrato(p) => (11, p),
        Effect::VolumeSlideTonePortamento(p) => (12, p),
        Effect::SetChannelVolume(p) => (13, p),
        Effect::ChannelVolumeSlide(p) => (14, p),
        Effect::SampleOffset(p) => (15, p),
        Effect::PanningSlide(p) => (16, p),
        Effect::Retrigger(p) => (17, p),
        Effect::Tremolo(p) => (18, p),
        Effect::Special(p) => (19, p),
        Effect::Tempo(p) => (20, p),
        Effect::FineVibrato(p) => (21, p),
        Effect::SetGlobalVolume(p) => (22, p),
        Effect::GlobalVolumeSlide(p) => (23, p),
        Effect::SetPanning(p) => (24, p),
        Effect::Panbrello(p) => (25, p),
        Effect::MidiMacro(p) => (26, p),
    }
}

} // verus!

verus! {

/// The key and octave a raw IT note byte stands for: 255 releases (note off),
/// 254 cuts, 253 is an empty note slot, and any other byte is a chromatic
/// pitch, twelve to the octave.
pub open spec fn spec_note_from_byte(b: u8) -> (crate::PianoKey, u8) {
    if b == 255 {
        (crate::PianoKey::NoteOff, 0u8)
    } else if b == 254 {
        (crate::PianoKey::NoteCut, 0u8)
    } else if b == 253 {
        (crate::PianoKey::NoNote, 0u8)
    } else {
        (crate::spec_key_from_index((b % 12) as int), b / 12)
    }
}

/// Decode a raw IT note byte into its key and octave.
pub fn note_from_byte(b: u8) -> (r: (crate::PianoKey, u8))
    ensures
        r == spec_note_from_byte(b),
{
    if b == 255 {
        (crate::PianoKey::NoteOff, 0)
    } else if b == 254 {
        (crate::PianoKey::NoteCut, 0)
    } else if b == 253 {
        (crate::PianoKey::NoNote, 0)
    } else {
        (crate::key_from_index(b % 12), b / 12)
    }
}

/// The raw IT note byte for a key and octave: the inverse of the decoder on
/// every key a module file can carry.
pub open spec fn spec_note_to_byte(key: crate::PianoKey, octave: u8) -> u8 {
    if key is NoteOff {
        255u8
    } else if key is NoteCut {
        254u8
    } else if key.is_pitch() {
        (octave * 12 + key.spec_pitch_index()) as u8
    } else {
        253u8
    }
}

/// Encode a key and octave as a raw IT note byte.
pub fn note_to_byte(key: crate::PianoKey, octave: u8) -> (r: u8)
    requires
        key.is_pitch() ==> octave <= 9,
    ensures
        r == spec_note_to_byte(key, octave),
{
    match key {
        crate::PianoKey::NoteOff => 255,
        crate::PianoKey::NoteCut => 254,
        crate::PianoKey::NoNote => 253,
        crate::PianoKey::NoteFade => 253,
        _ => octave * 12 + (key.pitch_index() as u8),
    }
}

/// The sample index a raw instrument byte stands for: instrument bytes are
/// one-based, and a zero byte wraps to the last index.
pub open spec fn spec_instrument_from_byte(b: u8) -> u8 {
    if b == 0 {
        255u8
    } else {
        (b - 1) as u8
    }
}

/// Decode a raw instrument byte into a sample index.
pub fn instrument_from_byte(b: u8) -> (r: u8)
    ensures
        r == spec_instrument_from_byte(b),
{
    if b == 0 {
        255
    } else {
        b - 1
    }
}

/// The raw instrument byte of a sample index: one-based, wrapping at 255.
pub open spec fn spec_instrument_to_byte(sample: u8) -> u8 {
    if sample == 255 {
        0u8
    } else {
        (sample + 1) as u8
    }
}

/// A pattern cell's note byte round-trips: decoding the encoded byte of any
/// key and octave a module file can hold gives the same key and octave back.
/// Note-fade keys are excluded: no file byte encodes them.
pub proof fn lemma_note_byte_round_trip(key: crate::PianoKey, octave: u8)
    requires
        !(key is NoteFade),
        key.is_pitch() ==> octave <= 9,
        !key.is_pitch() ==> octave == 0,
    ensures
        spec_note_from_byte(spec_note_to_byte(key, octave)) == (key, octave),
{
    if key.is_pitch() {
        let idx = key.spec_pitch_index();
        let b = (octave * 12 + idx) as u8;
        assert(octave * 12 + idx <= 119);
        assert((octave * 12 + idx) % 12 == idx && (octave * 12 + idx) / 12 == octave)
            by (nonlinear_arith)
            requires 0 <= idx < 12, 0 <= octave <= 9,
        ;
        assert(crate::spec_key_from_index(idx) == key);
    }
}

} // verus!

verus! {

/// A pattern cell's record fields round-trip: re-encoding a decoded cell's
/// note byte, instrument byte and effect bytes and decoding them again yields
/// the same key, octave, sample index and effect (the cell's volume byte is
/// stored verbatim). This covers each field of one packed record; the record
/// framing itself (mask byte and per-channel cache) has no encoder here.
pub proof fn lemma_record_fields_round_trip(
    key: crate::PianoKey,
    octave: u8,
    sample: u8,
    effect: Effect,
)
    requires
        !(key is NoteFade),
        key.is_pitch() ==> octave <= 9,
        !key.is_pitch() ==> octave == 0,
    ensures
        spec_note_from_byte(spec_note_to_byte(key, octave)) == (key, octave),
        spec_instrument_from_byte(spec_instrument_to_byte(sample)) == sample,
        spec_effect(spec_effect_bytes(effect).0, spec_effect_bytes(effect).1) == effect,
{
    lemma_note_byte_round_trip(key, octave);
}

} // verus!
