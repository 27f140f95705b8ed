//! The playback engine: a pure state machine that walks orders, rows and
//! ticks of an immutable [`Track`] and reports, per clock step, the voice
//! operations an audio backend must apply before mixing the next output value.
//!
//! All engine arithmetic is integral. Quantities the mixer consumes as
//! fractions travel in the actions as exact numerators: a voice volume as
//! `volume_num` (to be divided by 128 and scaled by the track's mix volume), a
//! pitch as an engine note number (40 is middle C; the playback rate is
//! `2^((note - 49) / 12)` times the sample's rate multiplier), and panning as
//! `num / den`.

use vstd::prelude::*;

use crate::track::{Track, SeekValue};
use crate::{Effect, Note, PianoKey};

verus! {

/// Output sample rate the engine's clock is built around, in frames per second.
pub const SAMPLE_RATE: i32 = 48000;

/// Length of one tick in half-samples (interleaved stereo values at 48 kHz):
/// `floor((2.5 / tempo) * 2 * 48000) == 240000 / tempo`. A zero tempo
/// saturates to the longest representable tick.
pub open spec fn spec_hspt(tempo: u8) -> u32 {
    if tempo == 0 {
        u32::MAX
    } else {
        (240000int / tempo as int) as u32
    }
}

/// How many half-samples one tick lasts at the given tempo.
pub fn calculate_half_samples_per_tick(tempo: u8) -> (r: u32)
    ensures
        r == spec_hspt(tempo),
        tempo > 0 ==> r == 240000int / tempo as int,
{
    if tempo == 0 {
        u32::MAX
    } else {
        240000 / (tempo as u32)
    }
}

/// The tick length at `tempo`, scaled by the reciprocal tempo tuning held as
/// a 32.32 fixed-point factor, saturating at `u32::MAX`.
pub open spec fn spec_tuned_hspt(tempo: u8, tuning_recip: u64) -> u32 {
    let scaled = spec_hspt(tempo) * tuning_recip / 0x100000000;
    if scaled > u32::MAX {
        u32::MAX
    } else {
        scaled as u32
    }
}

/// The engine note number of a key at an octave: middle C, `(C, 5)`, is note
/// 40, and each octave spans twelve notes.
pub open spec fn spec_note_number(key: PianoKey, octave: u8) -> int {
    40 + key.spec_pitch_index() + (octave - 5) * 12
}

/// The engine note number of a chromatic key at an octave.
pub fn note_number(key: PianoKey, octave: u8) -> (r: i32)
    requires
        key.is_pitch(),
    ensures
        r == spec_note_number(key, octave),
{
    40 + key.pitch_index() + (octave as i32 - 5) * 12
}

/// The integer numerator of a voice's volume: note volume times the sample's
/// global volume times 64 times the engine's global volume, dropping 18 bits.
/// The mixer's fractional volume is this over 128, scaled by mix volume / 255.
pub open spec fn spec_volume_num(volume: u8, sample_gv: u8, global_volume: u8) -> u32 {
    ((volume * sample_gv * 64 * global_volume) / 0x40000) as u32
}

/// Compute a voice volume numerator.
pub fn volume_numerator(volume: u8, sample_gv: u8, global_volume: u8) -> (r: u32)
    ensures
        r == spec_volume_num(volume, sample_gv, global_volume),
{
    proof {
        assert(volume * sample_gv <= 65025
            && volume * sample_gv * 64 <= 4161600
            && volume * sample_gv * 64 * global_volume <= 1061208000) by (nonlinear_arith)
            requires volume <= 255, sample_gv <= 255, global_volume <= 255,
        ;
    }
    let p: u32 = volume as u32 * sample_gv as u32 * 64 * global_volume as u32;
    p / 0x40000
}

/// One operation for the audio backend to apply to a mixer voice.
#[derive(Debug, Clone, Copy, PartialEq, Eq, Structural)]
pub enum VoiceAction {
    /// Silence the voice.
    Stop { voice: u8 },
    /// (Re)start the voice playing a sample from its beginning.
    Play {
        voice: u8,
        sample: u8,
        note: i32,
        volume_num: u32,
        looping: bool,
        loop_start: i32,
        loop_end: i32,
    },
    /// Change the voice's volume without retriggering it.
    SetVolume { voice: u8, volume_num: u32 },
    /// Scale the voice's playback rate by `2^(exp_num / 768)`.
    MulSpeed { voice: u8, exp_num: i32 },
    /// Reposition the voice at a sample frame.
    SeekFrames { voice: u8, frame: u32 },
    /// Set the voice's panning to `num / den` (0 is left, 1 is right).
    SetPanning { voice: u8, num: u8, den: u8 },
}

/// Per-channel playback state: whether the channel is audible, which sample
/// it holds, its note volume, and the effect memories.
#[derive(Debug, Clone, Copy, PartialEq, Eq, Structural)]
pub struct TrackChannel {
    pub enabled: bool,
    pub current_sample: Option<u8>,
    pub note_volume: u8,
    pub vol_memory: u8,
    pub pitch_memory: u8,
    pub offset_memory: u8,
    pub high_offset: usize,
}

/// A channel never remembers a sample index past the sample list, and its
/// high offset is one of the sixteen values the `Special` effect can set.
pub open spec fn channel_inv(st: TrackChannel, samples_len: int) -> bool {
    &&& (st.current_sample matches Some(id) ==> id < samples_len)
    &&& st.high_offset <= 0xF0000
}

/// What one channel's processing asks of the engine: its new channel state,
/// and any speed, tempo, global-volume or jump change its effect commanded.
#[derive(Debug, Clone, Copy, PartialEq)]
pub struct ChannelOutcome {
    pub st: TrackChannel,
    pub new_speed: Option<u8>,
    pub new_tempo: Option<u8>,
    pub new_global_volume: Option<u8>,
    pub jump: Option<(usize, usize)>,
}

/// An outcome that changes nothing but the channel state.
pub open spec fn outcome_of(st: TrackChannel) -> ChannelOutcome {
    ChannelOutcome { st, new_speed: None, new_tempo: None, new_global_volume: None, jump: None }
}

/// The volume-slide parameter after memory resolution: zero reuses the memory.
pub open spec fn vol_slide_param(st: TrackChannel, param: u8) -> u8 {
    if param == 0 {
        st.vol_memory
    } else {
        param
    }
}

/// Whether a volume slide acts on this tick: fine slides (`Fx` high nibble, or
/// `xF` low nibble with a non-zero high nibble) act only on tick zero; other
/// parameters act on every tick except tick zero, save `0F`, which acts on
/// every tick; and nothing happens while no sample is held.
pub open spec fn vol_slide_applies(st: TrackChannel, param: u8, tick: u8) -> bool {
    let p = vol_slide_param(st, param);
    &&& st.current_sample is Some
    &&& !(tick == 0 && ((p & 0xF0) != 0xF0 && (p & 0x0F) != 0x0F))
    &&& !((((p & 0xF0) == 0xF0) || ((p & 0x0F) == 0x0F && (p & 0xF0) != 0)) && tick != 0)
}

/// The note volume after one slide step with the resolved parameter: values
/// below 16 slide down by that amount, others slide up by their high nibble,
/// clamped to 0..=64. A fine-down parameter (`Fx`) is first masked to its low
/// nibble.
pub open spec fn vol_slide_volume(note_volume: u8, p: u8) -> u8 {
    let pm = if (p & 0xF0) == 0xF0 {
        p & 0x0F
    } else {
        p
    };
    let v = if pm < 16 {
        note_volume - pm
    } else {
        note_volume + pm / 16
    };
    if v < 0 {
        0u8
    } else if v > 64 {
        64u8
    } else {
        v as u8
    }
}

/// One volume-slide step: the resolved parameter is always remembered, and the
/// note volume moves only when the slide acts on this tick.
pub open spec fn spec_volume_slide(st: TrackChannel, param: u8, tick: u8) -> TrackChannel {
    let p = vol_slide_param(st, param);
    if vol_slide_applies(st, param, tick) {
        TrackChannel { vol_memory: p, note_volume: vol_slide_volume(st.note_volume, p), ..st }
    } else {
        TrackChannel { vol_memory: p, ..st }
    }
}

/// The portamento parameter after memory resolution: zero reuses the memory.
pub open spec fn pitch_param(st: TrackChannel, param: u8) -> u8 {
    if param == 0 {
        st.pitch_memory
    } else {
        param
    }
}

/// Whether a portamento acts on this tick: fine and extra-fine parameters
/// (high nibble `E` or `F`) act only on tick zero, coarse ones on every tick
/// except tick zero.
pub open spec fn portamento_applies(st: TrackChannel, param: u8, tick: u8) -> bool {
    let p = pitch_param(st, param);
    !(((p & 0xF0) >= 0xE0 && tick != 0) || (tick == 0 && (p & 0xF0) < 0xE0))
}

/// The numerator of the portamento's pitch exponent, in 1/768ths of an
/// octave: four times the parameter, except that fine (`Fx`) parameters use
/// four times their low nibble and extra-fine (`Ex`) parameters a quarter of
/// that.
pub open spec fn portamento_exp_num(st: TrackChannel, param: u8) -> int {
    let p = pitch_param(st, param);
    if (p & 0xF0) == 0xE0 {
        (p & 0x0F) as int
    } else if (p & 0xF0) == 0xF0 {
        4 * (p & 0x0F) as int
    } else {
        4 * p as int
    }
}

} // verus!

verus! {

/// What the row's note cell does to a channel on tick zero.
///
/// A cut, off or fade key silences the voice and releases its sample, and the
/// cell's effect is not executed. Otherwise, if a sample is named (or
/// remembered) and a chromatic key is present and the sample exists, the voice
/// is retriggered: its volume comes from the cell or the sample's default,
/// its pitch from the note number, and its loop setup from the sample. On top
/// of that, a cell that names a volume while a sample is held re-sets the
/// voice volume without retriggering.
///
/// Returns the new channel state, the voice actions, and whether the effect
/// column is skipped.
pub open spec fn spec_note_trigger(
    track: Track,
    c: u8,
    note: Note,
    st: TrackChannel,
    global_volume: u8,
) -> (TrackChannel, Seq<VoiceAction>, bool) {
    if note.key is NoteCut || note.key is NoteOff || note.key is NoteFade {
        (
            TrackChannel { current_sample: None, note_volume: 0, ..st },
            seq![VoiceAction::Stop { voice: c }],
            true,
        )
    } else {
        let sample_id = if note.sample is Some {
            note.sample
        } else {
            st.current_sample
        };
        let (st1, acts1) = if sample_id is Some && !(note.key is NoNote)
            && sample_id->Some_0 < track.samples@.len() {
            let id = sample_id->Some_0;
            let sample = track.samples@[id as int];
            let volume = if note.volume is Some {
                note.volume->Some_0
            } else {
                sample.default_volume
            };
            (
                TrackChannel { current_sample: note.sample, note_volume: volume, ..st },
                seq![
                    VoiceAction::Play {
                        voice: c,
                        sample: id,
                        note: spec_note_number(note.key, note.octave) as i32,
                        volume_num: spec_volume_num(volume, sample.global_volume, global_volume),
                        looping: sample.looping,
                        loop_start: sample.loop_start,
                        loop_end: sample.loop_end,
                    },
                ],
            )
        } else {
            (st, Seq::<VoiceAction>::empty())
        };
        if note.volume is Some && st1.current_sample is Some
            && st1.current_sample->Some_0 < track.samples@.len() {
            let v = note.volume->Some_0;
            let sample = track.samples@[st1.current_sample->Some_0 as int];
            (
                TrackChannel { note_volume: v, ..st1 },
                acts1.push(VoiceAction::SetVolume {
                    voice: c,
                    volume_num: spec_volume_num(v, sample.global_volume, global_volume),
                }),
                false,
            )
        } else {
            (st1, acts1, false)
        }
    }
}

/// What the cell's effect column does to the channel and the engine on this
/// tick. Unimplemented effects parse but do nothing.
pub open spec fn spec_effect_step(
    track: Track,
    c: u8,
    note: Note,
    st: TrackChannel,
    tick: u8,
    current_order: usize,
    global_volume: u8,
) -> (ChannelOutcome, Seq<VoiceAction>) {
    match note.effect {
        Effect::SetSpeed(v) => (
            ChannelOutcome {
                new_speed: if tick == 0 { Some(v) } else { None },
                ..outcome_of(st)
            },
            Seq::<VoiceAction>::empty(),
        ),
        Effect::PositionJump(p) => (
            ChannelOutcome { jump: Some((p as usize, 0usize)), ..outcome_of(st) },
            Seq::<VoiceAction>::empty(),
        ),
        Effect::PatternBreak(p) => (
            ChannelOutcome {
                jump: Some((((current_order + 1) as usize), p as usize)),
                ..outcome_of(st)
            },
            Seq::<VoiceAction>::empty(),
        ),
        Effect::VolumeSlide(v) => {
            let st2 = spec_volume_slide(st, v, tick);
            if vol_slide_applies(st, v, tick) {
                let sid = st.current_sample->Some_0;
                let acts = if sid < track.samples@.len() {
                    seq![
                        VoiceAction::SetVolume {
                            voice: c,
                            volume_num: spec_volume_num(
                                st2.note_volume,
                                track.samples@[sid as int].global_volume,
                                global_volume,
                            ),
                        },
                    ]
                } else {
                    Seq::<VoiceAction>::empty()
                };
                (outcome_of(st2), acts)
            } else {
                (outcome_of(st2), Seq::<VoiceAction>::empty())
            }
        },
        Effect::PortamentoDown(v) => {
            let st2 = TrackChannel { pitch_memory: pitch_param(st, v), ..st };
            if portamento_applies(st, v, tick) {
                (
                    outcome_of(st2),
                    seq![
                        VoiceAction::MulSpeed {
                            voice: c,
                            exp_num: (-portamento_exp_num(st, v)) as i32,
                        },
                    ],
                )
            } else {
                (outcome_of(st2), Seq::<VoiceAction>::empty())
            }
        },
        Effect::PortamentoUp(v) => {
            let st2 = TrackChannel { pitch_memory: pitch_param(st, v), ..st };
            if portamento_applies(st, v, tick) {
                (
                    outcome_of(st2),
                    seq![
                        VoiceAction::MulSpeed { voice: c, exp_num: portamento_exp_num(st, v) as i32 },
                    ],
                )
            } else {
                (outcome_of(st2), Seq::<VoiceAction>::empty())
            }
        },
        Effect::SampleOffset(v) => {
            if tick == 0 {
                let offset = if v == 0 {
                    st.offset_memory
                } else {
                    v
                };
                let st2 = TrackChannel { offset_memory: offset, ..st };
                if !(note.key is NoNote) {
                    (
                        outcome_of(st2),
                        seq![
                            VoiceAction::SeekFrames {
                                voice: c,
                                frame: (offset * 256 + st.high_offset) as u32,
                            },
                        ],
                    )
                } else {
                    (outcome_of(st2), Seq::<VoiceAction>::empty())
                }
            } else {
                (outcome_of(st), Seq::<VoiceAction>::empty())
            }
        },
        Effect::Special(cmd) => {
            let acts = if 0x80 <= cmd && cmd <= 0x8F {
                seq![VoiceAction::SetPanning { voice: c, num: cmd & 0xF, den: 15u8 }]
            } else {
                Seq::<VoiceAction>::empty()
            };
            let st2 = if 0xA0 <= cmd && cmd <= 0xAF {
                TrackChannel { high_offset: ((cmd & 0xF) * 0x10000) as usize, ..st }
            } else {
                st
            };
            (outcome_of(st2), acts)
        },
        Effect::Tempo(t) => (
            ChannelOutcome {
                new_tempo: if t > 0x20 && tick == 0 { Some(t) } else { None },
                ..outcome_of(st)
            },
            Seq::<VoiceAction>::empty(),
        ),
        Effect::SetGlobalVolume(v) => (
            ChannelOutcome { new_global_volume: Some(v), ..outcome_of(st) },
            Seq::<VoiceAction>::empty(),
        ),
        Effect::SetPanning(p) => (
            outcome_of(st),
            seq![VoiceAction::SetPanning { voice: c, num: p, den: 255u8 }],
        ),
        _ => (outcome_of(st), Seq::<VoiceAction>::empty()),
    }
}

/// One channel's full processing for this clock step: nothing happens on a
/// disabled channel or an empty cell; on tick zero the note cell fires first
/// and may swallow the effect column; the effect column runs on every tick.
pub open spec fn spec_channel_step(
    track: Track,
    c: u8,
    note: Note,
    st: TrackChannel,
    tick: u8,
    current_order: usize,
    global_volume: u8,
) -> (ChannelOutcome, Seq<VoiceAction>) {
    if !st.enabled || !note.initialized {
        (outcome_of(st), Seq::<VoiceAction>::empty())
    } else {
        let (st1, acts1, skip) = if tick == 0 {
            spec_note_trigger(track, c, note, st, global_volume)
        } else {
            (st, Seq::<VoiceAction>::empty(), false)
        };
        if skip {
            (outcome_of(st1), acts1)
        } else {
            let (o2, acts2) = spec_effect_step(track, c, note, st1, tick, current_order, global_volume);
            (o2, acts1 + acts2)
        }
    }
}

} // verus!

verus! {

/// A mathematical snapshot of the engine: its clock, position, jump request,
/// tuning, global volume, end flag and per-channel states.
#[verifier::ext_equal]
pub struct PlayerState {
    pub current_half_sample: u32,
    pub half_samples_per_tick: u32,
    pub current_tick: u8,
    pub current_speed: u8,
    pub current_tempo: u8,
    pub current_order: usize,
    pub current_row: usize,
    pub next_row: usize,
    pub next_order: usize,
    pub should_jump: bool,
    pub channels: Seq<TrackChannel>,
    pub global_volume: u8,
    pub looping: bool,
    pub ended: bool,
    pub tempo_tuning_recip: u64,
}

/// The pattern the given order slot plays.
pub open spec fn order_pattern(track: Track, order: int) -> crate::track::Pattern {
    track.patterns@[track.orders@[order] as int]
}

/// Engine soundness against its track: 64 channels each holding a valid
/// sample reference, clock counters strictly below their wrap values, and —
/// until the song has ended — a playable current order and an in-range row.
pub open spec fn state_wf(s: PlayerState, track: Track) -> bool {
    &&& s.channels.len() == 64
    &&& forall|c: int| 0 <= c < 64 ==> channel_inv(#[trigger] s.channels[c], track.samples@.len() as int)
    &&& s.current_half_sample < u32::MAX
    &&& s.current_tick < 255
    &&& (s.ended || {
        &&& s.current_order < track.orders@.len()
        &&& track.orders@[s.current_order as int] != 255
        &&& s.current_row < order_pattern(track, s.current_order as int).rows
    })
}

/// Fold one channel outcome into the engine: store the channel, then apply
/// any speed change, tempo change (retiming the tick), global-volume change,
/// and jump request.
pub open spec fn spec_apply_outcome(s: PlayerState, c: int, o: ChannelOutcome) -> PlayerState {
    let s1 = PlayerState { channels: s.channels.update(c, o.st), ..s };
    let s2 = if o.new_speed is Some {
        PlayerState { current_speed: o.new_speed->Some_0, ..s1 }
    } else {
        s1
    };
    let s3 = if o.new_tempo is Some {
        PlayerState {
            current_tempo: o.new_tempo->Some_0,
            half_samples_per_tick: spec_tuned_hspt(o.new_tempo->Some_0, s.tempo_tuning_recip),
            ..s2
        }
    } else {
        s2
    };
    let s4 = if o.new_global_volume is Some {
        PlayerState { global_volume: o.new_global_volume->Some_0, ..s3 }
    } else {
        s3
    };
    if o.jump is Some {
        PlayerState {
            next_order: o.jump->Some_0.0,
            next_row: o.jump->Some_0.1,
            should_jump: true,
            ..s4
        }
    } else {
        s4
    }
}

/// Row dispatch from channel `c` up: process each channel of the current row
/// left to right, folding every outcome into the engine as it lands.
pub open spec fn spec_dispatch(track: Track, s: PlayerState, c: int) -> (PlayerState, Seq<VoiceAction>)
    decreases 64 - c,
{
    if c < 0 || c >= 64 {
        (s, Seq::<VoiceAction>::empty())
    } else {
        let note = order_pattern(track, s.current_order as int).spec_note(c, s.current_row as int);
        let (o, acts) = spec_channel_step(
            track,
            c as u8,
            note,
            s.channels[c],
            s.current_tick,
            s.current_order,
            s.global_volume,
        );
        let s1 = spec_apply_outcome(s, c, o);
        let (s2, rest) = spec_dispatch(track, s1, c + 1);
        (s2, acts + rest)
    }
}

/// Where the song ends or wraps: loop back to the first order, or mark the
/// engine ended so that it emits silence from now on.
pub open spec fn spec_end_of_orders(s: PlayerState) -> (PlayerState, bool) {
    if s.looping {
        (PlayerState { current_order: 0, current_row: 0, ..s }, true)
    } else {
        (PlayerState { ended: true, ..s }, false)
    }
}

/// Advance to the next row: honour a pending jump first (a backward jump in a
/// non-looping song ends playback), then wrap to the next order when the row
/// runs past the pattern, ending or looping at the order list's end.
pub open spec fn spec_row_advance(track: Track, s: PlayerState) -> (PlayerState, bool) {
    let (s1, jumped_back) = if s.should_jump {
        (
            PlayerState {
                should_jump: false,
                current_row: s.next_row,
                current_order: s.next_order,
                ..s
            },
            s.next_order <= s.current_order,
        )
    } else {
        (PlayerState { current_row: (s.current_row + 1) as usize, ..s }, false)
    };
    if jumped_back && !s.looping {
        (PlayerState { ended: true, ..s1 }, false)
    } else if s1.current_order >= track.orders@.len()
        || track.orders@[s1.current_order as int] == 255 {
        spec_end_of_orders(s1)
    } else if s1.current_row >= order_pattern(track, s1.current_order as int).rows {
        let s2 = PlayerState {
            current_row: 0,
            current_order: (s1.current_order + 1) as usize,
            ..s1
        };
        if s2.current_order >= track.orders@.len()
            || track.orders@[s2.current_order as int] == 255 {
            spec_end_of_orders(s2)
        } else {
            (s2, true)
        }
    } else {
        (s1, true)
    }
}

/// One half-sample of the clock: count within the tick, roll ticks within the
/// row, and advance the row when the last tick of the row completes. The
/// returned flag is false exactly when playback just ended.
pub open spec fn spec_clock(track: Track, s: PlayerState) -> (PlayerState, bool) {
    let chs = (s.current_half_sample + 1) as u32;
    if chs >= s.half_samples_per_tick {
        let tick = (s.current_tick + 1) as u8;
        if tick >= s.current_speed {
            spec_row_advance(track, PlayerState { current_half_sample: 0, current_tick: 0, ..s })
        } else {
            (PlayerState { current_half_sample: 0, current_tick: tick, ..s }, true)
        }
    } else {
        (PlayerState { current_half_sample: chs, ..s }, true)
    }
}

/// One engine step: an ended engine stays silent and untouched; otherwise the
/// current row is dispatched at the start of each tick, and then the clock
/// advances by one half-sample.
pub open spec fn spec_advance(track: Track, s: PlayerState) -> (PlayerState, Seq<VoiceAction>, bool) {
    if s.ended {
        (s, Seq::<VoiceAction>::empty(), false)
    } else {
        let (s1, acts) = if s.current_half_sample == 0 {
            spec_dispatch(track, s, 0)
        } else {
            (s, Seq::<VoiceAction>::empty())
        };
        let (s2, playing) = spec_clock(track, s1);
        (s2, acts, playing)
    }
}

} // verus!

verus! {

/// What one `advance` call hands the audio backend: voice operations to apply,
/// and whether a mixed sample should be emitted (false means silence: the
/// song has ended and the engine is non-looping).
pub struct AdvanceOutput {
    pub actions: Vec<VoiceAction>,
    pub playing: bool,
}

/// The playback engine. It borrows the immutable track and owns the clock,
/// the position within the song, the pending jump, the tempo tuning and the
/// 64 channel states.
pub struct TrackPlayer<'a> {
    pub track: &'a Track,
    pub current_half_sample: u32,
    pub half_samples_per_tick: u32,
    pub current_tick: u8,
    pub current_speed: u8,
    pub current_tempo: u8,
    pub current_order: usize,
    pub current_row: usize,
    pub next_row: usize,
    pub next_order: usize,
    pub should_jump: bool,
    pub channels: Vec<TrackChannel>,
    pub global_volume: u8,
    pub looping: bool,
    pub ended: bool,
    pub tempo_tuning_recip: u64,
}

impl<'a> View for TrackPlayer<'a> {
    type V = PlayerState;

    open spec fn view(&self) -> PlayerState {
        PlayerState {
            current_half_sample: self.current_half_sample,
            half_samples_per_tick: self.half_samples_per_tick,
            current_tick: self.current_tick,
            current_speed: self.current_speed,
            current_tempo: self.current_tempo,
            current_order: self.current_order,
            current_row: self.current_row,
            next_row: self.next_row,
            next_order: self.next_order,
            should_jump: self.should_jump,
            channels: self.channels@,
            global_volume: self.global_volume,
            looping: self.looping,
            ended: self.ended,
            tempo_tuning_recip: self.tempo_tuning_recip,
        }
    }
}

impl<'a> TrackPlayer<'a> {
    /// The engine is sound: its track is playable and its state fits the track.
    pub open spec fn wf(self) -> bool {
        &&& self.track.playable()
        &&& state_wf(self@, *self.track)
    }

    /// A fresh engine at the top of the track: clock at zero, the track's
    /// initial speed, tempo and global volume, looping on, neutral tempo
    /// tuning, and one silent channel per voice, enabled unless the track's
    /// pan table marks it muted (a pan value of 128 or more).
    pub fn new(track: &'a Track) -> (r: Self)
        requires
            track.playable(),
        ensures
            r.wf(),
            r.track == track,
            r@ == (PlayerState {
                current_half_sample: 0,
                half_samples_per_tick: spec_hspt(track.tempo),
                current_tick: 0,
                current_speed: track.speed,
                current_tempo: track.tempo,
                current_order: 0,
                current_row: 0,
                next_row: 0,
                next_order: 0,
                should_jump: false,
                channels: Seq::new(64, |c: int| TrackChannel {
                    enabled: track.pans@[c] < 128,
                    current_sample: None,
                    note_volume: 0,
                    vol_memory: 0,
                    pitch_memory: 0,
                    offset_memory: 0,
                    high_offset: 0,
                }),
                global_volume: track.global_volume,
                looping: true,
                ended: false,
                tempo_tuning_recip: 0x100000000,
            }),
    {
        let mut channels: Vec<TrackChannel> = Vec::new();
        let mut i: usize = 0;
        while i < 64
            invariant
                track.playable(),
                i <= 64,
                channels@.len() == i,
                forall|c: int| 0 <= c < i ==> channels@[c] == (TrackChannel {
                    enabled: track.pans@[c] < 128,
                    current_sample: None,
                    note_volume: 0,
                    vol_memory: 0,
                    pitch_memory: 0,
                    offset_memory: 0,
                    high_offset: 0,
                }),
            decreases 64 - i,
        {
            let pan = track.pans[i];
            channels.push(TrackChannel {
                enabled: pan < 128,
                current_sample: None,
                note_volume: 0,
                vol_memory: 0,
                pitch_memory: 0,
                offset_memory: 0,
                high_offset: 0,
            });
            i = i + 1;
        }
        let half_samples_per_tick = calculate_half_samples_per_tick(track.tempo);
        let r = TrackPlayer {
            track,
            current_half_sample: 0,
            half_samples_per_tick,
            current_tick: 0,
            current_speed: track.speed,
            current_tempo: track.tempo,
            current_order: 0,
            current_row: 0,
            next_row: 0,
            next_order: 0,
            should_jump: false,
            channels,
            global_volume: track.global_volume,
            looping: true,
            ended: false,
            tempo_tuning_recip: 0x100000000,
        };
        proof {
            assert(r@.channels =~= Seq::new(64, |c: int| TrackChannel {
                enabled: track.pans@[c] < 128,
                current_sample: None,
                note_volume: 0,
                vol_memory: 0,
                pitch_memory: 0,
                offset_memory: 0,
                high_offset: 0,
            }));
        }
        r
    }

    /// Change the tempo: store it and retime the tick, honouring the tempo
    /// tuning.
    pub fn set_tempo(&mut self, tempo: u8)
        ensures
            final(self).track == old(self).track,
            final(self)@ == (PlayerState {
                current_tempo: tempo,
                half_samples_per_tick: spec_tuned_hspt(tempo, old(self)@.tempo_tuning_recip),
                ..old(self)@
            }),
    {
        self.current_tempo = tempo;
        let raw = calculate_half_samples_per_tick(tempo);
        proof {
            assert(raw as int * self.tempo_tuning_recip as int <= 0xFFFFFFFF * 0xFFFFFFFFFFFFFFFF)
                by (nonlinear_arith)
                requires raw <= 0xFFFFFFFFu32, self.tempo_tuning_recip <= 0xFFFFFFFFFFFFFFFFu64,
            ;
        }
        let scaled: u128 = (raw as u128) * (self.tempo_tuning_recip as u128) / 0x100000000;
        self.half_samples_per_tick = if scaled > 0xFFFFFFFF { u32::MAX } else { scaled as u32 };
    }

    /// Set the tempo tuning as a reciprocal 32.32 fixed-point factor
    /// (`0x1_0000_0000` is neutral; half of it doubles the playback rate), and
    /// retime the tick at the current tempo.
    pub fn set_tempo_tuning(&mut self, tuning_recip: u64)
        ensures
            final(self).track == old(self).track,
            final(self)@ == (PlayerState {
                tempo_tuning_recip: tuning_recip,
                half_samples_per_tick: spec_tuned_hspt(old(self)@.current_tempo, tuning_recip),
                ..old(self)@
            }),
    {
        self.tempo_tuning_recip = tuning_recip;
        let tempo = self.current_tempo;
        self.set_tempo(tempo);
    }
}

/// Process one channel of the current row for this tick: runs the note cell
/// (on tick zero) and the effect column, returning the voice actions and the
/// channel's outcome for the engine to fold in.
pub fn process_channel(
    track: &Track,
    c: u8,
    note: &Note,
    st: TrackChannel,
    tick: u8,
    current_order: usize,
    global_volume: u8,
) -> (r: (ChannelOutcome, Vec<VoiceAction>))
    requires
        channel_inv(st, track.samples@.len() as int),
        current_order < usize::MAX,
    ensures
        ({
            let (o, acts) = spec_channel_step(*track, c, *note, st, tick, current_order, global_volume);
            &&& r.0 == o
            &&& r.1@ == acts
        }),
        channel_inv(r.0.st, track.samples@.len() as int),
{
    let mut acts: Vec<VoiceAction> = Vec::new();
    let mut out = ChannelOutcome {
        st,
        new_speed: None,
        new_tempo: None,
        new_global_volume: None,
        jump: None,
    };
    if !st.enabled || !note.initialized {
        return (out, acts);
    }
    if tick == 0 {
        match note.key {
            PianoKey::NoteCut | PianoKey::NoteOff | PianoKey::NoteFade => {
                out.st.current_sample = None;
                out.st.note_volume = 0;
                acts.push(VoiceAction::Stop { voice: c });
                proof {
                    let (o, a) = spec_channel_step(*track, c, *note, st, tick, current_order, global_volume);
                    assert(acts@ =~= a);
                }
                return (out, acts);
            },
            _ => {},
        }
        let sample_id = if note.sample.is_some() {
            note.sample
        } else {
            st.current_sample
        };
        match sample_id {
            Some(id) => {
                let is_no_note = match note.key {
                    PianoKey::NoNote => true,
                    _ => false,
                };
                if !is_no_note && (id as usize) < track.samples.len() {
                    let sample = &track.samples[id as usize];
                    let volume = match note.volume {
                        Some(v) => v,
                        None => sample.default_volume,
                    };
                    let vn = volume_numerator(volume, sample.global_volume, global_volume);
                    let nn = note_number(note.key, note.octave);
                    acts.push(VoiceAction::Play {
                        voice: c,
                        sample: id,
                        note: nn,
                        volume_num: vn,
                        looping: sample.looping,
                        loop_start: sample.loop_start,
                        loop_end: sample.loop_end,
                    });
                    out.st.current_sample = note.sample;
                    out.st.note_volume = volume;
                }
            },
            None => {},
        }
        match (note.volume, out.st.current_sample) {
            (Some(v), Some(sid)) => {
                if (sid as usize) < track.samples.len() {
                    let sample = &track.samples[sid as usize];
                    let vn = volume_numerator(v, sample.global_volume, global_volume);
                    acts.push(VoiceAction::SetVolume { voice: c, volume_num: vn });
                    out.st.note_volume = v;
                }
            },
            _ => {},
        }
    }
    let st1 = out.st;
    match note.effect {
        Effect::SetSpeed(v) => {
            if tick == 0 {
                out.new_speed = Some(v);
            }
        },
        Effect::PositionJump(p) => {
            out.jump = Some((p as usize, 0));
        },
        Effect::PatternBreak(p) => {
            out.jump = Some((current_order + 1, p as usize));
        },
        Effect::VolumeSlide(v) => {
            let p = if v == 0 { st1.vol_memory } else { v };
            out.st.vol_memory = p;
            let applies = st1.current_sample.is_some()
                && !(tick == 0 && ((p & 0xF0) != 0xF0 && (p & 0x0F) != 0x0F))
                && !((((p & 0xF0) == 0xF0) || ((p & 0x0F) == 0x0F && (p & 0xF0) != 0))
                    && tick != 0);
            if applies {
                let pm = if (p & 0xF0) == 0xF0 { p & 0x0F } else { p };
                let mut vol: i32 = st1.note_volume as i32;
                if pm < 16 {
                    vol = vol - pm as i32;
                } else {
                    vol = vol + (pm / 16) as i32;
                }
                let nv: u8 = if vol < 0 { 0 } else if vol > 64 { 64 } else { vol as u8 };
                out.st.note_volume = nv;
                let sid = match st1.current_sample {
                    Some(sid) => sid,
                    None => 0,
                };
                if (sid as usize) < track.samples.len() {
                    let sample = &track.samples[sid as usize];
                    let vn = volume_numerator(nv, sample.global_volume, global_volume);
                    acts.push(VoiceAction::SetVolume { voice: c, volume_num: vn });
                }
            }
        },
        Effect::PortamentoDown(v) => {
            let p = if v == 0 { st1.pitch_memory } else { v };
            out.st.pitch_memory = p;
            let hi = p & 0xF0;
            if !((hi >= 0xE0 && tick != 0) || (tick == 0 && hi < 0xE0)) {
                let num: i32 = if hi == 0xE0 {
                    (p & 0x0F) as i32
                } else if hi == 0xF0 {
                    4 * ((p & 0x0F) as i32)
                } else {
                    4 * (p as i32)
                };
                acts.push(VoiceAction::MulSpeed { voice: c, exp_num: -num });
            }
        },
        Effect::PortamentoUp(v) => {
            let p = if v == 0 { st1.pitch_memory } else { v };
            out.st.pitch_memory = p;
            let hi = p & 0xF0;
            if !((hi >= 0xE0 && tick != 0) || (tick == 0 && hi < 0xE0)) {
                let num: i32 = if hi == 0xE0 {
                    (p & 0x0F) as i32
                } else if hi == 0xF0 {
                    4 * ((p & 0x0F) as i32)
                } else {
                    4 * (p as i32)
                };
                acts.push(VoiceAction::MulSpeed { voice: c, exp_num: num });
            }
        },
        Effect::SampleOffset(v) => {
            if tick == 0 {
                let offset = if v == 0 { st1.offset_memory } else { v };
                out.st.offset_memory = offset;
                let is_no_note = match note.key {
                    PianoKey::NoNote => true,
                    _ => false,
                };
                if !is_no_note {
                    let frame: u32 = (offset as u32) * 256 + (st1.high_offset as u32);
                    acts.push(VoiceAction::SeekFrames { voice: c, frame });
                }
            }
        },
        Effect::Special(cmd) => {
            if 0x80 <= cmd && cmd <= 0x8F {
                acts.push(VoiceAction::SetPanning { voice: c, num: cmd & 0xF, den: 15 });
            }
            if 0xA0 <= cmd && cmd <= 0xAF {
                proof {
                    assert((cmd & 0xF) <= 15) by (bit_vector);
                }
                out.st.high_offset = ((cmd & 0xF) as usize) * 0x10000;
            }
        },
        Effect::Tempo(t) => {
            if t > 0x20 && tick == 0 {
                out.new_tempo = Some(t);
            }
        },
        Effect::SetGlobalVolume(v) => {
            out.new_global_volume = Some(v);
        },
        Effect::SetPanning(p) => {
            acts.push(VoiceAction::SetPanning { voice: c, num: p, den: 255 });
        },
        _ => {},
    }
    proof {
        let (o, a) = spec_channel_step(*track, c, *note, st, tick, current_order, global_volume);
        assert(acts@ =~= a);
        assert(out == o);
    }
    (out, acts)
}

} // verus!

verus! {

impl<'a> TrackPlayer<'a> {
    /// Drive the engine one half-sample forward.
    ///
    /// At the start of each tick the current row is dispatched: every enabled
    /// channel's note cell (tick zero only) and effect column run, producing
    /// voice actions and possibly changing speed, tempo, global volume or the
    /// next position. Then the clock advances; when the row's last tick
    /// completes, the engine moves to the next row, honouring pending jumps
    /// and wrapping or ending at the order list's end. Once ended, every later
    /// call leaves the engine untouched and asks for silence.
    #[verifier::rlimit(100)]
    pub fn advance(&mut self) -> (r: AdvanceOutput)
        requires
            old(self).wf(),
        ensures
            final(self).wf(),
            final(self).track == old(self).track,
            ({
                let (s2, acts, playing) = spec_advance(*old(self).track, old(self)@);
                &&& final(self)@ == s2
                &&& r.actions@ == acts
                &&& r.playing == playing
            }),
            old(self).ended ==> *final(self) == *old(self) && r.actions@.len() == 0 && !r.playing,
    {
        if self.ended {
            return AdvanceOutput { actions: Vec::new(), playing: false };
        }
        let track = self.track;
        let ghost s0 = self@;
        let mut actions: Vec<VoiceAction> = Vec::new();
        if self.current_half_sample == 0 {
            let pattern_index = track.orders[self.current_order] as usize;
            let orders_len = track.orders.len();
            let mut c: usize = 0;
            while c < 64
                invariant
                    self.track == track,
                    track.playable(),
                    orders_len == track.orders@.len(),
                    state_wf(self@, *track),
                    !self.ended,
                    c <= 64,
                    pattern_index == track.orders@[self.current_order as int] as usize,
                    self.current_order == s0.current_order,
                    self.current_row == s0.current_row,
                    self.current_tick == s0.current_tick,
                    self.current_half_sample == s0.current_half_sample,
                    self.looping == s0.looping,
                    spec_dispatch(*track, s0, 0).0 == spec_dispatch(*track, self@, c as int).0,
                    spec_dispatch(*track, s0, 0).1 == actions@ + spec_dispatch(*track, self@, c as int).1,
                decreases 64 - c,
            {
                let ghost sprev = self@;
                let note = *track.patterns[pattern_index].notes.get(c, self.current_row);
                proof {
                    assert(note == order_pattern(*track, self.current_order as int)
                        .spec_note(c as int, self.current_row as int));
                }
                let st = self.channels[c];
                let (o, mut new_acts) = process_channel(
                    track,
                    c as u8,
                    &note,
                    st,
                    self.current_tick,
                    self.current_order,
                    self.global_volume,
                );
                let ghost emitted = new_acts@;
                actions.append(&mut new_acts);
                *vstd::std_specs::vec::vec_index_mut(&mut self.channels, c) = o.st;
                match o.new_speed {
                    Some(v) => {
                        self.current_speed = v;
                    },
                    None => {},
                }
                match o.new_tempo {
                    Some(t) => {
                        self.set_tempo(t);
                    },
                    None => {},
                }
                match o.new_global_volume {
                    Some(g) => {
                        self.global_volume = g;
                    },
                    None => {},
                }
                match o.jump {
                    Some((no, nr)) => {
                        self.next_order = no;
                        self.next_row = nr;
                        self.should_jump = true;
                    },
                    None => {},
                }
                proof {
                    assert(self@ =~= spec_apply_outcome(sprev, c as int, o));
                    let (o2, a2) = spec_channel_step(
                        *track,
                        c as u8,
                        note,
                        sprev.channels[c as int],
                        sprev.current_tick,
                        sprev.current_order,
                        sprev.global_volume,
                    );
                    assert(o2 == o);
                    assert(a2 == emitted);
                    assert(spec_dispatch(*track, sprev, c as int).0
                        == spec_dispatch(*track, self@, c as int + 1).0);
                    assert(spec_dispatch(*track, sprev, c as int).1
                        =~= a2 + spec_dispatch(*track, self@, c as int + 1).1);
                    assert(actions@ + spec_dispatch(*track, self@, c as int + 1).1
                        =~= spec_dispatch(*track, s0, 0).1);
                }
                c = c + 1;
            }
            proof {
                assert(spec_dispatch(*track, self@, 64) == (self@, Seq::<VoiceAction>::empty()));
                assert(actions@ + Seq::<VoiceAction>::empty() =~= actions@);
            }
        }
        let ghost s1 = self@;
        let mut playing = true;
        self.current_half_sample = self.current_half_sample + 1;
        if self.current_half_sample >= self.half_samples_per_tick {
            self.current_half_sample = 0;
            let t = self.current_tick + 1;
            if t >= self.current_speed {
                self.current_tick = 0;
                let jumped_back: bool;
                if self.should_jump {
                    self.should_jump = false;
                    jumped_back = self.next_order <= self.current_order;
                    self.current_row = self.next_row;
                    self.current_order = self.next_order;
                } else {
                    self.current_row = self.current_row + 1;
                    jumped_back = false;
                }
                if jumped_back && !self.looping {
                    self.ended = true;
                    playing = false;
                } else if self.current_order >= track.orders.len()
                    || track.orders[self.current_order] == 255 {
                    if self.looping {
                        self.current_order = 0;
                        self.current_row = 0;
                    } else {
                        self.ended = true;
                        playing = false;
                    }
                } else {
                    let pidx = track.orders[self.current_order] as usize;
                    if self.current_row >= track.patterns[pidx].rows as usize {
                        self.current_row = 0;
                        self.current_order = self.current_order + 1;
                        if self.current_order >= track.orders.len()
                            || track.orders[self.current_order] == 255 {
                            if self.looping {
                                self.current_order = 0;
                            } else {
                                self.ended = true;
                                playing = false;
                            }
                        }
                    }
                }
            } else {
                self.current_tick = t;
            }
        }
        proof {
            assert(self@ =~= spec_clock(*track, s1).0);
            assert(playing == spec_clock(*track, s1).1);
        }
        AdvanceOutput { actions, playing }
    }
}

} // verus!

verus! {

/// Whether `(k, j)` names a recorded row: entry `k` of the seek table, row `j`
/// of that entry.
pub open spec fn seek_pos_valid(table: Seq<crate::track::SeekTable>, k: int, j: int) -> bool {
    0 <= k < table.len() && 0 <= j < table[k].rows@.len()
}

/// Whether `(k, j)` is where a seek to clock value `t` lands: the last
/// recorded row, in play order, that starts at or before `t`.
pub open spec fn is_seek_target(table: Seq<crate::track::SeekTable>, t: u64, k: int, j: int) -> bool {
    &&& seek_pos_valid(table, k, j)
    &&& table[k].rows@[j].start <= t
    &&& forall|k2: int, j2: int| seek_pos_valid(table, k2, j2) && (k2 > k || (k2 == k && j2 > j))
        ==> (#[trigger] table[k2].rows@[j2]).start > t
}

/// Some recorded row starts at or before `t`.
pub open spec fn seek_target_exists(table: Seq<crate::track::SeekTable>, t: u64) -> bool {
    exists|k: int, j: int| seek_pos_valid(table, k, j) && (#[trigger] table[k].rows@[j]).start <= t
}

/// Seeking anywhere at or past the start of a track whose dry run recorded any
/// row always lands: in a chained table the first recorded row starts at zero.
pub proof fn lemma_seek_target_exists(table: Seq<crate::track::SeekTable>, t: u64)
    requires
        crate::track::table_chained(table, 0),
        exists|k: int| 0 <= k < table.len() && (#[trigger] table[k]).rows@.len() > 0,
    ensures
        seek_target_exists(table, t),
{
    crate::track::lemma_first_row_at_start(table, 0);
    let k = choose|k: int| 0 <= k < table.len() && (#[trigger] table[k]).rows@.len() > 0
        && table[k].rows@[0].start == 0;
    assert(seek_pos_valid(table, k, 0) && table[k].rows@[0].start <= t);
}

impl<'a> TrackPlayer<'a> {
    /// Seek to a position on the half-sample clock.
    ///
    /// Lands on the last recorded row that starts at or before `t`: the clock
    /// is reset to the top of that row, the row's recorded speed and tempo are
    /// adopted (retiming the tick), and the row's start is returned. When the
    /// dry run recorded no row at or before `t`, nothing changes and zero is
    /// returned.
    pub fn seek_half_samples(&mut self, t: u64) -> (r: u64)
        requires
            old(self).wf(),
        ensures
            final(self).wf(),
            final(self).track == old(self).track,
            !seek_target_exists(old(self).track.seek_table@, t)
                ==> *final(self) == *old(self) && r == 0,
            seek_target_exists(old(self).track.seek_table@, t) ==> exists|k: int, j: int| {
                let sv = old(self).track.seek_table@[k].rows@[j];
                &&& #[trigger] is_seek_target(old(self).track.seek_table@, t, k, j)
                &&& r == sv.start
                &&& final(self)@ == (PlayerState {
                    current_half_sample: 0,
                    current_tick: 0,
                    current_order: old(self).track.seek_table@[k].order,
                    current_row: j as usize,
                    current_speed: sv.speed,
                    current_tempo: sv.tempo,
                    half_samples_per_tick: spec_tuned_hspt(sv.tempo, old(self)@.tempo_tuning_recip),
                    ended: false,
                    ..old(self)@
                })
            },
    {
        let track = self.track;
        let ghost table = track.seek_table@;
        let mut found = false;
        let mut bk: usize = 0;
        let mut bj: usize = 0;
        let mut bsv = SeekValue { start: 0, speed: 0, tempo: 0 };
        let mut k: usize = 0;
        while k < track.seek_table.len()
            invariant
                table == track.seek_table@,
                k <= table.len(),
                found ==> seek_pos_valid(table, bk as int, bj as int),
                found ==> table[bk as int].rows@[bj as int] == bsv,
                found ==> bsv.start <= t,
                found ==> bk < k,
                found ==> forall|k2: int, j2: int| seek_pos_valid(table, k2, j2) && k2 < k
                    && (k2 > bk || (k2 == bk && j2 > bj))
                    ==> (#[trigger] table[k2].rows@[j2]).start > t,
                !found ==> forall|k2: int, j2: int| seek_pos_valid(table, k2, j2) && k2 < k
                    ==> (#[trigger] table[k2].rows@[j2]).start > t,
            decreases table.len() - k,
        {
            let entry = &track.seek_table[k];
            let mut j: usize = 0;
            while j < entry.rows.len()
                invariant
                    table == track.seek_table@,
                    k < table.len(),
                    entry == table[k as int],
                    j <= entry.rows@.len(),
                    found ==> seek_pos_valid(table, bk as int, bj as int),
                    found ==> table[bk as int].rows@[bj as int] == bsv,
                    found ==> bsv.start <= t,
                    found ==> (bk < k || (bk == k && bj < j)),
                    found ==> forall|k2: int, j2: int| seek_pos_valid(table, k2, j2)
                        && (k2 < k || (k2 == k && j2 < j))
                        && (k2 > bk || (k2 == bk && j2 > bj))
                        ==> (#[trigger] table[k2].rows@[j2]).start > t,
                    !found ==> forall|k2: int, j2: int| seek_pos_valid(table, k2, j2)
                        && (k2 < k || (k2 == k && j2 < j))
                        ==> (#[trigger] table[k2].rows@[j2]).start > t,
                decreases entry.rows@.len() - j,
            {
                let sv = entry.rows[j];
                if sv.start <= t {
                    found = true;
                    bk = k;
                    bj = j;
                    bsv = sv;
                }
                j = j + 1;
            }
            k = k + 1;
        }
        if !found {
            return 0;
        }
        let order = track.seek_table[bk].order;
        self.current_tick = 0;
        self.current_half_sample = 0;
        self.current_order = order;
        self.current_row = bj;
        self.current_speed = bsv.speed;
        self.ended = false;
        self.set_tempo(bsv.tempo);
        proof {
            assert(is_seek_target(table, t, bk as int, bj as int));
        }
        bsv.start
    }
}

/// Silence is stable: once the engine has ended, every further step leaves
/// it untouched, emits no action, and asks for silence.
pub proof fn lemma_silence_after_end(track: Track, s: PlayerState)
    requires
        s.ended,
    ensures
        spec_advance(track, s) == (s, Seq::<VoiceAction>::empty(), false),
{
}

/// Volume-slide memory: a slide with parameter zero behaves exactly like a
/// slide with the remembered parameter, so two successive zero-parameter
/// slides equal two successive slides with the last non-zero parameter.
pub proof fn lemma_volume_slide_memory(st: TrackChannel, tick1: u8, tick2: u8)
    requires
        st.vol_memory != 0,
    ensures
        spec_volume_slide(st, 0, tick1) == spec_volume_slide(st, st.vol_memory, tick1),
        spec_volume_slide(spec_volume_slide(st, 0, tick1), 0, tick2)
            == spec_volume_slide(spec_volume_slide(st, st.vol_memory, tick1), st.vol_memory, tick2),
{
}

/// Middle C is the engine's reference note: `(C, 5)` is note number 40, whose
/// playback-rate exponent `(40 - 49) / 12` is cancelled by the sample rate
/// multiplier, so a sample triggered at middle C plays at its native rate.
pub proof fn lemma_middle_c_reference()
    ensures
        spec_note_number(PianoKey::C, 5) == 40,
{
}

/// One octave spans twelve notes, so raising the octave doubles the playback
/// rate: the pitch exponent `(note - 49) / 12` grows by exactly one.
pub proof fn lemma_octave_doubles(key: PianoKey, octave: u8)
    requires
        key.is_pitch(),
        octave < 255,
    ensures
        spec_note_number(key, (octave + 1) as u8) == spec_note_number(key, octave) + 12,
{
}

} // verus!
