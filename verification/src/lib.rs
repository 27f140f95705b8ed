//! A verified Impulse Tracker (IT) module playback engine.
//!
//! The crate loads an IT module into an immutable [`track::Track`] and drives
//! playback as a pure state machine: every call to
//! [`track_player::TrackPlayer::advance`] walks the order/row/tick clock and
//! returns the voice operations that an audio backend must apply before mixing
//! the next output sample. All pitch, volume and timing computations are
//! expressed over plain integers so that the engine itself carries no
//! floating-point state.

use vstd::prelude::*;

pub mod binary;
pub mod it_utils;
pub mod track;
pub mod track_player;

verus! {

/// Module formats a track can originate from; only `IT` is loaded here.
pub enum ModuleType {
    PMM,
    IT,
    XM,
    S3M,
    MOD,
}

/// A note cell's key: no note, one of three release markers, or one of the
/// twelve chromatic pitches, ordered so that `C` is pitch index 0 and `B` is 11.
#[derive(PartialEq, Eq, Structural, Copy, Clone, Debug)]
pub enum PianoKey {
    NoNote,
    NoteCut,
    NoteOff,
    NoteFade,
    C,
    CSharp,
    D,
    DSharp,
    E,
    F,
    FSharp,
    G,
    GSharp,
    A,
    ASharp,
    B,
}

impl PianoKey {
    /// Pitch index of a chromatic key: 0 for `C` up to 11 for `B`.
    pub open spec fn spec_pitch_index(self) -> int {
        match self {
            PianoKey::C => 0,
            PianoKey::CSharp => 1,
            PianoKey::D => 2,
            PianoKey::DSharp => 3,
            PianoKey::E => 4,
            PianoKey::F => 5,
            PianoKey::FSharp => 6,
            PianoKey::G => 7,
            PianoKey::GSharp => 8,
            PianoKey::A => 9,
            PianoKey::ASharp => 10,
            PianoKey::B => 11,
            _ => -1,
        }
    }

    /// True of the twelve chromatic pitch keys.
    pub open spec fn is_pitch(self) -> bool {
        self.spec_pitch_index() >= 0
    }

    pub fn pitch_index(self) -> (r: i32)
        ensures
            r == self.spec_pitch_index(),
    {
        match self {
            PianoKey::C => 0,
            PianoKey::CSharp => 1,
            PianoKey::D => 2,
            PianoKey::DSharp => 3,
            PianoKey::E => 4,
            PianoKey::F => 5,
            PianoKey::FSharp => 6,
            PianoKey::G => 7,
            PianoKey::GSharp => 8,
            PianoKey::A => 9,
            PianoKey::ASharp => 10,
            PianoKey::B => 11,
            _ => -1,
        }
    }
}

/// The chromatic key with the given pitch index, 0 for `C` up to 11 for `B`.
pub open spec fn spec_key_from_index(index: int) -> PianoKey {
    if index == 0 { PianoKey::C }
    else if index == 1 { PianoKey::CSharp }
    else if index == 2 { PianoKey::D }
    else if index == 3 { PianoKey::DSharp }
    else if index == 4 { PianoKey::E }
    else if index == 5 { PianoKey::F }
    else if index == 6 { PianoKey::FSharp }
    else if index == 7 { PianoKey::G }
    else if index == 8 { PianoKey::GSharp }
    else if index == 9 { PianoKey::A }
    else if index == 10 { PianoKey::ASharp }
    else { PianoKey::B }
}

/// The chromatic key with the given pitch index, 0 for `C` up to 11 for `B`.
pub fn key_from_index(index: u8) -> (r: PianoKey)
    requires
        index < 12,
    ensures
        r.spec_pitch_index() == index,
        r == spec_key_from_index(index as int),
{
    match index {
        0 => PianoKey::C,
        1 => PianoKey::CSharp,
        2 => PianoKey::D,
        3 => PianoKey::DSharp,
        4 => PianoKey::E,
        5 => PianoKey::F,
        6 => PianoKey::FSharp,
        7 => PianoKey::G,
        8 => PianoKey::GSharp,
        9 => PianoKey::A,
        10 => PianoKey::ASharp,
        _ => PianoKey::B,
    }
}

/// An IT effect-column command: one empty variant and twenty-six parametric
/// commands, each carrying its raw parameter byte.
#[derive(Debug, Clone, Copy, PartialEq)]
pub enum Effect {
    NoEffect,
    SetSpeed(u8),
    PositionJump(u8),
    PatternBreak(u8),
    VolumeSlide(u8),
    PortamentoDown(u8),
    PortamentoUp(u8),
    TonePortamento(u8),
    Vibrato(u8),
    Tremor(u8),
    Arpeggio(u8),
    VolumeSlideVibrato(u8),
    VolumeSlideTonePortamento(u8),
    SetChannelVolume(u8),
    ChannelVolumeSlide(u8),
    SampleOffset(u8),
    PanningSlide(u8),
    Retrigger(u8),
    Tremolo(u8),
    Special(u8),
    Tempo(u8),
    FineVibrato(u8),
    SetGlobalVolume(u8),
    GlobalVolumeSlide(u8),
    SetPanning(u8),
    Panbrello(u8),
    MidiMacro(u8),
}

/// One cell of a pattern. `initialized == false` marks an empty cell that the
/// player skips entirely.
#[derive(Debug, Clone, Copy, PartialEq)]
pub struct Note {
    pub initialized: bool,
    pub key: PianoKey,
    pub octave: u8,
    pub sample: Option<u8>,
    pub volume: Option<u8>,
    pub effect: Effect,
}

impl Default for Note {
    /// The empty cell: uninitialized, no key, no sample, no volume, no effect.
    fn default() -> (r: Self)
        ensures
            r == Note::empty(),
    {
        Note {
            initialized: false,
            key: PianoKey::NoNote,
            octave: 0,
            sample: None,
            volume: None,
            effect: Effect::NoEffect,
        }
    }
}

impl Note {
    /// The value `Note::default()` returns.
    pub open spec fn empty() -> Note {
        Note {
            initialized: false,
            key: PianoKey::NoNote,
            octave: 0,
            sample: None,
            volume: None,
            effect: Effect::NoEffect,
        }
    }

    /// An initialized cell holding the given key, octave, sample, volume and effect.
    pub fn new(key: PianoKey, octave: u8, sample: Option<u8>, volume: Option<u8>, effect: Effect) -> (r: Self)
        ensures
            r == (Note { initialized: true, key, octave, sample, volume, effect }),
    {
        Note { initialized: true, key, octave, sample, volume, effect }
    }
}

/// A dense two-dimensional grid stored row-major: cell `(column, row)` lives at
/// linear index `row * columns + column`.
pub struct Arr2D<T> {
    pub vec: Vec<T>,
    pub columns: usize,
    pub rows: usize,
}

impl<T: Copy> Arr2D<T> {
    /// The flat row-major contents.
    pub open spec fn view(self) -> Seq<T> {
        self.vec@
    }

    pub open spec fn spec_columns(&self) -> usize {
        self.columns
    }

    pub open spec fn spec_rows(&self) -> usize {
        self.rows
    }

    /// The grid stores exactly `columns * rows` cells.
    pub open spec fn wf(self) -> bool {
        self.vec@.len() == self.columns * self.rows
    }

    /// The cell at `(column, row)`, as a spec value.
    pub open spec fn spec_get(self, column: int, row: int) -> T {
        self.vec@[row * self.columns + column]
    }

    /// A fresh grid with every cell equal to `fill`.
    pub fn new(columns: usize, rows: usize, fill: T) -> (r: Self)
        requires
            columns * rows <= usize::MAX,
        ensures
            r.wf(),
            r.spec_columns() == columns,
            r.spec_rows() == rows,
            forall|i: int| 0 <= i < r@.len() ==> r@[i] == fill,
    {
        let count = columns * rows;
        let mut vec: Vec<T> = Vec::with_capacity(count);
        while vec.len() < count
            invariant
                vec@.len() <= count,
                forall|i: int| 0 <= i < vec@.len() ==> vec@[i] == fill,
            decreases count - vec@.len(),
        {
            vec.push(fill);
        }
        Arr2D { vec, columns, rows }
    }

    /// Overwrite the cell at `(column, row)`.
    pub fn set(&mut self, column: usize, row: usize, value: T)
        requires
            old(self).wf(),
            column < old(self).spec_columns(),
            row < old(self).spec_rows(),
        ensures
            final(self).wf(),
            final(self).spec_columns() == old(self).spec_columns(),
            final(self).spec_rows() == old(self).spec_rows(),
            final(self)@ == old(self)@.update(row * old(self).spec_columns() + column, value),
            final(self).spec_get(column as int, row as int) == value,
    {
        let n = self.vec.len();
        proof {
            lemma_grid_index(self.columns as int, self.rows as int, column as int, row as int);
        }
        let idx = row * self.columns + column;
        *vstd::std_specs::vec::vec_index_mut(&mut self.vec, idx) = value;
    }

    /// Read the cell at `(column, row)`.
    pub fn get(&self, column: usize, row: usize) -> (r: &T)
        requires
            self.wf(),
            column < self.spec_columns(),
            row < self.spec_rows(),
        ensures
            *r == self.spec_get(column as int, row as int),
    {
        let n = self.vec.len();
        proof {
            lemma_grid_index(self.columns as int, self.rows as int, column as int, row as int);
        }
        let idx = row * self.columns + column;
        &self.vec[idx]
    }

    #[verifier::when_used_as_spec(spec_columns)]
    pub fn columns(&self) -> (r: usize)
        ensures
            r == self.spec_columns(),
    {
        self.columns
    }

    #[verifier::when_used_as_spec(spec_rows)]
    pub fn rows(&self) -> (r: usize)
        ensures
            r == self.spec_rows(),
    {
        self.rows
    }
}

/// A row-major index `row * columns + column` stays inside a
/// `columns * rows` grid whenever the coordinates are in range.
pub(crate) proof fn lemma_grid_index(columns: int, rows: int, column: int, row: int)
    requires
        0 <= column < columns,
        0 <= row < rows,
    ensures
        0 <= row * columns + column < columns * rows,
{
    assert(row * columns + column < (row + 1) * columns) by (nonlinear_arith)
        requires 0 <= column < columns,
    ;
    assert((row + 1) * columns <= rows * columns) by (nonlinear_arith)
        requires row + 1 <= rows, columns >= 0,
    ;
    assert(rows * columns == columns * rows) by (nonlinear_arith);
}

/// Playback diagnostics sink; this build discards the text.
pub fn log(text: String) {
}

} // verus!
