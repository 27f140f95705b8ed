//! The immutable track model: samples, patterns, orders, initial timing, and
//! the precomputed length/seek table, together with the IT loader.

use vstd::prelude::*;

use crate::binary::{BinaryReader, u16_le, u32_le};
use crate::it_utils::get_effect;
use crate::track_player::{calculate_half_samples_per_tick, spec_hspt};
use crate::{Arr2D, Effect, ModuleType, Note};

verus! {

/// Why a module file was rejected.
#[derive(Debug, Clone, Copy, PartialEq, Eq, Structural)]
pub enum LoadError {
    /// The file does not start with the IT module magic.
    InvalidMagic,
    /// A sample header does not start with the sample magic.
    InvalidSampleMagic,
    /// The file uses instruments, which this player does not support.
    InstrumentsUnsupported,
    /// The fixed-size header did not parse to the expected cursor position.
    MalformedHeader,
    /// A read ran past the end of the file.
    Truncated,
}

/// Shape of a sample's raw PCM data.
#[derive(Debug, Clone, Copy, PartialEq)]
pub struct SampleFormat {
    pub channels: u8,
    pub sample_rate: i32,
    pub bits_per_sample: u8,
}

/// One digitized instrument: raw PCM bytes plus loop and volume metadata.
pub struct Sample {
    pub data: Vec<u8>,
    pub format: SampleFormat,
    pub looping: bool,
    pub loop_start: i32,
    pub loop_end: i32,
    pub global_volume: u8,
    pub default_volume: u8,
}

/// An 8-bit PCM byte re-centred from unsigned (bias 128) to signed.
pub open spec fn spec_bias(b: u8) -> u8 {
    if b >= 128 {
        (b - 128) as u8
    } else {
        (b + 128) as u8
    }
}

/// Re-centre 8-bit sample data from unsigned to signed in place; wider
/// formats are already signed and stay untouched.
pub fn fix_sample(data: &mut Vec<u8>, format: &SampleFormat)
    ensures
        final(data)@.len() == old(data)@.len(),
        forall|i: int| 0 <= i < old(data)@.len() ==> final(data)@[i] == if format.bits_per_sample == 8 {
            spec_bias(old(data)@[i])
        } else {
            old(data)@[i]
        },
{
    if format.bits_per_sample == 8 {
        let n = data.len();
        let mut i: usize = 0;
        while i < n
            invariant
                n == data@.len(),
                i <= n,
                data@.len() == old(data)@.len(),
                forall|j: int| 0 <= j < i ==> data@[j] == spec_bias(old(data)@[j]),
                forall|j: int| i <= j < n ==> data@[j] == old(data)@[j],
            decreases n - i,
        {
            let b = data[i];
            let fixed = if b >= 128 { b - 128 } else { b + 128 };
            crate::binary::vec_write(data, i, fixed);
            i = i + 1;
        }
    }
}

impl Sample {
    /// Build a sample from raw file bytes, converting 8-bit data to signed.
    pub fn new(
        data: &[u8],
        format: SampleFormat,
        looping: bool,
        loop_start: i32,
        loop_end: i32,
        global_volume: u8,
        default_volume: u8,
    ) -> (r: Self)
        ensures
            r.data@.len() == data@.len(),
            forall|i: int| 0 <= i < data@.len() ==> r.data@[i] == if format.bits_per_sample == 8 {
                spec_bias(data@[i])
            } else {
                data@[i]
            },
            r.format == format,
            r.looping == looping,
            r.loop_start == loop_start,
            r.loop_end == loop_end,
            r.global_volume == global_volume,
            r.default_volume == default_volume,
    {
        let n = data.len();
        let mut d_vec: Vec<u8> = Vec::with_capacity(n);
        let mut i: usize = 0;
        while i < n
            invariant
                n == data@.len(),
                i <= n,
                d_vec@ == data@.subrange(0, i as int),
            decreases n - i,
        {
            d_vec.push(data[i]);
            proof {
                assert(d_vec@ =~= data@.subrange(0, i + 1));
            }
            i = i + 1;
        }
        proof {
            assert(d_vec@ =~= data@);
        }
        fix_sample(&mut d_vec, &format);
        Sample { data: d_vec, format, looping, loop_start, loop_end, global_volume, default_volume }
    }
}

/// A grid of notes: 64 channels wide in files, with a per-pattern row count.
pub struct Pattern {
    pub notes: Arr2D<Note>,
    pub channels: u16,
    pub rows: u16,
}

impl Pattern {
    /// The note grid matches the declared channel and row counts.
    pub open spec fn wf(self) -> bool {
        &&& self.notes.wf()
        &&& self.notes.columns == self.channels
        &&& self.notes.rows == self.rows
    }

    /// The cell at `(channel, row)`.
    pub open spec fn spec_note(self, channel: int, row: int) -> Note {
        self.notes.spec_get(channel, row)
    }

    /// A pattern of empty cells.
    pub fn new(channels: u16, rows: u16) -> (r: Self)
        ensures
            r.wf(),
            r.channels == channels,
            r.rows == rows,
            forall|c: int, w: int| 0 <= c < channels && 0 <= w < rows ==> r.spec_note(c, w) == Note::empty(),
    {
        proof {
            assert(channels as int * rows as int <= usize::MAX) by (nonlinear_arith)
                requires channels <= 0xFFFF, rows <= 0xFFFF,
            ;
        }
        let empty_note = Note::default();
        let notes = Arr2D::new(channels as usize, rows as usize, empty_note);
        proof {
            assert forall|c: int, w: int| 0 <= c < channels && 0 <= w < rows implies
                notes.spec_get(c, w) == Note::empty() by {
                crate::lemma_grid_index(channels as int, rows as int, c, w);
                assert(0 <= w * (channels as int) + c < notes@.len());
                assert(notes@[w * (channels as int) + c] == empty_note);
            }
        }
        Pattern { notes, channels, rows }
    }

    /// Store a note at `(channel, row)`.
    pub fn set_note(&mut self, channel: u16, row: u16, note: Note)
        requires
            old(self).wf(),
            channel < old(self).channels,
            row < old(self).rows,
        ensures
            final(self).wf(),
            final(self).channels == old(self).channels,
            final(self).rows == old(self).rows,
            final(self).spec_note(channel as int, row as int) == note,
            forall|c: int, w: int| 0 <= c < old(self).channels && 0 <= w < old(self).rows
                && !(c == channel && w == row)
                ==> final(self).spec_note(c, w) == old(self).spec_note(c, w),
    {
        self.notes.set(channel as usize, row as usize, note);
        proof {
            assert forall|c: int, w: int| 0 <= c < old(self).channels && 0 <= w < old(self).rows
                && !(c == channel as int && w == row as int)
                implies final(self).spec_note(c, w) == old(self).spec_note(c, w) by {
                crate::lemma_grid_index(old(self).channels as int, old(self).rows as int, c, w);
                crate::lemma_grid_index(old(self).channels as int, old(self).rows as int, channel as int, row as int);
                lemma_grid_index_injective(old(self).channels as int, c, w, channel as int, row as int);
            }
        }
    }
}

/// Two distinct in-range grid coordinates map to distinct row-major indices.
proof fn lemma_grid_index_injective(columns: int, c1: int, r1: int, c2: int, r2: int)
    requires
        0 <= c1 < columns,
        0 <= c2 < columns,
        !(c1 == c2 && r1 == r2),
    ensures
        r1 * columns + c1 != r2 * columns + c2,
{
    if r1 == r2 {
    } else {
        assert(r1 * columns + c1 != r2 * columns + c2) by (nonlinear_arith)
            requires 0 <= c1 < columns, 0 <= c2 < columns, r1 != r2,
        ;
    }
}

/// Timing of one row in the precomputed seek table: when it starts (in
/// half-samples of the engine clock) and the speed and tempo in force there.
#[derive(Debug, Clone, Copy, PartialEq)]
pub struct SeekValue {
    pub start: u64,
    pub speed: u8,
    pub tempo: u8,
}

/// Timing of one played order: its start, which order slot it is, and one
/// entry per row that the dry run recorded.
#[derive(Debug)]
pub struct SeekTable {
    pub start: u64,
    pub order: usize,
    pub rows: Vec<SeekValue>,
}

/// Addition on the half-sample clock, saturating at the largest `u64`.
pub open spec fn sat64(x: int) -> int {
    if x > u64::MAX {
        u64::MAX as int
    } else {
        x
    }
}

/// How long a row lasts in half-samples: `speed` ticks of the tempo's tick length.
pub open spec fn spec_row_duration(speed: u8, tempo: u8) -> int {
    speed * spec_hspt(tempo)
}

/// A row's duration under its recorded speed and tempo.
pub open spec fn spec_sv_duration(sv: SeekValue) -> int {
    spec_row_duration(sv.speed, sv.tempo)
}

/// The rows of one order chain: the first row starts when the order starts,
/// and every later row starts when the previous one ends.
pub open spec fn rows_chained(rows: Seq<SeekValue>, start: int) -> bool {
    &&& rows.len() > 0 ==> rows[0].start == start
    &&& forall|j: int| 0 <= j && j + 1 < rows.len()
        ==> rows[j + 1].start == sat64(#[trigger] rows[j].start + spec_sv_duration(rows[j]))
}

/// When an order's rows end: its start if it recorded no rows, else the end
/// of its last row.
pub open spec fn rows_end(rows: Seq<SeekValue>, start: int) -> int {
    if rows.len() == 0 {
        start
    } else {
        sat64(rows.last().start + spec_sv_duration(rows.last()))
    }
}

/// The whole table chains: each order entry starts where the previous one ended.
pub open spec fn table_chained(table: Seq<SeekTable>, start: int) -> bool
    decreases table.len(),
{
    table.len() == 0 || {
        &&& table[0].start == start
        &&& rows_chained(table[0].rows@, start)
        &&& table_chained(table.drop_first(), rows_end(table[0].rows@, start))
    }
}

/// Where the table's last recorded row ends: the total precomputed length.
pub open spec fn table_end(table: Seq<SeekTable>, start: int) -> int
    decreases table.len(),
{
    if table.len() == 0 {
        start
    } else {
        table_end(table.drop_first(), rows_end(table[0].rows@, start))
    }
}

/// Every table entry points at a real, playable order slot, and records no
/// more rows than its pattern has.
pub open spec fn seek_entries_wf(table: Seq<SeekTable>, orders: Seq<u8>, patterns: Seq<Pattern>) -> bool {
    forall|k: int| 0 <= k < table.len() ==> {
        &&& (#[trigger] table[k]).order < orders.len()
        &&& orders[table[k].order as int] != 255
        &&& orders[table[k].order as int] < patterns.len()
        &&& table[k].rows@.len() <= patterns[orders[table[k].order as int] as int].rows
    }
}

/// A spec-level view of one seek-table entry.
pub struct SeekEntry {
    pub start: u64,
    pub order: usize,
    pub rows: Seq<SeekValue>,
}

impl View for SeekTable {
    type V = SeekEntry;

    open spec fn view(&self) -> SeekEntry {
        SeekEntry { start: self.start, order: self.order, rows: self.rows@ }
    }
}

/// The spec-level view of a whole seek table.
pub open spec fn table_view(table: Seq<SeekTable>) -> Seq<SeekEntry> {
    table.map_values(|e: SeekTable| e@)
}

/// The dry run's running state while it scans one row's channels: the speed
/// and tempo in force, and whether an effect ended the pattern (a break or a
/// forward jump) or the whole scan (a backward jump).
pub struct RowScan {
    pub speed: u8,
    pub tempo: u8,
    pub stop_pattern: bool,
    pub backward: bool,
}

/// Scan one row's effect columns left to right from channel `c`: `SetSpeed`
/// and `Tempo` retime later rows, a `PatternBreak` or a forward `PositionJump`
/// ends the pattern after this row, and a `PositionJump` at or before the
/// current order ends the scan at once, leaving the rest of the row unread.
pub open spec fn scan_row(pattern: Pattern, row: int, oi: int, s: RowScan, c: int) -> RowScan
    decreases pattern.channels - c,
{
    if c < 0 || c >= pattern.channels || s.backward {
        s
    } else {
        let note = pattern.spec_note(c, row);
        let s1 = match note.effect {
            Effect::SetSpeed(v) => RowScan { speed: v, ..s },
            Effect::Tempo(v) => RowScan { tempo: v, ..s },
            Effect::PatternBreak(_) => RowScan { stop_pattern: true, ..s },
            Effect::PositionJump(pv) => if pv <= oi {
                RowScan { backward: true, ..s }
            } else {
                RowScan { stop_pattern: true, ..s }
            },
            _ => s,
        };
        scan_row(pattern, row, oi, s1, c + 1)
    }
}

/// The dry run's running state while it walks one order's rows: the clock so
/// far, the speed and tempo in force, the rows recorded for this order, and
/// whether the pattern or the whole scan has ended.
#[verifier::ext_equal]
pub struct OrderScan {
    pub length: int,
    pub speed: u8,
    pub tempo: u8,
    pub rows: Seq<SeekValue>,
    pub stopped: bool,
    pub backward: bool,
}

/// Walk one pattern's rows from row `ri`: each row is scanned for effects,
/// then recorded with its start and the speed and tempo now in force, and the
/// clock advances by the row's duration. A backward jump leaves its own row
/// unrecorded and stops everything; a pattern break or forward jump records
/// its row and then ends the pattern.
pub open spec fn walk_rows(pattern: Pattern, oi: int, s: OrderScan, ri: int) -> OrderScan
    decreases pattern.rows - ri,
{
    if ri < 0 || ri >= pattern.rows || s.stopped || s.backward {
        s
    } else {
        let rs = scan_row(
            pattern,
            ri,
            oi,
            RowScan { speed: s.speed, tempo: s.tempo, stop_pattern: false, backward: false },
            0,
        );
        if rs.backward {
            OrderScan {
                speed: rs.speed,
                tempo: rs.tempo,
                stopped: rs.stop_pattern,
                backward: true,
                ..s
            }
        } else {
            let sv = SeekValue { start: s.length as u64, speed: rs.speed, tempo: rs.tempo };
            let s1 = OrderScan {
                length: sat64(s.length + spec_sv_duration(sv)),
                speed: rs.speed,
                tempo: rs.tempo,
                rows: s.rows.push(sv),
                stopped: rs.stop_pattern,
                backward: false,
            };
            walk_rows(pattern, oi, s1, ri + 1)
        }
    }
}

/// The dry run's state between orders.
#[verifier::ext_equal]
pub struct DryState {
    pub length: int,
    pub speed: u8,
    pub tempo: u8,
    pub table: Seq<SeekEntry>,
}

/// Walk the order list from slot `oi`: a value of 255 ends the scan, a value
/// past the pattern list is skipped, and every other order walks its pattern's
/// rows and records one seek entry (also when a backward jump cuts it short,
/// which then ends the scan).
pub open spec fn dry_run_from(patterns: Seq<Pattern>, orders: Seq<u8>, s: DryState, oi: int)
    -> (int, Seq<SeekEntry>)
    decreases orders.len() - oi,
{
    if oi < 0 || oi >= orders.len() {
        (s.length, s.table)
    } else if orders[oi] == 255 {
        (s.length, s.table)
    } else if orders[oi] as int >= patterns.len() {
        dry_run_from(patterns, orders, s, oi + 1)
    } else {
        let pattern = patterns[orders[oi] as int];
        let os = walk_rows(
            pattern,
            oi,
            OrderScan {
                length: s.length,
                speed: s.speed,
                tempo: s.tempo,
                rows: Seq::<SeekValue>::empty(),
                stopped: false,
                backward: false,
            },
            0,
        );
        let entry = SeekEntry { start: s.length as u64, order: oi as usize, rows: os.rows };
        let s1 = DryState {
            length: os.length,
            speed: os.speed,
            tempo: os.tempo,
            table: s.table.push(entry),
        };
        if os.backward {
            (s1.length, s1.table)
        } else {
            dry_run_from(patterns, orders, s1, oi + 1)
        }
    }
}

/// The whole dry run of spec 4.5: the track's total length in half-samples
/// and its seek table, walked from the first order with the initial tempo and
/// speed.
pub open spec fn spec_dry_run(patterns: Seq<Pattern>, orders: Seq<u8>, init_tempo: u8, init_speed: u8)
    -> (int, Seq<SeekEntry>)
{
    dry_run_from(
        patterns,
        orders,
        DryState { length: 0, speed: init_speed, tempo: init_tempo, table: Seq::<SeekEntry>::empty() },
        0,
    )
}

/// Appending an entry that starts at the current end keeps the table chained
/// and moves the end to the entry's own end.
proof fn lemma_table_push(table: Seq<SeekTable>, start: int, e: SeekTable)
    requires
        table_chained(table, start),
        e.start == table_end(table, start),
        rows_chained(e.rows@, e.start as int),
    ensures
        table_chained(table.push(e), start),
        table_end(table.push(e), start) == rows_end(e.rows@, e.start as int),
    decreases table.len(),
{
    let pushed = table.push(e);
    if table.len() == 0 {
        assert(pushed[0] == e);
        assert(pushed.drop_first() =~= Seq::<SeekTable>::empty());
        assert(e.start == start);
        assert(table_chained(pushed.drop_first(), rows_end(e.rows@, start as int)));
        assert(table_chained(pushed, start));
        assert(table_end(pushed, start) == table_end(pushed.drop_first(), rows_end(e.rows@, start)));
        assert(table_end(pushed.drop_first(), rows_end(e.rows@, start)) == rows_end(e.rows@, start));
    } else {
        assert(pushed.drop_first() =~= table.drop_first().push(e));
        lemma_table_push(table.drop_first(), rows_end(table[0].rows@, start), e);
        assert(pushed[0] == table[0]);
        assert(table_chained(pushed.drop_first(), rows_end(pushed[0].rows@, start)));
        assert(table_chained(pushed, start));
        assert(table_end(pushed, start) == table_end(pushed.drop_first(), rows_end(pushed[0].rows@, start)));
    }
}

/// Saturating addition on the half-sample clock.
pub fn sat_add64(a: u64, b: u64) -> (r: u64)
    ensures
        r == sat64(a + b),
{
    if a <= u64::MAX - b {
        a + b
    } else {
        u64::MAX
    }
}

/// One row's duration in half-samples.
pub fn row_duration(speed: u8, tempo: u8) -> (r: u64)
    ensures
        r == spec_row_duration(speed, tempo),
{
    let hspt = calculate_half_samples_per_tick(tempo);
    proof {
        assert(speed as int * hspt as int <= 255 * u32::MAX) by (nonlinear_arith)
            requires speed <= 255, hspt <= u32::MAX,
        ;
    }
    (speed as u64) * (hspt as u64)
}

} // verus!

verus! {

/// Precompute how long a track plays and when each order and row starts, by a
/// dry run over the orders: a row lasts `speed` ticks of the tempo's tick
/// length, `SetSpeed` and `Tempo` effects retime later rows, a pattern break
/// or forward position jump moves to the next order after the current row,
/// and an order value of 255 or a backward position jump ends the scan.
/// Returns the total length in half-samples and one seek entry per played order.
pub fn calculate_length(patterns: &Vec<Pattern>, orders: &Vec<u8>, init_tempo: u8, init_speed: u8)
    -> (r: (u64, Vec<SeekTable>))
    requires
        forall|i: int| 0 <= i < patterns@.len() ==> (#[trigger] patterns@[i]).wf(),
    ensures
        r.0 as int == spec_dry_run(patterns@, orders@, init_tempo, init_speed).0,
        table_view(r.1@) == spec_dry_run(patterns@, orders@, init_tempo, init_speed).1,
        table_chained(r.1@, 0),
        r.0 == table_end(r.1@, 0),
        seek_entries_wf(r.1@, orders@, patterns@),
{
    let mut seek_table: Vec<SeekTable> = Vec::new();
    let mut length: u64 = 0;
    let mut curr_tempo = init_tempo;
    let mut curr_speed = init_speed;
    let mut duration: u64 = row_duration(curr_speed, curr_tempo);
    proof {
        assert(table_view(seek_table@) =~= Seq::<SeekEntry>::empty());
    }
    let mut oi: usize = 0;
    while oi < orders.len()
        invariant
            forall|i: int| 0 <= i < patterns@.len() ==> (#[trigger] patterns@[i]).wf(),
            table_chained(seek_table@, 0),
            length == table_end(seek_table@, 0),
            seek_entries_wf(seek_table@, orders@, patterns@),
            duration == spec_row_duration(curr_speed, curr_tempo),
            spec_dry_run(patterns@, orders@, init_tempo, init_speed) == dry_run_from(
                patterns@,
                orders@,
                DryState {
                    length: length as int,
                    speed: curr_speed,
                    tempo: curr_tempo,
                    table: table_view(seek_table@),
                },
                oi as int,
            ),
        decreases orders.len() - oi,
    {
        let ghost ds0 = DryState {
            length: length as int,
            speed: curr_speed,
            tempo: curr_tempo,
            table: table_view(seek_table@),
        };
        let p = orders[oi];
        if p == 255 {
            return (length, seek_table);
        }
        if (p as usize) < patterns.len() {
            let pattern = &patterns[p as usize];
            let nrows = pattern.rows;
            let nchannels = pattern.channels;
            let entry_start = length;
            let ghost os0 = OrderScan {
                length: length as int,
                speed: curr_speed,
                tempo: curr_tempo,
                rows: Seq::<SeekValue>::empty(),
                stopped: false,
                backward: false,
            };
            let mut rows_vec: Vec<SeekValue> = Vec::new();
            let mut ri: u16 = 0;
            let mut stop_pattern = false;
            while ri < nrows && !stop_pattern
                invariant
                    forall|i: int| 0 <= i < patterns@.len() ==> (#[trigger] patterns@[i]).wf(),
                    pattern.wf(),
                    pattern == patterns@[p as int],
                    p as int == orders@[oi as int],
                    oi < orders@.len(),
                    p != 255,
                    (p as int) < patterns@.len(),
                    nrows == pattern.rows,
                    nchannels == pattern.channels,
                    ri <= nrows,
                    rows_vec@.len() <= ri,
                    rows_chained(rows_vec@, entry_start as int),
                    length == rows_end(rows_vec@, entry_start as int),
                    duration == spec_row_duration(curr_speed, curr_tempo),
                    table_chained(seek_table@, 0),
                    entry_start == table_end(seek_table@, 0),
                    seek_entries_wf(seek_table@, orders@, patterns@),
                    ds0 == (DryState {
                        length: entry_start as int,
                        speed: os0.speed,
                        tempo: os0.tempo,
                        table: table_view(seek_table@),
                    }),
                    os0 == (OrderScan {
                        length: entry_start as int,
                        speed: os0.speed,
                        tempo: os0.tempo,
                        rows: Seq::<SeekValue>::empty(),
                        stopped: false,
                        backward: false,
                    }),
                    spec_dry_run(patterns@, orders@, init_tempo, init_speed) == dry_run_from(
                        patterns@,
                        orders@,
                        ds0,
                        oi as int,
                    ),
                    walk_rows(*pattern, oi as int, os0, 0) == walk_rows(
                        *pattern,
                        oi as int,
                        OrderScan {
                            length: length as int,
                            speed: curr_speed,
                            tempo: curr_tempo,
                            rows: rows_vec@,
                            stopped: stop_pattern,
                            backward: false,
                        },
                        ri as int,
                    ),
                decreases nrows - ri,
            {
                let ghost entry_os = OrderScan {
                    length: length as int,
                    speed: curr_speed,
                    tempo: curr_tempo,
                    rows: rows_vec@,
                    stopped: false,
                    backward: false,
                };
                let ghost rs0 = RowScan {
                    speed: curr_speed,
                    tempo: curr_tempo,
                    stop_pattern: false,
                    backward: false,
                };
                let mut ci: u16 = 0;
                let mut backward = false;
                while ci < nchannels && !backward
                    invariant
                        pattern.wf(),
                        nchannels == pattern.channels,
                        nrows == pattern.rows,
                        ri < nrows,
                        ci <= nchannels,
                        oi < orders@.len(),
                        duration == spec_row_duration(curr_speed, curr_tempo),
                        scan_row(*pattern, ri as int, oi as int, rs0, 0) == scan_row(
                            *pattern,
                            ri as int,
                            oi as int,
                            RowScan { speed: curr_speed, tempo: curr_tempo, stop_pattern, backward },
                            ci as int,
                        ),
                    decreases nchannels - ci,
                {
                    let ghost prev = RowScan {
                        speed: curr_speed,
                        tempo: curr_tempo,
                        stop_pattern,
                        backward,
                    };
                    let note = pattern.notes.get(ci as usize, ri as usize);
                    match note.effect {
                        Effect::SetSpeed(v) => {
                            curr_speed = v;
                            duration = row_duration(curr_speed, curr_tempo);
                        },
                        Effect::Tempo(v) => {
                            curr_tempo = v;
                            duration = row_duration(curr_speed, curr_tempo);
                        },
                        Effect::PatternBreak(_) => {
                            stop_pattern = true;
                        },
                        Effect::PositionJump(pv) => {
                            if (pv as usize) <= oi {
                                backward = true;
                            } else {
                                stop_pattern = true;
                            }
                        },
                        _ => {},
                    }
                    proof {
                        assert(scan_row(*pattern, ri as int, oi as int, prev, ci as int)
                            == scan_row(
                            *pattern,
                            ri as int,
                            oi as int,
                            RowScan { speed: curr_speed, tempo: curr_tempo, stop_pattern, backward },
                            ci as int + 1,
                        ));
                    }
                    ci = ci + 1;
                }
                proof {
                    assert(scan_row(
                        *pattern,
                        ri as int,
                        oi as int,
                        RowScan { speed: curr_speed, tempo: curr_tempo, stop_pattern, backward },
                        ci as int,
                    ) == (RowScan { speed: curr_speed, tempo: curr_tempo, stop_pattern, backward }));
                    assert(walk_rows(*pattern, oi as int, entry_os, ri as int) == if backward {
                        OrderScan {
                            speed: curr_speed,
                            tempo: curr_tempo,
                            stopped: stop_pattern,
                            backward: true,
                            ..entry_os
                        }
                    } else {
                        walk_rows(
                            *pattern,
                            oi as int,
                            OrderScan {
                                length: sat64(entry_os.length + spec_row_duration(curr_speed, curr_tempo)),
                                speed: curr_speed,
                                tempo: curr_tempo,
                                rows: entry_os.rows.push(SeekValue {
                                    start: entry_os.length as u64,
                                    speed: curr_speed,
                                    tempo: curr_tempo,
                                }),
                                stopped: stop_pattern,
                                backward: false,
                            },
                            ri as int + 1,
                        )
                    });
                }
                if backward {
                    let entry = SeekTable { start: entry_start, order: oi, rows: rows_vec };
                    proof {
                        lemma_table_push(seek_table@, 0, entry);
                        assert(table_view(seek_table@.push(entry))
                            =~= table_view(seek_table@).push(entry@));
                        assert(walk_rows(*pattern, oi as int, os0, 0).backward);
                        assert(walk_rows(*pattern, oi as int, os0, 0).rows == entry@.rows);
                        assert(walk_rows(*pattern, oi as int, os0, 0).length == length as int);
                    }
                    seek_table.push(entry);
                    return (length, seek_table);
                }
                let sv = SeekValue { start: length, speed: curr_speed, tempo: curr_tempo };
                proof {
                    assert(rows_chained(rows_vec@.push(sv), entry_start as int));
                }
                rows_vec.push(sv);
                length = sat_add64(length, duration);
                ri = ri + 1;
            }
            proof {
                assert(walk_rows(
                    *pattern,
                    oi as int,
                    OrderScan {
                        length: length as int,
                        speed: curr_speed,
                        tempo: curr_tempo,
                        rows: rows_vec@,
                        stopped: stop_pattern,
                        backward: false,
                    },
                    ri as int,
                ) == (OrderScan {
                    length: length as int,
                    speed: curr_speed,
                    tempo: curr_tempo,
                    rows: rows_vec@,
                    stopped: stop_pattern,
                    backward: false,
                }));
            }
            let entry = SeekTable { start: entry_start, order: oi, rows: rows_vec };
            proof {
                lemma_table_push(seek_table@, 0, entry);
                assert(table_view(seek_table@.push(entry))
                    =~= table_view(seek_table@).push(entry@));
            }
            seek_table.push(entry);
        }
        oi = oi + 1;
    }
    (length, seek_table)
}

} // verus!

verus! {

/// The four magic bytes that open an IT module file.
pub open spec fn it_magic() -> Seq<u8> {
    seq![0x49u8, 0x4Du8, 0x50u8, 0x4Du8]
}

/// One sample header at byte offset `off` is complete: its magic is right,
/// its fixed fields fit in the file, and the PCM payload its length fields
/// and data pointer describe lies inside the file.
pub open spec fn sample_header_ok(data: Seq<u8>, off: int) -> bool {
    &&& 0 <= off
    &&& off + 76 <= data.len()
    &&& data.subrange(off, off + 4) == seq![0x49u8, 0x4Du8, 0x50u8, 0x53u8]
    &&& ({
        let flags = data[off + 18];
        let chans: int = if (flags & 4) == 4 { 2 } else { 1 };
        let bytes_per: int = if (flags & 2) == 2 { 2 } else { 1 };
        let byte_len = u32_le(data, off + 48) * chans * bytes_per;
        &&& byte_len <= data.len()
        &&& u32_le(data, off + 72) + byte_len <= data.len()
    })
}

/// The start of the sample-offset table: right behind the order list and the
/// instrument offsets.
pub open spec fn sample_table_pos(data: Seq<u8>) -> int {
    192 + u16_le(data, 32) + 4 * u16_le(data, 34)
}

/// The start of the pattern-offset table: right behind the sample offsets.
pub open spec fn pattern_table_pos(data: Seq<u8>) -> int {
    sample_table_pos(data) + 4 * u16_le(data, 36)
}

/// What a loaded sample holds of the header at byte offset `off` and of the
/// payload its data pointer names: the header's magic matched, the volumes,
/// format, loop setup and data length come from the header's fields, and the
/// data bytes are the payload, re-centred when 8-bit.
pub open spec fn sample_decoded(data: Seq<u8>, off: int, s: Sample) -> bool {
    let flags = data[off + 18];
    let bits: u8 = if (flags & 2) == 2 { 16u8 } else { 8u8 };
    let chans: u8 = if (flags & 4) == 4 { 2u8 } else { 1u8 };
    let byte_len = u32_le(data, off + 48) * chans * (bits / 8);
    let pointer = u32_le(data, off + 72);
    let looping = (flags & 16) == 16;
    &&& data.subrange(off, off + 4) == seq![0x49u8, 0x4Du8, 0x50u8, 0x53u8]
    &&& s.global_volume == data[off + 17]
    &&& s.default_volume == data[off + 19]
    &&& s.format == (SampleFormat {
        channels: chans,
        sample_rate: (u32_le(data, off + 60) as u32) as i32,
        bits_per_sample: bits,
    })
    &&& s.looping == looping
    &&& s.loop_start == (u32_le(data, off + 52) as u32) as i32
    &&& s.loop_end == if !looping {
        -1 as i32
    } else {
        (u32_le(data, off + 56) as u32) as i32
    }
    &&& s.data@.len() == byte_len
    &&& forall|k: int| 0 <= k < byte_len ==> #[trigger] s.data@[k] == if bits == 8 {
        spec_bias(data[pointer + k])
    } else {
        data[pointer + k]
    }
}

/// A module whose header is sound, whose sample headers and payloads all lie
/// inside the file, and whose pattern offsets are all zero, so each pattern is
/// the default empty 64-by-64 grid. Loading such a file always succeeds: this
/// pins a family of inputs on which the loader owes an `Ok`.
pub open spec fn plain_module(data: Seq<u8>) -> bool {
    &&& data.len() >= 192
    &&& data.subrange(0, 4) == it_magic()
    &&& ((u16_le(data, 44) as u16) & 4) != 4
    &&& sample_table_pos(data) + 4 * u16_le(data, 36) + 4 * u16_le(data, 38) <= data.len()
    &&& forall|i: int| 0 <= i < u16_le(data, 36)
        ==> sample_header_ok(data, #[trigger] u32_le(data, sample_table_pos(data) + 4 * i))
    &&& forall|j: int| 0 <= j < u16_le(data, 38)
        ==> #[trigger] u32_le(data, sample_table_pos(data) + 4 * u16_le(data, 36) + 4 * j) == 0
}

/// The fixed header parses and the order list fits: everything the loader
/// does before it reaches the sample table succeeds.
pub open spec fn header_phase_ok(data: Seq<u8>) -> bool {
    &&& data.len() >= 192
    &&& data.subrange(0, 4) == it_magic()
    &&& ((u16_le(data, 44) as u16) & 4) != 4
    &&& 192 + u16_le(data, 32) <= data.len()
}

/// The outcome of parsing sample headers `i..` in table order: `None` when
/// they all parse; otherwise the first failure, `Truncated` when a read would
/// cross the end of the file and `InvalidSampleMagic` when a reachable header
/// lacks the sample magic.
pub open spec fn sample_phase_result(data: Seq<u8>, i: int) -> Option<LoadError>
    decreases u16_le(data, 36) - i,
{
    if i < 0 || i >= u16_le(data, 36) {
        None
    } else if sample_table_pos(data) + 4 * i + 4 > data.len() {
        Some(LoadError::Truncated)
    } else {
        let off = u32_le(data, sample_table_pos(data) + 4 * i);
        if off + 4 > data.len() {
            Some(LoadError::Truncated)
        } else if data.subrange(off, off + 4) != seq![0x49u8, 0x4Du8, 0x50u8, 0x53u8] {
            Some(LoadError::InvalidSampleMagic)
        } else if off + 76 > data.len() {
            Some(LoadError::Truncated)
        } else {
            let flags = data[off + 18];
            let chans: u8 = if (flags & 4) == 4 { 2u8 } else { 1u8 };
            let bytes_per: u8 = if (flags & 2) == 2 { 2u8 } else { 1u8 };
            let byte_len = u32_le(data, off + 48) * chans * bytes_per;
            let pointer = u32_le(data, off + 72);
            if byte_len > data.len() || pointer + byte_len > data.len() {
                Some(LoadError::Truncated)
            } else {
                sample_phase_result(data, i + 1)
            }
        }
    }
}

/// A pattern the loader made for a zero offset: the default empty 64-by-64 grid.
pub open spec fn is_default_pattern(p: Pattern) -> bool {
    &&& p.channels == 64
    &&& p.rows == 64
    &&& forall|c: int, w: int| 0 <= c < 64 && 0 <= w < 64 ==> #[trigger] p.spec_note(c, w) == Note::empty()
}

/// Every cell the row decoder never wrote is the untouched empty default:
/// a cell is either exactly `Note::empty()` or was written (initialized).
pub open spec fn cells_empty_or_initialized(p: Pattern) -> bool {
    forall|c: int, w: int| 0 <= c < p.channels && 0 <= w < p.rows
        ==> (#[trigger] p.spec_note(c, w)) == Note::empty() || p.spec_note(c, w).initialized
}

/// What a loaded pattern holds of the file: a zero offset in the pattern table
/// yields the default grid; a real offset yields a 64-channel grid whose row
/// count is the u16 in the pattern's header; and in either case a cell left
/// unwritten by the packed row stream stays uninitialized and empty.
pub open spec fn pattern_decoded_shape(data: Seq<u8>, j: int, p: Pattern) -> bool {
    let off = u32_le(data, pattern_table_pos(data) + 4 * j);
    &&& (off == 0 ==> is_default_pattern(p))
    &&& (off != 0 ==> p.channels == 64 && p.rows == u16_le(data, off + 2))
    &&& cells_empty_or_initialized(p)
}

/// An immutable module: patterns, play order, samples, initial timing, mix
/// settings, and the precomputed length and seek table.
pub struct Track {
    pub mod_type: ModuleType,
    pub patterns: Vec<Pattern>,
    pub orders: Vec<u8>,
    pub samples: Vec<Sample>,
    pub tempo: u8,
    pub speed: u8,
    pub global_volume: u8,
    pub pans: Vec<u8>,
    pub mix_volume: u8,
    pub length_half_samples: u64,
    pub seek_table: Vec<SeekTable>,
}

impl Track {
    /// Structural soundness: a full pan table, well-formed 64-channel
    /// patterns, and a seek table that chains and matches the stored length.
    pub open spec fn wf(self) -> bool {
        &&& self.pans@.len() == 64
        &&& forall|i: int| 0 <= i < self.patterns@.len()
            ==> (#[trigger] self.patterns@[i]).wf() && self.patterns@[i].channels == 64
        &&& table_chained(self.seek_table@, 0)
        &&& self.length_half_samples == table_end(self.seek_table@, 0)
        &&& seek_entries_wf(self.seek_table@, self.orders@, self.patterns@)
    }

    /// What the player needs on top of well-formedness: a first order to play
    /// and every order slot either the end marker or a real, non-empty pattern.
    pub open spec fn playable(self) -> bool {
        &&& self.wf()
        &&& self.orders@.len() >= 1
        &&& self.orders@[0] != 255
        &&& forall|i: int| 0 <= i < self.orders@.len() ==> #[trigger] self.orders@[i] == 255
            || (self.orders@[i] < self.patterns@.len()
                && self.patterns@[self.orders@[i] as int].rows >= 1)
    }

    /// Whether a well-formed track can be handed to the player: the order list
    /// must be non-empty, start with a playable slot, and every slot must be
    /// the end marker or name a non-empty pattern.
    pub fn is_playable(&self) -> (r: bool)
        requires
            self.wf(),
        ensures
            r == self.playable(),
    {
        if self.orders.len() == 0 {
            return false;
        }
        if self.orders[0] == 255 {
            return false;
        }
        let mut i: usize = 0;
        while i < self.orders.len()
            invariant
                self.wf(),
                i <= self.orders@.len(),
                forall|j: int| 0 <= j < i ==> #[trigger] self.orders@[j] == 255
                    || (self.orders@[j] < self.patterns@.len()
                        && self.patterns@[self.orders@[j] as int].rows >= 1),
            decreases self.orders@.len() - i,
        {
            let o = self.orders[i];
            if o != 255 {
                if (o as usize) >= self.patterns.len() {
                    return false;
                }
                if self.patterns[o as usize].rows == 0 {
                    return false;
                }
            }
            i = i + 1;
        }
        true
    }
}

/// The most recently seen note, instrument, volume and effect bytes of one
/// channel, reused by later packed records of the same pattern.
#[derive(Clone, Copy)]
struct PatternCache {
    mask: u8,
    note: u8,
    instrument: u8,
    volume: u8,
    effect: u8,
    eff_param: u8,
}

impl Track {
    /// Load an Impulse Tracker module from its file bytes.
    ///
    /// The fixed 192-byte header gives counts, initial timing, mixing levels
    /// and the pan table; the order list follows it; sample headers and
    /// pattern data are reached through file offsets. Every read is
    /// bounds-checked, so a malformed file yields a typed error, never a
    /// panic. On success the track carries exactly the header's number of
    /// patterns and samples, and its seek table is precomputed.
    pub fn from_it(data: &[u8]) -> (r: Result<Track, LoadError>)
        ensures
            r is Err ==> (r->Err_0 == LoadError::InvalidMagic
                || r->Err_0 == LoadError::InvalidSampleMagic
                || r->Err_0 == LoadError::InstrumentsUnsupported
                || r->Err_0 == LoadError::Truncated),
            data@.len() < 4 ==> r == Err::<Track, LoadError>(LoadError::Truncated),
            (r == Err::<Track, LoadError>(LoadError::InvalidMagic))
                <==> (data@.len() >= 4 && data@.subrange(0, 4) != it_magic()),
            (r == Err::<Track, LoadError>(LoadError::InstrumentsUnsupported))
                <==> (data@.len() >= 46 && data@.subrange(0, 4) == it_magic()
                    && ((u16_le(data@, 44) as u16) & 4) == 4),
            plain_module(data@) ==> r is Ok,
            (r == Err::<Track, LoadError>(LoadError::InvalidSampleMagic))
                <==> (header_phase_ok(data@)
                    && sample_phase_result(data@, 0) == Some(LoadError::InvalidSampleMagic)),
            (header_phase_ok(data@) && sample_phase_result(data@, 0) == Some(LoadError::Truncated))
                ==> r == Err::<Track, LoadError>(LoadError::Truncated),
            (header_phase_ok(data@) && sample_phase_result(data@, 0) is None
                && u16_le(data@, 38) > 0
                && pattern_table_pos(data@) + 4 * u16_le(data@, 38) > data@.len())
                ==> r == Err::<Track, LoadError>(LoadError::Truncated),
            r is Ok ==> ({
                let t = r->Ok_0;
                &&& data@.len() >= 192
                &&& data@.subrange(0, 4) == it_magic()
                &&& t.wf()
                &&& t.mod_type is IT
                &&& t.orders@.len() == u16_le(data@, 32)
                &&& t.orders@ == data@.subrange(192, 192 + u16_le(data@, 32))
                &&& t.samples@.len() == u16_le(data@, 36)
                &&& t.patterns@.len() == u16_le(data@, 38)
                &&& t.global_volume == data@[48]
                &&& t.mix_volume == data@[49]
                &&& t.speed == data@[50]
                &&& t.tempo == data@[51]
                &&& t.pans@ == data@.subrange(64, 128)
                &&& t.length_half_samples == table_end(t.seek_table@, 0)
                &&& t.length_half_samples as int == spec_dry_run(t.patterns@, t.orders@, t.tempo, t.speed).0
                &&& table_view(t.seek_table@) == spec_dry_run(t.patterns@, t.orders@, t.tempo, t.speed).1
                &&& forall|i: int| 0 <= i < u16_le(data@, 36) ==> sample_decoded(
                    data@,
                    u32_le(data@, sample_table_pos(data@) + 4 * i),
                    #[trigger] t.samples@[i],
                )
                &&& forall|j: int| 0 <= j < u16_le(data@, 38)
                    ==> pattern_decoded_shape(data@, j, #[trigger] t.patterns@[j])
            }),
    {
        let mut reader = BinaryReader::new(data);
        let magic = match reader.read_bytes(4) {
            Some(m) => m,
            None => {
                return Err(LoadError::Truncated);
            },
        };
        if !(magic[0] == 0x49 && magic[1] == 0x4D && magic[2] == 0x50 && magic[3] == 0x4D) {
            proof {
                assert(data@.subrange(0, 4) != it_magic());
            }
            return Err(LoadError::InvalidMagic);
        }
        proof {
            assert(data@.subrange(0, 4) =~= it_magic());
        }
        // 26-byte title and 2 bytes of pattern highlight information.
        if !reader.skip(28) {
            return Err(LoadError::Truncated);
        }
        let num_orders = match reader.read_u16() {
            Some(v) => v,
            None => {
                return Err(LoadError::Truncated);
            },
        };
        let num_instruments = match reader.read_u16() {
            Some(v) => v,
            None => {
                return Err(LoadError::Truncated);
            },
        };
        let num_samples = match reader.read_u16() {
            Some(v) => v,
            None => {
                return Err(LoadError::Truncated);
            },
        };
        let num_patterns = match reader.read_u16() {
            Some(v) => v,
            None => {
                return Err(LoadError::Truncated);
            },
        };
        // Four bytes naming the creating tracker.
        if !reader.skip(4) {
            return Err(LoadError::Truncated);
        }
        let flags = match reader.read_u16() {
            Some(v) => v,
            None => {
                return Err(LoadError::Truncated);
            },
        };
        if (flags & 4) == 4 {
            return Err(LoadError::InstrumentsUnsupported);
        }
        // Two "special" bytes.
        if !reader.skip(2) {
            return Err(LoadError::Truncated);
        }
        let global_volume = match reader.read_u8() {
            Some(v) => v,
            None => {
                return Err(LoadError::Truncated);
            },
        };
        let mix_volume = match reader.read_u8() {
            Some(v) => v,
            None => {
                return Err(LoadError::Truncated);
            },
        };
        let initial_speed = match reader.read_u8() {
            Some(v) => v,
            None => {
                return Err(LoadError::Truncated);
            },
        };
        let initial_tempo = match reader.read_u8() {
            Some(v) => v,
            None => {
                return Err(LoadError::Truncated);
            },
        };
        // Pitch wheel depth, message metadata and reserved bytes.
        if !reader.skip(12) {
            return Err(LoadError::Truncated);
        }
        let pans = match reader.read_bytes(64) {
            Some(v) => v,
            None => {
                return Err(LoadError::Truncated);
            },
        };
        // The 64-byte channel volume table goes unused during playback.
        if !reader.skip(64) {
            return Err(LoadError::Truncated);
        }
        if reader.position != 0xC0 {
            return Err(LoadError::MalformedHeader);
        }
        let orders = match reader.read_bytes(num_orders as usize) {
            Some(v) => v,
            None => {
                return Err(LoadError::Truncated);
            },
        };
        // Skip the instrument header offsets.
        reader.position = 0xC0 + num_orders as usize + num_instruments as usize * 4;

        let mut samples: Vec<Sample> = Vec::new();
        let mut si: u16 = 0;
        while si < num_samples
            invariant
                si <= num_samples,
                samples@.len() == si,
                reader.data@ == data@,
                num_orders == u16_le(data@, 32),
                num_instruments == u16_le(data@, 34),
                num_samples == u16_le(data@, 36),
                num_patterns == u16_le(data@, 38),
                reader.position == sample_table_pos(data@) + 4 * si,
                header_phase_ok(data@),
                sample_phase_result(data@, 0) == sample_phase_result(data@, si as int),
                forall|i: int| 0 <= i < si ==> sample_decoded(
                    data@,
                    u32_le(data@, sample_table_pos(data@) + 4 * i),
                    #[trigger] samples@[i],
                ),
                data@.len() >= 192,
                data@.subrange(0, 4) == it_magic(),
                ((u16_le(data@, 44) as u16) & 4) != 4,
            decreases num_samples - si,
        {
            let offset = match reader.read_u32() {
                Some(v) => v,
                None => {
                    return Err(LoadError::Truncated);
                },
            };
            let curr_pos = reader.position;
            reader.position = offset as usize;
            let smagic = match reader.read_bytes(4) {
                Some(m) => m,
                None => {
                    return Err(LoadError::Truncated);
                },
            };
            if !(smagic[0] == 0x49 && smagic[1] == 0x4D && smagic[2] == 0x50 && smagic[3] == 0x53) {
                proof {
                    assert(data@.subrange(offset as int, offset as int + 4)
                        != seq![0x49u8, 0x4Du8, 0x50u8, 0x53u8]);
                }
                return Err(LoadError::InvalidSampleMagic);
            }
            proof {
                assert(data@.subrange(offset as int, offset as int + 4)
                    =~= seq![0x49u8, 0x4Du8, 0x50u8, 0x53u8]);
            }
            // 12-byte DOS filename and one unused byte.
            if !reader.skip(13) {
                return Err(LoadError::Truncated);
            }
            let s_global = match reader.read_u8() {
                Some(v) => v,
                None => {
                    return Err(LoadError::Truncated);
                },
            };
            let s_flags = match reader.read_u8() {
                Some(v) => v,
                None => {
                    return Err(LoadError::Truncated);
                },
            };
            let bits: u8 = if (s_flags & 2) == 2 { 16 } else { 8 };
            let chans: u8 = if (s_flags & 4) == 4 { 2 } else { 1 };
            let s_def_vol = match reader.read_u8() {
                Some(v) => v,
                None => {
                    return Err(LoadError::Truncated);
                },
            };
            // 26-byte sample name, the convert byte, and the default pan byte.
            if !reader.skip(28) {
                return Err(LoadError::Truncated);
            }
            let length_frames = match reader.read_u32() {
                Some(v) => v,
                None => {
                    return Err(LoadError::Truncated);
                },
            };
            let s_loop_start = match reader.read_u32() {
                Some(v) => v,
                None => {
                    return Err(LoadError::Truncated);
                },
            };
            let s_loop_end = match reader.read_u32() {
                Some(v) => v,
                None => {
                    return Err(LoadError::Truncated);
                },
            };
            let sample_rate = match reader.read_i32() {
                Some(v) => v,
                None => {
                    return Err(LoadError::Truncated);
                },
            };
            // Sustain loop points, unused here.
            if !reader.skip(8) {
                return Err(LoadError::Truncated);
            }
            let pointer = match reader.read_u32() {
                Some(v) => v,
                None => {
                    return Err(LoadError::Truncated);
                },
            };
            reader.position = pointer as usize;
            proof {
                assert(length_frames as u64 * chans as u64 <= 0x1FFFFFFFE
                    && length_frames as u64 * chans as u64 * ((bits / 8) as u64) <= 0x3FFFFFFFC)
                    by (nonlinear_arith)
                    requires length_frames <= u32::MAX, chans <= 2, bits <= 16,
                ;
            }
            let byte_len64: u64 = length_frames as u64 * chans as u64 * ((bits / 8) as u64);
            if byte_len64 > data.len() as u64 {
                return Err(LoadError::Truncated);
            }
            let byte_len = byte_len64 as usize;
            let s_data = match reader.read_bytes(byte_len) {
                Some(v) => v,
                None => {
                    return Err(LoadError::Truncated);
                },
            };
            let s_loop = (s_flags & 16) == 16;
            let format = SampleFormat { channels: chans, sample_rate, bits_per_sample: bits };
            let loop_start_i: i32 = #[verifier::truncate] (s_loop_start as i32);
            let loop_end_i: i32 = if !s_loop { -1 } else { #[verifier::truncate] (s_loop_end as i32) };
            let smp = Sample::new(s_data.as_slice(), format, s_loop, loop_start_i, loop_end_i, s_global, s_def_vol);
            proof {
                let off = offset as int;
                assert(data@.subrange(off, off + 4) =~= seq![0x49u8, 0x4Du8, 0x50u8, 0x53u8]);
                assert forall|k: int| 0 <= k < byte_len64 implies #[trigger] smp.data@[k] == (
                    if bits == 8 {
                        spec_bias(data@[pointer + k])
                    } else {
                        data@[pointer + k]
                    }
                ) by {
                    assert(s_data@[k] == data@[pointer + k]);
                }
                assert(sample_decoded(data@, off, smp));
                assert(off == u32_le(data@, sample_table_pos(data@) + 4 * (si as int)));
            }
            samples.push(smp);
            reader.position = curr_pos;
            si = si + 1;
        }
        // Return to the table of pattern offsets behind the sample offsets.
        reader.position = 0xC0 + num_orders as usize + num_instruments as usize * 4
            + num_samples as usize * 4;

        let mut patterns: Vec<Pattern> = Vec::new();
        let mut pi: u16 = 0;
        while pi < num_patterns
            invariant
                pi <= num_patterns,
                patterns@.len() == pi,
                reader.data@ == data@,
                num_orders == u16_le(data@, 32),
                num_instruments == u16_le(data@, 34),
                num_samples == u16_le(data@, 36),
                num_patterns == u16_le(data@, 38),
                reader.position == pattern_table_pos(data@) + 4 * pi,
                pi > 0 ==> pattern_table_pos(data@) + 4 * pi <= data@.len(),
                sample_phase_result(data@, 0) is None,
                forall|j: int| 0 <= j < pi ==> pattern_decoded_shape(data@, j, #[trigger] patterns@[j]),
                data@.len() >= 192,
                data@.subrange(0, 4) == it_magic(),
                ((u16_le(data@, 44) as u16) & 4) != 4,
                forall|i: int| 0 <= i < patterns@.len()
                    ==> (#[trigger] patterns@[i]).wf() && patterns@[i].channels == 64,
            decreases num_patterns - pi,
        {
            let offset = match reader.read_u32() {
                Some(v) => v,
                None => {
                    return Err(LoadError::Truncated);
                },
            };
            if offset == 0 {
                let empty_pattern = Pattern::new(64, 64);
                proof {
                    assert(pattern_decoded_shape(data@, pi as int, empty_pattern));
                }
                patterns.push(empty_pattern);
                pi = pi + 1;
                continue;
            }
            proof {
                // A plain module has only zero pattern offsets, so from here
                // on the file is not one.
                if plain_module(data@) {
                    assert(u32_le(data@, pattern_table_pos(data@) + 4 * (pi as int)) == 0);
                    assert(false);
                }
            }
            let curr_pos = reader.position;
            reader.position = offset as usize;
            // Two bytes of packed length.
            if !reader.skip(2) {
                return Err(LoadError::Truncated);
            }
            let rows = match reader.read_u16() {
                Some(v) => v,
                None => {
                    return Err(LoadError::Truncated);
                },
            };
            // Four reserved bytes.
            if !reader.skip(4) {
                return Err(LoadError::Truncated);
            }
            let mut pattern = Pattern::new(64, rows);
            let mut cache: Vec<PatternCache> = Vec::new();
            let mut k: usize = 0;
            while k < 64
                invariant
                    k <= 64,
                    cache@.len() == k,
                decreases 64 - k,
            {
                cache.push(PatternCache { mask: 0, note: 0, instrument: 0, volume: 0, effect: 0, eff_param: 0 });
                k = k + 1;
            }
            let mut ri: u16 = 0;
            while ri < rows
                invariant
                    !plain_module(data@),
                    sample_phase_result(data@, 0) is None,
                    ri <= rows,
                    cache@.len() == 64,
                    pattern.wf(),
                    pattern.channels == 64,
                    pattern.rows == rows,
                    cells_empty_or_initialized(pattern),
                    reader.data@ == data@,
                    data@.len() >= 192,
                    data@.subrange(0, 4) == it_magic(),
                    ((u16_le(data@, 44) as u16) & 4) != 4,
                decreases rows - ri,
            {
                let mut c_var = match reader.read_u8() {
                    Some(v) => v,
                    None => {
                        return Err(LoadError::Truncated);
                    },
                };
                while c_var != 0
                    invariant
                        !plain_module(data@),
                        sample_phase_result(data@, 0) is None,
                        cache@.len() == 64,
                        pattern.wf(),
                        pattern.channels == 64,
                        pattern.rows == rows,
                        cells_empty_or_initialized(pattern),
                        ri < rows,
                        reader.data@ == data@,
                        reader.position <= data@.len(),
                        data@.len() >= 192,
                        data@.subrange(0, 4) == it_magic(),
                        ((u16_le(data@, 44) as u16) & 4) != 4,
                    decreases data@.len() - reader.position,
                {
                    let cm1: u8 = c_var - 1;
                    let channel = cm1 & 63;
                    proof {
                        assert(cm1 & 63 < 64) by (bit_vector);
                    }
                    let mut entry = cache[channel as usize];
                    let mask: u8;
                    if (c_var & 128) == 128 {
                        mask = match reader.read_u8() {
                            Some(v) => v,
                            None => {
                                return Err(LoadError::Truncated);
                            },
                        };
                    } else {
                        mask = entry.mask;
                    }
                    entry.mask = mask;

                    let mut note_byte: u8 = 253;
                    let mut instrument: Option<u8> = None;
                    let mut volume: Option<u8> = None;
                    let mut effect: u8 = 0;
                    let mut effect_param: u8 = 0;

                    if (mask & 1) == 1 {
                        note_byte = match reader.read_u8() {
                            Some(v) => v,
                            None => {
                                return Err(LoadError::Truncated);
                            },
                        };
                        entry.note = note_byte;
                    }
                    if (mask & 2) == 2 {
                        let raw = match reader.read_u8() {
                            Some(v) => v,
                            None => {
                                return Err(LoadError::Truncated);
                            },
                        };
                        let inst = crate::it_utils::instrument_from_byte(raw);
                        instrument = Some(inst);
                        entry.instrument = inst;
                    }
                    if (mask & 4) == 4 {
                        let vol = match reader.read_u8() {
                            Some(v) => v,
                            None => {
                                return Err(LoadError::Truncated);
                            },
                        };
                        volume = Some(vol);
                        entry.volume = vol;
                    }
                    if (mask & 8) == 8 {
                        effect = match reader.read_u8() {
                            Some(v) => v,
                            None => {
                                return Err(LoadError::Truncated);
                            },
                        };
                        effect_param = match reader.read_u8() {
                            Some(v) => v,
                            None => {
                                return Err(LoadError::Truncated);
                            },
                        };
                        entry.effect = effect;
                        entry.eff_param = effect_param;
                    }
                    if (mask & 16) == 16 {
                        note_byte = entry.note;
                    }
                    if (mask & 32) == 32 {
                        instrument = Some(entry.instrument);
                    }
                    if (mask & 64) == 64 {
                        volume = Some(entry.volume);
                    }
                    if (mask & 128) == 128 {
                        effect = entry.effect;
                        effect_param = entry.eff_param;
                    }
                    *vstd::std_specs::vec::vec_index_mut(&mut cache, channel as usize) = entry;

                    if mask != 0 {
                        let (key, octave) = crate::it_utils::note_from_byte(note_byte);
                        let note = Note::new(key, octave, instrument, volume, get_effect(effect, effect_param));
                        pattern.set_note(channel as u16, ri, note);
                    }

                    c_var = match reader.read_u8() {
                        Some(v) => v,
                        None => {
                            return Err(LoadError::Truncated);
                        },
                    };
                }
                ri = ri + 1;
            }
            proof {
                assert(pattern_decoded_shape(data@, pi as int, pattern));
            }
            patterns.push(pattern);
            reader.position = curr_pos;
            pi = pi + 1;
        }

        let (length, order_table) = calculate_length(&patterns, &orders, initial_tempo, initial_speed);

        Ok(Track {
            mod_type: ModuleType::IT,
            patterns,
            orders,
            samples,
            tempo: initial_tempo,
            speed: initial_speed,
            global_volume,
            pans,
            mix_volume,
            length_half_samples: length,
            seek_table: order_table,
        })
    }
}

} // verus!

verus! {

/// The total clock value after playing a run of rows from `acc`, adding each
/// row's duration with the saturating clock.
pub open spec fn rows_dur_sum(rows: Seq<SeekValue>, acc: int) -> int
    decreases rows.len(),
{
    if rows.len() == 0 {
        acc
    } else {
        rows_dur_sum(rows.drop_first(), sat64(acc + spec_sv_duration(rows[0])))
    }
}

/// The total clock value after playing every row of every order entry from `acc`.
pub open spec fn table_dur_sum(table: Seq<SeekTable>, acc: int) -> int
    decreases table.len(),
{
    if table.len() == 0 {
        acc
    } else {
        table_dur_sum(table.drop_first(), rows_dur_sum(table[0].rows@, acc))
    }
}

/// Chained row starts account for every duration: a run of rows that starts at
/// `start` ends exactly at `start` plus the saturating sum of its durations.
pub proof fn lemma_rows_sum(rows: Seq<SeekValue>, start: int)
    requires
        rows_chained(rows, start),
    ensures
        rows_end(rows, start) == rows_dur_sum(rows, start),
    decreases rows.len(),
{
    if rows.len() == 0 {
    } else {
        let acc1 = sat64(rows[0].start + spec_sv_duration(rows[0]));
        assert(rows[0].start == start);
        assert forall|j: int| 0 <= j && j + 1 < rows.drop_first().len()
            implies rows.drop_first()[j + 1].start
                == sat64(#[trigger] rows.drop_first()[j].start + spec_sv_duration(rows.drop_first()[j])) by {
            assert(rows.drop_first()[j] == rows[j + 1]);
            assert(rows.drop_first()[j + 1] == rows[j + 2]);
        }
        if rows.drop_first().len() > 0 {
            assert(rows.drop_first()[0] == rows[1]);
        }
        assert(rows_chained(rows.drop_first(), acc1));
        lemma_rows_sum(rows.drop_first(), acc1);
        if rows.len() == 1 {
            assert(rows_end(rows, start) == acc1);
        } else {
            assert(rows.drop_first().last() == rows.last());
            assert(rows_end(rows.drop_first(), acc1) == rows_end(rows, start));
        }
    }
}

/// The precomputed track length equals the saturating sum of every recorded
/// row's duration: the whole-table form of the row-level law.
pub proof fn lemma_length_is_duration_sum(table: Seq<SeekTable>, start: int)
    requires
        table_chained(table, start),
    ensures
        table_end(table, start) == table_dur_sum(table, start),
    decreases table.len(),
{
    if table.len() == 0 {
    } else {
        lemma_rows_sum(table[0].rows@, start);
        lemma_length_is_duration_sum(table.drop_first(), rows_end(table[0].rows@, start));
    }
}

/// A chained table with any recorded row records a row that starts exactly at
/// the table's own start: leading row-less entries do not advance the clock.
pub proof fn lemma_first_row_at_start(table: Seq<SeekTable>, start: int)
    requires
        table_chained(table, start),
        exists|k: int| 0 <= k < table.len() && (#[trigger] table[k]).rows@.len() > 0,
    ensures
        exists|k: int| 0 <= k < table.len() && (#[trigger] table[k]).rows@.len() > 0
            && table[k].rows@[0].start == start,
    decreases table.len(),
{
    if table[0].rows@.len() > 0 {
        assert(table[0].rows@[0].start == start);
    } else {
        let k0 = choose|k: int| 0 <= k < table.len() && (#[trigger] table[k]).rows@.len() > 0;
        assert(table.drop_first()[k0 - 1] == table[k0]);
        assert(exists|k: int| 0 <= k < table.drop_first().len()
            && (#[trigger] table.drop_first()[k]).rows@.len() > 0);
        lemma_first_row_at_start(table.drop_first(), rows_end(table[0].rows@, start));
        let k1 = choose|k: int| 0 <= k < table.drop_first().len()
            && (#[trigger] table.drop_first()[k]).rows@.len() > 0
            && table.drop_first()[k].rows@[0].start == rows_end(table[0].rows@, start);
        assert(rows_end(table[0].rows@, start) == start);
        assert(table[k1 + 1] == table.drop_first()[k1]);
        assert(0 <= k1 + 1 < table.len() && table[k1 + 1].rows@.len() > 0
            && table[k1 + 1].rows@[0].start == start);
    }
}

} // verus!
