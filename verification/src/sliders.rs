//! The slider panel: one bar per band and one per tone shelf, drawn from the
//! zero axis towards the gain with a resolution of an eighth of a row.

use vstd::arithmetic::power2::{lemma2_to64, lemma_pow2_pos, lemma_pow2_unfold, pow2};
use vstd::prelude::*;

use crate::display::{gain_in_db, gain_magnitude, gain_text, magnitude};
use crate::settings::EQ_BANDS;
use crate::single::{
    at_most, doublings, half_product, halvings, near_rounds_to, nearest, nearest_is_monotonic,
    nearest_has_24_digits, nearest_single, quotient, whole_numbers_are_kept,
};

verus! {

/// Gain range in dB that the sliders map onto, both ways.
pub const RANGE_DB: i32 = 24;

/// What a part of the interface is coloured as.
#[derive(Debug, Clone, Copy, PartialEq, Eq, Structural)]
pub enum Tone {
    /// Accents and borders.
    Pink,
    /// Bars.
    Cyan,
    /// Selection.
    Yellow,
    /// Elapsed time.
    Orange,
    /// Meters, playing.
    Green,
    /// Errors.
    Red,
    /// Labels and hints.
    Comment,
    /// Inactive parts and axes.
    Dim,
}

/// One slider column: a gain above the bar and a label below it.
pub struct SliderColumn {
    /// Gain in tenths of dB.
    pub gain_tenths: i64,
    /// Text under the bar.
    pub label: String,
    /// Draw the bar muted.
    pub dimmed: bool,
}

/// A rectangle of character cells.
#[derive(Debug, Clone, Copy, PartialEq, Eq, Structural)]
pub struct Area {
    pub x: u16,
    pub y: u16,
    pub width: u16,
    pub height: u16,
}

/// A gain in dB as a bar takes it, held within the range.
pub open spec fn bar_db(gain: int) -> (nat, nat) {
    if magnitude(gain) >= 240 {
        (24nat, 1nat)
    } else {
        quotient(nearest(magnitude(gain), 1), 10)
    }
}

/// How far the bar of `gain` reaches from the axis, in rows, where the bars
/// are `rows` rows high: the share of the gain in the range, of half the
/// height, in single precision.
pub open spec fn bar_extent(gain: int, rows: nat) -> (nat, nat) {
    half_product(quotient(bar_db(gain), 24), rows)
}

/// How far the bar of `gain` reaches from the axis, in eighths of a row, to
/// the nearest, upwards from halves.
pub open spec fn bar_eighths(gain: int, rows: nat) -> nat {
    let extent = bar_extent(gain, rows);
    (16 * extent.0 + extent.1) / (2 * extent.1)
}

/// What a row of a bar shows.
#[derive(Debug, Clone, Copy, PartialEq, Eq, Structural)]
pub enum BarRow {
    /// The thin track behind the bar.
    Track,
    /// The bar over its full width.
    Full,
    /// The tip of a bar that points up: the lower `eighths` of the row.
    TipUp { eighths: u8 },
    /// The tip of a bar that points down: all but the lower `eighths` of the
    /// row.
    TipDown { eighths: u8 },
}

/// What row `k` of a bar shows, counted from the top, where the axis is row
/// `axis` and `rows` is the last row.
pub open spec fn bar_row(gain: int, rows: int, axis: int, k: int) -> BarRow {
    let eighths = bar_eighths(gain, rows as nat);
    let full = (eighths / 8) as int;
    let tip = (eighths % 8) as int;
    if gain >= 0 {
        let top = if full < axis {
            axis - full
        } else {
            0
        };
        if top <= k <= axis {
            BarRow::Full
        } else if tip > 0 && k == top - 1 {
            BarRow::TipUp { eighths: tip as u8 }
        } else {
            BarRow::Track
        }
    } else {
        let end = if full < rows - axis {
            axis + full
        } else {
            rows
        };
        if axis <= k <= end {
            BarRow::Full
        } else if tip > 0 && k == end + 1 {
            BarRow::TipDown { eighths: (8 - tip) as u8 }
        } else {
            BarRow::Track
        }
    }
}

/// The rows of a bar in a panel that is `height` rows high: the top row is
/// for the gain, the bottom row for the label.
pub open spec fn bar_rows(gain: int, height: int) -> Seq<BarRow> {
    Seq::new((height - 2) as nat, |k: int| bar_row(gain, height - 3, height / 2 - 1, k))
}

/// How wide each of `n` columns is.
pub open spec fn column_width(width: u16, n: nat) -> int {
    if width as nat / (n % 0x1_0000) < 4 {
        4
    } else {
        (width as nat / (n % 0x1_0000)) as int
    }
}

/// How wide the bar in a column is: what fits between the columns, from one
/// to three cells.
pub open spec fn bar_width(column: int) -> int {
    if column - 2 > 3 {
        3
    } else {
        column - 2
    }
}

/// Where column `i` begins.
pub open spec fn column_x(area: Area, n: nat, i: int) -> int {
    area.x + i * column_width(area.width, n)
}

/// Where the track of column `i` stands.
pub open spec fn track_x(area: Area, n: nat, i: int) -> int {
    column_x(area, n, i) + column_width(area.width, n) / 2
}

/// The first cell past the right edge.
pub open spec fn right_edge(area: Area) -> int {
    if area.x + area.width > u16::MAX {
        u16::MAX as int
    } else {
        area.x + area.width
    }
}

/// The colour of a bar.
pub open spec fn bar_tone(dimmed: bool, selected: bool) -> Tone {
    if dimmed {
        Tone::Dim
    } else if selected {
        Tone::Yellow
    } else {
        Tone::Cyan
    }
}

/// The colour of a column's texts.
pub open spec fn label_tone(dimmed: bool, selected: bool) -> Tone {
    if selected {
        Tone::Yellow
    } else if dimmed {
        Tone::Comment
    } else {
        Tone::Pink
    }
}

/// A column as it is drawn.
pub struct SliderDraw {
    /// Where the column begins, and how wide it is.
    pub x: u32,
    pub width: u32,
    /// Where the track stands.
    pub track_x: u32,
    /// Where the bar begins, and how wide it is.
    pub bar_x: u32,
    pub bar_width: u32,
    /// Whether a line on the left edge sets the column off from the bands.
    pub separator: bool,
    /// The bar, from its top row down.
    pub rows: Vec<BarRow>,
    pub bar_tone: Tone,
    /// The gain, above the bar, and the label, below it.
    pub gain: String,
    pub label: String,
    pub label_tone: Tone,
    pub label_bold: bool,
}

impl SliderDraw {
    /// Whether this is how column `i` of `n` is drawn.
    pub open spec fn draws(
        self,
        column: SliderColumn,
        area: Area,
        n: nat,
        i: int,
        selected: bool,
    ) -> bool {
        let width = column_width(area.width, n);
        &&& self.x == column_x(area, n, i)
        &&& self.width == width
        &&& self.track_x == track_x(area, n, i)
        &&& self.bar_x == column_x(area, n, i) + (width - bar_width(width)) / 2
        &&& self.bar_width == bar_width(width)
        &&& self.separator == (i == EQ_BANDS)
        &&& self.rows@ == bar_rows(column.gain_tenths as int, area.height as int)
        &&& self.bar_tone == bar_tone(column.dimmed, selected)
        &&& self.gain@ == gain_in_db(column.gain_tenths as int)
        &&& self.label@ == column.label@
        &&& self.label_tone == label_tone(column.dimmed, selected)
        &&& self.label_bold == selected
    }
}

/// How far the bar of `gain` reaches from the axis, in eighths of a row.
pub fn bar_length(gain: i64, rows: u16) -> (eighths: u64)
    ensures
        eighths == bar_eighths(gain as int, rows as nat),
{
    let size: u64 = gain_magnitude(gain);
    let db: (u64, u64) = if size >= 240 {
        (24, 1)
    } else {
        let x: (u64, u64) = nearest_single(size, 1);
        proof {
            whole_numbers_are_kept(size as nat);
            assert(x.1 <= 0x100_0000) by (nonlinear_arith)
                requires
                    x.1 == 1 || size * x.1 < 0x100_0000,
                    size == 0 ==> x.1 == 1,
                    x.1 >= 1,
            ;
        }
        let d: (u64, u64) = nearest_single(x.0, x.1 * 10);
        proof {
            assert(d.1 <= 0x1000_0000) by (nonlinear_arith)
                requires
                    d.1 == 1 || x.0 * d.1 < 0x100_0000 * (x.1 * 10),
                    x.0 == size * x.1,
                    x.0 == 0 ==> d.1 == 1,
                    x.1 >= 1,
                    d.1 >= 1,
            ;
            if d.1 == 1 {
                assert(d.0 <= 0x1000_0000) by (nonlinear_arith)
                    requires
                        (x.1 * 10) * d.0 <= x.0 + x.0 / 0x80_0000 + x.1 * 10,
                        x.0 <= 0x200_0000,
                        x.1 >= 1,
                        x.1 <= 0x100_0000,
                ;
            }
        }
        d
    };
    let share: (u64, u64) = nearest_single(db.0, db.1 * 24);
    proof {
        assert(share.1 <= 0x40_0000_0000) by (nonlinear_arith)
            requires
                share.1 == 1 || db.0 * share.1 < 0x100_0000 * (db.1 * 24),
                db.0 == 0 ==> share.1 == 1,
                db.1 > 1 ==> db.0 >= 0x80_0000,
                db.1 <= 0x1000_0000,
                share.1 >= 1,
        ;
        if share.1 == 1 {
            assert(share.0 <= 0x1000_0000) by (nonlinear_arith)
                requires
                    (db.1 * 24) * share.0 <= db.0 + db.0 / 0x80_0000 + db.1 * 24,
                    db.0 <= 0x1000_0000,
                    db.1 >= 1,
                    db.1 <= 0x1000_0000,
            ;
        }
        assert(share.0 * rows <= 0x1000_0000 * 0x1_0000) by (nonlinear_arith)
            requires
                share.0 <= 0x1000_0000,
                rows <= 0x1_0000,
        ;
    }
    let extent: (u64, u64) = nearest_single(share.0 * rows as u64, share.1 * 2);
    proof {
        let num = share.0 * rows;
        assert(extent.1 < 0x8000_0000_0000_0000) by (nonlinear_arith)
            requires
                extent.1 == 1 || num * extent.1 < 0x100_0000 * (share.1 * 2),
                num == 0 ==> extent.1 == 1,
                share.1 <= 0x40_0000_0000,
                extent.1 >= 1,
                num >= 0,
        ;
        if extent.1 == 1 {
            assert(extent.0 <= 0x10_0000_0000_0000) by (nonlinear_arith)
                requires
                    (share.1 * 2) * extent.0 <= num + num / 0x80_0000 + share.1 * 2,
                    num <= 0x1000_0000 * 0x1_0000,
                    share.1 >= 1,
                    share.1 <= 0x40_0000_0000,
            ;
        }
    }
    (16 * extent.0 + extent.1) / (2 * extent.1)
}

/// What row `k` of a bar shows.
fn row_of(gain: i64, eighths: u64, rows: u32, axis: u32, k: u32) -> (row: BarRow)
    requires
        eighths == bar_eighths(gain as int, rows as nat),
        axis <= rows < 0x1_0000,
        k <= rows,
    ensures
        row == bar_row(gain as int, rows as int, axis as int, k as int),
{
    let full: u64 = eighths / 8;
    let tip: u8 = (eighths % 8) as u8;
    if gain >= 0 {
        let top: u32 = if full < axis as u64 {
            axis - full as u32
        } else {
            0
        };
        if top <= k && k <= axis {
            BarRow::Full
        } else if tip > 0 && k + 1 == top {
            BarRow::TipUp { eighths: tip }
        } else {
            BarRow::Track
        }
    } else {
        let end: u32 = if full < (rows - axis) as u64 {
            axis + full as u32
        } else {
            rows
        };
        if axis <= k && k <= end {
            BarRow::Full
        } else if tip > 0 && k == end + 1 {
            BarRow::TipDown { eighths: 8 - tip }
        } else {
            BarRow::Track
        }
    }
}

/// The rows of a bar in a panel that is `height` rows high.
fn rows_of(gain: i64, height: u16) -> (rows: Vec<BarRow>)
    requires
        height >= 5,
    ensures
        rows@ == bar_rows(gain as int, height as int),
{
    let last: u32 = height as u32 - 3;
    let axis: u32 = height as u32 / 2 - 1;
    let eighths: u64 = bar_length(gain, height - 3);
    let mut rows: Vec<BarRow> = Vec::new();
    let mut k: u32 = 0;
    while k < last + 1
        invariant
            height >= 5,
            last == height - 3,
            axis == height / 2 - 1,
            k <= last + 1,
            eighths == bar_eighths(gain as int, last as nat),
            rows@ == bar_rows(gain as int, height as int).take(k as int),
        decreases last + 1 - k,
    {
        rows.push(row_of(gain, eighths, last, axis, k));
        assert(rows@ =~= bar_rows(gain as int, height as int).take(k + 1));
        k += 1;
    }
    assert(rows@ =~= bar_rows(gain as int, height as int));
    rows
}

/// Draw the sliders into `area`, one column after the other as far as they
/// fit. Nothing is drawn into less than eight by five cells.
pub fn render(columns: &Vec<SliderColumn>, selected: usize, area: Area) -> (drawn: Vec<SliderDraw>)
    requires
        columns@.len() == 0 || columns@.len() % 0x1_0000 != 0,
    ensures
        columns@.len() == 0 || area.width < 8 || area.height < 5 ==> drawn@.len() == 0,
        columns@.len() > 0 && area.width >= 8 && area.height >= 5 ==> {
            &&& drawn@.len() <= columns@.len()
            &&& forall|i: int|
                0 <= i < drawn@.len() ==> (#[trigger] drawn@[i]).draws(
                    columns@[i],
                    area,
                    columns@.len(),
                    i,
                    i == selected,
                ) && track_x(area, columns@.len(), i) < right_edge(area)
            &&& drawn@.len() < columns@.len() ==> track_x(
                area,
                columns@.len(),
                drawn@.len() as int,
            ) >= right_edge(area)
        },
{
    let mut drawn: Vec<SliderDraw> = Vec::new();
    let n: usize = columns.len();
    if n == 0 || area.width < 8 || area.height < 5 {
        return drawn;
    }
    let divisor: u32 = (n % 0x1_0000) as u32;
    let mut width: u32 = area.width as u32 / divisor;
    if width < 4 {
        width = 4;
    }
    let bar: u32 = if width - 2 > 3 {
        3
    } else {
        width - 2
    };
    let mut right: u32 = area.x as u32 + area.width as u32;
    if right > 0xffff {
        right = 0xffff;
    }
    let mut x: u32 = area.x as u32;
    let mut i: usize = 0;
    assert(column_x(area, n as nat, 0) == area.x) by (nonlinear_arith)
        requires
            column_x(area, n as nat, 0) == area.x + 0 * column_width(area.width, n as nat),
    ;
    while i < n && x + width / 2 < right
        invariant
            n == columns@.len(),
            n > 0,
            i <= n,
            area.width >= 8,
            area.height >= 5,
            width == column_width(area.width, n as nat),
            4 <= width <= 0xffff,
            bar == bar_width(width as int),
            right == right_edge(area),
            x == column_x(area, n as nat, i as int),
            x <= 0x2_0000,
            drawn@.len() == i,
            forall|k: int|
                0 <= k < i ==> (#[trigger] drawn@[k]).draws(
                    columns@[k],
                    area,
                    n as nat,
                    k,
                    k == selected,
                ) && track_x(area, n as nat, k) < right,
        decreases n - i,
    {
        let column = &columns[i];
        let is_selected = i == selected;
        let draw = SliderDraw {
            x,
            width,
            track_x: x + width / 2,
            bar_x: x + (width - bar) / 2,
            bar_width: bar,
            separator: i == EQ_BANDS,
            rows: rows_of(column.gain_tenths, area.height),
            bar_tone: if column.dimmed {
                Tone::Dim
            } else if is_selected {
                Tone::Yellow
            } else {
                Tone::Cyan
            },
            gain: gain_text(column.gain_tenths),
            label: column.label.clone(),
            label_tone: if is_selected {
                Tone::Yellow
            } else if column.dimmed {
                Tone::Comment
            } else {
                Tone::Pink
            },
            label_bold: is_selected,
        };
        drawn.push(draw);
        proof {
            assert(column_x(area, n as nat, i + 1) == x + width) by (nonlinear_arith)
                requires
                    column_x(area, n as nat, i + 1) == area.x + (i + 1) * width,
                    x == area.x + i * width,
            ;
        }
        x = x + width;
        i += 1;
    }
    drawn
}

/// The dB of a bar are within the range, and grow with the gain.
proof fn bar_db_grows(small: int, large: int)
    requires
        magnitude(small) <= magnitude(large),
    ensures
        at_most(bar_db(small), bar_db(large)),
        bar_db(small).1 > 0,
        bar_db(large).1 > 0,
        bar_db(small).0 <= 24 * bar_db(small).1,
        bar_db(large).0 <= 24 * bar_db(large).1,
{
    let m = magnitude(small);
    let n = magnitude(large);
    if m < 240 {
        bar_db_bounded(small);
    }
    if n < 240 {
        bar_db_bounded(large);
        let x = nearest(m, 1);
        let y = nearest(n, 1);
        nearest_is_monotonic(m, 1, n, 1);
        whole_numbers_are_kept(n);
        assert(x.0 * (y.1 * 10) <= y.0 * (x.1 * 10)) by (nonlinear_arith)
            requires
                x.0 * y.1 <= y.0 * x.1,
        ;
        assert(y.0 < 0x100_0000 * (y.1 * 10)) by (nonlinear_arith)
            requires
                y.0 == n * y.1,
                n < 240,
                y.1 > 0,
        ;
        nearest_is_monotonic(x.0, x.1 * 10, y.0, y.1 * 10);
    }
}

/// The dB of a gain inside the range are within the range.
proof fn bar_db_bounded(gain: int)
    requires
        magnitude(gain) < 240,
    ensures
        bar_db(gain).1 > 0,
        bar_db(gain).0 <= 24 * bar_db(gain).1,
{
    let m = magnitude(gain);
    let x = nearest(m, 1);
    whole_numbers_are_kept(m);
    whole_numbers_are_kept(24);
    assert(x.0 * 1 <= 24 * (x.1 * 10)) by (nonlinear_arith)
        requires
            x.0 == m * x.1,
            m < 240,
    ;
    nearest_is_monotonic(x.0, x.1 * 10, 24, 1);
    let db = bar_db(gain);
    let top = nearest(24, 1);
    assert(db.0 <= 24 * db.1) by (nonlinear_arith)
        requires
            db.0 * top.1 <= top.0 * db.1,
            top.0 == 24 * top.1,
            top.1 > 0,
    ;
}

/// A longer extent has no fewer eighths.
proof fn eighths_grow(x: (nat, nat), y: (nat, nat))
    requires
        x.1 > 0,
        y.1 > 0,
        at_most(x, y),
    ensures
        (16 * x.0 + x.1) / (2 * x.1) <= (16 * y.0 + y.1) / (2 * y.1),
{
    let e = (16 * x.0 + x.1) / (2 * x.1);
    vstd::arithmetic::div_mod::lemma_fundamental_div_mod((16 * x.0 + x.1) as int, (2 * x.1) as int);
    vstd::arithmetic::div_mod::lemma_mod_bound((16 * x.0 + x.1) as int, (2 * x.1) as int);
    assert(e * (2 * y.1) <= 16 * y.0 + y.1) by (nonlinear_arith)
        requires
            (2 * x.1) * e <= 16 * x.0 + x.1,
            x.0 * y.1 <= y.0 * x.1,
            x.1 > 0,
            y.1 > 0,
    ;
    vstd::arithmetic::div_mod::lemma_div_is_ordered(
        (e * (2 * y.1)) as int,
        (16 * y.0 + y.1) as int,
        (2 * y.1) as int,
    );
    vstd::arithmetic::div_mod::lemma_div_by_multiple(e as int, (2 * y.1) as int);
}

/// The share of the range that a bar shows, and its extent, grow with the dB.
proof fn extents_grow(x: (nat, nat), y: (nat, nat), rows: nat)
    requires
        x.1 > 0,
        y.1 > 0,
        at_most(x, y),
        x.0 <= 24 * x.1,
        y.0 <= 24 * y.1,
        rows < 0x100_0000,
    ensures
        at_most(half_product(quotient(x, 24), rows), half_product(quotient(y, 24), rows)),
        half_product(quotient(x, 24), rows).1 > 0,
        half_product(quotient(y, 24), rows).1 > 0,
        quotient(y, 24).1 > 0,
        quotient(y, 24).0 <= quotient(y, 24).1,
{
    assert(x.0 * (y.1 * 24) <= y.0 * (x.1 * 24)) by (nonlinear_arith)
        requires
            x.0 * y.1 <= y.0 * x.1,
    ;
    assert(y.0 < 0x100_0000 * (y.1 * 24)) by (nonlinear_arith)
        requires
            y.0 <= 24 * y.1,
            y.1 > 0,
    ;
    nearest_is_monotonic(x.0, x.1 * 24, y.0, y.1 * 24);
    let s = quotient(x, 24);
    let t = quotient(y, 24);
    whole_numbers_are_kept(1);
    let one = nearest(1, 1);
    assert(y.0 * 1 <= 1 * (y.1 * 24));
    nearest_is_monotonic(y.0, y.1 * 24, 1, 1);
    assert(t.0 <= t.1) by (nonlinear_arith)
        requires
            t.0 * one.1 <= one.0 * t.1,
            one.0 == 1 * one.1,
            one.1 > 0,
    ;
    assert((s.0 * rows) * (t.1 * 2) <= (t.0 * rows) * (s.1 * 2)) by (nonlinear_arith)
        requires
            s.0 * t.1 <= t.0 * s.1,
    ;
    assert(t.0 * rows < 0x100_0000 * (t.1 * 2)) by (nonlinear_arith)
        requires
            t.0 <= t.1,
            rows < 0x100_0000,
            t.1 > 0,
    ;
    nearest_is_monotonic(s.0 * rows, s.1 * 2, t.0 * rows, t.1 * 2);
}

/// A larger gain, up or down, never draws a shorter bar.
pub proof fn bars_grow(small: int, large: int, rows: nat)
    requires
        magnitude(small) <= magnitude(large),
        rows < 0x100_0000,
    ensures
        bar_eighths(small, rows) <= bar_eighths(large, rows),
{
    bar_db_grows(small, large);
    extents_grow(bar_db(small), bar_db(large), rows);
    eighths_grow(bar_extent(small, rows), bar_extent(large, rows));
}

/// Half a whole number of up to 24 binary digits is kept.
proof fn halves_are_kept(n: nat)
    requires
        n < 0x100_0000,
    ensures
        2 * nearest(n, 2).0 == n * nearest(n, 2).1,
        nearest(n, 2).1 > 0,
{
    let k = doublings(n, 2);
    let up = pow2(k);
    lemma_pow2_pos(k);
    lemma2_to64();
    assert(halvings(n, 2) == 0);
    if n == 0 {
        near_rounds_to(0, 2, 0);
    } else {
        assert(k > 0);
        lemma_pow2_unfold(k);
        let half = pow2((k - 1) as nat);
        assert(n * up == (n * half) * 2) by (nonlinear_arith)
            requires
                up == 2 * half,
        ;
        near_rounds_to(n * up, 2, n * half);
    }
}

/// A gain at the end of the range, or past it, fills half the height.
pub proof fn full_gain_fills_half(gain: int, rows: nat)
    requires
        magnitude(gain) >= 240,
        rows < 0x100_0000,
    ensures
        bar_eighths(gain, rows) == 4 * rows,
{
    let db = (24nat, 1nat);
    let t = quotient(db, 24);
    extents_grow(db, db, rows);
    whole_numbers_are_kept(1);
    let one = nearest(1, 1);
    nearest_is_monotonic(1, 1, 24, 24);
    assert(t.0 >= t.1) by (nonlinear_arith)
        requires
            one.0 * t.1 <= t.0 * one.1,
            one.0 == 1 * one.1,
            one.1 > 0,
    ;
    halves_are_kept(rows);
    let e = half_product(t, rows);
    let h = nearest(rows, 2);
    assert((t.0 * rows) * 2 == rows * (t.1 * 2)) by (nonlinear_arith)
        requires
            t.0 == t.1,
    ;
    assert(t.0 * rows < 0x100_0000 * (t.1 * 2)) by (nonlinear_arith)
        requires
            t.0 == t.1,
            t.1 > 0,
            rows < 0x100_0000,
    ;
    nearest_is_monotonic(t.0 * rows, t.1 * 2, rows, 2);
    nearest_is_monotonic(rows, 2, t.0 * rows, t.1 * 2);
    assert(2 * e.0 == rows * e.1) by (nonlinear_arith)
        requires
            e.0 * h.1 <= h.0 * e.1,
            h.0 * e.1 <= e.0 * h.1,
            2 * h.0 == rows * h.1,
            h.1 > 0,
    ;
    assert(16 * e.0 + e.1 == (4 * rows) * (2 * e.1) + e.1) by (nonlinear_arith)
        requires
            2 * e.0 == rows * e.1,
    ;
    vstd::arithmetic::div_mod::lemma_fundamental_div_mod_converse(
        (16 * e.0 + e.1) as int,
        (2 * e.1) as int,
        (4 * rows) as int,
        e.1 as int,
    );
}

/// No bar is longer than half the height.
pub proof fn bars_stay_in_half(gain: int, rows: nat)
    requires
        rows < 0x100_0000,
    ensures
        bar_eighths(gain, rows) <= 4 * rows,
{
    if magnitude(gain) >= 240 {
        full_gain_fills_half(gain, rows);
    } else {
        full_gain_fills_half(240, rows);
        bars_grow(gain, 240, rows);
    }
}

/// A flat slider fills the row of the axis and nothing else.
pub proof fn flat_bar_is_axis(rows: nat, axis: int, k: int)
    requires
        0 <= axis <= rows,
        rows < 0x100_0000,
    ensures
        bar_eighths(0, rows) == 0,
        bar_row(0, rows as int, axis, k) == (if k == axis {
            BarRow::Full
        } else {
            BarRow::Track
        }),
{
    whole_numbers_are_kept(0);
    bar_db_bounded(0);
    let x = nearest(0, 1);
    lemma2_to64();
    assert(x.0 == 0);
    assert(doublings(0, x.1 * 10) == 0 && halvings(0, x.1 * 10) == 0);
    let db = bar_db(0);
    near_rounds_to(0, x.1 * 10, 0);
    assert(db == (0nat, 1nat));
    assert(doublings(0, 24) == 0 && halvings(0, 24) == 0);
    near_rounds_to(0, 24, 0);
    assert(quotient(db, 24) == (0nat, 1nat));
    assert(0 * rows == 0);
    assert(doublings(0, 2) == 0 && halvings(0, 2) == 0);
    near_rounds_to(0, 2, 0);
    assert(bar_extent(0, rows) == (0nat, 1nat));
}

/// Every bar covers the axis, and none reaches to the other side of it.
pub proof fn bars_point_to_their_gain(gain: int, rows: int, axis: int, k: int)
    requires
        0 <= axis <= rows,
    ensures
        bar_row(gain, rows, axis, axis) == BarRow::Full,
        gain >= 0 && k > axis ==> bar_row(gain, rows, axis, k) == BarRow::Track,
        gain < 0 && k < axis ==> bar_row(gain, rows, axis, k) == BarRow::Track,
{
}

/// A row of a bar, by how far it is from the axis on the side of the gain: full
/// as far as the bar reaches over it, the part that it reaches into the row
/// past that, and the track everywhere else.
pub proof fn rows_show_how_far_bars_reach(gain: int, rows: int, axis: int, k: int)
    requires
        0 <= axis <= rows,
        0 <= k <= rows,
    ensures
        ({
            let reach = bar_eighths(gain, rows as nat);
            let away = if gain >= 0 {
                axis - k
            } else {
                k - axis
            };
            let row = bar_row(gain, rows, axis, k);
            &&& away < 0 ==> row == BarRow::Track
            &&& away >= 0 && 8 * away <= reach ==> row == BarRow::Full
            &&& away > 0 && 8 * (away - 1) < reach < 8 * away && gain >= 0 ==> row
                == (BarRow::TipUp { eighths: (reach - 8 * (away - 1)) as u8 })
            &&& away > 0 && 8 * (away - 1) < reach < 8 * away && gain < 0 ==> row
                == (BarRow::TipDown { eighths: (8 * away - reach) as u8 })
            &&& away > 0 && reach <= 8 * (away - 1) ==> row == BarRow::Track
        }),
{
}

/// A drawn column: the columns stand side by side from the left edge, as wide as
/// the area has room for and four cells at least, each with its bar of two or
/// three cells in the middle, its gain above and its label below. The selected
/// column stands out, a muted bar does not, and a line sets the shelves off
/// from the ten bands.
pub proof fn columns_are_drawn_side_by_side(
    draw: SliderDraw,
    column: SliderColumn,
    area: Area,
    n: nat,
    i: int,
    selected: bool,
)
    requires
        0 < n < 0x1_0000,
        0 <= i < n,
        draw.draws(column, area, n, i, selected),
    ensures
        draw.width >= 4,
        draw.width > 4 ==> draw.width * n <= area.width,
        area.width < (draw.width + 1) * n,
        draw.x == area.x + i * draw.width,
        draw.track_x == draw.x + draw.width / 2,
        draw.width == 4 ==> draw.bar_width == 2,
        draw.width > 4 ==> draw.bar_width == 3,
        draw.bar_x - draw.x == (draw.width - draw.bar_width) / 2,
        draw.separator <==> i == 10,
        draw.gain@ == gain_in_db(column.gain_tenths as int),
        draw.label@ == column.label@,
        draw.label_bold <==> selected,
        selected ==> draw.label_tone == Tone::Yellow,
        !selected && column.dimmed ==> draw.label_tone == Tone::Comment,
        !selected && !column.dimmed ==> draw.label_tone == Tone::Pink,
        column.dimmed ==> draw.bar_tone == Tone::Dim,
        !column.dimmed && selected ==> draw.bar_tone == Tone::Yellow,
        !column.dimmed && !selected ==> draw.bar_tone == Tone::Cyan,
{
    let share = area.width as int / n as int;
    vstd::arithmetic::div_mod::lemma_small_mod(n, 0x1_0000);
    vstd::arithmetic::div_mod::lemma_fundamental_div_mod(area.width as int, n as int);
    vstd::arithmetic::div_mod::lemma_mod_bound(area.width as int, n as int);
    assert(share * n <= area.width < (share + 1) * n) by (nonlinear_arith)
        requires
            area.width == n * share + area.width as int % n as int,
            0 <= area.width as int % n as int,
            (area.width as int % n as int) < n,
    ;
    if share < 4 {
        assert((share + 1) * n <= 5 * n) by (nonlinear_arith)
            requires
                share < 4,
                n > 0,
        ;
    }
}

/// A bar has a row for each row of its panel but the two for the texts, the
/// last of which is `height - 3`, around the axis in the middle.
pub proof fn bars_stand_between_the_texts(gain: int, height: int, k: int)
    requires
        height >= 5,
        0 <= k < height - 2,
    ensures
        bar_rows(gain, height).len() == height - 2,
        bar_rows(gain, height)[k] == bar_row(gain, height - 3, height / 2 - 1, k),
{
}

/// Two roundings on each other: how near the share of the range is to the gain.
proof fn shares_are_near(m: nat, d: (nat, nat), s: (nat, nat))
    requires
        m > 0,
        d.1 > 0,
        s.1 > 0,
        -10 <= 2 * (10 * d.0 - m * d.1) <= 10,
        m * d.1 >= 0x80_0000 * 10,
        -((24 * d.1) as int) <= 2 * (s.0 * (d.1 * 24) - d.0 * s.1) <= 24 * d.1,
        d.0 * s.1 >= 0x80_0000 * (d.1 * 24),
    ensures
        0xf0_0000_0000_0000 * s.0 <= 0x1_0000_0200_0001 * (m * s.1),
        0xffff_fe00_0001 * (m * s.1) <= 0xf0_0000_0000_0000 * s.0,
{
    let a = m * d.1;
    assert(0xff_ffff * a <= 0x100_0000 * (10 * d.0) <= 0x100_0001 * a);
    let b = d.0 * s.1;
    let c = s.0 * (d.1 * 24);
    assert(0xff_ffff * b <= 0x100_0000 * c <= 0x100_0001 * b);
    assert(0x100_0000 * (10 * b) == (0x100_0000 * (10 * d.0)) * s.1) by (nonlinear_arith)
        requires
            b == d.0 * s.1,
    ;
    assert((0x100_0000 * (10 * d.0)) * s.1 <= (0x100_0001 * a) * s.1) by (nonlinear_arith)
        requires
            0x100_0000 * (10 * d.0) <= 0x100_0001 * a,
    ;
    assert((0xff_ffff * a) * s.1 <= (0x100_0000 * (10 * d.0)) * s.1) by (nonlinear_arith)
        requires
            0xff_ffff * a <= 0x100_0000 * (10 * d.0),
    ;
    let e = m * s.1;
    assert((0x100_0001 * a) * s.1 == 0x100_0001 * (e * d.1)) by (nonlinear_arith)
        requires
            a == m * d.1,
            e == m * s.1,
    ;
    assert((0xff_ffff * a) * s.1 == 0xff_ffff * (e * d.1)) by (nonlinear_arith)
        requires
            a == m * d.1,
            e == m * s.1,
    ;
    let f = s.0 * d.1;
    assert(c == 24 * f) by (nonlinear_arith)
        requires
            c == s.0 * (d.1 * 24),
            f == s.0 * d.1,
    ;
    let g = e * d.1;
    assert(0xf0_0000_0000_0000 * f <= 0x1_0000_0200_0001 * g);
    assert(0xffff_fe00_0001 * g <= 0xf0_0000_0000_0000 * f);
    assert(0xf0_0000_0000_0000 * s.0 <= 0x1_0000_0200_0001 * e) by (nonlinear_arith)
        requires
            0xf0_0000_0000_0000 * f <= 0x1_0000_0200_0001 * g,
            f == s.0 * d.1,
            g == e * d.1,
            d.1 > 0,
    ;
    assert(0xffff_fe00_0001 * e <= 0xf0_0000_0000_0000 * s.0) by (nonlinear_arith)
        requires
            0xffff_fe00_0001 * g <= 0xf0_0000_0000_0000 * f,
            f == s.0 * d.1,
            g == e * d.1,
            d.1 > 0,
    ;
}

/// How near the extent of a bar is to the gain, given how near its share is.
proof fn extents_are_near(m: nat, rows: nat, s: (nat, nat), x: (nat, nat))
    requires
        m <= 240,
        rows < 0x1_0000,
        s.1 > 0,
        x.1 > 0,
        0xf0_0000_0000_0000 * s.0 <= 0x1_0000_0200_0001 * (m * s.1),
        0xffff_fe00_0001 * (m * s.1) <= 0xf0_0000_0000_0000 * s.0,
        -((2 * s.1) as int) <= 2 * (x.0 * (s.1 * 2) - (s.0 * rows) * x.1) <= 2 * s.1,
        (s.0 * rows) * x.1 >= 0x80_0000 * (s.1 * 2),
    ensures
        -4 * x.1 <= 480 * x.0 - (m * rows) * x.1 <= 4 * x.1,
{
    let b = (s.0 * rows) * x.1;
    let c = x.0 * s.1;
    assert(x.0 * (s.1 * 2) == 2 * c) by (nonlinear_arith)
        requires
            c == x.0 * s.1,
    ;
    assert(0xff_ffff * b <= 0x100_0000 * (2 * c) <= 0x100_0001 * b);
    let w = rows * x.1;
    assert(b == s.0 * w) by (nonlinear_arith)
        requires
            b == (s.0 * rows) * x.1,
            w == rows * x.1,
    ;
    let e = (m * s.1) * w;
    assert(0xf0_0000_0000_0000 * b <= 0x1_0000_0200_0001 * e) by (nonlinear_arith)
        requires
            0xf0_0000_0000_0000 * s.0 <= 0x1_0000_0200_0001 * (m * s.1),
            b == s.0 * w,
            e == (m * s.1) * w,
    ;
    assert(0xffff_fe00_0001 * e <= 0xf0_0000_0000_0000 * b) by (nonlinear_arith)
        requires
            0xffff_fe00_0001 * (m * s.1) <= 0xf0_0000_0000_0000 * s.0,
            b == s.0 * w,
            e == (m * s.1) * w,
    ;
    let h = (m * rows) * x.1;
    assert(e == h * s.1) by (nonlinear_arith)
        requires
            e == (m * s.1) * w,
            w == rows * x.1,
            h == (m * rows) * x.1,
    ;
    assert(0x100_0000 * (480 * c) <= 0x100_0004 * e);
    assert(0xff_fffc * e <= 0x100_0000 * (480 * c));
    assert(0x100_0000 * (480 * x.0) <= 0x100_0004 * h) by (nonlinear_arith)
        requires
            0x100_0000 * (480 * c) <= 0x100_0004 * e,
            c == x.0 * s.1,
            e == h * s.1,
            s.1 > 0,
    ;
    assert(0xff_fffc * h <= 0x100_0000 * (480 * x.0)) by (nonlinear_arith)
        requires
            0xff_fffc * e <= 0x100_0000 * (480 * c),
            c == x.0 * s.1,
            e == h * s.1,
            s.1 > 0,
    ;
    assert(m * rows <= 0x100_0000) by (nonlinear_arith)
        requires
            m <= 240,
            rows < 0x1_0000,
    ;
    assert(h <= 0x100_0000 * x.1) by (nonlinear_arith)
        requires
            h == (m * rows) * x.1,
            m * rows <= 0x100_0000,
    ;
}

/// Bars are to scale: 24 dB reach over half the height, so a bar reaches over
/// `gain * rows / 60` eighths of a row, to the nearest but for the rounding of
/// single precision.
pub proof fn bars_are_to_scale(gain: int, rows: nat)
    requires
        -240 <= gain <= 240,
        rows < 0x1_0000,
    ensures
        gain >= 0 ==> -34 <= 60 * bar_eighths(gain, rows) - gain * rows <= 34,
        gain < 0 ==> -34 <= 60 * bar_eighths(gain, rows) + gain * rows <= 34,
{
    let m = magnitude(gain);
    let e = bar_eighths(gain, rows);
    if m == 240 {
        full_gain_fills_half(gain, rows);
        assert(240 * rows == 60 * (4 * rows));
        assert(gain < 0 ==> gain * rows == -(240 * rows)) by (nonlinear_arith)
            requires
                gain == 240 || gain == -240,
        ;
        assert(gain >= 0 ==> gain * rows == 240 * rows) by (nonlinear_arith)
            requires
                gain == 240 || gain == -240,
        ;
    } else if m == 0 {
        flat_bar_is_axis(rows, 0, 0);
        assert(gain * rows == 0) by (nonlinear_arith)
            requires
                gain == 0,
        ;
    } else if rows == 0 {
        bars_stay_in_half(gain, 0);
        assert(gain * rows == 0) by (nonlinear_arith)
            requires
                rows == 0,
        ;
    } else {
        let x = nearest(m, 1);
        let u = x.1;
        whole_numbers_are_kept(m);
        assert(0 < x.0 < 0x100_0000 * (u * 10)) by (nonlinear_arith)
            requires
                x.0 == m * u,
                0 < m < 240,
                u > 0,
        ;
        nearest_has_24_digits(x.0, u * 10);
        let d = bar_db(gain);
        assert(d.1 > 0) by (nonlinear_arith)
            requires
                x.0 * d.1 >= 0x80_0000 * (u * 10),
                u > 0,
                x.0 > 0,
        ;
        assert(-10 <= 2 * (10 * d.0 - m * d.1) <= 10) by (nonlinear_arith)
            requires
                -((u * 10) as int) <= 2 * (d.0 * (u * 10) - x.0 * d.1) <= u * 10,
                x.0 == m * u,
                u > 0,
        ;
        assert(m * d.1 >= 0x80_0000 * 10) by (nonlinear_arith)
            requires
                x.0 * d.1 >= 0x80_0000 * (u * 10),
                x.0 == m * u,
                u > 0,
        ;
        bar_db_bounded(gain);
        assert(d.0 < 0x100_0000 * (d.1 * 24));
        nearest_has_24_digits(d.0, d.1 * 24);
        let s = quotient(d, 24);
        assert(s.1 > 0) by (nonlinear_arith)
            requires
                d.0 * s.1 >= 0x80_0000 * (d.1 * 24),
                d.1 > 0,
        ;
        shares_are_near(m, d, s);
        extents_grow(d, d, rows);
        assert(s.0 * rows > 0) by (nonlinear_arith)
            requires
                s.0 >= 0x80_0000,
                rows > 0,
        ;
        assert(s.0 * rows < 0x100_0000 * (s.1 * 2)) by (nonlinear_arith)
            requires
                s.0 <= s.1,
                rows < 0x1_0000,
                s.1 > 0,
        ;
        nearest_has_24_digits(s.0 * rows, s.1 * 2);
        let t = bar_extent(gain, rows);
        extents_are_near(m, rows, s, t);
        vstd::arithmetic::div_mod::lemma_fundamental_div_mod(
            (16 * t.0 + t.1) as int,
            (2 * t.1) as int,
        );
        vstd::arithmetic::div_mod::lemma_mod_bound((16 * t.0 + t.1) as int, (2 * t.1) as int);
        let h = m * rows;
        assert(-34 <= 60 * e - h <= 34) by (nonlinear_arith)
            requires
                (2 * t.1) * e <= 16 * t.0 + t.1,
                16 * t.0 + t.1 < (2 * t.1) * e + 2 * t.1,
                -4 * t.1 <= 480 * t.0 - h * t.1 <= 4 * t.1,
                t.1 > 0,
        ;
        assert(gain < 0 ==> gain * rows == -h) by (nonlinear_arith)
            requires
                gain < 0 ==> m == -gain,
                h == m * rows,
        ;
    }
}

/// Columns are drawn up to the right edge of the area, or of what can be
/// addressed.
pub proof fn columns_end_at_the_edge(area: Area)
    ensures
        area.x + area.width <= 0xffff ==> right_edge(area) == area.x + area.width,
        area.x + area.width > 0xffff ==> right_edge(area) == 0xffff,
{
}

} // verus!
