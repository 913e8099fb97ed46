//! The texts of the interface: frequencies, gains, level meters, paths.

use vstd::prelude::*;

use crate::single::{
    as_tenths, nearest, nearest_single, quotient, round_ties_even, tenths_are_kept,
    tenths_are_nearest,
};
use crate::text::{
    all_digits, decimal, digit_char, digits, digits_read_back, number_in, push_decimal,
    push_digits,
};

verus! {

/// A number of tenths with one decimal place.
pub open spec fn one_place(tenths: nat) -> Seq<char> {
    digits(tenths / 10) + seq!['.', digit_char(tenths % 10)]
}

/// Append a number of tenths with one decimal place.
fn push_one_place(out: &mut String, tenths: u64)
    ensures
        final(out)@ == old(out)@ + one_place(tenths as nat),
{
    push_digits(out, tenths / 10);
    out.push('.');
    let d: u8 = (tenths % 10) as u8;
    out.push((48u8 + d) as char);
    assert(out@ =~= old(out)@ + one_place(tenths as nat));
}

/// `n / divisor` in single precision, in tenths.
pub open spec fn shown_tenths(n: nat, divisor: nat) -> nat {
    as_tenths(quotient(nearest(n, 1), divisor))
}

/// `n / divisor` in single precision, in tenths.
fn single_tenths(n: u64, divisor: u64) -> (tenths: u64)
    requires
        10 <= divisor <= 1000,
        n <= 0x8000_0000_0000_0000,
    ensures
        tenths == shown_tenths(n as nat, divisor as nat),
{
    let x: (u64, u64) = nearest_single(n, 1);
    proof {
        if x.1 != 1 {
            assert(x.1 < 0x100_0000) by (nonlinear_arith)
                requires
                    n * x.1 < 0x100_0000,
                    n >= 1 || x.1 == 1,
                    x.1 >= 1,
            ;
        }
        assert(x.1 * divisor <= 0x100_0000 * 1000) by (nonlinear_arith)
            requires
                x.1 <= 0x100_0000,
                divisor <= 1000,
        ;
        assert(x.1 * divisor >= 10) by (nonlinear_arith)
            requires
                x.1 >= 1,
                divisor >= 10,
        ;
    }
    let den: u64 = x.1 * divisor;
    let w: (u64, u64) = nearest_single(x.0, den);
    proof {
        if w.1 == 1 {
            assert(w.0 * 10 <= den * w.0) by (nonlinear_arith)
                requires
                    den >= 10,
            ;
        } else {
            assert(w.1 < 0x8000_0000_0000_0000) by (nonlinear_arith)
                requires
                    x.0 * w.1 < 0x100_0000 * den,
                    den <= 0x100_0000 * 1000,
                    x.0 >= 1,
            ;
        }
    }
    round_ties_even(w.0 * 10, w.1)
}

/// A cutoff with its unit.
pub open spec fn hz_text(hz: int) -> Seq<char> {
    if hz < 1000 {
        decimal(hz) + " Hz"@
    } else if hz % 1000 == 0 {
        decimal(hz / 1000) + " kHz"@
    } else {
        one_place(shown_tenths(hz as nat, 1000)) + " kHz"@
    }
}

/// A cutoff with its unit: `63 Hz`, `1 kHz`, `2.5 kHz`.
pub fn fmt_hz(hz: i32) -> (text: String)
    ensures
        text@ == hz_text(hz as int),
{
    let mut text = String::new();
    if hz < 1000 {
        push_decimal(&mut text, hz as i64);
        text.append(" Hz");
        assert(text@ =~= hz_text(hz as int));
    } else if hz % 1000 == 0 {
        push_decimal(&mut text, (hz / 1000) as i64);
        text.append(" kHz");
        assert(text@ =~= hz_text(hz as int));
    } else {
        push_one_place(&mut text, single_tenths(hz as u64, 1000));
        text.append(" kHz");
        assert(text@ =~= hz_text(hz as int));
    }
    text
}

/// The magnitude of a gain.
pub open spec fn magnitude(gain: int) -> nat {
    if gain < 0 {
        (-gain) as nat
    } else {
        gain as nat
    }
}

/// The magnitude of a gain.
pub fn gain_magnitude(gain: i64) -> (size: u64)
    ensures
        size == magnitude(gain as int),
        size <= 0x8000_0000_0000_0000,
{
    if gain < 0 {
        (-(gain as i128)) as u64
    } else {
        gain as u64
    }
}

/// A gain in tenths of dB as text: sign, dB with one decimal place, unit.
pub open spec fn gain_in_db(gain: int) -> Seq<char> {
    seq![if gain < 0 { '-' } else { '+' }] + one_place(shown_tenths(magnitude(gain), 10))
        + " dB"@
}

/// A gain in tenths of dB as text, such as `+5.0 dB`.
pub fn gain_text(gain: i64) -> (text: String)
    ensures
        text@ == gain_in_db(gain as int),
{
    let mut text = String::new();
    if gain < 0 {
        text.push('-');
    } else {
        text.push('+');
    }
    push_one_place(&mut text, single_tenths(gain_magnitude(gain), 10));
    text.append(" dB");
    assert(text@ =~= gain_in_db(gain as int));
    text
}

/// A gain is shown as it is, to the tenth of a dB.
pub proof fn gain_is_shown_exactly(gain: int)
    requires
        -0x80_0000 < gain < 0x80_0000,
    ensures
        gain_in_db(gain) == seq![if gain < 0 { '-' } else { '+' }] + one_place(magnitude(gain))
            + " dB"@,
{
    tenths_are_kept(magnitude(gain), 10);
    assert(magnitude(gain) * 1 == magnitude(gain));
}

/// A cutoff in whole hundreds of Hz is shown as it is.
pub proof fn hundreds_are_shown_exactly(hz: int)
    requires
        1000 <= hz < 0x100_0000,
        hz % 100 == 0,
        hz % 1000 != 0,
    ensures
        hz_text(hz) == one_place((hz / 100) as nat) + " kHz"@,
{
    tenths_are_kept((hz / 100) as nat, 1000);
}

/// `text` cut to its last characters, with `…` in front, where it is longer
/// than `max` characters.
pub open spec fn shortened(text: Seq<char>, max: nat) -> Seq<char> {
    if text.len() <= max {
        text
    } else {
        seq!['…'] + text.skip(text.len() - (max - 1))
    }
}

/// Keep long texts from flooding the status line: `…` and the last
/// `max - 1` characters.
pub fn shorten(s: &str, max: usize) -> (short: String)
    requires
        max >= 1 || s@.len() == 0,
    ensures
        short@ == shortened(s@, max as nat),
        short@.len() <= max,
        s@.len() > max ==> short@.len() == max,
{
    let n: usize = s.unicode_len();
    if n <= max {
        return s.to_owned();
    }
    let mut short = String::new();
    short.push('…');
    short.append(s.substring_char(n - (max - 1), n));
    assert(short@ =~= shortened(s@, max as nat));
    short
}

/// Cells of a level meter.
pub const METER_WIDTH: usize = 8;

/// The smallest peak that a meter shows with `step + 1` eighths of a cell:
/// the meter maps −48 to 0 dB below full scale onto its width, to the nearest
/// eighth.
pub open spec fn meter_step(step: int) -> int {
    seq![
        137int, 149, 162, 177, 193, 210, 229, 250, 272, 297, 323, 353, 384, 419, 457, 498, 543,
        592, 645, 703, 766, 836, 911, 993, 1082, 1180, 1286, 1402, 1529, 1667, 1817, 1981, 2159,
        2354, 2566, 2798, 3050, 3325, 3625, 3951, 4308, 4696, 5120, 5581, 6085, 6633, 7232, 7884,
        8595, 9370, 10215, 11136, 12140, 13235, 14428, 15729, 17148, 18694, 20380, 22218, 24222,
        26406, 28788, 31384,
    ][step]
}

/// How many of the first `steps` steps are at or below `peak`.
pub open spec fn steps_reached(peak: int, steps: nat) -> nat
    decreases steps,
{
    if steps == 0 {
        0
    } else {
        steps_reached(peak, (steps - 1) as nat) + if peak >= meter_step(steps - 1) {
            1nat
        } else {
            0nat
        }
    }
}

/// The level of `peak` in eighths of a cell.
pub open spec fn meter_level(peak: int) -> nat {
    steps_reached(peak, 64)
}

/// The block that fills `eighths` eighths of a cell from the left.
pub open spec fn part_cell(eighths: nat) -> char {
    (0x2590 - eighths) as char
}

/// Cell `i` of a meter at `level` eighths.
pub open spec fn meter_cell(level: nat, i: int) -> char {
    if i < level / 8 {
        '█'
    } else if i == level / 8 && level % 8 > 0 {
        part_cell(level % 8)
    } else {
        ' '
    }
}

/// A meter at `level` eighths.
pub open spec fn meter_cells(level: nat) -> Seq<char> {
    Seq::new(METER_WIDTH as nat, |i: int| meter_cell(level, i))
}

/// The level of `peak` in eighths of a cell.
fn level_of(peak: i32) -> (level: usize)
    ensures
        level == meter_level(peak as int),
        level <= 64,
{
    let steps: [i32; 64] = [
        137, 149, 162, 177, 193, 210, 229, 250, 272, 297, 323, 353, 384, 419, 457, 498, 543, 592,
        645, 703, 766, 836, 911, 993, 1082, 1180, 1286, 1402, 1529, 1667, 1817, 1981, 2159, 2354,
        2566, 2798, 3050, 3325, 3625, 3951, 4308, 4696, 5120, 5581, 6085, 6633, 7232, 7884, 8595,
        9370, 10215, 11136, 12140, 13235, 14428, 15729, 17148, 18694, 20380, 22218, 24222, 26406,
        28788, 31384,
    ];
    assert(forall|k: int| 0 <= k < 64 ==> #[trigger] steps@[k] == meter_step(k));
    let mut level: usize = 0;
    let mut i: usize = 0;
    while i < 64
        invariant
            i <= 64,
            level <= i,
            level == steps_reached(peak as int, i as nat),
            forall|k: int| 0 <= k < 64 ==> #[trigger] steps@[k] == meter_step(k),
        decreases 64 - i,
    {
        if peak >= steps[i] {
            level += 1;
        }
        i += 1;
    }
    level
}

/// The block that fills `eighths` eighths of a cell from the left.
fn part_block(eighths: usize) -> (block: char)
    requires
        0 < eighths < 8,
    ensures
        block == part_cell(eighths as nat),
{
    if eighths == 1 {
        '▏'
    } else if eighths == 2 {
        '▎'
    } else if eighths == 3 {
        '▍'
    } else if eighths == 4 {
        '▌'
    } else if eighths == 5 {
        '▋'
    } else if eighths == 6 {
        '▊'
    } else {
        '▉'
    }
}

/// A level meter of fixed width that maps −48…0 dB below full scale onto its
/// cells with a resolution of an eighth of a cell.
pub fn meter_bar(peak: i32) -> (bar: String)
    ensures
        bar@ == meter_cells(meter_level(peak as int)),
        bar@.len() == METER_WIDTH,
{
    let level: usize = level_of(peak);
    let mut bar = String::new();
    let mut i: usize = 0;
    while i < METER_WIDTH
        invariant
            i <= METER_WIDTH,
            level <= 64,
            bar@ == meter_cells(level as nat).take(i as int),
        decreases METER_WIDTH - i,
    {
        if i < level / 8 {
            bar.push('█');
        } else if i == level / 8 && level % 8 > 0 {
            bar.push(part_block(level % 8));
        } else {
            bar.push(' ');
        }
        assert(bar@ =~= meter_cells(level as nat).take(i + 1));
        i += 1;
    }
    assert(bar@ =~= meter_cells(level as nat));
    bar
}

/// A higher peak never shows as less.
pub proof fn meter_is_monotonic(low: int, high: int, steps: nat)
    requires
        low <= high,
    ensures
        steps_reached(low, steps) <= steps_reached(high, steps),
    decreases steps,
{
    if steps > 0 {
        meter_is_monotonic(low, high, (steps - 1) as nat);
    }
}

/// Below the first step no step is reached, at the last step every one is.
proof fn outer_steps(peak: int, steps: nat)
    requires
        steps <= 64,
        peak < 137 || peak >= 31384,
    ensures
        steps_reached(peak, steps) == (if peak < 137 {
            0
        } else {
            steps
        }),
    decreases steps,
{
    if steps > 0 {
        outer_steps(peak, (steps - 1) as nat);
        assert(137 <= meter_step(steps - 1) <= 31384);
    }
}

/// Silence shows as an empty meter.
pub proof fn silence_is_empty(peak: int)
    requires
        peak < 137,
    ensures
        meter_level(peak) == 0,
        forall|i: int| 0 <= i < METER_WIDTH ==> #[trigger] meter_cells(0)[i] == ' ',
{
    outer_steps(peak, 64);
}

/// Full scale fills the meter.
pub proof fn full_scale_fills(peak: int)
    requires
        peak >= 31384,
    ensures
        meter_level(peak) == 64,
        forall|i: int| 0 <= i < METER_WIDTH ==> #[trigger] meter_cells(64)[i] == '█',
{
    outer_steps(peak, 64);
}

/// A number of tenths is shown as its whole part, a point and one digit.
pub proof fn tenths_are_shown(tenths: nat)
    ensures
        ({
            let text = one_place(tenths);
            let n = text.len() as int;
            &&& n >= 3
            &&& text[n - 2] == '.'
            &&& number_in(text.take(n - 2)) == tenths / 10
            &&& all_digits(text.take(n - 2))
            &&& '0' <= text[n - 1] <= '9'
            &&& text[n - 1] as int - '0' as int == tenths % 10
        }),
{
    let text = one_place(tenths);
    digits_read_back(tenths / 10);
    assert(text.take(text.len() - 2) =~= digits(tenths / 10));
}

/// A cutoff is shown in Hz below 1 kHz, in whole kHz where it is a whole
/// number of them, and otherwise to the nearest tenth of a kHz.
pub proof fn cutoffs_are_shown(hz: int)
    ensures
        0 <= hz < 1000 ==> hz_text(hz) == digits(hz as nat) + " Hz"@,
        hz < 0 ==> hz_text(hz) == seq!['-'] + digits((-hz) as nat) + " Hz"@,
        hz >= 1000 && hz % 1000 == 0 ==> hz_text(hz) == digits((hz / 1000) as nat) + " kHz"@,
        1000 <= hz < 0x100_0000 && hz % 1000 != 0 ==> exists|tenths: nat|
            -50 <= 100 * tenths - hz <= 50 && hz_text(hz) == #[trigger] one_place(tenths)
                + " kHz"@,
{
    if 1000 <= hz < 0x100_0000 && hz % 1000 != 0 {
        tenths_are_nearest(hz as nat, 1000);
        let tenths = shown_tenths(hz as nat, 1000);
        assert(hz_text(hz) == one_place(tenths) + " kHz"@);
    }
}

/// A gain is shown with its sign and to the tenth of a dB.
pub proof fn gains_are_shown(gain: int)
    requires
        -0x80_0000 < gain < 0x80_0000,
    ensures
        gain >= 0 ==> gain_in_db(gain) == seq!['+'] + one_place(gain as nat) + " dB"@,
        gain < 0 ==> gain_in_db(gain) == seq!['-'] + one_place((-gain) as nat) + " dB"@,
{
    gain_is_shown_exactly(gain);
}

/// A text that is too long keeps its end behind one `…`; any other is kept
/// whole.
pub proof fn long_texts_keep_their_end(text: Seq<char>, max: nat)
    requires
        max >= 1,
    ensures
        text.len() <= max ==> shortened(text, max) == text,
        text.len() > max ==> {
            &&& shortened(text, max).len() == max
            &&& shortened(text, max)[0] == '…'
            &&& forall|k: int|
                1 <= k < max ==> #[trigger] shortened(text, max)[k] == text[text.len() - max + k]
        },
{
}

/// The steps of a meter are 0.75 dB apart: each is about 1.09018 times the one
/// before it, as far as whole numbers can be, up to the last one 0.375 dB below
/// full scale.
pub proof fn meter_steps_are_even(step: int)
    requires
        0 <= step < 63,
    ensures
        109018 * (meter_step(step) - 1) < 100000 * meter_step(step + 1),
        100000 * (meter_step(step + 1) - 1) < 109019 * meter_step(step),
        meter_step(63) == 31384,
{
}

/// A meter at a level shows as many steps as the peak has reached.
pub proof fn meter_levels_are_reached(peak: int, step: int)
    requires
        0 <= step < 64,
    ensures
        meter_level(peak) > step <==> peak >= meter_step(step),
{
    reached_in_order(peak, 64, step);
}

/// The steps are reached in order.
proof fn reached_in_order(peak: int, steps: nat, step: int)
    requires
        0 <= step < steps <= 64,
    ensures
        steps_reached(peak, steps) > step <==> peak >= meter_step(step),
        steps_reached(peak, steps) <= steps,
    decreases steps,
{
    let last = (steps - 1) as nat;
    if steps == 1 {
        assert(steps_reached(peak, 0) == 0);
    } else {
        reached_in_order(peak, last, last - 1);
        meter_steps_are_even(last - 1);
        assert(meter_step(last - 1) < meter_step(last as int));
        if step < last {
            reached_in_order(peak, last, step);
        } else {
            reached_in_order(peak, last, last - 1);
        }
    }
}

/// A meter is filled from the left: whole cells, then at most one cell filled
/// in part, by eighths, then empty ones.
pub proof fn meters_fill_from_the_left(level: nat, i: int)
    requires
        level <= 64,
        0 <= i < 8,
    ensures
        meter_cells(level).len() == 8,
        8 * i + 8 <= level ==> meter_cells(level)[i] == '█',
        level <= 8 * i ==> meter_cells(level)[i] == ' ',
        level == 8 * i + 1 ==> meter_cells(level)[i] == '▏',
        level == 8 * i + 2 ==> meter_cells(level)[i] == '▎',
        level == 8 * i + 3 ==> meter_cells(level)[i] == '▍',
        level == 8 * i + 4 ==> meter_cells(level)[i] == '▌',
        level == 8 * i + 5 ==> meter_cells(level)[i] == '▋',
        level == 8 * i + 6 ==> meter_cells(level)[i] == '▊',
        level == 8 * i + 7 ==> meter_cells(level)[i] == '▉',
{
}

} // verus!
