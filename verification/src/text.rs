//! Text building blocks: decimal and hexadecimal digits, prefixes and
//! substrings, all on the characters of a string.

use vstd::prelude::*;

verus! {

/// `String::push` appends one character.
pub assume_specification[ String::push ](s: &mut String, ch: char)
    ensures
        final(s)@ == old(s)@.push(ch),
;

/// The decimal digit `d`, for `d < 10`.
pub open spec fn digit_char(d: nat) -> char {
    (48 + d) as char
}

/// The decimal digits of `n`, most significant first, without leading zeros.
pub open spec fn digits(n: nat) -> Seq<char>
    decreases n,
{
    if n < 10 {
        seq![digit_char(n)]
    } else {
        digits(n / 10).push(digit_char(n % 10))
    }
}

/// `n` in decimal, with a minus sign when negative.
pub open spec fn decimal(n: int) -> Seq<char> {
    if n < 0 {
        seq!['-'] + digits((-n) as nat)
    } else {
        digits(n as nat)
    }
}

/// `n` in decimal with at least two digits.
pub open spec fn two_digits(n: nat) -> Seq<char> {
    if n < 10 {
        seq!['0'] + digits(n)
    } else {
        digits(n)
    }
}

/// Append the decimal digits of `n`.
pub fn push_digits(out: &mut String, n: u64)
    ensures
        final(out)@ == old(out)@ + digits(n as nat),
    decreases n,
{
    if n >= 10 {
        push_digits(out, n / 10);
    }
    let d: u8 = (n % 10) as u8;
    out.push((48u8 + d) as char);
    assert(out@ =~= old(out)@ + digits(n as nat));
}

/// Append `n` in decimal.
pub fn push_decimal(out: &mut String, n: i64)
    ensures
        final(out)@ == old(out)@ + decimal(n as int),
{
    if n < 0 {
        out.push('-');
        let magnitude: u64 = (-(n as i128)) as u64;
        push_digits(out, magnitude);
        assert(out@ =~= old(out)@ + decimal(n as int));
    } else {
        push_digits(out, n as u64);
    }
}

/// Append `n` in decimal, padded with a zero to two digits.
pub fn push_two_digits(out: &mut String, n: u64)
    ensures
        final(out)@ == old(out)@ + two_digits(n as nat),
{
    if n < 10 {
        out.push('0');
    }
    push_digits(out, n);
    assert(out@ =~= old(out)@ + two_digits(n as nat));
}

/// The lower-case hexadecimal digit `d`, for `d < 16`.
pub open spec fn hex_char(d: nat) -> char {
    if d < 10 {
        (48 + d) as char
    } else {
        (87 + d) as char
    }
}

/// Two lower-case hexadecimal digits per byte, high digit first.
pub open spec fn hex(bytes: Seq<u8>) -> Seq<char> {
    Seq::new(
        2 * bytes.len(),
        |i: int| if i % 2 == 0 { hex_char((bytes[i / 2] / 16) as nat) } else {
            hex_char((bytes[i / 2] % 16) as nat)
        },
    )
}

fn hex_digit(d: u8) -> (c: char)
    requires
        d < 16,
    ensures
        c == hex_char(d as nat),
{
    if d < 10 {
        (48u8 + d) as char
    } else {
        (87u8 + d) as char
    }
}

/// The lower-case hexadecimal text of `bytes`.
pub fn to_hex(bytes: &[u8]) -> (out: String)
    ensures
        out@ == hex(bytes@),
{
    let mut out = String::new();
    let mut i: usize = 0;
    while i < bytes.len()
        invariant
            i <= bytes@.len(),
            out@ == hex(bytes@.take(i as int)),
        decreases bytes@.len() - i,
    {
        out.push(hex_digit(bytes[i] / 16));
        out.push(hex_digit(bytes[i] % 16));
        assert(out@ =~= hex(bytes@.take(i + 1)));
        i += 1;
    }
    assert(bytes@.take(i as int) =~= bytes@);
    out
}

/// Whether `a` and `b` are the same text.
pub fn same_text(a: &str, b: &str) -> (same: bool)
    ensures
        same == (a@ == b@),
{
    a.to_owned() == b.to_owned()
}

/// Whether `part` occurs in `text` starting at character `at`.
pub open spec fn occurs_at(text: Seq<char>, part: Seq<char>, at: int) -> bool {
    0 <= at && at + part.len() <= text.len() && text.subrange(at, at + part.len() as int) == part
}

/// Whether `text` begins with `prefix`.
pub open spec fn has_prefix(text: Seq<char>, prefix: Seq<char>) -> bool {
    occurs_at(text, prefix, 0)
}

/// Whether `part` occurs somewhere in `text`.
pub open spec fn has_substring(text: Seq<char>, part: Seq<char>) -> bool {
    exists|at: int| occurs_at(text, part, at)
}

/// `text` without `prefix` where it begins with it, else `text` itself.
pub open spec fn without_prefix(text: Seq<char>, prefix: Seq<char>) -> Seq<char> {
    if has_prefix(text, prefix) {
        text.skip(prefix.len() as int)
    } else {
        text
    }
}

/// What follows `prefix` in `text`; `None` where `text` does not begin with it.
pub fn strip_prefix(text: &str, prefix: &str) -> (rest: Option<String>)
    ensures
        rest is Some <==> has_prefix(text@, prefix@),
        rest is Some ==> rest->0@ == text@.skip(prefix@.len() as int),
        rest is Some ==> text@ == prefix@ + rest->0@,
        rest is None ==> forall|tail: Seq<char>| #[trigger] (prefix@ + tail) != text@,
{
    proof {
        assert forall|tail: Seq<char>| #[trigger] (prefix@ + tail) == text@ implies has_prefix(
            text@,
            prefix@,
        ) by {
            prefixes_begin_texts(text@, prefix@, tail);
        }
    }
    let n: usize = text.unicode_len();
    let m: usize = prefix.unicode_len();
    if m > n {
        return None;
    }
    let head = text.substring_char(0, m);
    if !same_text(head, prefix) {
        return None;
    }
    let rest = text.substring_char(m, n).to_owned();
    assert(rest@ =~= text@.skip(prefix@.len() as int));
    assert(text@ =~= prefix@ + rest@);
    Some(rest)
}

/// Whether `text` begins with `prefix`.
pub fn starts_with(text: &str, prefix: &str) -> (yes: bool)
    ensures
        yes == has_prefix(text@, prefix@),
{
    strip_prefix(text, prefix).is_some()
}

/// Whether `part` occurs somewhere in `text`.
pub fn contains_text(text: &str, part: &str) -> (yes: bool)
    ensures
        yes == has_substring(text@, part@),
{
    let n: usize = text.unicode_len();
    let m: usize = part.unicode_len();
    if m > n {
        return false;
    }
    let last: usize = n - m;
    let mut at: usize = 0;
    while at < last
        invariant
            n == text@.len(),
            m == part@.len(),
            m <= n,
            last == n - m,
            at <= last,
            forall|k: int| 0 <= k < at ==> !occurs_at(text@, part@, k),
        decreases last - at,
    {
        if same_text(text.substring_char(at, at + m), part) {
            assert(occurs_at(text@, part@, at as int));
            return true;
        }
        at += 1;
    }
    let yes = same_text(text.substring_char(last, n), part);
    assert(yes == occurs_at(text@, part@, last as int));
    yes
}

/// The number that decimal digits stand for.
pub open spec fn number_in(text: Seq<char>) -> int
    decreases text.len(),
{
    if text.len() == 0 {
        0
    } else {
        10 * number_in(text.drop_last()) + (text.last() as int - '0' as int)
    }
}

/// Whether a text consists of decimal digits alone.
pub open spec fn all_digits(text: Seq<char>) -> bool {
    forall|i: int| 0 <= i < text.len() ==> '0' <= #[trigger] text[i] <= '9'
}

/// The digits of a number are read back as that number, and begin with a zero
/// for zero alone.
pub proof fn digits_read_back(n: nat)
    ensures
        number_in(digits(n)) == n,
        all_digits(digits(n)),
        digits(n).len() >= 1,
        digits(n)[0] == '0' ==> n == 0 && digits(n).len() == 1,
    decreases n,
{
    reveal_with_fuel(number_in, 2);
    if n < 10 {
        assert(digits(n).drop_last() =~= Seq::<char>::empty());
    } else {
        digits_read_back(n / 10);
        assert(digits(n).drop_last() =~= digits(n / 10));
        assert(digits(n)[0] == digits(n / 10)[0]);
    }
}

/// A number with a sign is read back: the digits of its size, behind a minus
/// sign where it is negative.
pub proof fn decimals_read_back(n: int)
    ensures
        n >= 0 ==> number_in(decimal(n)) == n && all_digits(decimal(n)),
        n < 0 ==> decimal(n)[0] == '-' && number_in(decimal(n).skip(1)) == -n && all_digits(
            decimal(n).skip(1),
        ),
{
    if n < 0 {
        digits_read_back((-n) as nat);
        assert(decimal(n).skip(1) =~= digits((-n) as nat));
    } else {
        digits_read_back(n as nat);
    }
}

/// A zero in front does not change the number.
proof fn zero_in_front(text: Seq<char>)
    ensures
        number_in(seq!['0'] + text) == number_in(text),
    decreases text.len(),
{
    let longer = seq!['0'] + text;
    if text.len() == 0 {
        assert(longer.drop_last() =~= Seq::<char>::empty());
        reveal_with_fuel(number_in, 2);
    } else {
        assert(longer.drop_last() =~= seq!['0'] + text.drop_last());
        zero_in_front(text.drop_last());
    }
}

/// A number shown with two digits at least is read back, and up to 99 it has
/// just two.
pub proof fn two_digits_read_back(n: nat)
    ensures
        number_in(two_digits(n)) == n,
        all_digits(two_digits(n)),
        two_digits(n).len() >= 2,
        n < 100 ==> two_digits(n).len() == 2,
{
    digits_read_back(n);
    if n < 10 {
        zero_in_front(digits(n));
        assert(digits(n).len() == 1);
    } else {
        digits_read_back(n / 10);
        if n < 100 {
            assert(digits(n / 10).len() == 1);
        }
    }
}

/// Whether `c` is the lower-case hexadecimal digit for `d`.
pub open spec fn stands_for(c: char, d: int) -> bool {
    ||| '0' <= c <= '9' && d == c as int - '0' as int
    ||| 'a' <= c <= 'f' && d == c as int - 'a' as int + 10
}

/// Every byte is written as two lower-case hexadecimal digits, the high one
/// first.
pub proof fn bytes_are_written_in_hex(bytes: Seq<u8>, i: int)
    requires
        0 <= i < bytes.len(),
    ensures
        hex(bytes).len() == 2 * bytes.len(),
        stands_for(hex(bytes)[2 * i], bytes[i] as int / 16),
        stands_for(hex(bytes)[2 * i + 1], bytes[i] as int % 16),
{
    assert((2 * i) / 2 == i && (2 * i + 1) / 2 == i && (2 * i + 1) % 2 == 1);
}

/// A text begins with a prefix where something can be put behind the prefix
/// that makes it the text, and only there; that is what is left without it.
pub proof fn prefixes_begin_texts(text: Seq<char>, prefix: Seq<char>, tail: Seq<char>)
    ensures
        has_prefix(text, prefix) ==> prefix + text.skip(prefix.len() as int) == text,
        prefix + tail == text ==> has_prefix(text, prefix) && without_prefix(text, prefix) == tail,
        !has_prefix(text, prefix) ==> without_prefix(text, prefix) == text,
{
    if has_prefix(text, prefix) {
        assert(prefix + text.skip(prefix.len() as int) =~= text);
    }
    if prefix + tail == text {
        assert(text.subrange(0, prefix.len() as int) =~= prefix);
        assert(text.skip(prefix.len() as int) =~= tail);
    }
}

/// A part occurs in a text where something can be put before and behind it that
/// makes it the text, and only there.
pub proof fn parts_occur_in_texts(text: Seq<char>, part: Seq<char>)
    ensures
        has_substring(text, part) <==> exists|before: Seq<char>, behind: Seq<char>|
            #[trigger] (before + part + behind) == text,
{
    if has_substring(text, part) {
        let at = choose|at: int| occurs_at(text, part, at);
        let before = text.take(at);
        let behind = text.skip(at + part.len());
        assert(before + part + behind =~= text);
    }
    if exists|before: Seq<char>, behind: Seq<char>| #[trigger] (before + part + behind) == text {
        let (before, behind) = choose|before: Seq<char>, behind: Seq<char>|
            #[trigger] (before + part + behind) == text;
        assert(text.subrange(before.len() as int, (before.len() + part.len()) as int) =~= part);
        assert(occurs_at(text, part, before.len() as int));
    }
}

} // verus!
