//! Colours: the profile that maps elevation to colour, and the palette
//! that a colour is snapped to.

use crate::common::types::{frac, Fraction, HeightInt};
use crate::common::util::{decimal, decimal_digits, with_prefix};
use regex::Regex;
use std::collections::HashMap;
use vstd::prelude::*;
use vstd::string::StrSliceExecFns;
use vstd::string::StringExecFns;

verus! {

broadcast use vstd::std_specs::hash::group_hash_axioms;

/// Color componenent: a fraction in `[0, 1]`.
pub type ColorComponent = Fraction;

/// The denominator of the channels of a colour profile: channels are kept
/// to nine decimal places.
pub const CHANNEL_SCALE: i64 = 1_000_000_000;

/// RGB Color
#[derive(Debug, Clone, Copy)]
pub struct RGB(pub ColorComponent, pub ColorComponent, pub ColorComponent);

/// Integer precision for defining colors
pub type ColorPrecision = u16;

/// Color specification with three numbers defining positions in rgb color intervals
pub type ColorPosition = (ColorPrecision, ColorPrecision, ColorPrecision);

/// Elevation to RGB Color mapping
pub type ColorMappning = HashMap<HeightInt, RGB>;

/// Color profile file content
pub type ColorProfileFileContent = Vec<String>;

/// Color profile record (element of color table)
#[derive(Debug, Clone, Copy)]
pub struct ColorRecord(
    pub HeightInt,
    pub ColorComponent,
    pub ColorComponent,
    pub ColorComponent,
);

/// What the text of a channel says.
#[derive(Debug, Clone, Copy)]
pub enum ChannelText {
    /// No decimal number.
    Malformed,
    /// A decimal number above one.
    TooLarge,
    /// A decimal number in `[0, 1]`.
    Value(ColorComponent),
}

/// What a line of a colour profile says.
#[derive(Debug, Clone, Copy)]
pub enum LineOutcome {
    /// No row: the line is to be passed over.
    Skip,
    /// A row whose channel in the given column, counted from one, is above
    /// one.
    OutOfRange(u8),
    /// A row.
    Row(ColorRecord),
}

impl RGB {
    /// Every channel is a fraction in `[0, 1]`.
    pub open spec fn wf(&self) -> bool {
        self.0.is_unit() && self.1.is_unit() && self.2.is_unit()
    }
}

impl ColorRecord {
    /// Every channel is a fraction in `[0, 1]` over the scale of the
    /// profile.
    pub open spec fn wf(&self) -> bool {
        &&& self.1.is_unit() && self.1.den == CHANNEL_SCALE
        &&& self.2.is_unit() && self.2.den == CHANNEL_SCALE
        &&& self.3.is_unit() && self.3.den == CHANNEL_SCALE
    }

    /// The colour of the record.
    pub open spec fn color(&self) -> RGB {
        RGB(self.1, self.2, self.3)
    }
}

/// The character is a decimal digit.
pub open spec fn is_digit(c: char) -> bool {
    48 <= c as u32 <= 57
}

/// The value of a decimal digit.
pub open spec fn digit_of(c: char) -> int {
    c as u32 - 48
}

/// Every character is a decimal digit.
pub open spec fn all_digits(s: Seq<char>) -> bool {
    forall|i: int| 0 <= i < s.len() ==> is_digit(#[trigger] s[i])
}

/// The number that a sequence of decimal digits spells; zero for none.
pub open spec fn digits_value(s: Seq<char>) -> nat
    decreases s.len(),
{
    if s.len() == 0 {
        0
    } else {
        (10 * digits_value(s.drop_last()) + digit_of(s.last())) as nat
    }
}

/// Ten to the power of `n`.
pub open spec fn pow10(n: nat) -> nat
    decreases n,
{
    if n == 0 {
        1
    } else {
        10 * pow10((n - 1) as nat)
    }
}

/// The position of the first point in the text, or its length where it has
/// none.
pub open spec fn first_dot(s: Seq<char>) -> int
    decreases s.len(),
{
    if s.len() == 0 {
        0
    } else if s[0] == '.' {
        0
    } else {
        1 + first_dot(s.skip(1))
    }
}

/// The digits after the point in units of `10^-9`: the first nine of them
/// count, the rest are dropped.
pub open spec fn nanos_of(fraction: Seq<char>) -> nat {
    let kept = if fraction.len() <= 9 {
        fraction
    } else {
        fraction.take(9)
    };
    digits_value(kept) * pow10((9 - kept.len()) as nat)
}

/// What the text of an elevation says: a natural number of at most 32767,
/// written in digits alone.
pub open spec fn spec_parse_height(s: Seq<char>) -> Option<HeightInt> {
    if s.len() >= 1 && all_digits(s) && digits_value(s) <= 32767 {
        Some(digits_value(s) as i16)
    } else {
        None
    }
}

/// What the text of a channel says. A decimal number is digits, then at
/// most one point with digits behind it, and holds at least one digit.
pub open spec fn spec_parse_channel(s: Seq<char>) -> ChannelText {
    let p = first_dot(s);
    let whole = s.take(p);
    let fraction = if p < s.len() {
        s.skip(p + 1)
    } else {
        Seq::<char>::empty()
    };
    if !all_digits(whole) || !all_digits(fraction) || whole.len() + fraction.len() == 0 {
        ChannelText::Malformed
    } else if digits_value(whole) >= 2 || (digits_value(whole) == 1 && digits_value(fraction)
        > 0) {
        ChannelText::TooLarge
    } else {
        ChannelText::Value(
            frac(digits_value(whole) * CHANNEL_SCALE + nanos_of(fraction), CHANNEL_SCALE as int),
        )
    }
}

/// What the four fields of a line say. A field that is no number makes the
/// line one to pass over; of the channels above one, the first is named.
pub open spec fn spec_line_outcome(
    h: Seq<char>,
    r: Seq<char>,
    g: Seq<char>,
    b: Seq<char>,
) -> LineOutcome {
    match (
        spec_parse_height(h),
        spec_parse_channel(r),
        spec_parse_channel(g),
        spec_parse_channel(b),
    ) {
        (None, _, _, _) => LineOutcome::Skip,
        (_, ChannelText::Malformed, _, _) => LineOutcome::Skip,
        (_, _, ChannelText::Malformed, _) => LineOutcome::Skip,
        (_, _, _, ChannelText::Malformed) => LineOutcome::Skip,
        (_, ChannelText::TooLarge, _, _) => LineOutcome::OutOfRange(2),
        (_, _, ChannelText::TooLarge, _) => LineOutcome::OutOfRange(3),
        (_, _, _, ChannelText::TooLarge) => LineOutcome::OutOfRange(4),
        (Some(h), ChannelText::Value(r), ChannelText::Value(g), ChannelText::Value(b)) => {
            LineOutcome::Row(ColorRecord(h, r, g, b))
        },
    }
}

/// Where no character before position `k` is a point, and position `k`
/// holds one or ends the text, the first point stands at `k`.
pub proof fn lemma_first_dot(s: Seq<char>, k: int)
    requires
        0 <= k <= s.len(),
        forall|i: int| 0 <= i < k ==> s[i] != '.',
        k < s.len() ==> s[k] == '.',
    ensures
        first_dot(s) == k,
    decreases s.len(),
{
    if k > 0 {
        let t = s.skip(1);
        assert forall|i: int| 0 <= i < k - 1 implies t[i] != '.' by {
            assert(t[i] == s[i + 1]);
        }
        lemma_first_dot(t, k - 1);
    }
}

/// Appending a digit multiplies the number by ten and adds the digit.
pub proof fn lemma_digits_step(s: Seq<char>, a: int, k: int)
    requires
        0 <= a <= k < s.len(),
    ensures
        digits_value(s.subrange(a, k + 1)) == 10 * digits_value(s.subrange(a, k)) + digit_of(
            s[k],
        ) || !is_digit(s[k]),
        all_digits(s.subrange(a, k + 1)) <==> all_digits(s.subrange(a, k)) && is_digit(s[k]),
{
    let t = s.subrange(a, k + 1);
    assert(t.drop_last() =~= s.subrange(a, k));
    assert(t.last() == s[k]);
    if all_digits(s.subrange(a, k)) && is_digit(s[k]) {
        assert forall|i: int| 0 <= i < t.len() implies is_digit(#[trigger] t[i]) by {
            if i < k - a {
                assert(t[i] == s.subrange(a, k)[i]);
            }
        }
    }
    if all_digits(t) {
        assert(is_digit(t[k - a]));
        assert forall|i: int| 0 <= i < k - a implies is_digit(#[trigger] s.subrange(a, k)[i]) by {
            assert(s.subrange(a, k)[i] == t[i]);
        }
    }
}

/// Whether the character is a decimal digit, and its value.
fn digit_value(c: char) -> (d: Option<u8>)
    ensures
        d is Some <==> is_digit(c),
        d matches Some(v) ==> v == digit_of(c) && v < 10,
{
    let code: u32 = c as u32;
    if 48 <= code && code <= 57 {
        Some((code - 48) as u8)
    } else {
        None
    }
}

/// Reads the text of an elevation.
pub fn parse_height(token: &str) -> (h: Option<HeightInt>)
    ensures
        h == spec_parse_height(token@),
{
    let len: usize = token.unicode_len();
    if len == 0 {
        return None;
    }
    let mut acc: u32 = 0;
    let mut k: usize = 0;
    while k < len
        invariant
            len == token@.len(),
            k <= len,
            all_digits(token@.subrange(0, k as int)),
            acc <= 32768,
            acc == (if digits_value(token@.subrange(0, k as int)) > 32767 {
                32768
            } else {
                digits_value(token@.subrange(0, k as int))
            }),
        decreases len - k,
    {
        let c: char = token.get_char(k);
        proof {
            lemma_digits_step(token@, 0, k as int);
        }
        match digit_value(c) {
            None => {
                proof {
                    assert(!all_digits(token@)) by {
                        if all_digits(token@) {
                            assert(is_digit(token@[k as int]));
                        }
                    }
                }
                return None;
            },
            Some(d) => {
                let next: u32 = acc * 10 + d as u32;
                acc = if next > 32767 {
                    32768
                } else {
                    next
                };
            },
        }
        k += 1;
    }
    assert(token@.subrange(0, len as int) =~= token@);
    if acc > 32767 {
        None
    } else {
        Some(acc as i16)
    }
}

/// The position of the first point of the text.
fn find_dot(token: &str) -> (p: usize)
    ensures
        p == first_dot(token@),
        p <= token@.len(),
{
    let len: usize = token.unicode_len();
    let mut p: usize = 0;
    while p < len && token.get_char(p) != '.'
        invariant
            len == token@.len(),
            p <= len,
            forall|i: int| 0 <= i < p ==> token@[i] != '.',
        decreases len - p,
    {
        p += 1;
    }
    proof {
        lemma_first_dot(token@, p as int);
    }
    p
}

/// The number that the first `p` characters spell, or two where it is
/// more; nothing where one of them is no digit.
fn whole_part(token: &str, p: usize) -> (w: Option<u8>)
    requires
        p <= token@.len(),
    ensures
        w is Some <==> all_digits(token@.subrange(0, p as int)),
        w matches Some(n) ==> n == (if digits_value(token@.subrange(0, p as int)) >= 2 {
            2
        } else {
            digits_value(token@.subrange(0, p as int))
        }),
{
    let ghost s = token@;
    let mut whole: u8 = 0;
    let mut k: usize = 0;
    while k < p
        invariant
            s == token@,
            p <= s.len(),
            k <= p,
            all_digits(s.subrange(0, k as int)),
            whole <= 2,
            whole == (if digits_value(s.subrange(0, k as int)) >= 2 {
                2
            } else {
                digits_value(s.subrange(0, k as int))
            }),
        decreases p - k,
    {
        let c: char = token.get_char(k);
        proof {
            lemma_digits_step(s, 0, k as int);
        }
        match digit_value(c) {
            None => {
                proof {
                    let w = s.subrange(0, p as int);
                    assert(!all_digits(w)) by {
                        if all_digits(w) {
                            assert(is_digit(w[k as int]));
                        }
                    }
                }
                return None;
            },
            Some(d) => {
                let next: u8 = whole * 10 + d;
                whole = if next >= 2 {
                    2
                } else {
                    next
                };
            },
        }
        k += 1;
    }
    Some(whole)
}

/// The digits from position `start` on in units of `10^-9`, and whether any
/// of them is not zero; nothing where one of them is no digit.
fn fraction_part(token: &str, start: usize) -> (f: Option<(u32, bool)>)
    requires
        start <= token@.len(),
    ensures
        f is Some <==> all_digits(token@.subrange(start as int, token@.len() as int)),
        f matches Some((nanos, nonzero)) ==> {
            &&& nanos == nanos_of(token@.subrange(start as int, token@.len() as int))
            &&& nonzero == (digits_value(token@.subrange(start as int, token@.len() as int)) > 0)
            &&& nanos < 1_000_000_000
            &&& nanos > 0 ==> nonzero
        },
{
    let len: usize = token.unicode_len();
    let ghost s = token@;
    let ghost fraction = s.subrange(start as int, len as int);
    let mut kept: u32 = 0;
    let mut kept_count: usize = 0;
    let mut nonzero: bool = false;
    let mut k: usize = start;
    proof {
        reveal_with_fuel(pow10, 10);
    }
    while k < len
        invariant
            s == token@,
            len == s.len(),
            start <= k <= len,
            all_digits(s.subrange(start as int, k as int)),
            nonzero == (digits_value(s.subrange(start as int, k as int)) > 0),
            kept_count == (if k - start <= 9 {
                k - start
            } else {
                9
            }),
            kept == digits_value(s.subrange(start as int, start + kept_count)),
            kept < pow10(kept_count as nat),
            pow10(kept_count as nat) <= pow10(9),
            pow10(9) == 1_000_000_000,
            kept > 0 ==> nonzero,
        decreases len - k,
    {
        let c: char = token.get_char(k);
        proof {
            lemma_digits_step(s, start as int, k as int);
        }
        match digit_value(c) {
            None => {
                proof {
                    let f = s.subrange(start as int, len as int);
                    assert(!all_digits(f)) by {
                        if all_digits(f) {
                            assert(is_digit(f[k - start]));
                        }
                    }
                }
                return None;
            },
            Some(d) => {
                if kept_count < 9 {
                    proof {
                        lemma_pow10_grows(kept_count as nat, 8);
                    }
                    kept = kept * 10 + d as u32;
                    kept_count += 1;
                }
                if d > 0 {
                    nonzero = true;
                }
            },
        }
        k += 1;
    }
    // bring the digits that were kept to nine places

    let mut nanos: u32 = kept;
    let mut places: usize = kept_count;
    assert(pow10(0) == 1);
    assert(kept * pow10(0) == kept);
    while places < 9
        invariant
            kept_count <= places <= 9,
            nanos == kept * pow10((places - kept_count) as nat),
            nanos < pow10(places as nat),
            pow10(places as nat) <= pow10(9),
            pow10(9) == 1_000_000_000,
        decreases 9 - places,
    {
        proof {
            lemma_pow10_grows(places as nat, 8);
            assert(kept * (10 * pow10((places - kept_count) as nat)) == 10 * (kept * pow10(
                (places - kept_count) as nat,
            ))) by (nonlinear_arith);
        }
        nanos = nanos * 10;
        places += 1;
    }
    proof {
        let taken = if fraction.len() <= 9 {
            fraction
        } else {
            fraction.take(9)
        };
        assert(taken =~= s.subrange(start as int, start + kept_count));
        if kept == 0 {
            assert(kept * pow10((9 - kept_count) as nat) == 0) by (nonlinear_arith)
                requires
                    kept == 0,
            ;
        }
    }
    Some((nanos, nonzero))
}

/// Reads the text of a channel.
pub fn parse_channel(token: &str) -> (c: ChannelText)
    ensures
        c == spec_parse_channel(token@),
        c matches ChannelText::Value(f) ==> f.is_unit() && f.den == CHANNEL_SCALE,
{
    let len: usize = token.unicode_len();
    let ghost s = token@;
    let p: usize = find_dot(token);
    let start: usize = if p < len {
        p + 1
    } else {
        len
    };
    proof {
        let fraction = if p < len {
            s.skip(p + 1)
        } else {
            Seq::<char>::empty()
        };
        assert(s.take(p as int) =~= s.subrange(0, p as int));
        assert(fraction =~= s.subrange(start as int, len as int));
    }
    let whole: u8 = match whole_part(token, p) {
        None => {
            return ChannelText::Malformed;
        },
        Some(w) => w,
    };
    let (nanos, nonzero) = match fraction_part(token, start) {
        None => {
            return ChannelText::Malformed;
        },
        Some(f) => f,
    };
    if p + (len - start) == 0 {
        return ChannelText::Malformed;
    }
    if whole >= 2 || (whole == 1 && nonzero) {
        return ChannelText::TooLarge;
    }
    ChannelText::Value(
        Fraction { num: (whole as i64) * CHANNEL_SCALE + nanos as i64, den: CHANNEL_SCALE },
    )
}

/// Powers of ten grow with the exponent.
pub proof fn lemma_pow10_grows(n: nat, m: nat)
    requires
        n <= m,
    ensures
        pow10(n) <= pow10(m),
        pow10(n + 1) == 10 * pow10(n),
        pow10(n + 1) <= pow10(m + 1),
        pow10(n) >= 1,
    decreases m,
{
    if n < m {
        lemma_pow10_grows(n, (m - 1) as nat);
    } else {
        if n > 0 {
            lemma_pow10_grows((n - 1) as nat, (n - 1) as nat);
        }
    }
}

/// Reads the four fields of a line.
pub fn parse_profile_line(h: &str, r: &str, g: &str, b: &str) -> (o: LineOutcome)
    ensures
        o == spec_line_outcome(h@, r@, g@, b@),
        o matches LineOutcome::Row(record) ==> record.wf() && record.0 >= 0,
{
    let height: Option<HeightInt> = parse_height(h);
    let red: ChannelText = parse_channel(r);
    let green: ChannelText = parse_channel(g);
    let blue: ChannelText = parse_channel(b);
    match (height, red, green, blue) {
        (None, _, _, _) => LineOutcome::Skip,
        (_, ChannelText::Malformed, _, _) => LineOutcome::Skip,
        (_, _, ChannelText::Malformed, _) => LineOutcome::Skip,
        (_, _, _, ChannelText::Malformed) => LineOutcome::Skip,
        (_, ChannelText::TooLarge, _, _) => LineOutcome::OutOfRange(2),
        (_, _, ChannelText::TooLarge, _) => LineOutcome::OutOfRange(3),
        (_, _, _, ChannelText::TooLarge) => LineOutcome::OutOfRange(4),
        (Some(h), ChannelText::Value(r), ChannelText::Value(g), ChannelText::Value(b)) => {
            LineOutcome::Row(ColorRecord(h, r, g, b))
        },
    }
}

/// The pattern of a row of a colour profile: an elevation and three
/// channels, separated by white space.
pub const PROFILE_LINE_PATTERN: &'static str =
    r"^([0-9]+)\s+([0-9.]+)\s+([0-9.]+)\s+([0-9.]+)\s*$";

/// The groups that a regular expression captures in a text: none where the
/// expression does not match; else the text of each group, the whole match
/// first.
pub uninterp spec fn regex_captures(pattern: Seq<char>, text: Seq<char>) -> Option<Seq<Seq<char>>>;

/// The texts of a sequence of strings.
pub open spec fn texts(strings: Seq<String>) -> Seq<Seq<char>> {
    Seq::new(strings.len(), |i: int| strings[i]@)
}

/// Calls `Regex::new` of the crate `regex` on the pattern and
/// `Regex::captures` on the text. Claims only that the outcome is a function
/// of the pattern and the text: the groups of the leftmost match, the whole
/// match first and the empty text for a group that took no part; none where
/// there is no match or the pattern is refused.
#[verifier::external_body]
fn captures(pattern: &str, text: &str) -> (groups: Option<Vec<String>>)
    ensures
        match groups {
            Some(found) => regex_captures(pattern@, text@) == Some(texts(found@)),
            None => regex_captures(pattern@, text@) is None,
        },
{
    match Regex::new(pattern) {
        Ok(re) => re.captures(text).map(
            |caps| caps.iter().map(|m| m.map_or(String::new(), |m| m.as_str().to_string())).collect(),
        ),
        Err(_) => None,
    }
}

/// What the groups captured in a line say: a row has four groups.
pub open spec fn spec_groups_outcome(groups: Option<Seq<Seq<char>>>) -> LineOutcome {
    match groups {
        Some(found) => if found.len() == 5 {
            spec_line_outcome(found[1], found[2], found[3], found[4])
        } else {
            LineOutcome::Skip
        },
        None => LineOutcome::Skip,
    }
}

/// What a line of a colour profile says.
pub open spec fn spec_profile_line(line: Seq<char>) -> LineOutcome {
    spec_groups_outcome(regex_captures(PROFILE_LINE_PATTERN@, line))
}

/// The name of a column of the profile.
pub open spec fn column_name(column: u8) -> Seq<char> {
    if column == 2 {
        "second"@
    } else if column == 3 {
        "third"@
    } else {
        "fourth"@
    }
}

/// The complaint about a channel above one.
pub open spec fn range_message(column: u8, line: nat) -> Seq<char> {
    "Invalid number in "@ + column_name(column) + " column of line "@ + decimal_digits(line)
        + " in color profile"@
}

/// The complaint about a row whose elevation is not above that of the row
/// before it.
pub open spec fn order_message(line: nat) -> Seq<char> {
    "Heights in color profile must be strictly incremental: first column of line "@
        + decimal_digits(line)
}

/// The rows of a colour table ascend strictly in elevation, and their
/// channels are fractions in `[0, 1]` over the scale of the profile.
pub open spec fn is_color_rows(table: Seq<ColorRecord>) -> bool {
    &&& forall|i: int, j: int| 0 <= i < j < table.len() ==> table[i].0 < table[j].0
    &&& forall|i: int| 0 <= i < table.len() ==> (#[trigger] table[i]).wf()
}

/// A colour table: at least one row, ascending strictly.
pub open spec fn is_color_table(table: Seq<ColorRecord>) -> bool {
    table.len() >= 1 && is_color_rows(table)
}

/// What each line of a profile says.
pub open spec fn line_outcomes(lines: Seq<Seq<char>>) -> Seq<LineOutcome> {
    Seq::new(lines.len(), |l: int| spec_profile_line(lines[l]))
}

/// The rows among the first `n` lines, in the order of the lines, or the
/// complaint about the first line that is in the way: a row with a channel
/// above one, or a row that does not ascend.
pub open spec fn scan_lines(outcomes: Seq<LineOutcome>, n: int) -> Result<
    Seq<ColorRecord>,
    Seq<char>,
>
    decreases n,
{
    if n <= 0 {
        Ok(Seq::empty())
    } else {
        match scan_lines(outcomes, n - 1) {
            Err(e) => Err(e),
            Ok(table) => match outcomes[n - 1] {
                LineOutcome::Skip => Ok(table),
                LineOutcome::OutOfRange(column) => Err(range_message(column, n as nat)),
                LineOutcome::Row(record) => if table.len() > 0 && record.0 <= table.last().0 {
                    Err(order_message(n as nat))
                } else {
                    Ok(table.push(record))
                },
            },
        }
    }
}

/// The colour table of a profile, or the complaint about it.
pub open spec fn spec_color_table(lines: Seq<Seq<char>>) -> Result<Seq<ColorRecord>, Seq<char>> {
    match scan_lines(line_outcomes(lines), lines.len() as int) {
        Err(e) => Err(e),
        Ok(table) => if table.len() == 0 {
            Err("Color table is empty"@)
        } else {
            Ok(table)
        },
    }
}

/// A complaint stands: the lines that follow do not change it.
pub proof fn lemma_scan_error_stands(lines: Seq<LineOutcome>, l: int, n: int)
    requires
        0 <= l <= n,
        scan_lines(lines, l) is Err,
    ensures
        scan_lines(lines, n) == scan_lines(lines, l),
    decreases n - l,
{
    if l < n {
        lemma_scan_error_stands(lines, l, n - 1);
    }
}

/// Each row of a colour table is the row of a line.
pub proof fn lemma_scan_rows_are_lines(outcomes: Seq<LineOutcome>, n: int)
    requires
        0 <= n <= outcomes.len(),
        scan_lines(outcomes, n) is Ok,
    ensures
        scan_lines(outcomes, n)->Ok_0.len() <= n,
        forall|k: int|
            0 <= k < scan_lines(outcomes, n)->Ok_0.len() ==> exists|l: int|
                k <= l < n && outcomes[l] == LineOutcome::Row(
                    #[trigger] scan_lines(outcomes, n)->Ok_0[k],
                ),
    decreases n,
{
    if n > 0 {
        lemma_scan_rows_are_lines(outcomes, n - 1);
        let rest = scan_lines(outcomes, n - 1)->Ok_0;
        let all = scan_lines(outcomes, n)->Ok_0;
        assert forall|k: int| 0 <= k < all.len() implies exists|l: int|
            k <= l < n && outcomes[l] == LineOutcome::Row(#[trigger] all[k]) by {
            if k < rest.len() {
                assert(all[k] == rest[k]);
                let l = choose|l: int|
                    k <= l < n - 1 && outcomes[l] == LineOutcome::Row(#[trigger] rest[k]);
                assert(k <= l < n && outcomes[l] == LineOutcome::Row(all[k]));
            } else {
                assert(outcomes[n - 1] == LineOutcome::Row(all[k]));
            }
        }
    }
}

/// A colour table keeps the order of the profile: of two rows of the table
/// the earlier one comes from the earlier line.
pub proof fn lemma_scan_keeps_order(outcomes: Seq<LineOutcome>, n: int)
    requires
        0 <= n <= outcomes.len(),
        scan_lines(outcomes, n) is Ok,
    ensures
        forall|k1: int, k2: int|
            #![trigger scan_lines(outcomes, n)->Ok_0[k1], scan_lines(outcomes, n)->Ok_0[k2]]
            0 <= k1 < k2 < scan_lines(outcomes, n)->Ok_0.len() ==> exists|l1: int, l2: int|
                0 <= l1 < l2 < n && #[trigger] outcomes[l1] == LineOutcome::Row(
                    scan_lines(outcomes, n)->Ok_0[k1],
                ) && #[trigger] outcomes[l2] == LineOutcome::Row(scan_lines(outcomes, n)->Ok_0[k2]),
    decreases n,
{
    if n > 0 {
        lemma_scan_keeps_order(outcomes, n - 1);
        lemma_scan_rows_are_lines(outcomes, n - 1);
        let rest = scan_lines(outcomes, n - 1)->Ok_0;
        let all = scan_lines(outcomes, n)->Ok_0;
        assert forall|k1: int, k2: int|
            #![trigger all[k1], all[k2]]
            0 <= k1 < k2 < all.len() implies exists|l1: int, l2: int|
            0 <= l1 < l2 < n && #[trigger] outcomes[l1] == LineOutcome::Row(all[k1])
                && #[trigger] outcomes[l2] == LineOutcome::Row(all[k2]) by {
            assert(all[k1] == rest[k1]);
            if k2 < rest.len() {
                assert(all[k2] == rest[k2]);
                let (l1, l2) = choose|l1: int, l2: int|
                    0 <= l1 < l2 < n - 1 && #[trigger] outcomes[l1] == LineOutcome::Row(rest[k1])
                        && #[trigger] outcomes[l2] == LineOutcome::Row(rest[k2]);
                assert(0 <= l1 < l2 < n && outcomes[l1] == LineOutcome::Row(all[k1])
                    && outcomes[l2] == LineOutcome::Row(all[k2]));
            } else {
                let l1 = choose|l: int|
                    k1 <= l < n - 1 && outcomes[l] == LineOutcome::Row(#[trigger] rest[k1]);
                assert(0 <= l1 < n - 1 < n && outcomes[l1] == LineOutcome::Row(all[k1])
                    && outcomes[n - 1] == LineOutcome::Row(all[k2]));
            }
        }
    }
}

/// No row of the profile is left out of its colour table.
pub proof fn lemma_scan_keeps_rows(outcomes: Seq<LineOutcome>, n: int)
    requires
        0 <= n <= outcomes.len(),
        scan_lines(outcomes, n) is Ok,
    ensures
        forall|l: int|
            0 <= l < n && (#[trigger] outcomes[l]) is Row ==> exists|k: int|
                0 <= k < scan_lines(outcomes, n)->Ok_0.len() && outcomes[l] == LineOutcome::Row(
                    #[trigger] scan_lines(outcomes, n)->Ok_0[k],
                ),
    decreases n,
{
    if n > 0 {
        lemma_scan_keeps_rows(outcomes, n - 1);
        let rest = scan_lines(outcomes, n - 1)->Ok_0;
        let all = scan_lines(outcomes, n)->Ok_0;
        assert forall|l: int| 0 <= l < n && (#[trigger] outcomes[l]) is Row implies exists|k: int|
            0 <= k < all.len() && outcomes[l] == LineOutcome::Row(#[trigger] all[k]) by {
            if l < n - 1 {
                let k = choose|k: int|
                    0 <= k < rest.len() && outcomes[l] == LineOutcome::Row(#[trigger] rest[k]);
                assert(all[k] == rest[k]);
            } else {
                assert(outcomes[l] == LineOutcome::Row(all[all.len() - 1]));
            }
        }
    }
}

/// Reads what was captured in a line.
pub fn groups_outcome(groups: &Option<Vec<String>>) -> (o: LineOutcome)
    ensures
        o == spec_groups_outcome(
            match groups {
                Some(found) => Some(texts(found@)),
                None => None,
            },
        ),
        o matches LineOutcome::Row(record) ==> record.wf() && record.0 >= 0,
{
    match groups {
        Some(found) => {
            if found.len() == 5 {
                parse_profile_line(
                    found[1].as_str(),
                    found[2].as_str(),
                    found[3].as_str(),
                    found[4].as_str(),
                )
            } else {
                LineOutcome::Skip
            }
        },
        None => LineOutcome::Skip,
    }
}

/// The complaint about a channel above one.
fn make_range_message(column: u8, line: usize) -> (msg: String)
    requires
        2 <= column <= 4,
    ensures
        msg@ == range_message(column, line as nat),
{
    let name: &'static str = if column == 2 {
        "second"
    } else if column == 3 {
        "third"
    } else {
        "fourth"
    };
    let mut msg: String = with_prefix("Invalid number in ", name);
    msg.append(" column of line ");
    let number: String = decimal(line);
    msg.append(number.as_str());
    msg.append(" in color profile");
    msg
}

/// The complaint about a row that does not ascend.
fn make_order_message(line: usize) -> (msg: String)
    ensures
        msg@ == order_message(line as nat),
{
    let number: String = decimal(line);
    with_prefix(
        "Heights in color profile must be strictly incremental: first column of line ",
        number.as_str(),
    )
}

/// Builds the colour table of a profile: the rows of its lines, in their
/// order. Fails on the first row with a channel above one or with an
/// elevation that is not above that of the row before, naming the column
/// and the line, and on a profile without rows.
pub fn build_color_table(file_content: ColorProfileFileContent) -> (r: Result<
    Vec<ColorRecord>,
    String,
>)
    ensures
        match spec_color_table(texts(file_content@)) {
            Ok(table) => r matches Ok(v) && v@ == table && is_color_table(table),
            Err(e) => r matches Err(msg) && msg@ == e,
        },
{
    let ghost lines = line_outcomes(texts(file_content@));
    let mut l: usize = 0;
    let mut prev_h: HeightInt = -32767;
    let mut color_table: Vec<ColorRecord> = Vec::new();
    while l < file_content.len()
        invariant
            lines == line_outcomes(texts(file_content@)),
            l <= file_content.len(),
            scan_lines(lines, l as int) == Ok::<Seq<ColorRecord>, Seq<char>>(color_table@),
            is_color_rows(color_table@),
            color_table.len() == 0 ==> prev_h < 0,
            color_table.len() > 0 ==> prev_h == color_table@.last().0,
        decreases file_content.len() - l,
    {
        let groups: Option<Vec<String>> = captures(PROFILE_LINE_PATTERN, file_content[l].as_str());
        let outcome: LineOutcome = groups_outcome(&groups);
        l += 1;
        assert(outcome == lines[l - 1]);
        match outcome {
            LineOutcome::Skip => {},
            LineOutcome::OutOfRange(column) => {
                proof {
                    lemma_scan_error_stands(lines, l as int, lines.len() as int);
                }
                return Err(make_range_message(column, l));
            },
            LineOutcome::Row(record) => {
                if record.0 <= prev_h {
                    proof {
                        lemma_scan_error_stands(lines, l as int, lines.len() as int);
                    }
                    return Err(make_order_message(l));
                }
                prev_h = record.0;
                color_table.push(record);
            },
        }
    }
    if color_table.len() == 0 {
        Err(String::from_str("Color table is empty"))
    } else {
        Ok(color_table)
    }
}

/// The colour that stands for "no palette".
pub open spec fn default_color() -> RGB {
    RGB(frac(1, 2), frac(1, 2), frac(1, 2))
}

/// A channel on the way from `c0` to `c1`: `dh` of `span` steps along.
pub open spec fn mix(c0: ColorComponent, c1: ColorComponent, dh: int, span: int) -> ColorComponent {
    frac(c0.num * span + (c1.num - c0.num) * dh, CHANNEL_SCALE * span)
}

/// The colour at elevation `h` between two rows: the lower row itself at
/// its own elevation, else each channel on its way to the upper row in
/// proportion to the elevation.
pub open spec fn blend(lower: ColorRecord, upper: ColorRecord, h: int) -> RGB {
    let dh = h - lower.0;
    let span = upper.0 - lower.0;
    if dh == 0 {
        lower.color()
    } else {
        RGB(
            mix(lower.1, upper.1, dh, span),
            mix(lower.2, upper.2, dh, span),
            mix(lower.3, upper.3, dh, span),
        )
    }
}

/// The colour of an elevation under a colour table: the colour of the last
/// row at and above its elevation, the colour of the first row below its
/// elevation, and between two rows their blend.
pub open spec fn table_color(table: Seq<ColorRecord>, h: int) -> RGB
    decreases table.len(),
{
    if table.len() == 0 {
        default_color()
    } else if table.len() == 1 || h >= table.last().0 {
        table.last().color()
    } else if h >= table[table.len() - 2].0 {
        blend(table[table.len() - 2], table.last(), h)
    } else {
        table_color(table.drop_last(), h)
    }
}

/// The colours of all elevations from the first row to the last.
pub open spec fn spec_color_mapping(table: Seq<ColorRecord>) -> Map<HeightInt, RGB> {
    Map::new(
        |h: HeightInt| table.first().0 <= h <= table.last().0,
        |h: HeightInt| table_color(table, h as int),
    )
}

/// Between two neighbouring rows the colour is their blend.
pub proof fn lemma_table_color_segment(table: Seq<ColorRecord>, k: int, h: int)
    requires
        is_color_table(table),
        0 <= k < table.len() - 1,
        table[k].0 <= h < table[k + 1].0,
    ensures
        table_color(table, h) == blend(table[k], table[k + 1], h),
    decreases table.len(),
{
    let n = table.len() as int;
    if k < n - 2 {
        let shorter = table.drop_last();
        assert(table[k + 1].0 <= table[n - 2].0);
        assert(table[n - 2].0 < table[n - 1].0);
        lemma_table_color_segment(shorter, k, h);
    }
}

/// Outside the table the colour is that of the nearest row.
pub proof fn lemma_table_color_clamps(table: Seq<ColorRecord>, h: int)
    requires
        is_color_table(table),
    ensures
        h < table.first().0 ==> table_color(table, h) == table.first().color(),
        h >= table.last().0 ==> table_color(table, h) == table.last().color(),
    decreases table.len(),
{
    let n = table.len() as int;
    if n >= 2 && h < table.first().0 {
        let shorter = table.drop_last();
        assert(n > 2 ==> table[0].0 < table[n - 2].0);
        assert(h < table[n - 2].0);
        assert(table[n - 2].0 < table[n - 1].0);
        assert(shorter.first() == table.first());
        assert(is_color_table(shorter));
        lemma_table_color_clamps(shorter, h);
    }
}

/// A blend of two rows is a colour.
pub proof fn lemma_mix_is_unit(c0: ColorComponent, c1: ColorComponent, dh: int, span: int)
    requires
        c0.is_unit() && c0.den == CHANNEL_SCALE,
        c1.is_unit() && c1.den == CHANNEL_SCALE,
        0 <= dh < span <= 65535,
    ensures
        0 <= c0.num * span + (c1.num - c0.num) * dh <= CHANNEL_SCALE * span,
        CHANNEL_SCALE * span <= 65_535_000_000_000,
        0 <= c0.num * span <= 65_535_000_000_000,
        -65_535_000_000_000 <= (c1.num - c0.num) * dh <= 65_535_000_000_000,
{
    let a = c0.num as int;
    let b = c1.num as int;
    assert(a * span + (b - a) * dh == a * (span - dh) + b * dh) by (nonlinear_arith);
    assert(0 <= a * (span - dh) <= 1_000_000_000 * (span - dh)) by (nonlinear_arith)
        requires
            0 <= a <= 1_000_000_000,
            0 < span - dh,
    ;
    assert(0 <= b * dh <= 1_000_000_000 * dh) by (nonlinear_arith)
        requires
            0 <= b <= 1_000_000_000,
            0 <= dh,
    ;
    assert(0 <= a * span <= 1_000_000_000 * span) by (nonlinear_arith)
        requires
            0 <= a <= 1_000_000_000,
            0 < span,
    ;
    assert(-1_000_000_000 * dh <= (b - a) * dh <= 1_000_000_000 * dh) by (nonlinear_arith)
        requires
            -1_000_000_000 <= b - a <= 1_000_000_000,
            0 <= dh,
    ;
}

/// A channel on the way from `c0` to `c1`.
fn mix_channel(c0: ColorComponent, c1: ColorComponent, dh: i64, span: i64) -> (c: ColorComponent)
    requires
        c0.is_unit() && c0.den == CHANNEL_SCALE,
        c1.is_unit() && c1.den == CHANNEL_SCALE,
        0 <= dh < span <= 65535,
    ensures
        c == mix(c0, c1, dh as int, span as int),
        c.is_unit(),
{
    proof {
        lemma_mix_is_unit(c0, c1, dh as int, span as int);
    }
    Fraction { num: c0.num * span + (c1.num - c0.num) * dh, den: CHANNEL_SCALE * span }
}

/// The colour at elevation `h` between two rows.
fn blend_rows(lower: &ColorRecord, upper: &ColorRecord, h: HeightInt) -> (c: RGB)
    requires
        lower.wf(),
        upper.wf(),
        lower.0 <= h < upper.0,
    ensures
        c == blend(*lower, *upper, h as int),
        c.wf(),
{
    let dh: i64 = h as i64 - lower.0 as i64;
    let span: i64 = upper.0 as i64 - lower.0 as i64;
    if dh == 0 {
        RGB(lower.1, lower.2, lower.3)
    } else {
        RGB(
            mix_channel(lower.1, upper.1, dh, span),
            mix_channel(lower.2, upper.2, dh, span),
            mix_channel(lower.3, upper.3, dh, span),
        )
    }
}

/// Builds color mapping data (HeightInt -> RGB)
pub fn build_color_mapping(color_table: &Vec<ColorRecord>) -> (color_mapping: ColorMappning)
    requires
        is_color_table(color_table@),
    ensures
        color_mapping@ == spec_color_mapping(color_table@),
{
    let ghost table = color_table@;
    let mut color_mapping: ColorMappning = HashMap::new();
    let n: usize = color_table.len();
    let last: ColorRecord = color_table[n - 1];
    proof {
        lemma_table_color_clamps(table, last.0 as int);
    }
    color_mapping.insert(last.0, RGB(last.1, last.2, last.3));  // biggest height

    let mut k: usize = 0;
    while k < n - 1
        invariant
            table == color_table@,
            is_color_table(table),
            n == table.len(),
            k <= n - 1,
            last == table.last(),
            color_mapping@ =~= Map::new(
                |h: HeightInt| table.first().0 <= h < table[k as int].0 || h == last.0,
                |h: HeightInt| table_color(table, h as int),
            ),
        decreases n - 1 - k,
    {
        let lower: ColorRecord = color_table[k];
        let upper: ColorRecord = color_table[k + 1];
        let mut h: HeightInt = lower.0;
        assert(table[0].0 <= table[k as int].0) by {
            if k > 0 {
                assert(table[0].0 < table[k as int].0);
            }
        }
        assert(table[k + 1].0 <= last.0) by {
            if k + 1 < n - 1 {
                assert(table[k + 1].0 < table[n - 1].0);
            }
        }
        while h < upper.0
            invariant
                table == color_table@,
                is_color_table(table),
                n == table.len(),
                k < n - 1,
                last == table.last(),
                lower == table[k as int],
                upper == table[k + 1],
                lower.0 <= h <= upper.0,
                table.first().0 <= lower.0,
                upper.0 <= last.0,
                color_mapping@ =~= Map::new(
                    |x: HeightInt| table.first().0 <= x < h || x == last.0,
                    |x: HeightInt| table_color(table, x as int),
                ),
            decreases upper.0 - h,
        {
            proof {
                lemma_table_color_segment(table, k as int, h as int);
            }
            let c: RGB = blend_rows(&lower, &upper, h);
            color_mapping.insert(h, c);
            h += 1;
        }
        k += 1;
    }
    assert(color_mapping@ =~= spec_color_mapping(table));
    color_mapping
}

/// The colours of a profile, ready to be looked up.
pub struct ColorMapping {
    pub mapping: ColorMappning,
    pub table: Vec<ColorRecord>,
}

impl ColorMapping {
    /// The table is a colour table, and the mapping holds its colours.
    pub open spec fn wf(&self) -> bool {
        is_color_table(self.table@) && self.mapping@ == spec_color_mapping(self.table@)
    }

    /// The colour of an elevation.
    pub open spec fn spec_color(&self, h: HeightInt) -> RGB {
        table_color(self.table@, h as int)
    }

    /// The colour of an elevation: that of the first row below the table,
    /// that of the last row above it, the blend of its neighbours between.
    pub fn color(&self, h: HeightInt) -> (c: RGB)
        requires
            self.wf(),
        ensures
            c == self.spec_color(h),
            c.wf(),
    {
        proof {
            lemma_table_color_clamps(self.table@, h as int);
            lemma_table_color_wf(self.table@, h as int);
        }
        match self.mapping.get(&h) {
            Some(c) => *c,
            None => {
                let first: ColorRecord = self.table[0];
                let last: ColorRecord = self.table[self.table.len() - 1];
                if h < first.0 {
                    RGB(first.1, first.2, first.3)
                } else {
                    RGB(last.1, last.2, last.3)
                }
            },
        }
    }
}

/// The colours of the profile with the given lines, or the complaint about
/// the profile.
pub fn get_color_mapping(file_content: ColorProfileFileContent) -> (r: Result<ColorMapping, String>)
    ensures
        match spec_color_table(texts(file_content@)) {
            Ok(table) => r matches Ok(m) && m.table@ == table && m.wf(),
            Err(e) => r matches Err(msg) && msg@ == e,
        },
{
    match build_color_table(file_content) {
        Ok(table) => {
            let mapping: ColorMappning = build_color_mapping(&table);
            Ok(ColorMapping { mapping, table })
        },
        Err(msg) => Err(msg),
    }
}

/// Every colour under a colour table is a colour: its channels are
/// fractions in `[0, 1]`.
pub proof fn lemma_table_color_wf(table: Seq<ColorRecord>, h: int)
    requires
        is_color_table(table),
    ensures
        table_color(table, h).wf(),
    decreases table.len(),
{
    let n = table.len() as int;
    assert(table.last().wf());
    if n >= 2 && h < table.last().0 {
        if h >= table[n - 2].0 {
            let lower = table[n - 2];
            let upper = table.last();
            assert(lower.wf());
            assert(lower.0 < upper.0);
            if h > lower.0 {
                lemma_mix_is_unit(lower.1, upper.1, h - lower.0, upper.0 - lower.0);
                lemma_mix_is_unit(lower.2, upper.2, h - lower.0, upper.0 - lower.0);
                lemma_mix_is_unit(lower.3, upper.3, h - lower.0, upper.0 - lower.0);
            }
        } else {
            lemma_table_color_wf(table.drop_last(), h);
        }
    }
}

/// The step nearest to a channel when `[0, 1]` is divided into `p` equal
/// steps; a channel half way between two steps goes to the upper one.
pub open spec fn nearest_step(c: ColorComponent, p: int) -> int {
    (2 * (c.num * p) + c.den) / (2 * c.den)
}

/// The colour of the palette of precision `p` nearest to a colour, and its
/// place in the palette. Precision zero stands for no palette: the answer is
/// then the default colour at place `(0, 0, 0)`.
pub open spec fn spec_allowed_color(p: ColorPrecision, color: RGB) -> (RGB, ColorPosition) {
    if p > 0 {
        let r_k = nearest_step(color.0, p as int);
        let g_k = nearest_step(color.1, p as int);
        let b_k = nearest_step(color.2, p as int);
        (
            RGB(frac(r_k, p as int), frac(g_k, p as int), frac(b_k, p as int)),
            (r_k as u16, g_k as u16, b_k as u16),
        )
    } else {
        (default_color(), (0u16, 0u16, 0u16))
    }
}

/// The nearest step of a channel in `[0, 1]` is one of the steps `0..=p`,
/// and no step is nearer: the channel is at most half a step away.
pub proof fn lemma_nearest_step(c: ColorComponent, p: int)
    requires
        c.is_unit(),
        0 < p,
    ensures
        0 <= nearest_step(c, p) <= p,
        -c.den <= 2 * (c.num * p) - 2 * (nearest_step(c, p) * c.den) <= c.den,
{
    let a = 2 * (c.num * p) + c.den;
    let d = 2 * c.den;
    let k = a / d;
    let r = a % d;
    assert(0 <= c.num * p <= c.den * p) by (nonlinear_arith)
        requires
            0 <= c.num <= c.den,
            0 < p,
    ;
    vstd::arithmetic::div_mod::lemma_fundamental_div_mod(a, d);
    vstd::arithmetic::div_mod::lemma_mod_bound(a, d);
    assert(d * k == 2 * (k * c.den)) by (nonlinear_arith)
        requires
            d == 2 * c.den,
    ;
    assert(d * p == 2 * (c.den * p)) by (nonlinear_arith)
        requires
            d == 2 * c.den,
    ;
    assert(0 <= k <= p) by (nonlinear_arith)
        requires
            a == d * k + r,
            0 <= r < d,
            0 < a,
            a <= d * p + c.den,
            d == 2 * c.den,
            c.den > 0,
    ;
}

/// The palette of one precision.
#[derive(Debug, Clone, Copy)]
pub struct AllowedColorFunction {
    pub prec: ColorPrecision,
}

/// The step nearest to a channel.
fn snap_channel(c: ColorComponent, prec: ColorPrecision) -> (k: ColorPrecision)
    requires
        c.is_unit(),
        prec > 0,
    ensures
        k == nearest_step(c, prec as int),
        k <= prec,
{
    proof {
        lemma_nearest_step(c, prec as int);
        assert(0 <= c.num * prec <= 0x7fff_ffff_ffff_ffff * 0xffff) by (nonlinear_arith)
            requires
                0 <= c.num <= 0x7fff_ffff_ffff_ffff,
                0 < prec <= 0xffff,
        ;
    }
    let twice: u128 = 2 * ((c.num as u128) * (prec as u128)) + c.den as u128;
    let k: u128 = twice / (2 * (c.den as u128));
    k as u16
}

impl AllowedColorFunction {
    /// The colour of the palette nearest to a colour, and its place in the
    /// palette.
    pub fn apply(&self, color: RGB) -> (r: (RGB, ColorPosition))
        requires
            color.wf(),
        ensures
            r == spec_allowed_color(self.prec, color),
            r.0.wf(),
    {
        let prec: ColorPrecision = self.prec;
        if prec > 0 {
            let r_k: ColorPrecision = snap_channel(color.0, prec);
            let g_k: ColorPrecision = snap_channel(color.1, prec);
            let b_k: ColorPrecision = snap_channel(color.2, prec);
            (
                RGB(
                    Fraction { num: r_k as i64, den: prec as i64 },
                    Fraction { num: g_k as i64, den: prec as i64 },
                    Fraction { num: b_k as i64, den: prec as i64 },
                ),
                (r_k, g_k, b_k),
            )
        } else {
            let half: Fraction = Fraction { num: 1, den: 2 };
            (RGB(half, half, half), (0, 0, 0))
        }
    }
}

/// Returns function which makes allowed color from arbitrary color
pub fn make_allowed_color_function(prec: ColorPrecision) -> (f: AllowedColorFunction)
    ensures
        f.prec == prec,
{
    AllowedColorFunction { prec }
}

/// Calculates interval within rgb intervals which separates individual color component values
pub fn get_color_interval(prec: ColorPrecision) -> (interval: ColorComponent)
    requires
        prec > 0,
    ensures
        interval == frac(1, prec as int),
{
    Fraction { num: 1, den: prec as i64 }
}

/// Restores rgb color from components
pub fn make_rgb_color(
    interval: ColorComponent,
    r_k: ColorPrecision,
    g_k: ColorPrecision,
    b_k: ColorPrecision,
) -> (c: RGB)
    requires
        interval.wf(),
        -0x7fff_ffff_ffff <= interval.num <= 0x7fff_ffff_ffff,
    ensures
        c == RGB(
            frac(r_k * interval.num, interval.den as int),
            frac(g_k * interval.num, interval.den as int),
            frac(b_k * interval.num, interval.den as int),
        ),
{
    proof {
        assert(forall|k: ColorPrecision|
            -0x7fff_ffff_ffff_ffff <= #[trigger] (k * interval.num) <= 0x7fff_ffff_ffff_ffff)
            by (nonlinear_arith)
            requires
                -0x7fff_ffff_ffff <= interval.num <= 0x7fff_ffff_ffff,
        ;
    }
    RGB(
        Fraction { num: (r_k as i64) * interval.num, den: interval.den },
        Fraction { num: (g_k as i64) * interval.num, den: interval.den },
        Fraction { num: (b_k as i64) * interval.num, den: interval.den },
    )
}

} // verus!
