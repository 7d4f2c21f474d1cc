//! Writing numbers as Roman numerals: the model of a written numeral, the
//! table of signs and the conversion, verified against the model.

use crate::error::OutOfRangeError;
use vstd::arithmetic::div_mod::{lemma_mod_breakdown, lemma_mod_mod};
use vstd::prelude::*;
use vstd::string::*;

verus! {

/// A Roman numeral; values from 0 to 4,999,999 can be written.
#[derive(Debug, Clone, Copy, PartialEq, Eq, Structural, Hash)]
pub struct RomanNumeral(pub u32);

/// The letters a numeral is written with.
#[derive(Debug, Clone, Copy, PartialEq, Eq, Structural)]
pub enum Style {
    /// Capital letters, with a combining overline as the bar.
    Upper,
    /// Small letters (`u` for five), with a combining overline as the bar.
    Lower,
    /// Capital letters, with a combining macron as the bar.
    Macron,
}

/// One sign of a written numeral: a letter (0 = I, 1 = V, 2 = X, 3 = L,
/// 4 = C, 5 = D, 6 = M), barred when it counts a thousandfold.
pub struct Glyph {
    pub letter: nat,
    pub barred: bool,
}

/// The character of a letter in the given letters.
pub open spec fn letter_char(letter: nat, style: Style) -> char {
    if style == Style::Lower {
        if letter == 0 { 'i' } else if letter == 1 { 'u' } else if letter == 2 { 'x' }
        else if letter == 3 { 'l' } else if letter == 4 { 'c' } else if letter == 5 { 'd' } else { 'm' }
    } else {
        if letter == 0 { 'I' } else if letter == 1 { 'V' } else if letter == 2 { 'X' }
        else if letter == 3 { 'L' } else if letter == 4 { 'C' } else if letter == 5 { 'D' } else { 'M' }
    }
}

/// The combining character of the bar in the given letters.
pub open spec fn bar_char(style: Style) -> char {
    if style == Style::Macron { '\u{304}' } else { '\u{305}' }
}

/// The characters of a sign: its letter, then its bar if it has one.
pub open spec fn glyph_text(g: Glyph, style: Style) -> Seq<char> {
    if g.barred {
        seq![letter_char(g.letter, style), bar_char(style)]
    } else {
        seq![letter_char(g.letter, style)]
    }
}

/// The text of one letter.
fn letter_str(letter: usize, style: Style) -> (s: &'static str)
    requires
        letter <= 6,
    ensures
        s@ == seq![letter_char(letter as nat, style)],
{
    proof {
        reveal_strlit("i"); reveal_strlit("u"); reveal_strlit("x"); reveal_strlit("l");
        reveal_strlit("c"); reveal_strlit("d"); reveal_strlit("m");
        reveal_strlit("I"); reveal_strlit("V"); reveal_strlit("X"); reveal_strlit("L");
        reveal_strlit("C"); reveal_strlit("D"); reveal_strlit("M");
    }
    match style {
        Style::Lower => match letter {
            0 => "i",
            1 => "u",
            2 => "x",
            3 => "l",
            4 => "c",
            5 => "d",
            _ => "m",
        },
        _ => match letter {
            0 => "I",
            1 => "V",
            2 => "X",
            3 => "L",
            4 => "C",
            5 => "D",
            _ => "M",
        },
    }
}

/// The text of the bar.
fn bar_str(style: Style) -> (s: &'static str)
    ensures
        s@ == seq![bar_char(style)],
{
    proof {
        reveal_strlit("\u{304}");
        reveal_strlit("\u{305}");
    }
    match style {
        Style::Macron => "\u{304}",
        _ => "\u{305}",
    }
}

/// Appends the characters of a sign.
fn push_glyph(out: &mut String, letter: usize, barred: bool, style: Style)
    requires
        letter <= 6,
    ensures
        final(out)@ == old(out)@ + glyph_text(Glyph { letter: letter as nat, barred }, style),
{
    out.append(letter_str(letter, style));
    if barred {
        out.append(bar_str(style));
    }
}

/// The text of a row of signs, written one after the other.
pub open spec fn render(gs: Seq<Glyph>, style: Style) -> Seq<char>
    decreases gs.len(),
{
    if gs.len() == 0 {
        Seq::empty()
    } else {
        glyph_text(gs[0], style) + render(gs.drop_first(), style)
    }
}

/// The sign `g`, `n` times.
pub open spec fn repeat_glyph(g: Glyph, n: int) -> Seq<Glyph> {
    Seq::new(n as nat, |i: int| g)
}

/// Ten to the power `k`, for the places of a number below ten million.
pub open spec fn pow10(k: int) -> int {
    if k <= 0 { 1 } else if k == 1 { 10 } else if k == 2 { 100 } else if k == 3 { 1000 }
    else if k == 4 { 10_000 } else if k == 5 { 100_000 } else { 1_000_000 }
}

/// The decimal digit of `v` in place `k`.
pub open spec fn digit(v: int, k: int) -> int {
    (v / pow10(k)) % 10
}

/// The sign for one unit of place `k` (I, X, C, M, X̅, C̅, M̅).
pub open spec fn unit_glyph(k: int) -> Glyph {
    if k <= 2 {
        Glyph { letter: (2 * k) as nat, barred: false }
    } else if k == 3 {
        Glyph { letter: 6, barred: false }
    } else {
        Glyph { letter: (2 * (k - 3)) as nat, barred: true }
    }
}

/// The sign for five units of place `k` (V, L, D, V̅, L̅, D̅).
pub open spec fn five_glyph(k: int) -> Glyph {
    if k <= 2 {
        Glyph { letter: (2 * k + 1) as nat, barred: false }
    } else {
        Glyph { letter: (2 * (k - 3) + 1) as nat, barred: true }
    }
}

/// The sign written before a larger one to subtract a unit of place `k`.
/// In the thousands it is a barred I, so that four thousand reads I̅V̅ and
/// nine thousand I̅X̅, all under the bar.
pub open spec fn sub_glyph(k: int) -> Glyph {
    if k == 3 {
        Glyph { letter: 0, barred: true }
    } else {
        unit_glyph(k)
    }
}

/// The signs for digit `d` in place `k`: repeated units up to three, a
/// unit before five for four, five followed by units up to eight, and a
/// unit before the next place's unit for nine.
pub open spec fn digit_glyphs(d: int, k: int) -> Seq<Glyph> {
    if d == 4 {
        seq![sub_glyph(k), five_glyph(k)]
    } else if d == 9 {
        seq![sub_glyph(k), unit_glyph(k + 1)]
    } else if d >= 5 {
        seq![five_glyph(k)] + repeat_glyph(unit_glyph(k), d - 5)
    } else {
        repeat_glyph(unit_glyph(k), d)
    }
}

/// The signs for the part of `v` at place `k` and above: barred Ms for the
/// millions, then the digits from the hundred thousands down to place `k`.
pub open spec fn leading_glyphs(v: int, k: int) -> Seq<Glyph>
    decreases 6 - k,
{
    if k >= 6 {
        repeat_glyph(unit_glyph(6), v / 1_000_000)
    } else {
        leading_glyphs(v, k + 1) + digit_glyphs(digit(v, k), k)
    }
}

/// The signs of the numeral for `v` (none for zero).
pub open spec fn numeral_glyphs(v: int) -> Seq<Glyph> {
    leading_glyphs(v, 0)
}

/// The text of the numeral for `v` in the given letters; zero is `N`.
pub open spec fn roman_text(v: int, style: Style) -> Seq<char> {
    if v == 0 {
        seq!['N']
    } else {
        render(numeral_glyphs(v), style)
    }
}

proof fn lemma_render_concat(a: Seq<Glyph>, b: Seq<Glyph>, style: Style)
    ensures
        render(a + b, style) == render(a, style) + render(b, style),
    decreases a.len(),
{
    if a.len() == 0 {
        assert(a + b =~= b);
        assert(render(a, style) =~= Seq::<char>::empty());
        assert(render(a, style) + render(b, style) =~= render(b, style));
    } else {
        assert((a + b).drop_first() =~= a.drop_first() + b);
        lemma_render_concat(a.drop_first(), b, style);
        assert((a + b)[0] == a[0]);
        assert(render(a + b, style) =~= glyph_text(a[0], style) + render(a.drop_first() + b, style));
        assert(render(a, style) + render(b, style) =~= glyph_text(a[0], style) + (render(a.drop_first(), style) + render(b, style)));
    }
}

proof fn lemma_render_one(g: Glyph, style: Style)
    ensures
        render(seq![g], style) == glyph_text(g, style),
{
    assert(seq![g].drop_first() =~= Seq::<Glyph>::empty());
    assert(render(Seq::<Glyph>::empty(), style) =~= Seq::<char>::empty());
    assert(render(seq![g], style) =~= glyph_text(g, style));
}

/// Magnitudes of the rows of the numeral table, largest first.
pub open spec fn row_magnitude(row: int) -> int {
    if row == 0 { 1_000_000 } else if row == 1 { 500_000 } else if row == 2 { 100_000 }
    else if row == 3 { 50_000 } else if row == 4 { 10_000 } else if row == 5 { 5_000 }
    else if row == 6 { 1_000 } else if row == 7 { 500 } else if row == 8 { 100 }
    else if row == 9 { 50 } else if row == 10 { 10 } else if row == 11 { 5 } else { 1 }
}

/// The sign of each row of the table.
pub open spec fn row_glyph(row: int) -> Glyph {
    if row <= 5 {
        Glyph { letter: (6 - row) as nat, barred: true }
    } else {
        Glyph { letter: (12 - row) as nat, barred: false }
    }
}

/// The magnitude of row `row` of the table.
fn magnitude(row: usize) -> (m: u32)
    requires
        row < 13,
    ensures
        m == row_magnitude(row as int),
{
    match row {
        0 => 1_000_000,
        1 => 500_000,
        2 => 100_000,
        3 => 50_000,
        4 => 10_000,
        5 => 5_000,
        6 => 1_000,
        7 => 500,
        8 => 100,
        9 => 50,
        10 => 10,
        11 => 5,
        _ => 1,
    }
}

/// Appends the sign of row `row` of the table.
fn push_row_glyph(out: &mut String, row: usize, style: Style)
    requires
        row < 13,
    ensures
        final(out)@ == old(out)@ + glyph_text(row_glyph(row as int), style),
{
    if row <= 5 {
        push_glyph(out, 6 - row, true, style);
    } else {
        push_glyph(out, 12 - row, false, style);
    }
}

/// Writes the sign of `row` `total` times.
fn repeat(out: &mut String, row: usize, total: u32, style: Style)
    requires
        row < 13,
    ensures
        final(out)@ == old(out)@ + render(repeat_glyph(row_glyph(row as int), total as int), style),
{
    let mut count: u32 = 0;
    while count < total
        invariant
            row < 13,
            count <= total,
            out@ == old(out)@ + render(repeat_glyph(row_glyph(row as int), count as int), style),
        decreases total - count,
    {
        proof {
            let g = row_glyph(row as int);
            assert(repeat_glyph(g, count + 1) =~= repeat_glyph(g, count as int) + seq![g]);
            lemma_render_concat(repeat_glyph(g, count as int), seq![g], style);
            lemma_render_one(g, style);
        }
        push_row_glyph(out, row, style);
        count = count + 1;
    }
}

proof fn lemma_render_two(a: Glyph, b: Glyph, style: Style)
    ensures
        render(seq![a, b], style) == glyph_text(a, style) + glyph_text(b, style),
{
    assert(seq![a, b] =~= seq![a] + seq![b]);
    lemma_render_concat(seq![a], seq![b], style);
    lemma_render_one(a, style);
    lemma_render_one(b, style);
}

/// The row below `row` whose unit is subtracted in front of it: a
/// five-type row subtracts the unit of the next tier down (IX, not VX).
pub open spec fn lower_row(row: int) -> int {
    if row % 2 == 1 { row + 1 } else { row }
}

/// From this value on, `row` is written in subtractive form.
pub open spec fn row_span(row: int) -> int {
    row_magnitude(row - 1) - row_magnitude(lower_row(row))
}

/// What row `row` writes in front of the row above it, for a value `rest`.
pub open spec fn subtracted_glyph(row: int, rest: int) -> Glyph {
    if 4000 <= rest < 10_000 {
        Glyph { letter: 0, barred: true }
    } else {
        row_glyph(lower_row(row))
    }
}

/// Writes what row `row` of the table contributes to `rest`, a value below
/// the magnitude of the row above, and returns what is left to write.
fn write_row(out: &mut String, rest: u32, row: usize, style: Style) -> (left: u32)
    requires
        1 <= row < 13,
        rest < row_magnitude(row - 1),
    ensures
        rest < row_magnitude(row as int) ==> left == rest && final(out)@ == old(out)@,
        row_magnitude(row as int) <= rest && row_span(row as int) <= rest ==> left == rest
            - row_span(row as int) as int && final(out)@ == old(out)@ + glyph_text(
            subtracted_glyph(row as int, rest as int),
            style,
        ) + glyph_text(row_glyph(row - 1), style),
        row_magnitude(row as int) <= rest < row_span(row as int) ==> left == rest as int
            % row_magnitude(row as int) && final(out)@ == old(out)@ + render(
            repeat_glyph(row_glyph(row as int), rest as int / row_magnitude(row as int)),
            style,
        ),
{
    let m = magnitude(row);
    if rest / m == 0 {
        rest
    } else {
        let lower = if row % 2 == 1 {
            row + 1
        } else {
            row
        };
        let span = magnitude(row - 1) - magnitude(lower);
        if rest >= span {
            if 4000 <= rest && rest < 10_000 {
                push_glyph(out, 0, true, style);
            } else {
                push_row_glyph(out, lower, style);
            }
            push_row_glyph(out, row - 1, style);
            (rest - span) % m
        } else {
            repeat(out, row, rest / m, style);
            // the tier above is a multiple of this one, so what is left is
            // the remainder by this row's magnitude
            rest % m
        }
    }
}

proof fn lemma_place_arith(rest: int, u: int)
    requires
        u == 1 || u == 10 || u == 100 || u == 1000 || u == 10_000 || u == 100_000,
        0 <= rest < 10 * u,
    ensures
        0 <= rest / u <= 9,
        rest / u >= 1 <==> rest >= u,
        rest / u >= 4 <==> rest >= 4 * u,
        rest / u >= 5 <==> rest >= 5 * u,
        rest / u == 9 <==> rest >= 9 * u,
        rest < 5 * u ==> rest % (5 * u) == rest,
        rest >= 5 * u ==> (rest - 5 * u) / u == rest / u - 5 && (rest - 5 * u) % u == rest % u
            && rest % (5 * u) == rest - 5 * u,
        4 * u <= rest < 5 * u ==> rest - 4 * u == rest % u,
        rest >= 9 * u ==> (rest - 9 * u) % (5 * u) == rest % u && rest - 9 * u < u,
        rest >= 5 * u ==> rest / (5 * u) == 1,
{
    if u == 1 {
    } else if u == 10 {
    } else if u == 100 {
    } else if u == 1000 {
    } else if u == 10_000 {
    } else {
    }
}

/// The two rows of place `k`: its five (row `11 - 2k`) and its unit (row
/// `12 - 2k`), below the unit of the next place.
proof fn lemma_place_rows(k: int)
    requires
        0 <= k < 6,
    ensures
        row_magnitude(11 - 2 * k) == 5 * pow10(k),
        row_magnitude(12 - 2 * k) == pow10(k),
        row_magnitude(10 - 2 * k) == 10 * pow10(k),
        pow10(k + 1) == 10 * pow10(k),
        lower_row(11 - 2 * k) == 12 - 2 * k,
        lower_row(12 - 2 * k) == 12 - 2 * k,
        row_span(11 - 2 * k) == 9 * pow10(k),
        row_span(12 - 2 * k) == 4 * pow10(k),
        row_glyph(12 - 2 * k) == unit_glyph(k),
        row_glyph(11 - 2 * k) == five_glyph(k),
        row_glyph(10 - 2 * k) == unit_glyph(k + 1),
        pow10(k) == 1 || pow10(k) == 10 || pow10(k) == 100 || pow10(k) == 1000 || pow10(k)
            == 10_000 || pow10(k) == 100_000,
{
}

#[verifier::rlimit(60)]
/// Writes the digit of place `k` of `rest`, a value below the next place's
/// unit, through the five-row and the unit-row of that place, and returns
/// what is left to write.
fn write_place(out: &mut String, rest: u32, k: usize, style: Style) -> (left: u32)
    requires
        k < 6,
        rest < pow10(k + 1),
    ensures
        final(out)@ == old(out)@ + render(digit_glyphs(rest as int / pow10(k as int), k as int), style),
        left == rest as int % pow10(k as int),
{
    let ghost u = pow10(k as int);
    let ghost d = rest as int / u;
    let ghost before = out@;
    proof {
        lemma_place_rows(k as int);
        lemma_place_arith(rest as int, u);
        assert(render(Seq::<Glyph>::empty(), style) =~= Seq::<char>::empty());
    }
    let five_row = 11 - 2 * k;
    let mid = write_row(out, rest, five_row, style);
    let ghost between = out@;
    let left = write_row(out, mid, five_row + 1, style);
    proof {
        let unit = unit_glyph(k as int);
        let five = five_glyph(k as int);
        assert(repeat_glyph(unit, 0) =~= Seq::<Glyph>::empty());
        if d <= 3 {
            assert(between == before);
        } else if d == 4 {
            assert(subtracted_glyph(12 - 2 * k, rest as int) == sub_glyph(k as int));
            lemma_render_two(sub_glyph(k as int), five, style);
        } else if d <= 8 {
            assert(repeat_glyph(five, 1) =~= seq![five]);
            lemma_render_one(five, style);
            lemma_place_arith(mid as int, u);
            lemma_render_concat(seq![five], repeat_glyph(unit, d - 5), style);
            assert(out@ =~= before + render(digit_glyphs(d, k as int), style));
        } else {
            assert(subtracted_glyph(11 - 2 * k, rest as int) == sub_glyph(k as int));
            lemma_render_two(sub_glyph(k as int), unit_glyph(k + 1), style);
        }
    }
    left
}

/// Writes the numeral for `num` (nothing for zero): the barred Ms of the
/// millions, which no larger sign stands above, then place by place the
/// rows of the table from the largest down.
pub(crate) fn arabic_to_roman(num: u32, style: Style) -> (out: String)
    requires
        num <= 4_999_999,
    ensures
        out@ == render(numeral_glyphs(num as int), style),
{
    let mut out = String::new();
    repeat(&mut out, 0, num / 1_000_000, style);
    let mut rest = num % 1_000_000;
    let mut k: usize = 6;
    proof {
        assert(render(Seq::<Glyph>::empty(), style) =~= Seq::<char>::empty());
        assert(row_glyph(0) == unit_glyph(6));
    }
    while k > 0
        invariant
            k <= 6,
            num <= 4_999_999,
            rest == num as int % pow10(k as int),
            out@ == render(leading_glyphs(num as int, k as int), style),
        decreases k,
    {
        k = k - 1;
        proof {
            lemma_place_rows(k as int);
            lemma_digit_of_rest(num as int, k as int);
        }
        let ghost prev = out@;
        rest = write_place(&mut out, rest, k, style);
        proof {
            lemma_render_concat(
                leading_glyphs(num as int, k + 1),
                digit_glyphs(digit(num as int, k as int), k as int),
                style,
            );
        }
    }
    out
}

proof fn lemma_digit_of_rest(v: int, k: int)
    requires
        0 <= v,
        0 <= k < 6,
    ensures
        (v % pow10(k + 1)) / pow10(k) == digit(v, k),
        (v % pow10(k + 1)) % pow10(k) == v % pow10(k),
{
    let u = pow10(k);
    lemma_place_rows(k);
    lemma_mod_breakdown(v, u, 10);
    lemma_mod_mod(v, u, 10);
    let q = (v / u) % 10;
    let r = v % u;
    assert((u * q + r) / u == q) by (nonlinear_arith)
        requires
            u > 0,
            0 <= r < u,
            0 <= q,
    ;
}

/// The largest value a numeral can be written for.
pub const MAX: u32 = 4_999_999;

impl RomanNumeral {
    /// A numeral can be written for its value.
    pub open spec fn wf(self) -> bool {
        self.0 <= MAX
    }

    /// Creates a numeral for `value`, which must be at most 4,999,999.
    pub fn new(value: u32) -> (r: Result<Self, OutOfRangeError>)
        ensures
            value <= MAX ==> r == Ok::<RomanNumeral, OutOfRangeError>(RomanNumeral(value)),
            value > MAX ==> r == Err::<RomanNumeral, OutOfRangeError>(OutOfRangeError),
    {
        if value <= MAX {
            Ok(RomanNumeral(value))
        } else {
            Err(OutOfRangeError)
        }
    }

    /// The value of the numeral.
    pub fn as_u32(self) -> (r: u32)
        ensures
            r == self.0,
    {
        self.0
    }

    /// The numeral in capital letters; zero is `N`.
    pub fn to_uppercase(&self) -> (r: String)
        requires
            self.wf(),
        ensures
            r@ == roman_text(self.0 as int, Style::Upper),
            self.0 == 0 ==> r@ == seq!['N'],
    {
        if self.0 == 0 {
            let out = String::from_str("N");
            proof {
                reveal_strlit("N");
            }
            out
        } else {
            arabic_to_roman(self.0, Style::Upper)
        }
    }

    /// The numeral in small letters; zero is `N` all the same.
    pub fn to_lowercase(self) -> (r: String)
        requires
            self.wf(),
        ensures
            r@ == roman_text(self.0 as int, Style::Lower),
            self.0 == 0 ==> r@ == seq!['N'],
    {
        if self.0 == 0 {
            let out = String::from_str("N");
            proof {
                reveal_strlit("N");
            }
            out
        } else {
            arabic_to_roman(self.0, Style::Lower)
        }
    }
}

impl TryFrom<u8> for RomanNumeral {
    type Error = OutOfRangeError;

    fn try_from(value: u8) -> (r: Result<Self, OutOfRangeError>) {
        Self::new(value as u32)
    }
}

impl vstd::std_specs::convert::TryFromSpecImpl<u8> for RomanNumeral {
    open spec fn obeys_try_from_spec() -> bool {
        true
    }

    open spec fn try_from_spec(v: u8) -> Result<Self, OutOfRangeError> {
        Ok(RomanNumeral(v as u32))
    }
}

impl TryFrom<u16> for RomanNumeral {
    type Error = OutOfRangeError;

    fn try_from(value: u16) -> (r: Result<Self, OutOfRangeError>) {
        Self::new(value as u32)
    }
}

impl vstd::std_specs::convert::TryFromSpecImpl<u16> for RomanNumeral {
    open spec fn obeys_try_from_spec() -> bool {
        true
    }

    open spec fn try_from_spec(v: u16) -> Result<Self, OutOfRangeError> {
        if v <= MAX {
            Ok(RomanNumeral(v as u32))
        } else {
            Err(OutOfRangeError)
        }
    }
}

impl TryFrom<u32> for RomanNumeral {
    type Error = OutOfRangeError;

    fn try_from(value: u32) -> (r: Result<Self, OutOfRangeError>) {
        Self::new(value)
    }
}

impl vstd::std_specs::convert::TryFromSpecImpl<u32> for RomanNumeral {
    open spec fn obeys_try_from_spec() -> bool {
        true
    }

    open spec fn try_from_spec(v: u32) -> Result<Self, OutOfRangeError> {
        if v <= MAX {
            Ok(RomanNumeral(v as u32))
        } else {
            Err(OutOfRangeError)
        }
    }
}

impl TryFrom<u64> for RomanNumeral {
    type Error = OutOfRangeError;

    fn try_from(value: u64) -> (r: Result<Self, OutOfRangeError>) {
        if value <= 4_999_999 {
            Ok(RomanNumeral(value as u32))
        } else {
            Err(OutOfRangeError)
        }
    }
}

impl vstd::std_specs::convert::TryFromSpecImpl<u64> for RomanNumeral {
    open spec fn obeys_try_from_spec() -> bool {
        true
    }

    open spec fn try_from_spec(v: u64) -> Result<Self, OutOfRangeError> {
        if v <= MAX {
            Ok(RomanNumeral(v as u32))
        } else {
            Err(OutOfRangeError)
        }
    }
}

impl TryFrom<u128> for RomanNumeral {
    type Error = OutOfRangeError;

    fn try_from(value: u128) -> (r: Result<Self, OutOfRangeError>) {
        if value <= 4_999_999 {
            Ok(RomanNumeral(value as u32))
        } else {
            Err(OutOfRangeError)
        }
    }
}

impl vstd::std_specs::convert::TryFromSpecImpl<u128> for RomanNumeral {
    open spec fn obeys_try_from_spec() -> bool {
        true
    }

    open spec fn try_from_spec(v: u128) -> Result<Self, OutOfRangeError> {
        if v <= MAX {
            Ok(RomanNumeral(v as u32))
        } else {
            Err(OutOfRangeError)
        }
    }
}

impl TryFrom<usize> for RomanNumeral {
    type Error = OutOfRangeError;

    fn try_from(value: usize) -> (r: Result<Self, OutOfRangeError>) {
        if value <= 4_999_999 {
            Ok(RomanNumeral(value as u32))
        } else {
            Err(OutOfRangeError)
        }
    }
}

impl vstd::std_specs::convert::TryFromSpecImpl<usize> for RomanNumeral {
    open spec fn obeys_try_from_spec() -> bool {
        true
    }

    open spec fn try_from_spec(v: usize) -> Result<Self, OutOfRangeError> {
        if v <= MAX {
            Ok(RomanNumeral(v as u32))
        } else {
            Err(OutOfRangeError)
        }
    }
}

impl TryFrom<i8> for RomanNumeral {
    type Error = OutOfRangeError;

    fn try_from(value: i8) -> (r: Result<Self, OutOfRangeError>) {
        if value >= 0 {
            Self::new(value as u32)
        } else {
            Err(OutOfRangeError)
        }
    }
}

impl vstd::std_specs::convert::TryFromSpecImpl<i8> for RomanNumeral {
    open spec fn obeys_try_from_spec() -> bool {
        true
    }

    open spec fn try_from_spec(v: i8) -> Result<Self, OutOfRangeError> {
        if 0 <= v && v <= MAX {
            Ok(RomanNumeral(v as u32))
        } else {
            Err(OutOfRangeError)
        }
    }
}

impl TryFrom<i16> for RomanNumeral {
    type Error = OutOfRangeError;

    fn try_from(value: i16) -> (r: Result<Self, OutOfRangeError>) {
        if value >= 0 {
            Self::new(value as u32)
        } else {
            Err(OutOfRangeError)
        }
    }
}

impl vstd::std_specs::convert::TryFromSpecImpl<i16> for RomanNumeral {
    open spec fn obeys_try_from_spec() -> bool {
        true
    }

    open spec fn try_from_spec(v: i16) -> Result<Self, OutOfRangeError> {
        if 0 <= v && v <= MAX {
            Ok(RomanNumeral(v as u32))
        } else {
            Err(OutOfRangeError)
        }
    }
}

impl TryFrom<i32> for RomanNumeral {
    type Error = OutOfRangeError;

    fn try_from(value: i32) -> (r: Result<Self, OutOfRangeError>) {
        if 0 <= value && value <= 4_999_999 {
            Ok(RomanNumeral(value as u32))
        } else {
            Err(OutOfRangeError)
        }
    }
}

impl vstd::std_specs::convert::TryFromSpecImpl<i32> for RomanNumeral {
    open spec fn obeys_try_from_spec() -> bool {
        true
    }

    open spec fn try_from_spec(v: i32) -> Result<Self, OutOfRangeError> {
        if 0 <= v && v <= MAX {
            Ok(RomanNumeral(v as u32))
        } else {
            Err(OutOfRangeError)
        }
    }
}

impl TryFrom<i64> for RomanNumeral {
    type Error = OutOfRangeError;

    fn try_from(value: i64) -> (r: Result<Self, OutOfRangeError>) {
        if 0 <= value && value <= 4_999_999 {
            Ok(RomanNumeral(value as u32))
        } else {
            Err(OutOfRangeError)
        }
    }
}

impl vstd::std_specs::convert::TryFromSpecImpl<i64> for RomanNumeral {
    open spec fn obeys_try_from_spec() -> bool {
        true
    }

    open spec fn try_from_spec(v: i64) -> Result<Self, OutOfRangeError> {
        if 0 <= v && v <= MAX {
            Ok(RomanNumeral(v as u32))
        } else {
            Err(OutOfRangeError)
        }
    }
}

impl TryFrom<i128> for RomanNumeral {
    type Error = OutOfRangeError;

    fn try_from(value: i128) -> (r: Result<Self, OutOfRangeError>) {
        if 0 <= value && value <= 4_999_999 {
            Ok(RomanNumeral(value as u32))
        } else {
            Err(OutOfRangeError)
        }
    }
}

impl vstd::std_specs::convert::TryFromSpecImpl<i128> for RomanNumeral {
    open spec fn obeys_try_from_spec() -> bool {
        true
    }

    open spec fn try_from_spec(v: i128) -> Result<Self, OutOfRangeError> {
        if 0 <= v && v <= MAX {
            Ok(RomanNumeral(v as u32))
        } else {
            Err(OutOfRangeError)
        }
    }
}

/// The numeral for `num` in capital letters with a macron as the bar; for
/// zero and below, nothing.
pub fn ad_romanum(num: isize) -> (r: String)
    requires
        num <= MAX,
    ensures
        num <= 0 ==> r@ == Seq::<char>::empty(),
        num > 0 ==> r@ == render(numeral_glyphs(num as int), Style::Macron),
{
    if num <= 0 {
        String::new()
    } else {
        arabic_to_roman(num as u32, Style::Macron)
    }
}

} // verus!
