//! Reading a written numeral back to its value, and the laws that the
//! numerals written by this crate obey.

use crate::numeral::{
    digit, digit_glyphs, five_glyph, glyph_text, leading_glyphs, letter_char, numeral_glyphs,
    pow10, render, repeat_glyph, roman_text, sub_glyph, unit_glyph, Glyph, Style, MAX,
};
use vstd::arithmetic::div_mod::lemma_mod_breakdown;
use vstd::prelude::*;

verus! {

/// The value of a letter of a numeral, in either case (`u` and `v` are both
/// five); anything else counts nothing.
pub open spec fn letter_value(c: char) -> int {
    if c == 'I' || c == 'i' {
        1
    } else if c == 'V' || c == 'v' || c == 'u' {
        5
    } else if c == 'X' || c == 'x' {
        10
    } else if c == 'L' || c == 'l' {
        50
    } else if c == 'C' || c == 'c' {
        100
    } else if c == 'D' || c == 'd' {
        500
    } else if c == 'M' || c == 'm' {
        1000
    } else {
        0
    }
}

/// A combining overline or macron: the bar that multiplies a letter by a
/// thousand.
pub open spec fn is_bar(c: char) -> bool {
    c == '\u{305}' || c == '\u{304}'
}

/// The values of the signs of a written numeral, from the left: a letter
/// followed by a bar counts a thousand times its value.
pub open spec fn sign_values(s: Seq<char>) -> Seq<int>
    decreases s.len(),
{
    if s.len() == 0 {
        Seq::empty()
    } else if s.len() >= 2 && is_bar(s[1]) {
        seq![letter_value(s[0]) * 1000] + sign_values(s.subrange(2, s.len() as int))
    } else {
        seq![letter_value(s[0])] + sign_values(s.drop_first())
    }
}

/// The subtractive reading of a row of sign values: a sign smaller than the
/// one after it is subtracted, any other is added.
pub open spec fn subtractive_sum(t: Seq<int>) -> int
    decreases t.len(),
{
    if t.len() == 0 {
        0
    } else if t.len() >= 2 && t[0] < t[1] {
        subtractive_sum(t.drop_first()) - t[0]
    } else {
        subtractive_sum(t.drop_first()) + t[0]
    }
}

/// The value of a written numeral under the subtractive rule.
pub open spec fn read_numeral(s: Seq<char>) -> int {
    subtractive_sum(sign_values(s))
}

/// The value of a letter of the numeral model (0 = I up to 6 = M).
pub open spec fn rank_value(letter: nat) -> int {
    if letter == 0 {
        1
    } else if letter == 1 {
        5
    } else if letter == 2 {
        10
    } else if letter == 3 {
        50
    } else if letter == 4 {
        100
    } else if letter == 5 {
        500
    } else {
        1000
    }
}

pub open spec fn glyph_value(g: Glyph) -> int {
    if g.barred {
        rank_value(g.letter) * 1000
    } else {
        rank_value(g.letter)
    }
}

pub open spec fn glyph_values(gs: Seq<Glyph>) -> Seq<int>
    decreases gs.len(),
{
    if gs.len() == 0 {
        Seq::empty()
    } else {
        seq![glyph_value(gs[0])] + glyph_values(gs.drop_first())
    }
}

proof fn lemma_glyph_values_concat(a: Seq<Glyph>, b: Seq<Glyph>)
    ensures
        glyph_values(a + b) == glyph_values(a) + glyph_values(b),
    decreases a.len(),
{
    if a.len() == 0 {
        assert(a + b =~= b);
        assert(glyph_values(a) + glyph_values(b) =~= glyph_values(b));
    } else {
        assert((a + b).drop_first() =~= a.drop_first() + b);
        lemma_glyph_values_concat(a.drop_first(), b);
        assert(glyph_values(a + b) =~= glyph_values(a) + glyph_values(b));
    }
}

proof fn lemma_letter_value(letter: nat, style: Style)
    ensures
        letter_value(letter_char(letter, style)) == rank_value(letter),
        !is_bar(letter_char(letter, style)),
{
}

proof fn lemma_render_first(gs: Seq<Glyph>, style: Style)
    requires
        gs.len() > 0,
    ensures
        render(gs, style).len() >= glyph_text(gs[0], style).len(),
        render(gs, style)[0] == letter_char(gs[0].letter, style),
{
}

/// Reading back the text of a row of signs gives the values of the signs.
proof fn lemma_sign_values_render(gs: Seq<Glyph>, style: Style)
    ensures
        sign_values(render(gs, style)) == glyph_values(gs),
    decreases gs.len(),
{
    if gs.len() > 0 {
        let g = gs[0];
        let rest = render(gs.drop_first(), style);
        let s = render(gs, style);
        lemma_letter_value(g.letter, style);
        lemma_sign_values_render(gs.drop_first(), style);
        assert(s == glyph_text(g, style) + rest);
        if g.barred {
            assert(is_bar(s[1]));
            assert(s.subrange(2, s.len() as int) =~= rest);
        } else {
            if s.len() >= 2 {
                lemma_render_first(gs.drop_first(), style);
                lemma_letter_value(gs.drop_first()[0].letter, style);
                assert(s[1] == rest[0]);
            }
            assert(s.drop_first() =~= rest);
        }
        assert(sign_values(s) =~= glyph_values(gs));
    } else {
        assert(sign_values(render(gs, style)) =~= glyph_values(gs));
    }
}

/// The subtractive reading adds up over two rows when the first does not
/// end below the start of the second.
proof fn lemma_sum_concat(a: Seq<int>, b: Seq<int>)
    requires
        a.len() == 0 || b.len() == 0 || a.last() >= b[0],
    ensures
        subtractive_sum(a + b) == subtractive_sum(a) + subtractive_sum(b),
    decreases a.len(),
{
    if a.len() == 0 {
        assert(a + b =~= b);
    } else if b.len() == 0 {
        assert(a + b =~= a);
    } else {
        assert((a + b).drop_first() =~= a.drop_first() + b);
        lemma_sum_concat(a.drop_first(), b);
        if a.len() == 1 {
            assert(a.drop_first() =~= Seq::<int>::empty());
        }
    }
}

proof fn lemma_values_one(a: Glyph)
    ensures
        glyph_values(seq![a]) == seq![glyph_value(a)],
{
    assert(seq![a].drop_first() =~= Seq::<Glyph>::empty());
    assert(glyph_values(Seq::<Glyph>::empty()) =~= Seq::<int>::empty());
    assert(glyph_values(seq![a]) =~= seq![glyph_value(a)]);
}

proof fn lemma_values_two(a: Glyph, b: Glyph)
    ensures
        glyph_values(seq![a, b]) == seq![glyph_value(a), glyph_value(b)],
{
    assert(seq![a, b] =~= seq![a] + seq![b]);
    lemma_glyph_values_concat(seq![a], seq![b]);
    lemma_values_one(a);
    lemma_values_one(b);
    assert(seq![glyph_value(a)] + seq![glyph_value(b)] =~= seq![glyph_value(a), glyph_value(b)]);
}

proof fn lemma_sum_two(x: int, y: int)
    ensures
        subtractive_sum(seq![x, y]) == if x < y { y - x } else { x + y },
{
    assert(seq![x, y].drop_first() =~= seq![y]);
    lemma_sum_one(y);
}

proof fn lemma_sum_one(x: int)
    ensures
        subtractive_sum(seq![x]) == x,
{
    assert(seq![x].drop_first() =~= Seq::<int>::empty());
    assert(subtractive_sum(Seq::<int>::empty()) == 0);
}

/// A sign repeated `n` times counts `n` times its value.
proof fn lemma_repeat_values(g: Glyph, n: int)
    requires
        0 <= n <= 4,
    ensures
        glyph_values(repeat_glyph(g, n)) =~= Seq::new(n as nat, |i: int| glyph_value(g)),
        subtractive_sum(glyph_values(repeat_glyph(g, n))) == n * glyph_value(g),
    decreases n,
{
    let v = glyph_value(g);
    if n == 0 {
        assert(glyph_values(repeat_glyph(g, n)) =~= Seq::<int>::empty());
        assert(subtractive_sum(Seq::<int>::empty()) == 0);
    } else {
        lemma_repeat_values(g, n - 1);
        assert(repeat_glyph(g, n).drop_first() =~= repeat_glyph(g, n - 1));
        let t = glyph_values(repeat_glyph(g, n));
        assert(t =~= Seq::new(n as nat, |i: int| v));
        assert(t.drop_first() =~= glyph_values(repeat_glyph(g, n - 1)));
        assert((n - 1) * v + v == n * v) by (nonlinear_arith);
    }
}

proof fn lemma_place_values(k: int)
    requires
        0 <= k < 6,
    ensures
        glyph_value(unit_glyph(k)) == pow10(k),
        glyph_value(sub_glyph(k)) == pow10(k),
        glyph_value(five_glyph(k)) == 5 * pow10(k),
        glyph_value(unit_glyph(k + 1)) == 10 * pow10(k),
        pow10(k + 1) == 10 * pow10(k),
        pow10(k) > 0,
{
}

/// The signs of one digit read back to the digit's worth, each between one
/// and ten units of its place, the first at most five.
proof fn lemma_digit_values(d: int, k: int)
    requires
        0 <= d <= 9,
        0 <= k < 6,
    ensures
        subtractive_sum(glyph_values(digit_glyphs(d, k))) == d * pow10(k),
        forall|i: int|
            0 <= i < glyph_values(digit_glyphs(d, k)).len() ==> pow10(k) <= #[trigger] glyph_values(
                digit_glyphs(d, k),
            )[i] <= 10 * pow10(k),
        glyph_values(digit_glyphs(d, k)).len() > 0 ==> glyph_values(digit_glyphs(d, k))[0] <= 5
            * pow10(k),
{
    let u = pow10(k);
    lemma_place_values(k);
    if d == 4 {
        lemma_values_two(sub_glyph(k), five_glyph(k));
        lemma_sum_two(u, 5 * u);
    } else if d == 9 {
        lemma_values_two(sub_glyph(k), unit_glyph(k + 1));
        lemma_sum_two(u, 10 * u);
    } else if d >= 5 {
        let rep = repeat_glyph(unit_glyph(k), d - 5);
        lemma_repeat_values(unit_glyph(k), d - 5);
        lemma_values_one(five_glyph(k));
        lemma_glyph_values_concat(seq![five_glyph(k)], rep);
        lemma_sum_concat(seq![5 * u], glyph_values(rep));
        lemma_sum_one(5 * u);
        assert((d - 5) * u + 5 * u == d * u) by (nonlinear_arith);
    } else {
        lemma_repeat_values(unit_glyph(k), d);
    }
}

/// The signs for the part of `v` at place `k` and above read back to that
/// part, each worth at least a unit of place `k`.
proof fn lemma_leading_values(v: int, k: int)
    requires
        0 <= v <= MAX,
        0 <= k <= 6,
    ensures
        subtractive_sum(glyph_values(leading_glyphs(v, k))) == v - v % pow10(k),
        forall|i: int|
            0 <= i < glyph_values(leading_glyphs(v, k)).len() ==> pow10(k)
                <= #[trigger] glyph_values(leading_glyphs(v, k))[i],
    decreases 6 - k,
{
    if k == 6 {
        assert(v / 1_000_000 <= 4);
        assert(glyph_value(unit_glyph(6)) == 1_000_000);
        lemma_repeat_values(unit_glyph(6), v / 1_000_000);
        assert(v - v % 1_000_000 == (v / 1_000_000) * 1_000_000);
    } else {
        let u = pow10(k);
        let a = glyph_values(leading_glyphs(v, k + 1));
        let d = digit(v, k);
        let b = glyph_values(digit_glyphs(d, k));
        lemma_leading_values(v, k + 1);
        lemma_place_values(k);
        lemma_digit_values(d, k);
        lemma_glyph_values_concat(leading_glyphs(v, k + 1), digit_glyphs(d, k));
        if a.len() > 0 && b.len() > 0 {
            assert(a[a.len() - 1] >= 10 * u);
        }
        lemma_sum_concat(a, b);
        lemma_mod_breakdown(v, u, 10);
        assert(u * d == d * u) by (nonlinear_arith);
        let t = glyph_values(leading_glyphs(v, k));
        assert forall|i: int| 0 <= i < t.len() implies u <= #[trigger] t[i] by {
            if i < a.len() {
                assert(t[i] == a[i]);
            } else {
                assert(t[i] == b[i - a.len()]);
            }
        }
    }
}

/// Every numeral from 1 to 4,999,999 reads back, by the subtractive rule,
/// to the value it was written for, in either case and with either bar.
pub proof fn law_round_trip(v: int, style: Style)
    requires
        1 <= v <= MAX,
    ensures
        read_numeral(roman_text(v, style)) == v,
{
    lemma_sign_values_render(numeral_glyphs(v), style);
    lemma_leading_values(v, 0);
}

/// No four signs in a row have the same value.
pub open spec fn no_four_alike(t: Seq<int>) -> bool {
    forall|j: int|
        0 <= j && j + 3 < t.len() ==> !(#[trigger] t[j] == t[j + 1] && t[j + 1] == t[j + 2] && t[j
            + 2] == t[j + 3])
}

proof fn lemma_no_four_alike_concat(a: Seq<int>, b: Seq<int>)
    requires
        no_four_alike(a),
        no_four_alike(b),
        a.len() == 0 || b.len() == 0 || a.last() != b[0],
    ensures
        no_four_alike(a + b),
{
    let t = a + b;
    assert forall|j: int| 0 <= j && j + 3 < t.len() implies !(#[trigger] t[j] == t[j + 1] && t[j
        + 1] == t[j + 2] && t[j + 2] == t[j + 3]) by {
        if j + 3 < a.len() {
            assert(t[j] == a[j] && t[j + 1] == a[j + 1] && t[j + 2] == a[j + 2] && t[j + 3] == a[j
                + 3]);
        } else if j >= a.len() {
            let i = j - a.len();
            assert(t[j] == b[i] && t[j + 1] == b[i + 1] && t[j + 2] == b[i + 2] && t[j + 3] == b[i
                + 3]);
        } else {
            // the run would hold the last sign of `a` and the first of `b`
            assert(t[a.len() - 1] == a.last());
            assert(t[a.len() as int] == b[0]);
        }
    }
}

/// The sign at `j` is subtracted: it is smaller than the sign after it.
pub open spec fn is_subtracted(t: Seq<int>, j: int) -> bool {
    0 <= j && j + 1 < t.len() && t[j] < t[j + 1]
}

/// Every sign that is subtracted is smaller than each sign subtracted
/// before it: one subtraction at most per tier of magnitude, largest first.
pub open spec fn subtractions_descend(t: Seq<int>) -> bool {
    forall|i: int, j: int|
        i < j && #[trigger] is_subtracted(t, i) && #[trigger] is_subtracted(t, j) ==> t[j] < t[i]
}

proof fn lemma_descend_concat(a: Seq<int>, b: Seq<int>, bound: int)
    requires
        subtractions_descend(a),
        subtractions_descend(b),
        forall|i: int| 0 <= i < a.len() ==> bound <= #[trigger] a[i],
        forall|j: int| #[trigger] is_subtracted(b, j) ==> b[j] < bound,
        a.len() == 0 || b.len() == 0 || a.last() >= b[0],
    ensures
        subtractions_descend(a + b),
{
    let t = a + b;
    let n = a.len() as int;
    assert forall|j: int| #[trigger] is_subtracted(t, j) implies (j < n - 1 && is_subtracted(a, j)
        && t[j] == a[j]) || (j >= n && is_subtracted(b, j - n) && t[j] == b[j - n]) by {
        if j < n - 1 {
            assert(t[j] == a[j] && t[j + 1] == a[j + 1]);
        } else if j == n - 1 {
            assert(t[j] == a.last() && t[j + 1] == b[0]);
        } else {
            assert(t[j] == b[j - n] && t[j + 1] == b[j - n + 1]);
        }
    }
    assert forall|i: int, j: int|
        i < j && #[trigger] is_subtracted(t, i) && #[trigger] is_subtracted(t, j) implies t[j]
        < t[i] by {
        if j < n - 1 {
            assert(is_subtracted(a, i) && is_subtracted(a, j));
        } else if i >= n {
            assert(is_subtracted(b, i - n) && is_subtracted(b, j - n));
        } else {
            assert(is_subtracted(b, j - n));
            assert(bound <= a[i]);
        }
    }
}

/// The signs of one digit: no four alike, and the only subtracted sign is
/// a unit of the place.
proof fn lemma_digit_shape(d: int, k: int)
    requires
        0 <= d <= 9,
        0 <= k < 6,
    ensures
        no_four_alike(glyph_values(digit_glyphs(d, k))),
        subtractions_descend(glyph_values(digit_glyphs(d, k))),
        forall|j: int| #[trigger]
            is_subtracted(glyph_values(digit_glyphs(d, k)), j) ==> glyph_values(
                digit_glyphs(d, k),
            )[j] == pow10(k),
{
    let u = pow10(k);
    let b = glyph_values(digit_glyphs(d, k));
    lemma_place_values(k);
    if d == 4 {
        lemma_values_two(sub_glyph(k), five_glyph(k));
        assert(b =~= seq![u, 5 * u]);
    } else if d == 9 {
        lemma_values_two(sub_glyph(k), unit_glyph(k + 1));
        assert(b =~= seq![u, 10 * u]);
    } else if d >= 5 {
        let rep = repeat_glyph(unit_glyph(k), d - 5);
        lemma_repeat_values(unit_glyph(k), d - 5);
        lemma_values_one(five_glyph(k));
        lemma_glyph_values_concat(seq![five_glyph(k)], rep);
        assert(b =~= seq![5 * u] + Seq::new((d - 5) as nat, |i: int| u));
        assert(forall|j: int| 1 <= j < b.len() ==> b[j] == u);
    } else {
        lemma_repeat_values(unit_glyph(k), d);
        assert(forall|j: int| 0 <= j < b.len() ==> b[j] == u);
    }
}

/// The signs for the part of `v` at place `k` and above: subtractions
/// descend, and below four million no four signs in a row are alike.
proof fn lemma_leading_shape(v: int, k: int)
    requires
        0 <= v <= MAX,
        0 <= k <= 6,
    ensures
        subtractions_descend(glyph_values(leading_glyphs(v, k))),
        v < 4_000_000 ==> no_four_alike(glyph_values(leading_glyphs(v, k))),
    decreases 6 - k,
{
    lemma_leading_values(v, k);
    if k == 6 {
        let n = v / 1_000_000;
        lemma_repeat_values(unit_glyph(6), n);
        let t = glyph_values(leading_glyphs(v, k));
        assert(forall|j: int| 0 <= j < t.len() ==> t[j] == glyph_value(unit_glyph(6)));
        if v < 4_000_000 {
            assert(t.len() <= 3);
        }
    } else {
        let u = pow10(k);
        let d = digit(v, k);
        let a = glyph_values(leading_glyphs(v, k + 1));
        let b = glyph_values(digit_glyphs(d, k));
        lemma_leading_shape(v, k + 1);
        lemma_leading_values(v, k + 1);
        lemma_place_values(k);
        lemma_digit_values(d, k);
        lemma_digit_shape(d, k);
        lemma_glyph_values_concat(leading_glyphs(v, k + 1), digit_glyphs(d, k));
        if a.len() > 0 && b.len() > 0 {
            assert(a[a.len() - 1] >= 10 * u);
        }
        lemma_descend_concat(a, b, 10 * u);
        if v < 4_000_000 {
            lemma_no_four_alike_concat(a, b);
        }
    }
}

/// In every numeral from 1 to 4,999,999 the subtracted signs come one per
/// tier at most, largest first; below four million no sign value is
/// written four times in a row (four million and more begins with four
/// barred Ms).
pub proof fn law_sign_runs(v: int, style: Style)
    requires
        1 <= v <= MAX,
    ensures
        subtractions_descend(sign_values(roman_text(v, style))),
        v < 4_000_000 ==> no_four_alike(sign_values(roman_text(v, style))),
{
    lemma_sign_values_render(numeral_glyphs(v), style);
    lemma_leading_shape(v, 0);
}

} // verus!
