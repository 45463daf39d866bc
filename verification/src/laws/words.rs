//! Numerals, sizes and the order of texts.
use vstd::arithmetic::power2::pow2;
use vstd::prelude::*;

use crate::size::{
    double_spacing, human_size, round_half_even, size_tenths, size_text, unit_bytes, unit_name,
};
use crate::text::{
    chars_before, chars_of, decimal, decimal_text, digit, has_suffix, lex_before, push_decimal,
};

verus! {

/// The number that a row of decimal digits stands for.
pub open spec fn numeral_value(digits: Seq<char>) -> int
    decreases digits.len(),
{
    if digits.len() == 0 {
        0
    } else {
        10 * numeral_value(digits.drop_last()) + (digits.last() as int - '0' as int)
    }
}

/// `text` is `n` in decimal digits, without leading zeros.
pub open spec fn is_numeral(text: Seq<char>, n: int) -> bool {
    &&& text.len() > 0
    &&& forall|i: int| 0 <= i < text.len() ==> '0' <= #[trigger] text[i] <= '9'
    &&& text.len() > 1 ==> text[0] != '0'
    &&& numeral_value(text) == n
}

/// `a` and `b` agree before the position `k`, and there `a` ends or has the smaller character.
pub open spec fn differ_at(a: Seq<char>, b: Seq<char>, k: int) -> bool {
    &&& 0 <= k <= a.len()
    &&& k < b.len()
    &&& forall|i: int| 0 <= i < k ==> a[i] == b[i]
    &&& k == a.len() || a[k] < b[k]
}

/// `a` stands before `b` in a dictionary that goes by code points.
pub open spec fn comes_before(a: Seq<char>, b: Seq<char>) -> bool {
    exists|k: int| #[trigger] differ_at(a, b, k)
}

/// `t` times `b` is as near to `a` as can be; of two that are as near, `t` is the even one.
pub open spec fn is_nearest(t: int, a: int, b: int) -> bool {
    &&& 2 * (t * b - a) <= b
    &&& 2 * (a - t * b) <= b
    &&& 2 * (t * b - a) == b || 2 * (a - t * b) == b ==> t % 2 == 0
}

/// `d` is `m` times the power `e` of two, and the number with a mantissa of 53 bits that is
/// nearest to `n`.
pub open spec fn is_double_at(n: int, d: int, m: int, e: nat) -> bool {
    &&& if n < 0x20_0000_0000_0000 {
        e == 0
    } else {
        0x10_0000_0000_0000 * pow2(e) <= n < 0x20_0000_0000_0000 * pow2(e)
    }
    &&& d == m * pow2(e)
    &&& is_nearest(m, n, pow2(e) as int)
}

/// `d` is the double-precision number nearest to `n`.
pub open spec fn is_double_of(n: int, d: int) -> bool {
    exists|m: int, e: nat| #[trigger] is_double_at(n, d, m, e)
}

/// The unit for `n` bytes, in bytes and in letters.
pub open spec fn unit_for(n: int) -> (int, Seq<char>) {
    if n < 1024 {
        (1, "B"@)
    } else if n < 1048576 {
        (1024, "KB"@)
    } else if n < 1073741824 {
        (1048576, "MB"@)
    } else {
        (1073741824, "GB"@)
    }
}

/// `text` gives `whole` and `tenths % 10` tenths of the unit for `n` bytes, where `tenths`
/// tenths are nearest to the double-precision number `d`.
pub open spec fn reads_as_tenths(
    text: Seq<char>,
    n: int,
    d: int,
    tenths: int,
    whole: Seq<char>,
    tenth: Seq<char>,
) -> bool {
    &&& is_double_of(n, d)
    &&& is_nearest(tenths, 10 * d, unit_for(n).0)
    &&& is_numeral(whole, tenths / 10)
    &&& is_numeral(tenth, tenths % 10)
    &&& text == whole + "."@ + tenth + " "@ + unit_for(n).1
}

/// `text` tells a reader that something has `n` bytes: bytes as they are, larger sizes in the
/// largest unit that they fill, to the nearest tenth.
pub open spec fn reads_as_size(text: Seq<char>, n: int) -> bool {
    if n < 1024 {
        exists|number: Seq<char>| #[trigger]
            is_numeral(number, n) && text == number + " "@ + unit_for(n).1
    } else {
        exists|d: int, tenths: int, whole: Seq<char>, tenth: Seq<char>| #[trigger]
            reads_as_tenths(text, n, d, tenths, whole, tenth)
    }
}

/// A numeral holds digits only, does not start with a zero unless it is a single one, and
/// reads back as the number.
pub proof fn numerals_read_back(n: u64, text: String)
    requires
        call_ensures(decimal_text, (n,), text),
    ensures
        is_numeral(text@, n as int),
{
    decimal_is_numeral(n as nat);
}

/// A numeral is written behind what is there.
pub proof fn numerals_are_appended(out: &mut String, n: u64)
    requires
        call_ensures(push_decimal, (out, n), ()),
    ensures
        old(out)@.is_prefix_of(final(out)@),
        is_numeral(final(out)@.skip(old(out)@.len() as int), n as int),
{
    decimal_is_numeral(n as nat);
    assert(final(out)@.skip(old(out)@.len() as int) == decimal(n as nat));
    assert(final(out)@.take(old(out)@.len() as int) == old(out)@);
}

pub(crate) proof fn decimal_is_numeral(n: nat)
    ensures
        is_numeral(decimal(n), n as int),
        n > 0 ==> decimal(n)[0] != '0',
    decreases n,
{
    let text = decimal(n);
    if n < 10 {
        assert(text.drop_last() == Seq::<char>::empty());
        assert(numeral_value(text.drop_last()) == 0);
    } else {
        decimal_is_numeral(n / 10);
        assert(text.drop_last() == decimal(n / 10));
        assert(text[0] == decimal(n / 10)[0]);
        assert forall|i: int| 0 <= i < text.len() implies '0' <= #[trigger] text[i] <= '9' by {
            if i < text.len() - 1 {
                assert(text[i] == decimal(n / 10)[i]);
            }
        }
    }
}

/// The characters of a text are taken over one by one.
pub proof fn characters_are_kept(s: &str, chars: Vec<char>)
    requires
        call_ensures(chars_of, (s,), chars),
    ensures
        chars@.len() == s@.len(),
        forall|i: int| 0 <= i < s@.len() ==> chars@[i] == s@[i],
{
}

/// Texts are ordered by their first difference, and the start of a text comes before it.
pub proof fn texts_are_ordered_by_their_first_difference(
    a: &Vec<char>,
    b: &Vec<char>,
    before: bool,
)
    requires
        call_ensures(chars_before, (a, b), before),
    ensures
        before <==> comes_before(a@, b@),
{
    lex_before_is_comes_before(a@, b@);
}

pub(crate) proof fn lex_before_is_comes_before(a: Seq<char>, b: Seq<char>)
    ensures
        lex_before(a, b) <==> comes_before(a, b),
    decreases a.len(),
{
    if a.len() > 0 && b.len() > 0 && a[0] == b[0] {
        let (x, y) = (a.drop_first(), b.drop_first());
        lex_before_is_comes_before(x, y);
        if comes_before(x, y) {
            let k = choose|k: int| #[trigger] differ_at(x, y, k);
            assert forall|i: int| 0 <= i < k + 1 implies a[i] == b[i] by {
                if i > 0 {
                    assert(x[i - 1] == y[i - 1]);
                }
            }
            assert(differ_at(a, b, k + 1));
        }
        if comes_before(a, b) {
            let k = choose|k: int| #[trigger] differ_at(a, b, k);
            assert(k > 0);
            assert(differ_at(x, y, k - 1));
        }
    } else if b.len() > 0 {
        if lex_before(a, b) {
            assert(differ_at(a, b, 0));
        }
        if comes_before(a, b) {
            let k = choose|k: int| #[trigger] differ_at(a, b, k);
            assert(k == 0 || a[0] == b[0]);
        }
    }
}

/// A text has an ending where something can be put before the ending to give the text.
pub proof fn endings_are_what_is_left_behind_a_start(
    chars: &Vec<char>,
    suffix: &str,
    found: bool,
)
    requires
        call_ensures(has_suffix, (chars, suffix), found),
    ensures
        found <==> exists|start: Seq<char>| chars@ == #[trigger] (start + suffix@),
{
    ending_is_suffix(chars@, suffix@);
}

pub(crate) proof fn ending_is_suffix(text: Seq<char>, ending: Seq<char>)
    ensures
        ending.is_suffix_of(text) <==> exists|start: Seq<char>| text == #[trigger] (start + ending),
{
    if ending.is_suffix_of(text) {
        let start = text.take(text.len() - ending.len());
        assert(text == start + ending);
    }
    if exists|start: Seq<char>| text == #[trigger] (start + ending) {
        let start = choose|start: Seq<char>| text == #[trigger] (start + ending);
        assert(text.subrange(text.len() - ending.len(), text.len() as int) == ending);
    }
}

/// A size is told in the largest unit that it fills: bytes exactly, and larger sizes to the
/// nearest tenth.
pub proof fn sizes_are_told_to_the_nearest_tenth(n: u64, text: String)
    requires
        call_ensures(human_size, (n,), text),
    ensures
        reads_as_size(text@, n as int),
{
    size_text_reads_as_size(n as nat);
}

proof fn round_half_even_is_nearest(a: nat, b: nat)
    requires
        b > 0,
    ensures
        is_nearest(round_half_even(a, b) as int, a as int, b as int),
{
    vstd::arithmetic::div_mod::lemma_fundamental_div_mod(a as int, b as int);
    let quotient = a / b;
    assert((quotient + 1) * b == quotient * b + b) by (nonlinear_arith);
    assert(b * quotient == quotient * b) by (nonlinear_arith);
}

proof fn spacing_is_a_power(n: nat) -> (e: nat)
    ensures
        double_spacing(n) == pow2(e),
        if n < 0x20_0000_0000_0000 {
            e == 0
        } else {
            0x10_0000_0000_0000 * pow2(e) <= n < 0x20_0000_0000_0000 * pow2(e)
        },
    decreases n,
{
    vstd::arithmetic::power2::lemma2_to64();
    if n < 0x20_0000_0000_0000 {
        0
    } else {
        let e = spacing_is_a_power(n / 2);
        vstd::arithmetic::power2::lemma_pow2_unfold(e + 1);
        e + 1
    }
}

pub(crate) proof fn size_text_reads_as_size(n: nat)
    ensures
        reads_as_size(size_text(n), n as int),
{
    let text = size_text(n);
    assert(unit_for(n as int).0 == unit_bytes(n));
    assert(unit_for(n as int).1 == unit_name(n));
    if n < 1024 {
        decimal_is_numeral(n);
        assert(text == decimal(n) + " "@ + unit_for(n as int).1);
    } else {
        let e = spacing_is_a_power(n);
        let s = double_spacing(n);
        vstd::arithmetic::power2::lemma_pow2_pos(e);
        round_half_even_is_nearest(n, s);
        let m = round_half_even(n, s);
        let d = m * s;
        assert(is_double_at(n as int, d as int, m as int, e));
        round_half_even_is_nearest(10 * d, unit_bytes(n));
        let tenths = size_tenths(n);
        decimal_is_numeral(tenths / 10);
        decimal_is_numeral(tenths % 10);
        assert(decimal(tenths % 10) == seq![digit(tenths % 10)]);
        assert(reads_as_tenths(
            text,
            n as int,
            d as int,
            tenths as int,
            decimal(tenths / 10),
            decimal(tenths % 10),
        ));
    }
}

} // verus!
