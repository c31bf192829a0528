//! Numbers as text, and the few string operations the process list needs.

use vstd::prelude::*;

verus! {

/// The character for one digit: `0` to `9`, then `A` to `F`.
pub open spec fn digit_char(digit: nat) -> char {
    if digit < 10 {
        ('0' as nat + digit) as char
    } else {
        ('A' as nat + digit - 10) as char
    }
}

/// `number` written in `base`, most significant digit first, without leading
/// zeros; zero is the single digit `0`.
pub open spec fn numeral(number: nat, base: nat) -> Seq<char>
    decreases number,
{
    if base < 2 || number < base {
        seq![digit_char(number)]
    } else {
        proof {
            vstd::arithmetic::div_mod::lemma_div_decreases(number as int, base as int);
        }
        numeral(number / base, base).push(digit_char(number % base))
    }
}

/// `number` in decimal.
pub open spec fn decimal(number: nat) -> Seq<char> {
    numeral(number, 10)
}

/// `number` in upper case hexadecimal behind `0x`.
pub open spec fn hex(number: nat) -> Seq<char> {
    "0x"@ + numeral(number, 16)
}

/// The one-digit string for `digit`.
fn digit_text(digit: u64) -> (text: &'static str)
    requires
        digit < 16,
    ensures
        text@ == seq![digit_char(digit as nat)],
{
    proof {
        reveal_strlit("0");
        reveal_strlit("1");
        reveal_strlit("2");
        reveal_strlit("3");
        reveal_strlit("4");
        reveal_strlit("5");
        reveal_strlit("6");
        reveal_strlit("7");
        reveal_strlit("8");
        reveal_strlit("9");
        reveal_strlit("A");
        reveal_strlit("B");
        reveal_strlit("C");
        reveal_strlit("D");
        reveal_strlit("E");
        reveal_strlit("F");
    }
    match digit {
        0 => "0",
        1 => "1",
        2 => "2",
        3 => "3",
        4 => "4",
        5 => "5",
        6 => "6",
        7 => "7",
        8 => "8",
        9 => "9",
        10 => "A",
        11 => "B",
        12 => "C",
        13 => "D",
        14 => "E",
        _ => "F",
    }
}

/// Writes `number` in `base` behind what `out` holds.
fn append_numeral(out: &mut String, number: u64, base: u64)
    requires
        2 <= base <= 16,
    ensures
        final(out)@ == old(out)@ + numeral(number as nat, base as nat),
    decreases number,
{
    let ghost before = out@;
    if number >= base {
        proof {
            assert(number / base < number) by (nonlinear_arith)
                requires
                    number >= base,
                    base >= 2,
            ;
        }
        append_numeral(out, number / base, base);
    }
    assert(number % base < base) by (nonlinear_arith)
        requires
            base >= 2,
    ;
    out.append(digit_text(number % base));
    proof {
        if number < base {
            assert(number % base == number) by (nonlinear_arith)
                requires
                    number < base,
            ;
        }
        assert(out@ =~= before + numeral(number as nat, base as nat));
    }
}

/// Writes `number` in decimal behind what `out` holds.
pub fn append_decimal(out: &mut String, number: u64)
    ensures
        final(out)@ == old(out)@ + decimal(number as nat),
{
    append_numeral(out, number, 10);
}

/// Writes `number` in hexadecimal, with its `0x`, behind what `out` holds.
pub fn append_hex(out: &mut String, number: u64)
    ensures
        final(out)@ == old(out)@ + hex(number as nat),
{
    let ghost before = out@;
    out.append("0x");
    append_numeral(out, number, 16);
    assert(out@ =~= before + hex(number as nat));
}

/// Different numbers are written differently.
pub proof fn law_numeral_injective(a: nat, b: nat, base: nat)
    requires
        2 <= base <= 16,
        numeral(a, base) == numeral(b, base),
    ensures
        a == b,
    decreases a,
{
    let (x, y) = (numeral(a, base), numeral(b, base));
    lemma_numeral_len(a, base);
    lemma_numeral_len(b, base);
    vstd::arithmetic::div_mod::lemma_fundamental_div_mod(a as int, base as int);
    vstd::arithmetic::div_mod::lemma_fundamental_div_mod(b as int, base as int);
    assert(a % base < base && b % base < base) by (nonlinear_arith)
        requires
            base >= 2,
    ;
    if a < base {
        assert(x[0] == y[0]);
    } else {
        assert(x.last() == y.last());
        assert(x.drop_last() =~= numeral(a / base, base));
        assert(y.drop_last() =~= numeral(b / base, base));
        vstd::arithmetic::div_mod::lemma_div_decreases(a as int, base as int);
        law_numeral_injective(a / base, b / base, base);
    }
}

/// A number below the base has one digit, every other more.
proof fn lemma_numeral_len(number: nat, base: nat)
    requires
        base >= 2,
    ensures
        number < base ==> numeral(number, base).len() == 1,
        number >= base ==> numeral(number, base).len() >= 2,
    decreases number,
{
    if number >= base {
        vstd::arithmetic::div_mod::lemma_div_decreases(number as int, base as int);
        lemma_numeral_len(number / base, base);
    }
}

/// The number that a digit stands for.
pub open spec fn digit_value(digit: char) -> int {
    if digit >= 'A' {
        digit as int - 'A' as int + 10
    } else {
        digit as int - '0' as int
    }
}

/// Reading a numeral digit by digit gives back the number, and it is written with
/// the digits of its base only, without a zero in front.
pub proof fn law_numeral_reads_back(number: nat, base: nat)
    requires
        2 <= base <= 16,
    ensures
        numeral(number, base).fold_left(
            0int,
            |value: int, digit: char| value * base + digit_value(digit),
        ) == number,
        numeral(number, base).len() > 0,
        forall|i: int|
            0 <= i < numeral(number, base).len() ==> {
                let digit = #[trigger] numeral(number, base)[i];
                ('0' <= digit <= '9' || 'A' <= digit <= 'F') && digit_value(digit) < base
            },
        numeral(number, base)[0] == '0' ==> number == 0,
    decreases number,
{
    let read = |value: int, digit: char| value * base + digit_value(digit);
    let text = numeral(number, base);
    vstd::arithmetic::div_mod::lemma_fundamental_div_mod(number as int, base as int);
    assert(number % base < base) by (nonlinear_arith)
        requires
            base >= 2,
    ;
    if number < base {
        assert(text.drop_last() =~= Seq::empty());
        assert(text.drop_last().fold_left(0int, read) == 0);
        assert(0 * base == 0) by (nonlinear_arith);
    } else {
        vstd::arithmetic::div_mod::lemma_div_decreases(number as int, base as int);
        vstd::arithmetic::div_mod::lemma_div_non_zero(number as int, base as int);
        law_numeral_reads_back(number / base, base);
        assert(text.drop_last() =~= numeral(number / base, base));
        assert(base * (number / base) == (number / base) * base) by (nonlinear_arith);
        assert forall|i: int| 0 <= i < text.len() implies ({
            let digit = #[trigger] text[i];
            ('0' <= digit <= '9' || 'A' <= digit <= 'F') && digit_value(digit) < base
        }) by {
            if i < text.len() - 1 {
                assert(text[i] == numeral(number / base, base)[i]);
            }
        }
        assert(text[0] == numeral(number / base, base)[0]);
    }
}

/// A number in decimal is made of the digits `0` to `9`, and reading them gives
/// the number back.
pub proof fn law_decimal_reads_back(number: nat)
    ensures
        decimal(number).fold_left(
            0int,
            |value: int, digit: char| value * 10 + (digit as int - '0' as int),
        ) == number,
        decimal(number).len() > 0,
        forall|i: int|
            0 <= i < decimal(number).len() ==> '0' <= (#[trigger] decimal(number)[i]) <= '9',
        decimal(number)[0] == '0' ==> number == 0,
{
    law_numeral_reads_back(number, 10);
    let text = decimal(number);
    let read = |value: int, digit: char| value * 10nat + digit_value(digit);
    let plain = |value: int, digit: char| value * 10 + (digit as int - '0' as int);
    assert forall|i: int| 0 <= i < text.len() implies '0' <= (#[trigger] text[i]) <= '9' by {
        assert(text[i] == numeral(number, 10)[i]);
    }
    lemma_same_reading(text, read, plain);
}

/// A number in hexadecimal is `0x` and digits, and reading those gives the number
/// back.
pub proof fn law_hex_reads_back(number: nat)
    ensures
        hex(number).len() > 2,
        hex(number)[0] == '0',
        hex(number)[1] == 'x',
        hex(number).skip(2).fold_left(
            0int,
            |value: int, digit: char| value * 16 + digit_value(digit),
        ) == number,
        forall|i: int|
            2 <= i < hex(number).len() ==> {
                let digit = #[trigger] hex(number)[i];
                '0' <= digit <= '9' || 'A' <= digit <= 'F'
            },
        hex(number)[2] == '0' ==> number == 0,
{
    law_numeral_reads_back(number, 16);
    reveal_strlit("0x");
    let text = hex(number).skip(2);
    assert(text =~= numeral(number, 16));
    let read = |value: int, digit: char| value * 16nat + digit_value(digit);
    let plain = |value: int, digit: char| value * 16 + digit_value(digit);
    lemma_same_reading(text, read, plain);
    assert forall|i: int| 2 <= i < hex(number).len() implies ({
        let digit = #[trigger] hex(number)[i];
        '0' <= digit <= '9' || 'A' <= digit <= 'F'
    }) by {
        assert(hex(number)[i] == numeral(number, 16)[i - 2]);
    }
}

/// Two ways to read that agree on every digit of a text read the same from it.
proof fn lemma_same_reading(
    text: Seq<char>,
    read: spec_fn(int, char) -> int,
    other: spec_fn(int, char) -> int,
)
    requires
        forall|value: int, i: int|
            0 <= i < text.len() ==> #[trigger] read(value, text[i]) == other(value, text[i]),
    ensures
        text.fold_left(0int, read) == text.fold_left(0int, other),
    decreases text.len(),
{
    if text.len() > 0 {
        let front = text.drop_last();
        assert forall|value: int, i: int| 0 <= i < front.len() implies #[trigger] read(
            value,
            front[i],
        ) == other(value, front[i]) by {
            assert(read(value, text[i]) == other(value, text[i]));
        }
        lemma_same_reading(front, read, other);
        assert(read(front.fold_left(0int, read), text[text.len() - 1]) == other(
            front.fold_left(0int, read),
            text[text.len() - 1],
        ));
    }
}

/// What `str::to_lowercase` makes of a text. The Unicode tables behind it are
/// not spelled out; all that is used of it is that equal texts have equal
/// lower case forms.
pub uninterp spec fn lowercase(text: Seq<char>) -> Seq<char>;

/// `str::to_lowercase`, whose result `lowercase` names.
#[verifier::external_body]
pub(crate) fn to_lowercase(text: &str) -> (lower: String)
    ensures
        lower@ == lowercase(text@),
{
    text.to_lowercase()
}

/// Whether `needle` stands somewhere in `text` in one piece.
pub open spec fn occurs_in(needle: Seq<char>, text: Seq<char>) -> bool {
    exists|at: int|
        0 <= at && at + needle.len() <= text.len() && #[trigger] text.subrange(
            at,
            at + needle.len(),
        ) == needle
}

/// A needle occurs in a text exactly when the text is something, the needle and
/// something more.
pub proof fn law_occurs_in(needle: Seq<char>, text: Seq<char>)
    ensures
        occurs_in(needle, text) <==> exists|prefix: Seq<char>, suffix: Seq<char>|
            text == #[trigger] (prefix + needle + suffix),
{
    if occurs_in(needle, text) {
        let at = choose|at: int|
            0 <= at && at + needle.len() <= text.len() && #[trigger] text.subrange(
                at,
                at + needle.len(),
            ) == needle;
        let (prefix, suffix) = (text.take(at), text.skip(at + needle.len()));
        assert(text =~= prefix + text.subrange(at, at + needle.len()) + suffix);
        assert(text == prefix + needle + suffix);
    }
    if exists|prefix: Seq<char>, suffix: Seq<char>| text == #[trigger] (prefix + needle + suffix) {
        let (prefix, suffix) = choose|prefix: Seq<char>, suffix: Seq<char>|
            text == #[trigger] (prefix + needle + suffix);
        let at = prefix.len() as int;
        assert(text.subrange(at, at + needle.len()) =~= needle);
    }
}

/// `str::contains` with a string pattern: true exactly when the pattern matches
/// a sub-slice of the text. Sub-slices begin and end between characters, so
/// the claim is made over characters.
#[verifier::external_body]
pub(crate) fn contains(text: &str, needle: &str) -> (found: bool)
    ensures
        found == occurs_in(needle@, text@),
{
    text.contains(needle)
}

/// Lexicographic order of texts by the code points of their characters.
pub open spec fn text_less(left: Seq<char>, right: Seq<char>) -> bool
    decreases left.len(),
{
    if right.len() == 0 {
        false
    } else if left.len() == 0 {
        true
    } else {
        left[0] < right[0] || (left[0] == right[0] && text_less(
            left.drop_first(),
            right.drop_first(),
        ))
    }
}

/// `<` on `str`: lexicographic by bytes, which for UTF-8 is lexicographic by
/// code points.
#[verifier::external_body]
pub(crate) fn is_text_less(left: &str, right: &str) -> (less: bool)
    ensures
        less == text_less(left@, right@),
{
    left < right
}

/// The order of texts is transitive.
pub proof fn law_text_order_transitive(a: Seq<char>, b: Seq<char>, c: Seq<char>)
    requires
        text_less(a, b),
        text_less(b, c),
    ensures
        text_less(a, c),
    decreases a.len(),
{
    if a.len() > 0 && a[0] == b[0] && b[0] == c[0] {
        law_text_order_transitive(a.drop_first(), b.drop_first(), c.drop_first());
    }
}

/// Of two texts exactly one comes first, unless they are the same.
pub proof fn law_text_order_total(a: Seq<char>, b: Seq<char>)
    ensures
        text_less(a, b) ==> !text_less(b, a) && a != b,
        !text_less(a, b) && !text_less(b, a) ==> a == b,
    decreases a.len(),
{
    if a.len() > 0 && b.len() > 0 {
        law_text_order_total(a.drop_first(), b.drop_first());
        if a[0] == b[0] && a.drop_first() == b.drop_first() {
            assert(a =~= seq![a[0]] + a.drop_first());
            assert(b =~= seq![b[0]] + b.drop_first());
        }
    } else if a.len() == 0 && b.len() == 0 {
        assert(a =~= b);
    }
}

/// One text comes before another exactly when it has the smaller character, or no
/// more of them, at the first place where the two differ.
pub proof fn law_text_order_first_difference(a: Seq<char>, b: Seq<char>)
    ensures
        text_less(a, b) <==> exists|k: int|
            0 <= k <= a.len() && k < b.len() && #[trigger] a.take(k) == b.take(k) && (k == a.len()
                || a[k] < b[k]),
    decreases a.len(),
{
    if a.len() > 0 && b.len() > 0 {
        let (p, q) = (a.drop_first(), b.drop_first());
        law_text_order_first_difference(p, q);
        if text_less(a, b) {
            if a[0] < b[0] {
                assert(a.take(0) =~= b.take(0));
            } else {
                let k = choose|k: int|
                    0 <= k <= p.len() && k < q.len() && #[trigger] p.take(k) == q.take(k) && (k
                        == p.len() || p[k] < q[k]);
                assert(a.take(k + 1) =~= seq![a[0]] + p.take(k));
                assert(b.take(k + 1) =~= seq![b[0]] + q.take(k));
                assert(a.take(k + 1) == b.take(k + 1));
            }
        }
        if exists|k: int|
            0 <= k <= a.len() && k < b.len() && #[trigger] a.take(k) == b.take(k) && (k == a.len()
                || a[k] < b[k]) {
            let k = choose|k: int|
                0 <= k <= a.len() && k < b.len() && #[trigger] a.take(k) == b.take(k) && (k
                    == a.len() || a[k] < b[k]);
            if k > 0 {
                assert(a.take(k)[0] == b.take(k)[0]);
                assert(p.take(k - 1) =~= a.take(k).drop_first());
                assert(q.take(k - 1) =~= b.take(k).drop_first());
            }
        }
    } else if b.len() > 0 {
        assert(a.take(0) =~= b.take(0));
    }
}

} // verus!
