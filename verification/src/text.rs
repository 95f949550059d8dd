//! Byte strings: the few operations on lines of text that the request
//! handling needs, each with its meaning stated over sequences of bytes.

use vstd::prelude::*;
use vstd::slice::slice_subrange;

verus! {

/// `text` without the leading `prefix`, if it starts with it.
pub open spec fn without_prefix(text: Seq<u8>, prefix: Seq<u8>) -> Option<Seq<u8>> {
    if prefix.is_prefix_of(text) {
        Some(text.skip(prefix.len() as int))
    } else {
        None
    }
}

/// `text` without the trailing `suffix`, if it ends with it.
pub open spec fn without_suffix(text: Seq<u8>, suffix: Seq<u8>) -> Option<Seq<u8>> {
    if suffix.is_suffix_of(text) {
        Some(text.take(text.len() - suffix.len()))
    } else {
        None
    }
}

/// What an optional slice holds.
pub open spec fn held(slice: Option<&[u8]>) -> Option<Seq<u8>> {
    match slice {
        Some(s) => Some(s@),
        None => None,
    }
}

/// Whether `text` begins with `prefix`.
pub fn starts_with(text: &[u8], prefix: &[u8]) -> (b: bool)
    ensures
        b == prefix@.is_prefix_of(text@),
{
    if prefix.len() > text.len() {
        return false;
    }
    let mut i: usize = 0;
    while i < prefix.len()
        invariant
            i <= prefix.len() <= text.len(),
            forall|k: int| 0 <= k < i ==> prefix@[k] == text@[k],
        decreases prefix.len() - i,
    {
        if prefix[i] != text[i] {
            assert(text@.subrange(0, prefix@.len() as int)[i as int] == text@[i as int]);
            return false;
        }
        i += 1;
    }
    assert(prefix@ =~= text@.subrange(0, prefix@.len() as int));
    true
}

/// Whether `text` ends with `suffix`.
pub fn ends_with(text: &[u8], suffix: &[u8]) -> (b: bool)
    ensures
        b == suffix@.is_suffix_of(text@),
{
    if suffix.len() > text.len() {
        return false;
    }
    let start: usize = text.len() - suffix.len();
    let mut i: usize = 0;
    while i < suffix.len()
        invariant
            i <= suffix.len() <= text.len(),
            start == text.len() - suffix.len(),
            forall|k: int| 0 <= k < i ==> suffix@[k] == text@[start + k],
        decreases suffix.len() - i,
    {
        if suffix[i] != text[start + i] {
            assert(text@.subrange(start as int, text@.len() as int)[i as int] == text@[start + i]);
            return false;
        }
        i += 1;
    }
    assert(suffix@ =~= text@.subrange(start as int, text@.len() as int));
    true
}

/// Whether the two hold the same bytes.
pub fn same(a: &[u8], b: &[u8]) -> (eq: bool)
    ensures
        eq == (a@ == b@),
{
    if a.len() != b.len() {
        return false;
    }
    let eq: bool = starts_with(a, b);
    proof {
        if eq {
            assert(a@ =~= b@);
        }
        if a@ == b@ {
            assert(b@ =~= a@.subrange(0, b@.len() as int));
        }
    }
    eq
}

/// `text` without the leading `prefix`; `None` if it does not start with it.
pub fn strip_prefix<'a>(text: &'a [u8], prefix: &[u8]) -> (rest: Option<&'a [u8]>)
    ensures
        held(rest) == without_prefix(text@, prefix@),
{
    if starts_with(text, prefix) {
        Some(slice_subrange(text, prefix.len(), text.len()))
    } else {
        None
    }
}

/// `text` without the trailing `suffix`; `None` if it does not end with it.
pub fn strip_suffix<'a>(text: &'a [u8], suffix: &[u8]) -> (rest: Option<&'a [u8]>)
    ensures
        held(rest) == without_suffix(text@, suffix@),
{
    if ends_with(text, suffix) {
        Some(slice_subrange(text, 0, text.len() - suffix.len()))
    } else {
        None
    }
}

/// Whether `b` is one of the white-space characters of one byte: tab, line
/// feed, vertical tab, form feed, carriage return, space.
pub open spec fn is_space_1(b: u8) -> bool {
    (0x09 <= b && b <= 0x0d) || b == 0x20
}

/// Whether the two bytes encode a white-space character: U+0085 or U+00A0.
pub open spec fn is_space_2(a: u8, b: u8) -> bool {
    a == 0xc2 && (b == 0x85 || b == 0xa0)
}

/// Whether the three bytes encode a white-space character: U+1680,
/// U+2000 to U+200A, U+2028, U+2029, U+202F, U+205F or U+3000.
pub open spec fn is_space_3(a: u8, b: u8, c: u8) -> bool {
    ||| a == 0xe1 && b == 0x9a && c == 0x80
    ||| a == 0xe2 && b == 0x80 && ((0x80 <= c && c <= 0x8a) || c == 0xa8 || c == 0xa9 || c == 0xaf)
    ||| a == 0xe2 && b == 0x81 && c == 0x9f
    ||| a == 0xe3 && b == 0x80 && c == 0x80
}

/// The length of the white-space character that `text` begins with; 0 if it
/// begins with none.
pub open spec fn space_before(text: Seq<u8>) -> nat {
    if text.len() >= 1 && is_space_1(text[0]) {
        1
    } else if text.len() >= 2 && is_space_2(text[0], text[1]) {
        2
    } else if text.len() >= 3 && is_space_3(text[0], text[1], text[2]) {
        3
    } else {
        0
    }
}

/// The length of the white-space character that `text` ends with; 0 if it
/// ends with none.
pub open spec fn space_after(text: Seq<u8>) -> nat {
    let n = text.len() as int;
    if n >= 1 && is_space_1(text[n - 1]) {
        1
    } else if n >= 2 && is_space_2(text[n - 2], text[n - 1]) {
        2
    } else if n >= 3 && is_space_3(text[n - 3], text[n - 2], text[n - 1]) {
        3
    } else {
        0
    }
}

/// `text` without the white space that it begins with.
pub open spec fn trimmed_start(text: Seq<u8>) -> Seq<u8>
    decreases text.len(),
{
    if space_before(text) > 0 {
        trimmed_start(text.skip(space_before(text) as int))
    } else {
        text
    }
}

/// `text` without the white space that it ends with.
pub open spec fn trimmed_end(text: Seq<u8>) -> Seq<u8>
    decreases text.len(),
{
    if space_after(text) > 0 {
        trimmed_end(text.take(text.len() - space_after(text)))
    } else {
        text
    }
}

/// `text` without the white space at its two ends.
pub open spec fn trimmed(text: Seq<u8>) -> Seq<u8> {
    trimmed_end(trimmed_start(text))
}

fn space_1(b: u8) -> (r: bool)
    ensures
        r == is_space_1(b),
{
    (0x09 <= b && b <= 0x0d) || b == 0x20
}

fn space_2(a: u8, b: u8) -> (r: bool)
    ensures
        r == is_space_2(a, b),
{
    a == 0xc2 && (b == 0x85 || b == 0xa0)
}

fn space_3(a: u8, b: u8, c: u8) -> (r: bool)
    ensures
        r == is_space_3(a, b, c),
{
    (a == 0xe1 && b == 0x9a && c == 0x80) || (a == 0xe2 && b == 0x80 && ((0x80 <= c && c <= 0x8a)
        || c == 0xa8 || c == 0xa9 || c == 0xaf)) || (a == 0xe2 && b == 0x81 && c == 0x9f) || (a
        == 0xe3 && b == 0x80 && c == 0x80)
}

/// The length of the white-space character at `text[from..to]`'s start.
fn space_at_start(text: &[u8], from: usize, to: usize) -> (n: usize)
    requires
        from <= to <= text.len(),
    ensures
        n == space_before(text@.subrange(from as int, to as int)),
{
    let len: usize = to - from;
    if len >= 1 && space_1(text[from]) {
        1
    } else if len >= 2 && space_2(text[from], text[from + 1]) {
        2
    } else if len >= 3 && space_3(text[from], text[from + 1], text[from + 2]) {
        3
    } else {
        0
    }
}

/// The length of the white-space character at `text[from..to]`'s end.
fn space_at_end(text: &[u8], from: usize, to: usize) -> (n: usize)
    requires
        from <= to <= text.len(),
    ensures
        n == space_after(text@.subrange(from as int, to as int)),
{
    let len: usize = to - from;
    if len >= 1 && space_1(text[to - 1]) {
        1
    } else if len >= 2 && space_2(text[to - 2], text[to - 1]) {
        2
    } else if len >= 3 && space_3(text[to - 3], text[to - 2], text[to - 1]) {
        3
    } else {
        0
    }
}

/// `text` without the white space at its two ends.
pub fn trim(text: &[u8]) -> (rest: &[u8])
    ensures
        rest@ == trimmed(text@),
{
    let mut from: usize = 0;
    let to_end: usize = text.len();
    assert(text@.subrange(0, to_end as int) =~= text@);
    loop
        invariant
            from <= to_end == text.len(),
            trimmed_start(text@) == trimmed_start(text@.subrange(from as int, to_end as int)),
        ensures
            from <= to_end,
            trimmed_start(text@) == text@.subrange(from as int, to_end as int),
        decreases to_end - from,
    {
        let n: usize = space_at_start(text, from, to_end);
        if n == 0 {
            break ;
        }
        assert(text@.subrange(from as int, to_end as int).skip(n as int) =~= text@.subrange(
            from + n,
            to_end as int,
        ));
        from += n;
    }
    let mut to: usize = to_end;
    loop
        invariant
            from <= to <= text.len(),
            trimmed(text@) == trimmed_end(text@.subrange(from as int, to as int)),
        ensures
            from <= to <= text.len(),
            trimmed(text@) == text@.subrange(from as int, to as int),
        decreases to - from,
    {
        let n: usize = space_at_end(text, from, to);
        if n == 0 {
            break ;
        }
        assert(text@.subrange(from as int, to as int).take(to - from - n) =~= text@.subrange(
            from as int,
            to - n,
        ));
        to -= n;
    }
    slice_subrange(text, from, to)
}

/// Whether `b` is a decimal digit, `0` to `9`.
pub open spec fn is_digit(b: u8) -> bool {
    0x30 <= b && b <= 0x39
}

/// Whether `text` is made of decimal digits alone.
pub open spec fn all_digits(text: Seq<u8>) -> bool {
    forall|i: int| 0 <= i < text.len() ==> is_digit(#[trigger] text[i])
}

/// The number that a sequence of decimal digits writes; 0 for none.
pub open spec fn digits_value(digits: Seq<u8>) -> nat
    decreases digits.len(),
{
    if digits.len() == 0 {
        0
    } else {
        10 * digits_value(digits.drop_last()) + (digits.last() - 0x30) as nat
    }
}

/// `text` without the one plus sign that may stand before its digits.
pub open spec fn unsigned(text: Seq<u8>) -> Seq<u8> {
    if text.len() > 0 && text[0] == 0x2b {
        text.skip(1)
    } else {
        text
    }
}

/// The number that `text` writes in decimal, if it writes one that is at
/// most `max`: an optional plus sign, then one digit or more, and nothing
/// else.
pub open spec fn number(text: Seq<u8>, max: nat) -> Option<nat> {
    let digits = unsigned(text);
    if digits.len() > 0 && all_digits(digits) && digits_value(digits) <= max {
        Some(digits_value(digits))
    } else {
        None
    }
}

/// The decimal digits of `n`, without leading zeros; `0` for zero.
pub open spec fn decimal_digits(n: nat) -> Seq<u8>
    decreases n,
{
    if n < 10 {
        seq![(n + 0x30) as u8]
    } else {
        decimal_digits(n / 10).push((n % 10 + 0x30) as u8)
    }
}

/// A longer sequence of digits writes no smaller number than its beginning.
proof fn lemma_digits_value_grows(digits: Seq<u8>, k: int)
    requires
        0 <= k <= digits.len(),
    ensures
        digits_value(digits.take(k)) <= digits_value(digits),
    decreases digits.len() - k,
{
    if k < digits.len() {
        lemma_digits_value_grows(digits, k + 1);
        assert(digits.take(k + 1).drop_last() =~= digits.take(k));
    } else {
        assert(digits.take(k) =~= digits);
    }
}

/// The number that `text` writes in decimal, if it writes one that is at
/// most `max`.
pub fn parse_number(text: &[u8], max: u64) -> (n: Option<u64>)
    ensures
        match n {
            Some(v) => number(text@, max as nat) == Some(v as nat),
            None => number(text@, max as nat).is_none(),
        },
{
    let start: usize = if text.len() > 0 && text[0] == 0x2b {
        1
    } else {
        0
    };
    let ghost digits = unsigned(text@);
    assert(digits =~= text@.subrange(start as int, text@.len() as int));
    if start == text.len() {
        return None;
    }
    let mut value: u64 = 0;
    let mut i: usize = start;
    while i < text.len()
        invariant
            start <= i <= text.len(),
            digits == unsigned(text@),
            digits == text@.subrange(start as int, text@.len() as int),
            all_digits(digits.take(i - start)),
            value == digits_value(digits.take(i - start)),
            value <= max,
        decreases text.len() - i,
    {
        let b: u8 = text[i];
        let ghost seen = digits.take(i - start + 1);
        assert(seen.drop_last() =~= digits.take(i - start));
        assert(seen.last() == b);
        if !(0x30 <= b && b <= 0x39) {
            assert(!is_digit(digits[i - start]));
            return None;
        }
        let d: u64 = (b - 0x30) as u64;
        if d > max || value > (max - d) / 10 {
            proof {
                assert(digits_value(seen) == 10 * value + d);
                assert(digits_value(seen) > max) by (nonlinear_arith)
                    requires
                        d > max || value > (max - d) / 10,
                        digits_value(seen) == 10 * value + d,
                {}
                lemma_digits_value_grows(digits, i - start + 1);
            }
            return None;
        }
        assert(10 * value + d <= max) by (nonlinear_arith)
            requires
                value <= (max - d) / 10,
                d <= max,
        {}
        value = 10 * value + d;
        assert(all_digits(seen)) by {
            assert forall|k: int| 0 <= k < seen.len() implies is_digit(#[trigger] seen[k]) by {
                if k < i - start {
                    assert(digits.take(i - start)[k] == seen[k]);
                }
            }
        }
        i += 1;
    }
    assert(digits.take(i - start) =~= digits);
    Some(value)
}

/// The decimal digits of `n`.
pub fn decimal(n: usize) -> (digits: Vec<u8>)
    ensures
        digits@ == decimal_digits(n as nat),
{
    let mut reversed: Vec<u8> = Vec::new();
    let mut rest: usize = n;
    let ghost mut tail: Seq<u8> = Seq::empty();
    loop
        invariant_except_break
            decimal_digits(n as nat) == decimal_digits(rest as nat) + tail,
        invariant
            reversed@.len() == tail.len(),
            forall|k: int| 0 <= k < tail.len() ==> reversed@[k] == tail[tail.len() - 1 - k],
        ensures
            reversed@.len() == tail.len(),
            forall|k: int| 0 <= k < tail.len() ==> reversed@[k] == tail[tail.len() - 1 - k],
            decimal_digits(n as nat) == tail,
        decreases rest,
    {
        let d: u8 = (rest % 10) as u8 + 0x30;
        reversed.push(d);
        proof {
            let longer = seq![d] + tail;
            if rest < 10 {
                assert(decimal_digits(rest as nat) + tail =~= longer);
            } else {
                assert(decimal_digits(rest as nat) + tail =~= decimal_digits((rest / 10) as nat)
                    + longer);
            }
            tail = longer;
        }
        if rest < 10 {
            break ;
        }
        rest = rest / 10;
    }
    let mut digits: Vec<u8> = Vec::new();
    let mut i: usize = reversed.len();
    while i > 0
        invariant
            i <= reversed@.len() == tail.len(),
            forall|k: int| 0 <= k < tail.len() ==> reversed@[k] == tail[tail.len() - 1 - k],
            digits@ == tail.take(tail.len() - i),
        decreases i,
    {
        i -= 1;
        digits.push(reversed[i]);
        assert(digits@ =~= tail.take(tail.len() - i));
    }
    assert(digits@ =~= tail);
    digits
}

/// Reading undoes writing: the decimal digits of a number write that number
/// and nothing else.
pub proof fn lemma_number_of_decimal(n: nat, max: nat)
    requires
        n <= max,
    ensures
        number(decimal_digits(n), max) == Some(n),
{
    lemma_decimal_digits(n);
    assert(decimal_digits(n)[0] != 0x2b);
}

/// The decimal digits of a number are digits, at least one, and have the
/// number as their value.
pub proof fn lemma_decimal_digits(n: nat)
    ensures
        decimal_digits(n).len() > 0,
        all_digits(decimal_digits(n)),
        digits_value(decimal_digits(n)) == n,
    decreases n,
{
    let digits = decimal_digits(n);
    if n < 10 {
        assert(digits.drop_last() =~= Seq::<u8>::empty());
        assert(digits_value(digits.drop_last()) == 0);
    } else {
        lemma_decimal_digits(n / 10);
        assert(digits.drop_last() =~= decimal_digits(n / 10));
    }
}

} // verus!
