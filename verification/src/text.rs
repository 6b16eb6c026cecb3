//! Byte strings: searching, trimming, decimal numbers and letter case.
//!
//! PHP strings, C strings and HTTP header fields are all plain byte strings, so text is
//! kept as bytes throughout the crate; a literal stands for its UTF-8 encoding.
use vstd::prelude::*;
use vstd::slice::{slice_subrange, slice_to_vec};
use vstd::utf8::encode_utf8;

verus! {

/// The bytes of a literal.
pub open spec fn utf8(literal: &str) -> Seq<u8> {
    encode_utf8(literal@)
}

/// What precedes the first `stop` in `s`; all of `s` when there is none.
pub open spec fn before_first(s: Seq<u8>, stop: u8) -> Seq<u8> {
    match s.index_of_first(stop) {
        Some(at) => s.take(at),
        None => s,
    }
}

/// What follows the first `stop` in `s`, if there is one.
pub open spec fn after_first(s: Seq<u8>, stop: u8) -> Option<Seq<u8>> {
    match s.index_of_first(stop) {
        Some(at) => Some(s.skip(at + 1)),
        None => None,
    }
}

/// What follows `prefix` in `s`, if `s` starts with it.
pub open spec fn without_prefix(s: Seq<u8>, prefix: Seq<u8>) -> Option<Seq<u8>> {
    if prefix.is_prefix_of(s) {
        Some(s.skip(prefix.len() as int))
    } else {
        None
    }
}

/// Space or horizontal tab.
pub open spec fn is_blank(b: u8) -> bool {
    b == 32 || b == 9
}

/// `s` without the blanks at its start.
pub open spec fn trim_start(s: Seq<u8>) -> Seq<u8>
    decreases s.len(),
{
    if s.len() > 0 && is_blank(s[0]) {
        trim_start(s.skip(1))
    } else {
        s
    }
}

/// `s` without the blanks at its end.
pub open spec fn trim_end(s: Seq<u8>) -> Seq<u8>
    decreases s.len(),
{
    if s.len() > 0 && is_blank(s.last()) {
        trim_end(s.drop_last())
    } else {
        s
    }
}

/// `s` without the blanks at either end.
pub open spec fn trimmed(s: Seq<u8>) -> Seq<u8> {
    trim_end(trim_start(s))
}

/// A decimal digit in ASCII.
pub open spec fn is_digit(b: u8) -> bool {
    48 <= b <= 57
}

/// Whether `s` is made of decimal digits alone, at least one.
pub open spec fn all_digits(s: Seq<u8>) -> bool {
    s.len() > 0 && forall|i: int| 0 <= i < s.len() ==> is_digit(#[trigger] s[i])
}

/// The number that the digits of `s` write in base ten.
pub open spec fn digits_value(s: Seq<u8>) -> int
    decreases s.len(),
{
    if s.len() == 0 {
        0
    } else {
        10 * digits_value(s.drop_last()) + (s.last() - 48)
    }
}

/// The integer written by `s`: an optional sign, then digits and nothing else.
pub open spec fn signed_decimal(s: Seq<u8>) -> Option<int> {
    if all_digits(s) {
        Some(digits_value(s))
    } else if s.len() > 0 && s[0] == 43 && all_digits(s.skip(1)) {
        Some(digits_value(s.skip(1)))
    } else if s.len() > 0 && s[0] == 45 && all_digits(s.skip(1)) {
        Some(-digits_value(s.skip(1)))
    } else {
        None
    }
}

/// The `i64` written by `s`; `None` for other text and for numbers out of range.
pub open spec fn decimal_i64(s: Seq<u8>) -> Option<i64> {
    match signed_decimal(s) {
        Some(n) => if i64::MIN <= n <= i64::MAX {
            Some(n as i64)
        } else {
            None
        },
        None => None,
    }
}

/// The shortest decimal text of `n`.
pub open spec fn decimal(n: nat) -> Seq<u8>
    decreases n,
{
    if n < 10 {
        seq![(48 + n) as u8]
    } else {
        decimal(n / 10).push((48 + n % 10) as u8)
    }
}

/// A byte that a header value must be made of to be read as text: printable ASCII or tab.
pub open spec fn is_visible(b: u8) -> bool {
    32 <= b < 127 || b == 9
}

/// Whether every byte of `s` is printable ASCII or tab.
pub open spec fn all_visible(s: Seq<u8>) -> bool {
    forall|i: int| 0 <= i < s.len() ==> is_visible(#[trigger] s[i])
}

/// The ASCII upper case of `b`.
pub open spec fn upper(b: u8) -> u8 {
    if 97 <= b <= 122 {
        (b - 32) as u8
    } else {
        b
    }
}

/// The ASCII lower case of `b`.
pub open spec fn lower(b: u8) -> u8 {
    if 65 <= b <= 90 {
        (b + 32) as u8
    } else {
        b
    }
}

/// Compares two byte strings.
pub fn same_bytes(a: &[u8], b: &[u8]) -> (same: bool)
    ensures
        same == (a@ == b@),
{
    if a.len() != b.len() {
        return false;
    }
    let mut i: usize = 0;
    while i < a.len()
        invariant
            a@.len() == b@.len(),
            i <= a@.len(),
            forall|j: int| 0 <= j < i ==> a@[j] == b@[j],
        decreases a@.len() - i,
    {
        if a[i] != b[i] {
            return false;
        }
        i = i + 1;
    }
    assert(a@ =~= b@);
    true
}

/// Whether `s` consists of the bytes of `literal`.
pub fn is_text(s: &[u8], literal: &str) -> (same: bool)
    ensures
        same == (s@ == utf8(literal)),
{
    same_bytes(s, literal.as_bytes())
}

/// The bytes of `literal`.
pub fn owned(literal: &str) -> (bytes: Vec<u8>)
    ensures
        bytes@ == utf8(literal),
{
    slice_to_vec(literal.as_bytes())
}

/// Appends `tail` to `head`.
pub fn append(head: &mut Vec<u8>, tail: &[u8])
    ensures
        final(head)@ == old(head)@ + tail@,
{
    head.extend_from_slice(tail);
    assert(head@ =~= old(head)@ + tail@);
}

/// The position of the first `needle`.
pub fn find_first(s: &[u8], needle: u8) -> (at: Option<usize>)
    ensures
        match at {
            Some(i) => s@.index_of_first(needle) == Some(i as int) && i < s@.len(),
            None => s@.index_of_first(needle) is None,
        },
{
    let mut i: usize = 0;
    while i < s.len()
        invariant
            i <= s@.len(),
            forall|j: int| 0 <= j < i ==> s@[j] != needle,
        decreases s@.len() - i,
    {
        if s[i] == needle {
            proof {
                s@.index_of_first_ensures(needle);
                assert(s@.contains(needle));
            }
            return Some(i);
        }
        i = i + 1;
    }
    proof {
        s@.index_of_first_ensures(needle);
    }
    None
}

/// The position of the last `needle`.
pub fn find_last(s: &[u8], needle: u8) -> (at: Option<usize>)
    ensures
        match at {
            Some(i) => s@.index_of_last(needle) == Some(i as int) && i < s@.len(),
            None => s@.index_of_last(needle) is None,
        },
{
    let mut i: usize = s.len();
    while i > 0
        invariant
            i <= s@.len(),
            forall|j: int| i <= j < s@.len() ==> s@[j] != needle,
        decreases i,
    {
        i = i - 1;
        if s[i] == needle {
            proof {
                s@.index_of_last_ensures(needle);
                assert(s@.contains(needle));
            }
            return Some(i);
        }
    }
    proof {
        s@.index_of_last_ensures(needle);
    }
    None
}

/// The part of `s` before its first `stop`.
pub fn cut_before_first(s: &[u8], stop: u8) -> (part: &[u8])
    ensures
        part@ == before_first(s@, stop),
{
    match find_first(s, stop) {
        Some(at) => slice_subrange(s, 0, at),
        None => s,
    }
}

/// The part of `s` after its first `stop`.
pub fn cut_after_first(s: &[u8], stop: u8) -> (part: Option<&[u8]>)
    ensures
        match part {
            Some(rest) => after_first(s@, stop) == Some(rest@),
            None => after_first(s@, stop) is None,
        },
{
    match find_first(s, stop) {
        Some(at) => {
            let end: usize = s.len();
            Some(slice_subrange(s, at + 1, end))
        },
        None => None,
    }
}

/// The part of `s` that follows `prefix`.
pub fn strip_prefix<'a>(s: &'a [u8], prefix: &[u8]) -> (part: Option<&'a [u8]>)
    ensures
        match part {
            Some(rest) => without_prefix(s@, prefix@) == Some(rest@),
            None => without_prefix(s@, prefix@) is None,
        },
{
    if prefix.len() > s.len() {
        return None;
    }
    let start: &[u8] = slice_subrange(s, 0, prefix.len());
    if same_bytes(start, prefix) {
        assert(prefix@.is_prefix_of(s@));
        Some(slice_subrange(s, prefix.len(), s.len()))
    } else {
        proof {
            if prefix@.is_prefix_of(s@) {
                assert(start@ =~= prefix@);
            }
        }
        None
    }
}

/// `s` without the blanks at either end.
pub fn trim(s: &[u8]) -> (part: &[u8])
    ensures
        part@ == trimmed(s@),
{
    let mut from: usize = 0;
    assert(s@.skip(0) =~= s@);
    while from < s.len() && (s[from] == 32 || s[from] == 9)
        invariant
            from <= s@.len(),
            trim_start(s@.skip(from as int)) == trim_start(s@),
        decreases s@.len() - from,
    {
        assert(s@.skip(from as int).skip(1) =~= s@.skip(from + 1));
        from = from + 1;
    }
    assert(trim_start(s@) == s@.skip(from as int));
    let mut to: usize = s.len();
    assert(s@.subrange(from as int, to as int) =~= s@.skip(from as int));
    while from < to && (s[to - 1] == 32 || s[to - 1] == 9)
        invariant
            from <= to <= s@.len(),
            trim_end(s@.subrange(from as int, to as int)) == trimmed(s@),
        decreases to,
    {
        assert(s@.subrange(from as int, to as int).drop_last() =~= s@.subrange(
            from as int,
            to - 1,
        ));
        to = to - 1;
    }
    slice_subrange(s, from, to)
}

/// Whether every byte of `s` is printable ASCII or tab.
pub fn is_all_visible(s: &[u8]) -> (all: bool)
    ensures
        all == all_visible(s@),
{
    let mut i: usize = 0;
    while i < s.len()
        invariant
            i <= s@.len(),
            forall|j: int| 0 <= j < i ==> is_visible(#[trigger] s@[j]),
        decreases s@.len() - i,
    {
        let b: u8 = s[i];
        if !((32 <= b && b < 127) || b == 9) {
            assert(!is_visible(s@[i as int]));
            return false;
        }
        i = i + 1;
    }
    true
}

proof fn lemma_prefix_value_is_smaller(s: Seq<u8>, len: int)
    requires
        forall|i: int| 0 <= i < s.len() ==> is_digit(#[trigger] s[i]),
        0 <= len <= s.len(),
    ensures
        0 <= digits_value(s.take(len)) <= digits_value(s),
    decreases s.len(),
{
    if s.len() == 0 {
        assert(s.take(len) =~= s);
    } else if len == s.len() {
        assert(s.take(len) =~= s);
        lemma_prefix_value_is_smaller(s.drop_last(), 0);
        assert(is_digit(s.last()));
        assert(s.drop_last().take(0) =~= Seq::<u8>::empty());
    } else {
        lemma_prefix_value_is_smaller(s.drop_last(), len);
        assert(s.drop_last().take(len) =~= s.take(len));
        assert(is_digit(s.last()));
    }
}

/// The largest magnitude of an `i64`.
const MAGNITUDE_LIMIT: u128 = 9223372036854775808;

/// Reads digits up to the magnitude of `i64::MIN`; `None` for other text or larger numbers.
fn parse_magnitude(s: &[u8]) -> (value: Option<u128>)
    ensures
        match value {
            Some(n) => all_digits(s@) && n == digits_value(s@) && n <= MAGNITUDE_LIMIT,
            None => all_digits(s@) ==> digits_value(s@) > MAGNITUDE_LIMIT,
        },
{
    if s.len() == 0 {
        return None;
    }
    let mut value: u128 = 0;
    let mut i: usize = 0;
    assert(s@.take(0) =~= Seq::<u8>::empty());
    while i < s.len()
        invariant
            i <= s@.len(),
            value <= MAGNITUDE_LIMIT,
            value == digits_value(s@.take(i as int)),
            forall|j: int| 0 <= j < i ==> is_digit(#[trigger] s@[j]),
        decreases s@.len() - i,
    {
        let b: u8 = s[i];
        if b < 48 || b > 57 {
            assert(!is_digit(s@[i as int]));
            return None;
        }
        assert(s@.take(i + 1).drop_last() =~= s@.take(i as int));
        value = 10 * value + (b - 48) as u128;
        if value > MAGNITUDE_LIMIT {
            proof {
                if all_digits(s@) {
                    lemma_prefix_value_is_smaller(s@, i + 1);
                }
            }
            return None;
        }
        i = i + 1;
    }
    assert(s@.take(i as int) =~= s@);
    Some(value)
}

/// Reads an `i64` in decimal notation.
pub fn parse_i64(s: &[u8]) -> (value: Option<i64>)
    ensures
        value == decimal_i64(s@),
{
    if s.len() == 0 {
        return None;
    }
    let first: u8 = s[0];
    let signed: bool = first == 43 || first == 45;
    let digits: &[u8] = if signed {
        slice_subrange(s, 1, s.len())
    } else {
        s
    };
    proof {
        if signed {
            assert(!is_digit(s@[0]));
            assert(digits@ =~= s@.skip(1));
        }
    }
    match parse_magnitude(digits) {
        None => None,
        Some(magnitude) => {
            if first == 45 {
                if magnitude == MAGNITUDE_LIMIT {
                    Some(i64::MIN)
                } else {
                    Some(-(magnitude as i64))
                }
            } else if magnitude < MAGNITUDE_LIMIT {
                Some(magnitude as i64)
            } else {
                None
            }
        },
    }
}

/// Writes `n` in decimal notation.
pub fn format_decimal(n: u16) -> (text: Vec<u8>)
    ensures
        text@ == decimal(n as nat),
    decreases n,
{
    if n < 10 {
        let mut text: Vec<u8> = Vec::new();
        text.push(48 + n as u8);
        assert(text@ =~= decimal(n as nat));
        text
    } else {
        let mut text: Vec<u8> = format_decimal(n / 10);
        text.push(48 + (n % 10) as u8);
        text
    }
}

/// Reading the decimal text of a number gives that number.
pub proof fn law_decimal_text_reads_back(n: nat)
    ensures
        signed_decimal(decimal(n)) == Some(n as int),
{
    lemma_decimal_digits(n);
}

proof fn lemma_decimal_digits(n: nat)
    ensures
        all_digits(decimal(n)),
        digits_value(decimal(n)) == n,
    decreases n,
{
    if n < 10 {
        assert(decimal(n).drop_last() =~= Seq::<u8>::empty());
        assert(digits_value(Seq::<u8>::empty()) == 0);
    } else {
        lemma_decimal_digits(n / 10);
        assert(decimal(n).drop_last() =~= decimal(n / 10));
    }
}

/// What stands before the first of a separator is cut out whole, whatever follows it; a text
/// without the separator is not cut.
pub proof fn law_text_is_cut_at_the_first_separator(first: Seq<u8>, stop: u8, rest: Seq<u8>)
    requires
        forall|i: int| 0 <= i < first.len() ==> #[trigger] first[i] != stop,
    ensures
        before_first(first + seq![stop] + rest, stop) == first,
        after_first(first + seq![stop] + rest, stop) == Some(rest),
        before_first(first, stop) == first,
        after_first(first, stop) is None,
{
    let all = first + seq![stop] + rest;
    all.index_of_first_ensures(stop);
    first.index_of_first_ensures(stop);
    assert(all[first.len() as int] == stop);
    assert(all.contains(stop));
    let at = all.index_of_first(stop)->0;
    assert(all[at] == stop);
    if at < first.len() {
        assert(first[at] == all[at]);
    }
    assert(at == first.len());
    assert(all.take(at) =~= first);
    assert(all.skip(at + 1) =~= rest);
}

/// Trimming takes the spaces and tabs off both ends, all of them, and nothing else.
pub proof fn law_trimming_takes_blanks_off(start: Seq<u8>, kept: Seq<u8>, end: Seq<u8>)
    requires
        forall|i: int| 0 <= i < start.len() ==> #[trigger] start[i] == 32 || start[i] == 9,
        forall|i: int| 0 <= i < end.len() ==> #[trigger] end[i] == 32 || end[i] == 9,
        kept.len() > 0 ==> kept[0] != 32 && kept[0] != 9 && kept.last() != 32 && kept.last() != 9,
    ensures
        trimmed(start + kept + end) == kept,
    decreases start.len() + end.len(),
{
    let all = start + kept + end;
    if kept.len() == 0 {
        assert forall|i: int| 0 <= i < all.len() implies #[trigger] all[i] == 32 || all[i] == 9 by {
            if i < start.len() {
                assert(all[i] == start[i]);
            } else {
                assert(all[i] == end[i - start.len()]);
            }
        }
        lemma_blanks_are_trimmed(all);
        assert(kept =~= Seq::<u8>::empty());
    } else {
        lemma_start_is_trimmed(start, kept + end);
        assert(start + (kept + end) =~= all);
        lemma_end_is_trimmed(kept, end);
    }
}

proof fn lemma_blanks_are_trimmed(s: Seq<u8>)
    requires
        forall|i: int| 0 <= i < s.len() ==> #[trigger] s[i] == 32 || s[i] == 9,
    ensures
        trim_start(s) == Seq::<u8>::empty(),
        trimmed(s) == Seq::<u8>::empty(),
    decreases s.len(),
{
    if s.len() > 0 {
        assert(s[0] == 32 || s[0] == 9);
        lemma_blanks_are_trimmed(s.skip(1));
    } else {
        assert(s =~= Seq::<u8>::empty());
    }
}

proof fn lemma_start_is_trimmed(start: Seq<u8>, rest: Seq<u8>)
    requires
        forall|i: int| 0 <= i < start.len() ==> #[trigger] start[i] == 32 || start[i] == 9,
        rest.len() > 0,
        rest[0] != 32 && rest[0] != 9,
    ensures
        trim_start(start + rest) == rest,
    decreases start.len(),
{
    if start.len() > 0 {
        assert(start[0] == 32 || start[0] == 9);
        assert((start + rest).skip(1) =~= start.skip(1) + rest);
        lemma_start_is_trimmed(start.skip(1), rest);
    } else {
        assert(start + rest =~= rest);
    }
}

proof fn lemma_end_is_trimmed(kept: Seq<u8>, end: Seq<u8>)
    requires
        forall|i: int| 0 <= i < end.len() ==> #[trigger] end[i] == 32 || end[i] == 9,
        kept.len() > 0,
        kept.last() != 32 && kept.last() != 9,
    ensures
        trim_end(kept + end) == kept,
    decreases end.len(),
{
    if end.len() > 0 {
        assert(end[end.len() - 1] == 32 || end[end.len() - 1] == 9);
        assert((kept + end).last() == end[end.len() - 1]);
        assert((kept + end).drop_last() =~= kept + end.drop_last());
        lemma_end_is_trimmed(kept, end.drop_last());
    } else {
        assert(kept + end =~= kept);
    }
}

/// A prefix is taken off a text that starts with it, and off no other.
pub proof fn law_prefix_is_taken_off(s: Seq<u8>, prefix: Seq<u8>, rest: Seq<u8>)
    ensures
        without_prefix(prefix + rest, prefix) == Some(rest),
        without_prefix(s, prefix) matches Some(left) ==> s == prefix + left,
{
    assert((prefix + rest).skip(prefix.len() as int) =~= rest);
    assert(prefix.is_prefix_of(prefix + rest));
    if prefix.is_prefix_of(s) {
        assert(s =~= prefix + s.skip(prefix.len() as int));
    }
}

/// The decimal text of a number, with or without a sign, is read as that number.
pub proof fn law_written_numbers_are_read(
    plain: &[u8],
    plus: &[u8],
    minus: &[u8],
    n: nat,
    from_plain: Option<i64>,
    from_plus: Option<i64>,
    from_minus: Option<i64>,
)
    requires
        plain@ == decimal(n),
        plus@ == seq![43u8] + decimal(n),
        minus@ == seq![45u8] + decimal(n),
        call_ensures(parse_i64, (plain,), from_plain),
        call_ensures(parse_i64, (plus,), from_plus),
        call_ensures(parse_i64, (minus,), from_minus),
    ensures
        n <= i64::MAX ==> from_plain == Some(n as i64) && from_plus == Some(n as i64),
        n > i64::MAX ==> from_plain is None && from_plus is None,
        n <= i64::MAX + 1 ==> from_minus == Some((-n) as i64),
        n > i64::MAX + 1 ==> from_minus is None,
{
    lemma_decimal_digits(n);
    assert(plus@.skip(1) =~= decimal(n));
    assert(minus@.skip(1) =~= decimal(n));
    assert(!is_digit(plus@[0]));
    assert(!is_digit(minus@[0]));
}

/// Text that is read as a number is made of digits, behind a sign or not; each digit further to
/// the left counts ten times as much.
pub proof fn law_only_digits_are_read(text: &[u8], value: Option<i64>)
    requires
        call_ensures(parse_i64, (text,), value),
        value is Some,
    ensures
        text@.len() > 0,
        forall|i: int| 0 < i < text@.len() ==> 48 <= #[trigger] text@[i] <= 57,
        48 <= text@[0] <= 57 || (text@.len() > 1 && (text@[0] == 43 || text@[0] == 45)),
        text@[0] == 45 ==> value->0 <= 0,
        text@[0] != 45 ==> value->0 >= 0,
{
    let digits = text@.skip(1);
    if all_digits(text@) {
        assert forall|i: int| 0 <= i < text@.len() implies 48 <= #[trigger] text@[i] <= 57 by {
            assert(is_digit(text@[i]));
        }
        lemma_prefix_value_is_smaller(text@, 0);
        assert(text@.take(0) =~= Seq::<u8>::empty());
        assert(is_digit(text@[0]));
    } else {
        assert forall|i: int| 0 < i < text@.len() implies 48 <= #[trigger] text@[i] <= 57 by {
            assert(is_digit(digits[i - 1]));
        }
        lemma_prefix_value_is_smaller(digits, 0);
        assert(digits.take(0) =~= Seq::<u8>::empty());
    }
}

/// A digit more makes a number ten times as large, and a zero before it changes nothing.
pub proof fn law_digits_count_by_their_place(digits: Seq<u8>, digit: u8)
    requires
        digits.len() > 0,
        forall|i: int| 0 <= i < digits.len() ==> 48 <= #[trigger] digits[i] <= 57,
        48 <= digit <= 57,
    ensures
        signed_decimal(digits) is Some,
        signed_decimal(seq![digit]) == Some(digit - 48),
        signed_decimal(digits.push(digit)) == Some(10 * signed_decimal(digits)->0 + (digit - 48)),
        signed_decimal(seq![48u8] + digits) == signed_decimal(digits),
{
    assert forall|i: int| 0 <= i < digits.len() implies is_digit(#[trigger] digits[i]) by {}
    assert(digits.push(digit).drop_last() =~= digits);
    assert(all_digits(digits.push(digit)));
    assert(seq![digit].drop_last() =~= Seq::<u8>::empty());
    assert(digits_value(Seq::<u8>::empty()) == 0);
    assert(all_digits(seq![digit]));
    lemma_leading_zero(digits);
    assert forall|i: int| 0 <= i < digits.len() + 1 implies is_digit(
        #[trigger] (seq![48u8] + digits)[i],
    ) by {
        if i > 0 {
            assert((seq![48u8] + digits)[i] == digits[i - 1]);
        }
    }
}

proof fn lemma_leading_zero(digits: Seq<u8>)
    ensures
        digits_value(seq![48u8] + digits) == digits_value(digits),
    decreases digits.len(),
{
    if digits.len() == 0 {
        assert((seq![48u8] + digits).drop_last() =~= Seq::<u8>::empty());
        assert(digits_value(Seq::<u8>::empty()) == 0);
        assert((seq![48u8] + digits).last() == 48);
    } else {
        lemma_leading_zero(digits.drop_last());
        assert((seq![48u8] + digits).drop_last() =~= seq![48u8] + digits.drop_last());
    }
}

/// A number is written with digits alone, which read as that number, and without a zero to
/// start with unless it is zero.
pub proof fn law_numbers_are_written_short(n: u16, text: Vec<u8>)
    requires
        call_ensures(format_decimal, (n,), text),
    ensures
        signed_decimal(text@) == Some(n as int),
        0 < text@.len() <= 5,
        forall|i: int| 0 <= i < text@.len() ==> 48 <= #[trigger] text@[i] <= 57,
        n > 0 ==> text@[0] != 48,
{
    law_decimal_text_reads_back(n as nat);
    lemma_decimal_digits(n as nat);
    lemma_decimal_starts(n as nat);
    assert(decimal(n as nat / 10000).len() == 1);
    assert(decimal(n as nat / 1000).len() <= 2);
    assert(decimal(n as nat / 100).len() <= 3);
    assert(decimal(n as nat / 10).len() <= 4);
    assert forall|i: int| 0 <= i < text@.len() implies 48 <= #[trigger] text@[i] <= 57 by {
        assert(is_digit(decimal(n as nat)[i]));
    }
}

proof fn lemma_decimal_starts(n: nat)
    ensures
        decimal(n).len() > 0,
        n > 0 ==> decimal(n)[0] != 48,
    decreases n,
{
    if n >= 10 {
        lemma_decimal_starts(n / 10);
        assert(decimal(n)[0] == decimal(n / 10)[0]);
    }
}

/// Text is readable when it is made of printable ASCII and tabs, and only then.
pub proof fn law_printable_text_is_readable(s: &[u8], readable: bool)
    requires
        call_ensures(is_all_visible, (s,), readable),
    ensures
        readable <==> forall|i: int| 0 <= i < s@.len() ==> 32 <= #[trigger] s@[i] <= 126 || s@[i]
            == 9,
{
    if readable {
        assert forall|i: int| 0 <= i < s@.len() implies 32 <= #[trigger] s@[i] <= 126 || s@[i]
            == 9 by {
            assert(is_visible(s@[i]));
        }
    }
}

/// Two byte strings are the same when they are equally long and agree byte by byte. A literal
/// stands for its bytes, and what is appended follows what was there.
pub proof fn law_bytes_are_compared_one_by_one(
    a: &[u8],
    b: &[u8],
    same: bool,
    literal: &str,
    is_literal: bool,
    bytes: Vec<u8>,
    head: &mut Vec<u8>,
)
    requires
        call_ensures(same_bytes, (a, b), same),
        call_ensures(is_text, (a, literal), is_literal),
        call_ensures(owned, (literal,), bytes),
        call_ensures(append, (head, b), ()),
    ensures
        same <==> a@.len() == b@.len() && forall|i: int|
            0 <= i < a@.len() ==> #[trigger] a@[i] == b@[i],
        bytes@ == encode_utf8(literal@),
        is_literal <==> a@ == encode_utf8(literal@),
        final(head)@.len() == old(head)@.len() + b@.len(),
        final(head)@.take(old(head)@.len() as int) == old(head)@,
        final(head)@.skip(old(head)@.len() as int) == b@,
{
    if a@.len() == b@.len() && forall|i: int| 0 <= i < a@.len() ==> #[trigger] a@[i] == b@[i] {
        assert(a@ =~= b@);
    }
    assert(final(head)@.take(old(head)@.len() as int) =~= old(head)@);
    assert(final(head)@.skip(old(head)@.len() as int) =~= b@);
}

/// A byte is found where it stands first, or last, and is not found only where it is missing.
pub proof fn law_bytes_are_found_where_they_stand(
    s: &[u8],
    needle: u8,
    first: Option<usize>,
    last: Option<usize>,
)
    requires
        call_ensures(find_first, (s, needle), first),
        call_ensures(find_last, (s, needle), last),
    ensures
        first matches Some(at) ==> at < s@.len() && s@[at as int] == needle && forall|i: int|
            0 <= i < at ==> #[trigger] s@[i] != needle,
        last matches Some(at) ==> at < s@.len() && s@[at as int] == needle && forall|i: int|
            at < i < s@.len() ==> #[trigger] s@[i] != needle,
        first is None ==> forall|i: int| 0 <= i < s@.len() ==> #[trigger] s@[i] != needle,
        last is None <==> first is None,
{
    s@.index_of_first_ensures(needle);
    s@.index_of_last_ensures(needle);
    if first is None {
        assert forall|i: int| 0 <= i < s@.len() implies #[trigger] s@[i] != needle by {
            if s@[i] == needle {
                assert(s@.contains(needle));
            }
        }
    }
}

/// Cutting and trimming hand out the part itself, whatever surrounds it.
pub proof fn law_parts_are_handed_out(
    s: &[u8],
    stop: u8,
    before: &[u8],
    after: Option<&[u8]>,
    first: Seq<u8>,
    rest: Seq<u8>,
    prefix: &[u8],
    behind: Option<&[u8]>,
)
    requires
        call_ensures(cut_before_first, (s, stop), before),
        call_ensures(cut_after_first, (s, stop), after),
        call_ensures(strip_prefix, (s, prefix), behind),
        forall|i: int| 0 <= i < first.len() ==> #[trigger] first[i] != stop,
        s@ == first || s@ == first + seq![stop] + rest,
    ensures
        before@ == first,
        s@ == first + seq![stop] + rest ==> after is Some && after->0@ == rest,
        s@ == first ==> after is None,
        behind is Some ==> s@ == prefix@ + behind->0@,
        behind is None ==> !prefix@.is_prefix_of(s@),
{
    law_text_is_cut_at_the_first_separator(first, stop, rest);
    law_prefix_is_taken_off(s@, prefix@, rest);
    if s@ == first + seq![stop] + rest {
        assert(s@.len() > first.len());
    }
}

/// Trimming hands out what stands between the blanks at both ends.
pub proof fn law_blanks_are_trimmed(
    s: &[u8],
    part: &[u8],
    start: Seq<u8>,
    kept: Seq<u8>,
    end: Seq<u8>,
)
    requires
        call_ensures(trim, (s,), part),
        s@ == start + kept + end,
        forall|i: int| 0 <= i < start.len() ==> #[trigger] start[i] == 32 || start[i] == 9,
        forall|i: int| 0 <= i < end.len() ==> #[trigger] end[i] == 32 || end[i] == 9,
        kept.len() > 0 ==> kept[0] != 32 && kept[0] != 9 && kept.last() != 32 && kept.last() != 9,
    ensures
        part@ == kept,
{
    law_trimming_takes_blanks_off(start, kept, end);
}

/// Zeros before a number make no difference to what is read.
pub proof fn law_zeros_in_front_make_no_difference(
    plain: &[u8],
    padded: &[u8],
    from_plain: Option<i64>,
    from_padded: Option<i64>,
)
    requires
        call_ensures(parse_i64, (plain,), from_plain),
        call_ensures(parse_i64, (padded,), from_padded),
        plain@.len() > 0,
        forall|i: int| 0 <= i < plain@.len() ==> 48 <= #[trigger] plain@[i] <= 57,
        padded@ == seq![48u8] + plain@,
    ensures
        from_padded == from_plain,
{
    law_digits_count_by_their_place(plain@, 48);
}

} // verus!
