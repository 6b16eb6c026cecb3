//! HTTP header maps, header names and values, and status codes.
use crate::text::{all_visible, decimal, is_all_visible, is_visible, lower, utf8};
use vstd::prelude::*;

verus! {

/// A header map of the `http` crate, as `hyper` hands it out.
#[verifier::external_type_specification]
#[verifier::external_body]
#[verifier::reject_recursive_types(T)]
pub struct ExHeaderMap<T>(hyper::HeaderMap<T>);

/// A header value of the `http` crate.
#[verifier::external_type_specification]
#[verifier::external_body]
pub struct ExHeaderValue(hyper::header::HeaderValue);

/// The fields of a header map in the order in which it is walked: name and value of each.
/// Names are in lower case.
pub uninterp spec fn header_fields(
    map: hyper::HeaderMap<hyper::header::HeaderValue>,
) -> Seq<(Seq<u8>, Seq<u8>)>;

/// The value of the first field called `name`.
pub open spec fn first_value(fields: Seq<(Seq<u8>, Seq<u8>)>, name: Seq<u8>) -> Option<Seq<u8>>
    decreases fields.len(),
{
    if fields.len() == 0 {
        None
    } else if fields[0].0 == name {
        Some(fields[0].1)
    } else {
        first_value(fields.skip(1), name)
    }
}

/// The value of the first field called `name`, if that value is readable as text.
pub open spec fn first_text(fields: Seq<(Seq<u8>, Seq<u8>)>, name: Seq<u8>) -> Option<Seq<u8>> {
    match first_value(fields, name) {
        Some(value) => if all_visible(value) {
            Some(value)
        } else {
            None
        },
        None => None,
    }
}

/// The names of the fields, in order.
pub open spec fn field_names(fields: Seq<(Seq<u8>, Seq<u8>)>) -> Seq<Seq<u8>> {
    fields.map_values(|field: (Seq<u8>, Seq<u8>)| field.0)
}

/// How many different names the fields have.
pub open spec fn name_count(fields: Seq<(Seq<u8>, Seq<u8>)>) -> nat {
    field_names(fields).to_set().len()
}

/// The fields with one more: behind the last one of the same name, or at the end.
pub open spec fn with_field(
    fields: Seq<(Seq<u8>, Seq<u8>)>,
    name: Seq<u8>,
    value: Seq<u8>,
) -> Seq<(Seq<u8>, Seq<u8>)> {
    match field_names(fields).index_of_last(name) {
        Some(at) => fields.insert(at + 1, (name, value)),
        None => fields.push((name, value)),
    }
}

/// A byte that a header name may hold: letters, digits and `!#$%&'*+-.^_` with backtick,
/// bar and tilde.
pub open spec fn is_name_byte(b: u8) -> bool {
    ||| 48 <= b <= 57
    ||| 65 <= b <= 90
    ||| 94 <= b <= 122
    ||| 35 <= b <= 39
    ||| b == 33 || b == 42 || b == 43 || b == 45 || b == 46 || b == 124 || b == 126
}

/// Whether `s` can be a header name.
pub open spec fn is_header_name(s: Seq<u8>) -> bool {
    &&& 0 < s.len() <= 65535
    &&& forall|i: int| 0 <= i < s.len() ==> is_name_byte(#[trigger] s[i])
}

/// Whether `name` has no upper case letter.
pub open spec fn is_lower_case(name: Seq<u8>) -> bool {
    forall|i: int| 0 <= i < name.len() ==> !(65 <= #[trigger] name[i] <= 90)
}

/// Whether no field has an upper case letter in its name.
pub open spec fn names_are_lower_case(fields: Seq<(Seq<u8>, Seq<u8>)>) -> bool {
    forall|i: int| 0 <= i < fields.len() ==> is_lower_case((#[trigger] fields[i]).0)
}

/// A header name in lower case.
pub open spec fn lower_name(s: Seq<u8>) -> Seq<u8> {
    s.map_values(|b: u8| lower(b))
}

/// Whether `s` can be a header value: no control bytes but tab.
pub open spec fn is_header_value(s: Seq<u8>) -> bool {
    forall|i: int| 0 <= i < s.len() ==> (#[trigger] s[i] >= 32 && s[i] != 127) || s[i] == 9
}

/// Whether `n` is a status code of three digits.
pub open spec fn is_status(n: int) -> bool {
    100 <= n <= 999
}

/// The status code that three digits write, the first of them not zero.
pub open spec fn status_of_digits(s: Seq<u8>) -> Option<u16> {
    if s.len() == 3 && 49 <= s[0] <= 57 && 48 <= s[1] <= 57 && 48 <= s[2] <= 57 {
        Some((100 * (s[0] - 48) + 10 * (s[1] - 48) + (s[2] - 48)) as u16)
    } else {
        None
    }
}

/// Whether `name` is made of lower case letters and hyphens, sixty-four at the most.
pub open spec fn is_plain_name(name: Seq<char>) -> bool {
    &&& 0 < name.len() <= 64
    &&& forall|i: int|
        0 <= i < name.len() ==> 'a' <= #[trigger] name[i] <= 'z' || name[i] == '-'
}

/// Calls `http::HeaderMap::new`, which makes an empty map.
#[verifier::external_body]
pub(crate) fn new_headers() -> (map: hyper::HeaderMap<hyper::header::HeaderValue>)
    ensures
        header_fields(map) == Seq::<(Seq<u8>, Seq<u8>)>::empty(),
{
    hyper::HeaderMap::new()
}

/// Calls `http::HeaderMap::get`, which finds the first value under a name.
#[verifier::external_body]
fn get_header<'a>(
    map: &'a hyper::HeaderMap<hyper::header::HeaderValue>,
    name: &str,
) -> (value: Option<&'a [u8]>)
    requires
        is_plain_name(name@),
    ensures
        match value {
            Some(bytes) => first_value(header_fields(*map), utf8(name)) == Some(bytes@),
            None => first_value(header_fields(*map), utf8(name)) is None,
        },
{
    map.get(name).map(|value| value.as_bytes())
}

/// Calls `http::HeaderMap::iter`, which walks the fields. Header names are kept in lower case.
#[verifier::external_body]
pub(crate) fn list_headers(
    map: &hyper::HeaderMap<hyper::header::HeaderValue>,
) -> (list: Vec<(Vec<u8>, Vec<u8>)>)
    ensures
        list@.len() == header_fields(*map).len(),
        forall|i: int|
            0 <= i < list@.len() ==> (#[trigger] list@[i]).0@ == header_fields(*map)[i].0
                && list@[i].1@ == header_fields(*map)[i].1 && is_lower_case(list@[i].0@),
{
    map.iter().map(|(name, value)| (name.as_str().into(), value.as_bytes().into())).collect()
}

/// Calls `http::HeaderMap::try_append`, which adds a value behind those that the name
/// already has. A map counts its different names. It never turns a field away while they fill
/// less than a fifth of its largest table of 32768 slots, and always does once they fill three
/// quarters. In between that depends on how the names collide, under a hash that is seeded
/// anew in each process once they collide a lot, and is left unsaid.
#[verifier::external_body]
pub(crate) fn append_header(
    map: &mut hyper::HeaderMap<hyper::header::HeaderValue>,
    name: &[u8],
    value: &[u8],
) -> (added: bool)
    requires
        is_header_name(name@),
        is_header_value(value@),
    ensures
        header_fields(*final(map)) == if added {
            with_field(header_fields(*old(map)), lower_name(name@), value@)
        } else {
            header_fields(*old(map))
        },
        name_count(header_fields(*old(map))) <= 6553 ==> added,
        name_count(header_fields(*old(map))) >= 24576 ==> !added,
{
    let name = hyper::header::HeaderName::from_bytes(name).unwrap();
    map.try_append(name, hyper::header::HeaderValue::from_bytes(value).unwrap()).is_ok()
}

/// Calls `http::HeaderName::from_bytes`, which accepts names of up to 65535 token bytes.
#[verifier::external_body]
pub(crate) fn accepts_name(name: &[u8]) -> (valid: bool)
    ensures
        valid == is_header_name(name@),
{
    hyper::header::HeaderName::from_bytes(name).is_ok()
}

/// Calls `http::HeaderValue::from_bytes`, which refuses control bytes other than tab.
#[verifier::external_body]
pub(crate) fn accepts_value(value: &[u8]) -> (valid: bool)
    ensures
        valid == is_header_value(value@),
{
    hyper::header::HeaderValue::from_bytes(value).is_ok()
}

/// Calls `http::StatusCode::from_bytes`, which reads three digits, the first not zero.
#[verifier::external_body]
pub(crate) fn status_from_bytes(digits: &[u8]) -> (status: Option<u16>)
    ensures
        status == status_of_digits(digits@),
{
    hyper::StatusCode::from_bytes(digits).ok().map(|status| status.as_u16())
}

/// Calls `http::StatusCode::from_u16`, which accepts 100 to 999.
#[verifier::external_body]
pub(crate) fn status_from_u16(code: u16) -> (status: Option<u16>)
    ensures
        status == if is_status(code as int) {
            Some(code)
        } else {
            None
        },
{
    hyper::StatusCode::from_u16(code).ok().map(|status| status.as_u16())
}

proof fn lemma_plain_names()
    ensures
        is_plain_name("content-length"@),
        is_plain_name("content-type"@),
        is_plain_name("cookie"@),
        is_plain_name("host"@),
        is_plain_name("authorization"@),
        is_plain_name("x-forwarded-for"@),
{
    reveal_strlit("content-length");
    reveal_strlit("content-type");
    reveal_strlit("cookie");
    reveal_strlit("host");
    reveal_strlit("authorization");
    reveal_strlit("x-forwarded-for");
}

/// The request headers that are looked up by name.
#[derive(Clone, Copy, Debug, PartialEq, Eq, Structural)]
pub enum LookedUp {
    ContentLength,
    ContentType,
    Cookie,
    Host,
    Authorization,
    XForwardedFor,
}

impl LookedUp {
    /// The name of the header.
    pub open spec fn name(self) -> Seq<u8> {
        match self {
            LookedUp::ContentLength => utf8("content-length"),
            LookedUp::ContentType => utf8("content-type"),
            LookedUp::Cookie => utf8("cookie"),
            LookedUp::Host => utf8("host"),
            LookedUp::Authorization => utf8("authorization"),
            LookedUp::XForwardedFor => utf8("x-forwarded-for"),
        }
    }
}

/// The first value of a request header.
pub fn header_value<'a>(
    map: &'a hyper::HeaderMap<hyper::header::HeaderValue>,
    header: LookedUp,
) -> (value: Option<&'a [u8]>)
    ensures
        match value {
            Some(bytes) => first_value(header_fields(*map), header.name()) == Some(bytes@),
            None => first_value(header_fields(*map), header.name()) is None,
        },
{
    proof {
        lemma_plain_names();
    }
    match header {
        LookedUp::ContentLength => get_header(map, "content-length"),
        LookedUp::ContentType => get_header(map, "content-type"),
        LookedUp::Cookie => get_header(map, "cookie"),
        LookedUp::Host => get_header(map, "host"),
        LookedUp::Authorization => get_header(map, "authorization"),
        LookedUp::XForwardedFor => get_header(map, "x-forwarded-for"),
    }
}

/// The first value of a request header, if it is readable as text.
pub fn header_text<'a>(
    map: &'a hyper::HeaderMap<hyper::header::HeaderValue>,
    header: LookedUp,
) -> (text: Option<&'a [u8]>)
    ensures
        match text {
            Some(bytes) => first_text(header_fields(*map), header.name()) == Some(bytes@),
            None => first_text(header_fields(*map), header.name()) is None,
        },
{
    match header_value(map, header) {
        Some(value) => if is_all_visible(value) {
            Some(value)
        } else {
            None
        },
        None => None,
    }
}

/// Of several fields with one name the first counts, wherever it stands.
pub proof fn law_first_field_counts(
    before: Seq<(Seq<u8>, Seq<u8>)>,
    name: Seq<u8>,
    value: Seq<u8>,
    after: Seq<(Seq<u8>, Seq<u8>)>,
)
    requires
        forall|i: int| 0 <= i < before.len() ==> (#[trigger] before[i]).0 != name,
    ensures
        first_value(before + seq![(name, value)] + after, name) == Some(value),
        first_value(before, name) is None,
    decreases before.len(),
{
    let fields = before + seq![(name, value)] + after;
    if before.len() == 0 {
        assert(fields[0] == (name, value));
    } else {
        assert(fields[0] == before[0]);
        assert(fields.skip(1) =~= before.skip(1) + seq![(name, value)] + after);
        law_first_field_counts(before.skip(1), name, value, after);
    }
}

/// A request header is found under its name. Its value is handed out whole, as text when it is
/// made of printable ASCII and tabs, and else not as text.
pub proof fn law_header_is_handed_out_whole(
    map: &hyper::HeaderMap<hyper::header::HeaderValue>,
    header: LookedUp,
    before: Seq<(Seq<u8>, Seq<u8>)>,
    value: Seq<u8>,
    after: Seq<(Seq<u8>, Seq<u8>)>,
    bytes: Option<&[u8]>,
    text: Option<&[u8]>,
)
    requires
        call_ensures(header_value, (map, header), bytes),
        call_ensures(header_text, (map, header), text),
        header_fields(*map) == before + seq![(header.name(), value)] + after,
        forall|i: int| 0 <= i < before.len() ==> (#[trigger] before[i]).0 != header.name(),
    ensures
        bytes is Some && bytes->0@ == value,
        (forall|i: int| 0 <= i < value.len() ==> 32 <= #[trigger] value[i] <= 126 || value[i] == 9)
            ==> text is Some && text->0@ == value,
        (exists|i: int|
            0 <= i < value.len() && !(32 <= #[trigger] value[i] <= 126 || value[i] == 9))
            ==> text is None,
{
    law_first_field_counts(before, header.name(), value, after);
    lemma_readable(value);
}

pub(crate) proof fn lemma_readable(value: Seq<u8>)
    ensures
        all_visible(value) <==> forall|i: int|
            0 <= i < value.len() ==> 32 <= #[trigger] value[i] <= 126 || value[i] == 9,
{
    if all_visible(value) {
        assert forall|i: int| 0 <= i < value.len() implies 32 <= #[trigger] value[i] <= 126
            || value[i] == 9 by {
            assert(is_visible(value[i]));
        }
    }
}

pub(crate) proof fn lemma_first_text(
    before: Seq<(Seq<u8>, Seq<u8>)>,
    name: Seq<u8>,
    value: Seq<u8>,
    after: Seq<(Seq<u8>, Seq<u8>)>,
)
    requires
        forall|i: int| 0 <= i < before.len() ==> (#[trigger] before[i]).0 != name,
    ensures
        first_text(before, name) is None,
        ({
            let text = first_text(before + seq![(name, value)] + after, name);
            let readable = forall|i: int|
                0 <= i < value.len() ==> 32 <= #[trigger] value[i] <= 126 || value[i] == 9;
            &&& readable ==> text == Some(value)
            &&& !readable ==> text is None
        }),
{
    law_first_field_counts(before, name, value, after);
    lemma_readable(value);
}

/// A status of three digits is read from its decimal text, and nothing else is read as a status.
pub proof fn law_status_text_reads_back(n: nat, digits: Seq<u8>)
    ensures
        100 <= n <= 999 ==> status_of_digits(decimal(n)) == Some(n as u16),
        status_of_digits(digits) matches Some(status) ==> 100 <= status <= 999 && digits == decimal(
            status as nat,
        ),
{
    if 100 <= n <= 999 {
        lemma_three_digits(n);
        lemma_places(n as int / 100, n as int / 10 % 10, n as int % 10);
    }
    if status_of_digits(digits) is Some {
        let (a, b, c) = (digits[0] - 48, digits[1] - 48, digits[2] - 48);
        lemma_places(a, b, c);
        lemma_three_digits((100 * a + 10 * b + c) as nat);
        assert(digits =~= decimal((100 * a + 10 * b + c) as nat));
    }
}

proof fn lemma_places(a: int, b: int, c: int)
    requires
        0 <= a <= 9,
        0 <= b <= 9,
        0 <= c <= 9,
    ensures
        ({
            let n = 100 * a + 10 * b + c;
            n / 100 == a && n / 10 % 10 == b && n % 10 == c && n / 10 == 10 * a + b
        }),
{
}

proof fn lemma_three_digits(n: nat)
    requires
        100 <= n <= 999,
    ensures
        decimal(n) == seq![
            (48 + n as int / 100) as u8,
            (48 + n as int / 10 % 10) as u8,
            (48 + n as int % 10) as u8,
        ],
{
    let tens = n / 10;
    let hundreds = n / 100;
    assert(tens / 10 == hundreds);
    assert(decimal(hundreds) == seq![(48 + hundreds) as u8]);
    assert(decimal(tens) == decimal(hundreds).push((48 + tens % 10) as u8));
    assert(decimal(n) == decimal(tens).push((48 + n % 10) as u8));
    assert(decimal(n) =~= seq![
        (48 + n as int / 100) as u8,
        (48 + n as int / 10 % 10) as u8,
        (48 + n as int % 10) as u8,
    ]);
}

/// A header name is made of letters, digits and fifteen other characters. No blank, no colon
/// and nothing beyond ASCII is among them.
pub proof fn law_header_names_are_tokens(s: Seq<u8>)
    ensures
        is_header_name(s) <==> 0 < s.len() <= 65535 && forall|i: int|
            0 <= i < s.len() ==> {
                ||| 48 <= #[trigger] s[i] <= 57
                ||| 65 <= s[i] <= 90
                ||| 97 <= s[i] <= 122
                ||| seq![
                    33u8,
                    35u8,
                    36u8,
                    37u8,
                    38u8,
                    39u8,
                    42u8,
                    43u8,
                    45u8,
                    46u8,
                    94u8,
                    95u8,
                    96u8,
                    124u8,
                    126u8,
                ].contains(s[i])
            },
{
    let others = seq![
        33u8,
        35u8,
        36u8,
        37u8,
        38u8,
        39u8,
        42u8,
        43u8,
        45u8,
        46u8,
        94u8,
        95u8,
        96u8,
        124u8,
        126u8,
    ];
    assert forall|b: u8| #[trigger] is_name_byte(b) == (48 <= b <= 57 || 65 <= b <= 90 || 97 <= b
        <= 122 || others.contains(b)) by {
        assert(others[0] == 33 && others[1] == 35 && others[2] == 36 && others[3] == 37 && others[4]
            == 38 && others[5] == 39 && others[6] == 42 && others[7] == 43 && others[8] == 45
            && others[9] == 46 && others[10] == 94 && others[11] == 95 && others[12] == 96
            && others[13] == 124 && others[14] == 126);
    }
    if is_header_name(s) {
        assert forall|i: int| 0 <= i < s.len() implies (48 <= #[trigger] s[i] <= 57 || 65 <= s[i]
            <= 90 || 97 <= s[i] <= 122 || others.contains(s[i])) by {
            assert(is_name_byte(s[i]));
        }
    }
}

/// A header value may hold every byte but the control bytes, of which it may hold tabs.
pub proof fn law_header_values_hold_no_control_bytes(s: Seq<u8>)
    ensures
        is_header_value(s) <==> !(exists|i: int|
            0 <= i < s.len() && ((#[trigger] s[i] < 32 && s[i] != 9) || s[i] == 127)),
{
}

/// A name in lower case has the letters A to Z replaced by a to z, and is else the same.
pub proof fn law_lower_case_changes_letters_alone(s: Seq<u8>, i: int)
    requires
        0 <= i < s.len(),
    ensures
        lower_name(s).len() == s.len(),
        65 <= s[i] <= 90 ==> lower_name(s)[i] == s[i] + 32,
        !(65 <= s[i] <= 90) ==> lower_name(s)[i] == s[i],
{
}

} // verus!
