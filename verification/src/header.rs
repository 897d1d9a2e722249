//! Header names and values: which are well formed, and the header map that
//! callers receive.

use http::header::{HeaderMap, HeaderName, HeaderValue};
use vstd::prelude::*;

verus! {

/// The longest header name, in characters.
pub const MAX_NAME_LEN: usize = 65535;

/// The number of values that a header map is filled to at most.
pub const MAX_HEADERS: usize = 4096;

/// Whether `c` may stand in a header name: an ASCII letter or digit, or one
/// of ``! # $ % & ' * + - . ^ _ ` | ~``.
pub open spec fn is_name_char(c: char) -> bool {
    ('a' <= c && c <= 'z') || ('A' <= c && c <= 'Z') || ('0' <= c && c <= '9') || c == '!' || c
        == '#' || c == '$' || c == '%' || c == '&' || c == '\'' || c == '*' || c == '+' || c == '-'
        || c == '.' || c == '^' || c == '_' || c == '`' || c == '|' || c == '~'
}

/// Whether `name` is a well-formed header name: between one and
/// `MAX_NAME_LEN` characters, each of them a name character.
pub open spec fn is_header_name(name: Seq<char>) -> bool {
    &&& 1 <= name.len() <= MAX_NAME_LEN
    &&& forall|i: int| 0 <= i < name.len() ==> is_name_char(#[trigger] name[i])
}

/// `c` with an upper-case ASCII letter replaced by its lower-case form.
pub open spec fn lower(c: char) -> char {
    if 'A' <= c && c <= 'Z' {
        ((c as u8) + 32) as u8 as char
    } else {
        c
    }
}

/// The form in which a header name is kept: all letters in lower case.
pub open spec fn canonical_name(name: Seq<char>) -> Seq<char> {
    Seq::new(name.len(), |i: int| lower(name[i]))
}

/// Whether `b` may stand in a header value: a tab, or any byte from 32 up
/// except 127.
pub open spec fn is_value_byte(b: u8) -> bool {
    (b >= 32 && b != 127) || b == 9
}

/// Whether `value` is a well-formed header value.
pub open spec fn is_header_value(value: Seq<u8>) -> bool {
    forall|i: int| 0 <= i < value.len() ==> is_value_byte(#[trigger] value[i])
}

/// Parses a header name with `http::header::HeaderName::from_bytes` and
/// returns the name as `HeaderName::as_str` gives it.
///
/// Trusted: the name is accepted exactly when it is well formed, and what
/// comes back is the name in lower case.
#[verifier::external_body]
pub(crate) fn parse_header_name(name: &str) -> (parsed: Option<String>)
    ensures
        parsed is Some <==> is_header_name(name@),
        parsed matches Some(text) ==> text@ == canonical_name(name@),
{
    match HeaderName::from_bytes(name.as_bytes()) {
        Ok(parsed) => Some(parsed.as_str().to_owned()),
        Err(_) => None,
    }
}

/// Checks a header value with `http::header::HeaderValue::from_bytes`.
///
/// Trusted: the value is accepted exactly when each of its bytes is a value
/// byte.
#[verifier::external_body]
pub(crate) fn accepts_header_value(value: &[u8]) -> (ok: bool)
    ensures
        ok == is_header_value(value@),
{
    HeaderValue::from_bytes(value).is_ok()
}

/// `http::header::HeaderValue`, which a header map holds.
#[verifier::external_type_specification]
#[verifier::external_body]
pub struct ExHeaderValue(http::header::HeaderValue);

/// `http::header::HeaderMap`, a multimap from header names to values.
#[verifier::external_type_specification]
#[verifier::external_body]
#[verifier::reject_recursive_types(T)]
pub struct ExHeaderMap<T>(http::header::HeaderMap<T>);

/// Header values by name.
pub type HeaderValues = Map<Seq<char>, Seq<Seq<u8>>>;

/// What a header map holds: for each name in it, as `HeaderName::as_str`
/// gives the name, the bytes of its values in the order in which
/// `HeaderMap::get_all` yields them.
pub uninterp spec fn header_map_values(map: HeaderMap<HeaderValue>) -> Map<Seq<char>, Seq<Seq<u8>>>;

/// The number of values in a header map, as `HeaderMap::len` counts them.
pub uninterp spec fn header_map_len(map: HeaderMap<HeaderValue>) -> nat;

/// Makes an empty map with `http::header::HeaderMap::new`.
///
/// Trusted: the new map holds nothing.
#[verifier::external_body]
pub(crate) fn header_map_new() -> (fresh: HeaderMap<HeaderValue>)
    ensures
        header_map_values(fresh) == HeaderValues::empty(),
        header_map_len(fresh) == 0,
{
    HeaderMap::new()
}

/// Adds one value under a name with `http::header::HeaderMap::append`; name
/// and value are parsed with `HeaderName::from_bytes` and
/// `HeaderValue::from_bytes`.
///
/// Trusted: the value is put behind the values that the map already holds
/// for the name, every other name keeps its values, and the result tells
/// whether the name was present before. `append` panics only where the map
/// refuses the entry, and it refuses only when it holds 32768 names or when
/// its table of 32768 slots would have to double; the table doubles only
/// when a fifth or more of its slots are taken by names. A map of fewer than
/// `MAX_HEADERS` values reaches neither, so it takes one more.
#[verifier::external_body]
pub(crate) fn header_map_append(map: &mut HeaderMap<HeaderValue>, name: &str, value: &[u8]) -> (present: bool)
    requires
        is_header_name(name@),
        is_header_value(value@),
        header_map_len(*old(map)) < MAX_HEADERS,
    ensures
        present == header_map_values(*old(map)).dom().contains(canonical_name(name@)),
        header_map_values(*final(map)) == header_map_values(*old(map)).insert(
            canonical_name(name@),
            values_before(header_map_values(*old(map)), canonical_name(name@)).push(value@),
        ),
        header_map_len(*final(map)) == header_map_len(*old(map)) + 1,
{
    let name = HeaderName::from_bytes(name.as_bytes()).unwrap();
    let value = HeaderValue::from_bytes(value).unwrap();
    map.append(name, value)
}

/// The values that `values` holds for `name`: none where the name is absent.
pub open spec fn values_before(values: HeaderValues, name: Seq<char>) -> Seq<Seq<u8>> {
    if values.dom().contains(name) {
        values[name]
    } else {
        Seq::empty()
    }
}

/// A list of headers as it goes over the wire: names with their values, in
/// order.
pub type HeaderSeq = Seq<(Seq<char>, Seq<u8>)>;

/// The names and values of a list of headers.
pub open spec fn header_seq(headers: Seq<(String, Vec<u8>)>) -> HeaderSeq {
    Seq::new(headers.len(), |i: int| (headers[i].0@, headers[i].1@))
}

/// Whether some header of the list bears `name`.
pub open spec fn has_name(headers: HeaderSeq, name: Seq<char>) -> bool {
    exists|i: int| 0 <= i < headers.len() && (#[trigger] headers[i]).0 == name
}

/// The values that the list gives for `name`, in the order in which they
/// stand in it.
pub open spec fn values_of(headers: HeaderSeq, name: Seq<char>) -> Seq<Seq<u8>>
    decreases headers.len(),
{
    if headers.len() == 0 {
        Seq::empty()
    } else if headers.last().0 == name {
        values_of(headers.drop_last(), name).push(headers.last().1)
    } else {
        values_of(headers.drop_last(), name)
    }
}

/// The list as a multimap: each name that occurs, with all its values.
pub open spec fn by_name(headers: HeaderSeq) -> HeaderValues {
    Map::new(|name: Seq<char>| has_name(headers, name), |name: Seq<char>| values_of(headers, name))
}

/// Whether `name` is a well-formed header name in the form in which it is
/// kept.
pub open spec fn is_canonical_name(name: Seq<char>) -> bool {
    is_header_name(name) && canonical_name(name) == name
}

/// Whether every header of the list has a canonical name and a well-formed
/// value.
pub open spec fn well_formed(headers: HeaderSeq) -> bool {
    forall|i: int|
        0 <= i < headers.len() ==> is_canonical_name((#[trigger] headers[i]).0) && is_header_value(
            headers[i].1,
        )
}

/// The canonical form of a well-formed name is a well-formed name, and is
/// its own canonical form.
pub proof fn canonical_name_is_canonical(name: Seq<char>)
    requires
        is_header_name(name),
    ensures
        is_canonical_name(canonical_name(name)),
{
    let low = canonical_name(name);
    assert forall|i: int| 0 <= i < low.len() implies is_name_char(#[trigger] low[i]) && lower(
        low[i],
    ) == low[i] by {
        assert(is_name_char(name[i]));
        lower_is_name_char(name[i]);
    }
    assert(canonical_name(low) =~= low);
}

/// Lowering a name character gives a name character that lowering leaves
/// alone.
pub proof fn lower_is_name_char(c: char)
    requires
        is_name_char(c),
    ensures
        is_name_char(lower(c)),
        lower(lower(c)) == lower(c),
{
    if 'A' <= c && c <= 'Z' {
        let u = c as u8;
        assert(65 <= u <= 90);
        let l = (u + 32) as u8;
        assert(97 <= l <= 122);
        assert(lower(c) == l as char);
        assert('a' <= (l as char) && (l as char) <= 'z');
    }
}

/// A list without headers gives no values for any name.
pub proof fn values_of_absent(headers: HeaderSeq, name: Seq<char>)
    requires
        !has_name(headers, name),
    ensures
        values_of(headers, name) == Seq::<Seq<u8>>::empty(),
    decreases headers.len(),
{
    if headers.len() > 0 {
        let front = headers.drop_last();
        assert(headers[headers.len() - 1].0 != name);
        assert forall|i: int| 0 <= i < front.len() implies (#[trigger] front[i]).0 != name by {
            assert(headers[i].0 != name);
        }
        values_of_absent(front, name);
    }
}

/// Adding a header at the end adds its value behind the values of its name
/// and leaves every other name as it was.
pub proof fn by_name_push(headers: HeaderSeq, name: Seq<char>, value: Seq<u8>)
    ensures
        by_name(headers.push((name, value))) == by_name(headers).insert(
            name,
            values_before(by_name(headers), name).push(value),
        ),
{
    let longer = headers.push((name, value));
    let expected = by_name(headers).insert(name, values_before(by_name(headers), name).push(value));
    assert(longer.drop_last() =~= headers);
    assert(longer.last() == (name, value));
    if !has_name(headers, name) {
        values_of_absent(headers, name);
    }
    assert forall|n: Seq<char>| has_name(longer, n) <==> (n == name || has_name(headers, n)) by {
        if has_name(longer, n) {
            let i = choose|i: int| 0 <= i < longer.len() && (#[trigger] longer[i]).0 == n;
            if i < headers.len() {
                assert(headers[i].0 == n);
            }
        }
        if n == name {
            assert(longer[headers.len() as int].0 == n);
        }
        if has_name(headers, n) {
            let i = choose|i: int| 0 <= i < headers.len() && (#[trigger] headers[i]).0 == n;
            assert(longer[i].0 == n);
        }
    }
    assert(by_name(longer) =~= expected);
}

/// Every header of a list is found under its name, with its value among the
/// values of that name.
pub proof fn by_name_holds_every_header(headers: HeaderSeq, i: int)
    requires
        0 <= i < headers.len(),
    ensures
        by_name(headers).dom().contains(headers[i].0),
        by_name(headers)[headers[i].0].contains(headers[i].1),
    decreases headers.len(),
{
    let name = headers[i].0;
    let front = headers.drop_last();
    if i == headers.len() - 1 {
        let found = values_of(front, name).push(headers[i].1);
        assert(found[found.len() - 1] == headers[i].1);
    } else {
        assert(front[i] == headers[i]);
        by_name_holds_every_header(front, i);
        let found = values_of(front, name);
        let k = choose|k: int| 0 <= k < found.len() && found[k] == headers[i].1;
        if headers.last().0 == name {
            assert(found.push(headers.last().1)[k] == headers[i].1);
        }
    }
}

/// A header whose name no other header of the list bears is found under
/// that name with its value alone, byte for byte.
pub proof fn lone_header_is_kept_verbatim(headers: HeaderSeq, i: int)
    requires
        0 <= i < headers.len(),
        forall|j: int| 0 <= j < headers.len() && j != i ==> (#[trigger] headers[j]).0 != headers[i].0,
    ensures
        by_name(headers).dom().contains(headers[i].0),
        by_name(headers)[headers[i].0] == seq![headers[i].1],
    decreases headers.len(),
{
    let name = headers[i].0;
    let front = headers.drop_last();
    if i == headers.len() - 1 {
        assert forall|j: int| 0 <= j < front.len() implies (#[trigger] front[j]).0 != name by {
            assert(headers[j].0 != name);
        }
        values_of_absent(front, name);
        assert(values_of(headers, name) =~= seq![headers[i].1]);
    } else {
        assert(front[i] == headers[i]);
        assert(headers[headers.len() - 1].0 != name);
        assert forall|j: int| 0 <= j < front.len() && j != i implies (#[trigger] front[j]).0
            != front[i].0 by {
            assert(headers[j].0 != name);
        }
        lone_header_is_kept_verbatim(front, i);
    }
}

} // verus!
