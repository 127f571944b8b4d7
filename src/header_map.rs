//! The parts of `http` that the library relies on, and the model of a
//! header map's contents that the contracts speak of.
use vstd::prelude::*;

use http::{HeaderMap, HeaderName, HeaderValue};

verus! {

#[verifier::external_type_specification]
#[verifier::external_body]
#[verifier::reject_recursive_types(T)]
pub struct ExHeaderMap<T>(http::HeaderMap<T>);

#[verifier::external_type_specification]
#[verifier::external_body]
pub struct ExHeaderName(http::HeaderName);

#[verifier::external_type_specification]
#[verifier::external_body]
pub struct ExHeaderValue(http::HeaderValue);

/// The lower-case text of a header name, as `HeaderName::as_str` gives it.
pub uninterp spec fn name_text(n: HeaderName) -> Seq<char>;

/// The bytes of a header value, as `HeaderValue::as_bytes` gives them.
pub uninterp spec fn value_bytes(v: HeaderValue) -> Seq<u8>;

/// What a header map holds: for each name that has at least one value, the
/// bytes of its values in the order in which `get_all` yields them.
pub uninterp spec fn header_map_contents(m: HeaderMap) -> Map<Seq<char>, Seq<Seq<u8>>>;

/// The largest number of distinct names a map may hold when a value is
/// inserted or appended to it. `HeaderMap` refuses (and `insert` and `append`
/// panic) only when its index table would grow past 32768 slots, which needs a
/// load of a fifth of that table (6554 names) or more; up to this count
/// neither call panics.
pub const MAX_HEADER_NAMES: usize = 6553;

/// The values stored under `key`; empty when the key is absent.
pub open spec fn stored(c: Map<Seq<char>, Seq<Seq<u8>>>, key: Seq<char>) -> Seq<Seq<u8>> {
    if c.dom().contains(key) {
        c[key]
    } else {
        Seq::empty()
    }
}

/// No name has a value.
pub open spec fn holds_nothing(c: Map<Seq<char>, Seq<Seq<u8>>>) -> bool {
    c == Map::<Seq<char>, Seq<Seq<u8>>>::empty()
}

/// The map has room for one more value, whatever its name.
pub open spec fn has_room(c: Map<Seq<char>, Seq<Seq<u8>>>) -> bool {
    c.dom().finite() && c.dom().len() <= MAX_HEADER_NAMES
}

/// The bytes of each value in a sequence of values.
pub open spec fn raw_values(vs: Seq<HeaderValue>) -> Seq<Seq<u8>> {
    vs.map_values(|v: HeaderValue| value_bytes(v))
}

/// The map has room for a value under a name it may not hold yet, and then
/// for any number of further values under that name.
pub open spec fn can_insert(c: Map<Seq<char>, Seq<Seq<u8>>>) -> bool {
    c.dom().finite() && c.dom().len() < MAX_HEADER_NAMES
}

/// Relies on `HeaderMap::insert`: every value stored under the key is
/// replaced by the one given. It panics only when the map must grow past its
/// maximal size, which `has_room` rules out.
#[verifier::external_body]
pub(crate) fn map_insert(m: &mut HeaderMap, key: &HeaderName, value: HeaderValue)
    requires
        has_room(header_map_contents(*old(m))),
    ensures
        header_map_contents(*final(m)) == header_map_contents(*old(m)).insert(
            name_text(*key),
            seq![value_bytes(value)],
        ),
{
    m.insert(key, value);
}

/// Relies on `HeaderMap::append`: the value is pushed to the end of the values
/// stored under the key. It panics only when the map must grow past its
/// maximal size, which `has_room` rules out.
#[verifier::external_body]
pub(crate) fn map_append(m: &mut HeaderMap, key: &HeaderName, value: HeaderValue)
    requires
        has_room(header_map_contents(*old(m))),
    ensures
        header_map_contents(*final(m)) == header_map_contents(*old(m)).insert(
            name_text(*key),
            stored(header_map_contents(*old(m)), name_text(*key)).push(value_bytes(value)),
        ),
{
    m.append(key, value);
}

/// Relies on `HeaderMap::get_all` and `GetAll::iter`: every value stored under
/// the key, in order.
#[verifier::external_body]
pub(crate) fn map_get_all<'a>(m: &'a HeaderMap, key: &HeaderName) -> (r: Vec<&'a HeaderValue>)
    ensures
        raw_values(r@.map_values(|v: &HeaderValue| *v)) == stored(
            header_map_contents(*m),
            name_text(*key),
        ),
{
    m.get_all(key).iter().collect()
}

/// Relies on `HeaderMap::new`: a map with no values.
#[verifier::external_body]
pub(crate) fn empty_map() -> (r: HeaderMap)
    ensures
        holds_nothing(header_map_contents(r)),
{
    HeaderMap::new()
}

/// A name that `HeaderName::from_static` accepts as it is: lower-case letters
/// and dashes, not empty and not too long.
pub open spec fn is_plain_name(s: Seq<char>) -> bool {
    &&& 0 < s.len() <= 64
    &&& forall|i: int| 0 <= i < s.len() ==> ('a' <= #[trigger] s[i] <= 'z' || s[i] == '-')
}

/// Relies on `HeaderName::from_static`, which panics on a name that is not
/// lower case or holds a character a header name cannot, and otherwise keeps
/// the text (`as_str` gives it back).
#[verifier::external_body]
pub(crate) fn static_name(src: &'static str) -> (r: HeaderName)
    requires
        is_plain_name(src@),
    ensures
        name_text(r) == src@,
{
    HeaderName::from_static(src)
}

/// The decimal digits of `n`, most significant first, with no leading zero.
pub open spec fn decimal(n: nat) -> Seq<u8>
    decreases n,
{
    if n < 10 {
        seq![(48 + n) as u8]
    } else {
        decimal(n / 10).push((48 + n % 10) as u8)
    }
}

/// Relies on `impl From<u64> for HeaderValue`, which writes the number's
/// decimal digits (through `itoa`).
#[verifier::external_body]
pub(crate) fn decimal_value(n: u64) -> (r: HeaderValue)
    ensures
        value_bytes(r) == decimal(n as nat),
{
    HeaderValue::from(n)
}

/// Relies on `HeaderValue::as_bytes`.
#[verifier::external_body]
pub(crate) fn value_as_bytes(v: &HeaderValue) -> (r: &[u8])
    ensures
        r@ == value_bytes(*v),
{
    v.as_bytes()
}

} // verus!
