//! Two header kinds that carry decimal counts: `x-count` holds one number,
//! `x-counts` holds one number per value.
use vstd::prelude::*;

use http::{HeaderName, HeaderValue};

use crate::header::{raw_refs, Error, Header};
use crate::header_map::{
    decimal, decimal_value, raw_values, static_name, value_as_bytes, value_bytes,
};
use crate::map_ext::ToValues;

verus! {

pub open spec fn is_digit(b: u8) -> bool {
    48 <= b <= 57
}

/// The number that a string of decimal digits spells.
pub open spec fn digits_value(s: Seq<u8>) -> nat
    decreases s.len(),
{
    if s.len() == 0 {
        0
    } else {
        digits_value(s.drop_last()) * 10 + (s.last() - 48) as nat
    }
}

/// The count that a raw value holds: one or more decimal digits that spell a
/// number fitting in a `u64`.
pub open spec fn parsed_count(s: Seq<u8>) -> Option<u64> {
    if s.len() > 0 && (forall|i: int| 0 <= i < s.len() ==> is_digit(#[trigger] s[i]))
        && digits_value(s) <= u64::MAX {
        Some(digits_value(s) as u64)
    } else {
        None
    }
}

/// A string of digits spells at least what any of its prefixes spells.
proof fn lemma_prefix_value(s: Seq<u8>, j: int)
    requires
        0 <= j <= s.len(),
        forall|i: int| 0 <= i < s.len() ==> is_digit(#[trigger] s[i]),
    ensures
        digits_value(s.take(j)) <= digits_value(s),
    decreases s.len(),
{
    if j < s.len() {
        assert(s.drop_last().take(j) =~= s.take(j));
        assert forall|i: int| 0 <= i < s.drop_last().len() implies is_digit(
            #[trigger] s.drop_last()[i],
        ) by {
            assert(s.drop_last()[i] == s[i]);
        }
        lemma_prefix_value(s.drop_last(), j);
    } else {
        assert(s.take(j) =~= s);
    }
}

/// Reads a count from the bytes of a raw value.
pub fn parse_count(bytes: &[u8]) -> (r: Option<u64>)
    ensures
        r == parsed_count(bytes@),
{
    if bytes.len() == 0 {
        return None;
    }
    let mut acc: u64 = 0;
    let mut i: usize = 0;
    while i < bytes.len()
        invariant
            0 <= i <= bytes@.len(),
            forall|k: int| 0 <= k < i ==> is_digit(#[trigger] bytes@[k]),
            acc as nat == digits_value(bytes@.take(i as int)),
        decreases bytes@.len() - i,
    {
        let b = bytes[i];
        if b < 48 || b > 57 {
            return None;
        }
        proof {
            assert(bytes@.take(i + 1).drop_last() =~= bytes@.take(i as int));
        }
        let next = match acc.checked_mul(10) {
            Some(m) => m.checked_add((b - 48) as u64),
            None => None,
        };
        match next {
            Some(n) => {
                acc = n;
            },
            None => {
                proof {
                    if forall|k: int| 0 <= k < bytes@.len() ==> is_digit(#[trigger] bytes@[k]) {
                        lemma_prefix_value(bytes@, i + 1);
                    }
                }
                return None;
            },
        }
        i = i + 1;
    }
    proof {
        assert(bytes@.take(i as int) =~= bytes@);
    }
    Some(acc)
}

/// The `x-count` header: one number, written as a single decimal value.
#[derive(Clone, Copy, Debug, PartialEq, Eq, Structural)]
pub struct Count(pub u64);

impl View for Count {
    type V = u64;

    open spec fn view(&self) -> u64 {
        self.0
    }
}

impl Header for Count {
    open spec fn header_name() -> Seq<char> {
        "x-count"@
    }

    open spec fn encoded(&self) -> Seq<Seq<u8>> {
        seq![decimal(self.0 as nat)]
    }

    open spec fn decoded(values: Seq<Seq<u8>>) -> Result<u64, Error> {
        if values.len() == 1 && parsed_count(values[0]) is Some {
            Ok(parsed_count(values[0])->0)
        } else {
            Err(Error::spec_invalid())
        }
    }

    fn name() -> (r: HeaderName) {
        proof {
            reveal_strlit("x-count");
        }
        static_name("x-count")
    }

    fn decode(values: &[&HeaderValue]) -> (r: Result<Count, Error>) {
        if values.len() != 1 {
            return Err(Error::invalid());
        }
        match parse_count(value_as_bytes(values[0])) {
            Some(n) => Ok(Count(n)),
            None => Err(Error::invalid()),
        }
    }

    fn encode(&self, values: &mut ToValues) {
        let v = vec![decimal_value(self.0)];
        proof {
            assert(raw_values(v@) =~= self.encoded());
        }
        values.extend(v);
    }
}

/// The `x-counts` header: a list of numbers, one decimal value each.
#[derive(Debug, PartialEq, Eq)]
pub struct Counts(pub Vec<u64>);

impl View for Counts {
    type V = Seq<u64>;

    open spec fn view(&self) -> Seq<u64> {
        self.0@
    }
}

impl Header for Counts {
    open spec fn header_name() -> Seq<char> {
        "x-counts"@
    }

    open spec fn encoded(&self) -> Seq<Seq<u8>> {
        self.0@.map_values(|n: u64| decimal(n as nat))
    }

    open spec fn decoded(values: Seq<Seq<u8>>) -> Result<Seq<u64>, Error> {
        if forall|i: int| 0 <= i < values.len() ==> #[trigger] parsed_count(values[i]) is Some {
            Ok(values.map_values(|s: Seq<u8>| parsed_count(s)->0))
        } else {
            Err(Error::spec_invalid())
        }
    }

    fn name() -> (r: HeaderName) {
        proof {
            reveal_strlit("x-counts");
        }
        static_name("x-counts")
    }

    fn decode(values: &[&HeaderValue]) -> (r: Result<Counts, Error>) {
        let ghost raw = raw_refs(values@);
        let mut out: Vec<u64> = Vec::new();
        let mut i: usize = 0;
        while i < values.len()
            invariant
                0 <= i <= values@.len(),
                raw == raw_refs(values@),
                out@.len() == i,
                forall|k: int| 0 <= k < i ==> #[trigger] parsed_count(raw[k]) is Some,
                forall|k: int| 0 <= k < i ==> out@[k] == #[trigger] parsed_count(raw[k])->0,
            decreases values@.len() - i,
        {
            assert(raw[i as int] == value_bytes(*values@[i as int]));
            match parse_count(value_as_bytes(values[i])) {
                Some(n) => {
                    out.push(n);
                },
                None => {
                    return Err(Error::invalid());
                },
            }
            i = i + 1;
        }
        proof {
            assert(out@ =~= raw.map_values(|s: Seq<u8>| parsed_count(s)->0));
        }
        Ok(Counts(out))
    }

    fn encode(&self, values: &mut ToValues) {
        let mut v: Vec<HeaderValue> = Vec::new();
        let mut i: usize = 0;
        while i < self.0.len()
            invariant
                0 <= i <= self.0@.len(),
                raw_values(v@) =~= self.encoded().take(i as int),
            decreases self.0@.len() - i,
        {
            let ghost before = v@;
            v.push(decimal_value(self.0[i]));
            proof {
                let d = decimal(self.0@[i as int] as nat);
                assert(raw_values(v@) =~= raw_values(before).push(d));
                assert(self.encoded().take(i + 1) =~= self.encoded().take(i as int).push(d));
            }
            i = i + 1;
        }
        proof {
            assert(self.encoded().take(i as int) =~= self.encoded());
        }
        values.extend(v);
    }
}

} // verus!
