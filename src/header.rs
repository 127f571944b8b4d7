//! The contract that a typed header kind fulfils.
use vstd::prelude::*;

use http::{HeaderName, HeaderValue};

use crate::header_map::{name_text, raw_values};
use crate::map_ext::ToValues;

verus! {

/// Why decoding failed.
#[derive(Clone, Copy, Debug, PartialEq, Eq, Structural)]
enum Kind {
    Invalid,
}

/// The stored values of a header could not be decoded into its typed form.
#[derive(Clone, Copy, Debug, PartialEq, Eq, Structural)]
pub struct Error {
    kind: Kind,
}

impl Error {
    /// The error for values that are malformed, or too many or too few.
    pub fn invalid() -> (r: Error)
        ensures
            r == Error::spec_invalid(),
    {
        Error { kind: Kind::Invalid }
    }

    pub closed spec fn spec_invalid() -> Error {
        Error { kind: Kind::Invalid }
    }
}

/// The bytes of each value that a slice of borrowed values refers to.
pub open spec fn raw_refs(values: Seq<&HeaderValue>) -> Seq<Seq<u8>> {
    raw_values(values.map_values(|v: &HeaderValue| *v))
}

/// A header kind: its name, how a value encodes to an ordered list of raw
/// values, and how it decodes from one.
///
/// The view of a value is what decoding recovers: a kind whose `decoded`
/// undoes `encoded` round-trips through a header map.
pub trait Header: Sized + View {
    /// The lower-case text of the header's name.
    spec fn header_name() -> Seq<char>;

    /// The raw values, in order, that `encode` writes.
    spec fn encoded(&self) -> Seq<Seq<u8>>;

    /// What `decode` yields for the given raw values.
    spec fn decoded(values: Seq<Seq<u8>>) -> Result<<Self as View>::V, Error>;

    /// The name of the header.
    fn name() -> (r: HeaderName)
        ensures
            name_text(r) == Self::header_name(),
    ;

    /// Decodes a value from every value stored under the header's name.
    fn decode(values: &[&HeaderValue]) -> (r: Result<Self, Error>)
        ensures
            match r {
                Ok(h) => Self::decoded(raw_refs(values@)) == Ok::<<Self as View>::V, Error>(h@),
                Err(e) => Self::decoded(raw_refs(values@)) == Err::<<Self as View>::V, Error>(e),
            },
    ;

    /// Writes the encoded values, in order, through the sink.
    fn encode(&self, values: &mut ToValues)
        requires
            old(values).ready(),
        ensures
            final(values).key() == old(values).key(),
            final(values).started() == (old(values).started() || self.encoded().len() > 0),
            final(values).contents() == old(values).deposited(self.encoded()),
    ;
}

} // verus!
