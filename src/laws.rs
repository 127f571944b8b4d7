//! Laws that hold of every header kind, stated over the contracts of
//! `typed_insert`, `typed_get` and `typed_try_get`.
use vstd::prelude::*;

use crate::header::{Error, Header};
use crate::header_map::stored;
use crate::map_ext::{get_view, inserted, try_get_view};

verus! {

/// Inserting a header whose kind decodes exactly what it encodes, and reading
/// it back, gives the same value.
pub proof fn lemma_round_trip<H: Header>(c: Map<Seq<char>, Seq<Seq<u8>>>, v: H)
    requires
        v.encoded().len() > 0,
        H::decoded(v.encoded()) == Ok::<<H as View>::V, Error>(v@),
    ensures
        get_view::<H>(inserted(c, H::header_name(), v.encoded())) == Some(v@),
{
    lemma_insert_stores_encoding(c, v);
}

/// After an insert, the name holds exactly the encoded values, in the order
/// encoded, whether it held values before or not; other names keep theirs.
pub proof fn lemma_insert_stores_encoding<H: Header>(c: Map<Seq<char>, Seq<Seq<u8>>>, v: H)
    requires
        v.encoded().len() > 0,
    ensures
        stored(inserted(c, H::header_name(), v.encoded()), H::header_name()) == v.encoded(),
        forall|k: Seq<char>|
            k != H::header_name() ==> #[trigger] stored(
                inserted(c, H::header_name(), v.encoded()),
                k,
            ) == stored(c, k),
{
}

/// A second insert of the same kind replaces every value of the first: none
/// is left over, however many the first one wrote.
pub proof fn lemma_overwrite<H: Header>(c: Map<Seq<char>, Seq<Seq<u8>>>, first: H, second: H)
    requires
        second.encoded().len() > 0,
    ensures
        stored(
            inserted(inserted(c, H::header_name(), first.encoded()), H::header_name(), second.encoded()),
            H::header_name(),
        ) == second.encoded(),
{
    lemma_insert_stores_encoding(inserted(c, H::header_name(), first.encoded()), second);
}

/// With no value stored under its name, a header reads as absent, and the
/// decoder is not consulted.
pub proof fn lemma_absent<H: Header>(c: Map<Seq<char>, Seq<Seq<u8>>>)
    requires
        stored(c, H::header_name()).len() == 0,
    ensures
        try_get_view::<H>(c) == Ok::<Option<<H as View>::V>, Error>(None),
        get_view::<H>(c) == None::<<H as View>::V>,
{
}

/// When the stored values do not decode, `typed_try_get` reports the decoder's
/// error and `typed_get` reads as absent. Neither changes the map: both take
/// it by shared reference.
pub proof fn lemma_decode_failure<H: Header>(c: Map<Seq<char>, Seq<Seq<u8>>>, e: Error)
    requires
        stored(c, H::header_name()).len() > 0,
        H::decoded(stored(c, H::header_name())) == Err::<<H as View>::V, Error>(e),
    ensures
        try_get_view::<H>(c) == Err::<Option<<H as View>::V>, Error>(e),
        get_view::<H>(c) == None::<<H as View>::V>,
{
}

/// A lookup depends on the map's contents alone: two lookups with no change
/// in between give the same result.
pub proof fn lemma_lookup_repeatable<H: Header>(
    c1: Map<Seq<char>, Seq<Seq<u8>>>,
    c2: Map<Seq<char>, Seq<Seq<u8>>>,
)
    requires
        c1 == c2,
    ensures
        try_get_view::<H>(c1) == try_get_view::<H>(c2),
        get_view::<H>(c1) == get_view::<H>(c2),
{
}

} // verus!
