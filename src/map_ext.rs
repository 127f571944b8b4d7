//! Typed insertion into, and typed lookup in, an `http::HeaderMap`.
use vstd::prelude::*;

use http::{HeaderMap, HeaderName, HeaderValue};

use crate::header::{Error, Header};
use crate::header_map::{
    can_insert, empty_map, has_room, header_map_contents, map_append, map_get_all, map_insert, name_text,
    raw_values, stored, value_bytes,
};

verus! {

/// The contents after `vals` are written under `key`: nothing changes for no
/// values; otherwise the first value of a fresh write replaces what was stored
/// and every later one is appended.
pub open spec fn deposit(
    c: Map<Seq<char>, Seq<Seq<u8>>>,
    key: Seq<char>,
    started: bool,
    vals: Seq<Seq<u8>>,
) -> Map<Seq<char>, Seq<Seq<u8>>> {
    if vals.len() == 0 {
        c
    } else if started {
        c.insert(key, stored(c, key) + vals)
    } else {
        c.insert(key, vals)
    }
}

/// Writing values one batch after another is writing them all at once.
proof fn lemma_deposit_push(
    c: Map<Seq<char>, Seq<Seq<u8>>>,
    key: Seq<char>,
    started: bool,
    vals: Seq<Seq<u8>>,
    v: Seq<u8>,
)
    ensures
        deposit(c, key, started, vals.push(v)) == deposit(
            deposit(c, key, started, vals),
            key,
            started || vals.len() > 0,
            seq![v],
        ),
{
    let d = deposit(c, key, started, vals);
    if vals.len() == 0 {
        assert(vals.push(v) =~= seq![v]);
    } else if started {
        assert(stored(d, key) + seq![v] =~= stored(c, key) + vals.push(v));
        assert(d.insert(key, stored(d, key) + seq![v]) =~= c.insert(key, stored(c, key) + vals.push(v)));
    } else {
        assert(stored(d, key) + seq![v] =~= vals.push(v));
        assert(d.insert(key, stored(d, key) + seq![v]) =~= c.insert(key, vals.push(v)));
    }
}

enum State {
    /// No value has been written yet.
    First,
    /// At least one value has been written.
    Latter,
}

/// The sink through which a header writes its encoded values into a map.
pub struct ToValues {
    map: HeaderMap,
    name: HeaderName,
    state: State,
}

impl ToValues {
    /// The contents of the map being written to.
    pub closed spec fn contents(&self) -> Map<Seq<char>, Seq<Seq<u8>>> {
        header_map_contents(self.map)
    }

    /// The name under which values are written.
    pub closed spec fn key(&self) -> Seq<char> {
        name_text(self.name)
    }

    /// Whether a value has been written already.
    pub closed spec fn started(&self) -> bool {
        self.state is Latter
    }

    /// The map can take every further value written.
    pub open spec fn ready(&self) -> bool {
        &&& has_room(self.contents())
        &&& self.started() ==> self.contents().dom().contains(self.key())
        &&& !self.started() ==> can_insert(self.contents())
    }

    /// The contents once `vals` are written.
    pub open spec fn deposited(&self, vals: Seq<Seq<u8>>) -> Map<Seq<char>, Seq<Seq<u8>>> {
        deposit(self.contents(), self.key(), self.started(), vals)
    }

    /// Writes the values in order: the first one written through this sink
    /// replaces whatever the map held under the name, the others are appended.
    pub fn extend(&mut self, iter: Vec<HeaderValue>)
        requires
            old(self).ready(),
        ensures
            final(self).key() == old(self).key(),
            final(self).started() == (old(self).started() || iter@.len() > 0),
            final(self).contents() == old(self).deposited(raw_values(iter@)),
            final(self).ready(),
    {
        let ghost c0 = self.contents();
        let ghost started0 = self.started();
        let ghost key = self.key();
        let ghost all = raw_values(iter@);
        for value in it: iter
            invariant
                it.seq() == iter@,
                all == raw_values(iter@),
                self.ready(),
                self.key() == key,
                self.started() == (started0 || it.index() > 0),
                self.contents() == deposit(c0, key, started0, all.take(it.index() as int)),
        {
            let ghost i = it.index() as int;
            proof {
                assert(0 <= i < iter@.len());
                assert(value == iter@[i]);
                assert(all[i] == value_bytes(value));
                assert(all.take(i + 1) =~= all.take(i).push(value_bytes(value)));
                lemma_deposit_push(c0, key, started0, all.take(i), value_bytes(value));
                let c = self.contents();
                assert(stored(c, key) + seq![value_bytes(value)] =~= stored(c, key).push(value_bytes(value)));
            }
            match self.state {
                State::First => {
                    map_insert(&mut self.map, &self.name, value);
                    self.state = State::Latter;
                },
                State::Latter => {
                    map_append(&mut self.map, &self.name, value);
                },
            }
        }
        proof {
            assert(all.take(iter@.len() as int) =~= all);
        }
    }
}

/// What `typed_try_get::<H>` returns, viewed, on a map with contents `c`:
/// `Ok(None)` when no value is stored under the name, else what decoding the
/// stored values gives.
pub open spec fn try_get_view<H: Header>(c: Map<Seq<char>, Seq<Seq<u8>>>) -> Result<
    Option<<H as View>::V>,
    Error,
> {
    let vals = stored(c, H::header_name());
    if vals.len() == 0 {
        Ok(None)
    } else {
        match H::decoded(vals) {
            Ok(v) => Ok(Some(v)),
            Err(e) => Err(e),
        }
    }
}

/// What `typed_get::<H>` returns, viewed: a decode error reads as absence.
pub open spec fn get_view<H: Header>(c: Map<Seq<char>, Seq<Seq<u8>>>) -> Option<<H as View>::V> {
    match try_get_view::<H>(c) {
        Ok(o) => o,
        Err(_) => None,
    }
}

/// The contents after `typed_insert` of a header with encoded values `vals`
/// under `key`: exactly `vals`, unless there are none.
pub open spec fn inserted(
    c: Map<Seq<char>, Seq<Seq<u8>>>,
    key: Seq<char>,
    vals: Seq<Seq<u8>>,
) -> Map<Seq<char>, Seq<Seq<u8>>> {
    deposit(c, key, false, vals)
}

pub open spec fn option_view<H: View>(o: Option<H>) -> Option<<H as View>::V> {
    match o {
        Some(h) => Some(h@),
        None => None,
    }
}

pub open spec fn result_view<H: View>(r: Result<Option<H>, Error>) -> Result<
    Option<<H as View>::V>,
    Error,
> {
    match r {
        Ok(o) => Ok(option_view(o)),
        Err(e) => Err(e),
    }
}

/// Marks the types that `HeaderMapExt` is meant for.
pub trait Sealed {

}

impl Sealed for HeaderMap {

}

/// Typed methods on a header map.
pub trait HeaderMapExt: Sealed + Sized {
    /// What the map holds: for each name with values, their bytes in order.
    spec fn header_contents(&self) -> Map<Seq<char>, Seq<Seq<u8>>>;

    /// Inserts the typed header, replacing every value stored under its name
    /// when it encodes to at least one value.
    fn typed_insert<H: Header>(&mut self, header: H)
        requires
            can_insert(old(self).header_contents()),
        ensures
            final(self).header_contents() == inserted(
                old(self).header_contents(),
                H::header_name(),
                header.encoded(),
            ),
    ;

    /// Finds the header by name and decodes it; absence and a decode error
    /// both give `None`.
    fn typed_get<H: Header>(&self) -> (r: Option<H>)
        ensures
            option_view(r) == get_view::<H>(self.header_contents()),
    ;

    /// Finds the header by name and decodes it: `Ok(None)` when no value is
    /// stored under the name, else the result of decoding all of them.
    fn typed_try_get<H: Header>(&self) -> (r: Result<Option<H>, Error>)
        ensures
            result_view(r) == try_get_view::<H>(self.header_contents()),
    ;
}

impl HeaderMapExt for HeaderMap {
    open spec fn header_contents(&self) -> Map<Seq<char>, Seq<Seq<u8>>> {
        header_map_contents(*self)
    }

    fn typed_insert<H: Header>(&mut self, header: H) {
        let mut values = ToValues { map: empty_map(), name: H::name(), state: State::First };
        std::mem::swap(self, &mut values.map);
        header.encode(&mut values);
        std::mem::swap(self, &mut values.map);
    }

    fn typed_get<H: Header>(&self) -> (r: Option<H>) {
        match self.typed_try_get::<H>() {
            Ok(o) => o,
            Err(_) => None,
        }
    }

    fn typed_try_get<H: Header>(&self) -> (r: Result<Option<H>, Error>) {
        let name = H::name();
        let values = map_get_all(self, &name);
        if values.len() == 0 {
            Ok(None)
        } else {
            match H::decode(values.as_slice()) {
                Ok(h) => Ok(Some(h)),
                Err(e) => Err(e),
            }
        }
    }
}

} // verus!
