//! Typed access to the values of an `http::HeaderMap`.
//!
//! A header kind implements [`Header`]: it names its header, encodes itself
//! into an ordered list of raw values and decodes itself from such a list.
//! [`HeaderMapExt`] adds `typed_insert`, `typed_get` and `typed_try_get` to
//! `http::HeaderMap`, with contracts stated over the map's contents.
use vstd::prelude::*;

pub mod counts;
pub mod header;
pub mod header_map;
pub mod laws;
pub mod map_ext;

pub use counts::{parse_count, Count, Counts};
pub use header::{Error, Header};
pub use map_ext::{HeaderMapExt, Sealed, ToValues};

verus! {

} // verus!
