use http::{HeaderMap, HeaderName, HeaderValue};
use typed_headers::{parse_count, Count, Counts, Error, HeaderMapExt};

fn raw(map: &HeaderMap, name: &str) -> Vec<Vec<u8>> {
    map.get_all(name).iter().map(|v| v.as_bytes().to_vec()).collect()
}

fn bytes(items: &[&str]) -> Vec<Vec<u8>> {
    items.iter().map(|s| s.as_bytes().to_vec()).collect()
}

#[test]
fn count_insert_overwrites_and_reads_back() {
    let mut map = HeaderMap::new();
    map.typed_insert(Count(3));
    assert_eq!(raw(&map, "x-count"), bytes(&["3"]));
    map.typed_insert(Count(7));
    assert_eq!(raw(&map, "x-count"), bytes(&["7"]));
    assert_eq!(map.typed_get::<Count>(), Some(Count(7)));
}

#[test]
fn count_round_trip() {
    for n in [0u64, 9, 10, 42, 1_000_000, u64::MAX] {
        let mut map = HeaderMap::new();
        map.typed_insert(Count(n));
        assert_eq!(map.typed_get::<Count>(), Some(Count(n)));
        assert_eq!(map.typed_try_get::<Count>(), Ok(Some(Count(n))));
    }
}

#[test]
fn counts_round_trip() {
    let mut map = HeaderMap::new();
    map.typed_insert(Counts(vec![5, 0, 18446744073709551615]));
    assert_eq!(map.typed_get::<Counts>(), Some(Counts(vec![5, 0, 18446744073709551615])));
}

#[test]
fn overwrite_with_fewer_values_leaves_nothing_over() {
    let mut map = HeaderMap::new();
    map.typed_insert(Counts(vec![1, 2, 3]));
    map.typed_insert(Counts(vec![9]));
    assert_eq!(raw(&map, "x-counts"), bytes(&["9"]));
    assert_eq!(map.typed_get::<Counts>(), Some(Counts(vec![9])));
}

#[test]
fn empty_encoding_leaves_entry_untouched() {
    let mut map = HeaderMap::new();
    map.typed_insert(Counts(vec![]));
    assert!(!map.contains_key("x-counts"));
    map.typed_insert(Counts(vec![4, 5]));
    map.typed_insert(Counts(vec![]));
    assert_eq!(raw(&map, "x-counts"), bytes(&["4", "5"]));
}

#[test]
fn multiple_values_keep_order_in_vacant_entry() {
    let mut map = HeaderMap::new();
    map.typed_insert(Counts(vec![10, 20, 30]));
    assert_eq!(raw(&map, "x-counts"), bytes(&["10", "20", "30"]));
}

#[test]
fn multiple_values_keep_order_in_occupied_entry() {
    let mut map = HeaderMap::new();
    map.append("x-counts", HeaderValue::from_static("old-1"));
    map.append("x-counts", HeaderValue::from_static("old-2"));
    map.typed_insert(Counts(vec![10, 20, 30]));
    assert_eq!(raw(&map, "x-counts"), bytes(&["10", "20", "30"]));
}

#[test]
fn insert_leaves_other_names_alone() {
    let mut map = HeaderMap::new();
    map.insert(HeaderName::from_static("x-other"), HeaderValue::from_static("keep"));
    map.typed_insert(Count(12));
    assert_eq!(raw(&map, "x-other"), bytes(&["keep"]));
    assert_eq!(raw(&map, "x-count"), bytes(&["12"]));
    assert_eq!(map.len(), 2);
}

#[test]
fn absent_header_reads_as_none() {
    let map = HeaderMap::new();
    assert_eq!(map.typed_try_get::<Count>(), Ok(None));
    assert_eq!(map.typed_get::<Count>(), None);
    assert_eq!(map.typed_try_get::<Counts>(), Ok(None));
}

#[test]
fn malformed_value_is_an_error_and_map_is_unchanged() {
    let mut map = HeaderMap::new();
    map.insert("x-count", HeaderValue::from_static("abc"));
    assert_eq!(map.typed_try_get::<Count>(), Err(Error::invalid()));
    assert_eq!(map.typed_get::<Count>(), None);
    assert_eq!(raw(&map, "x-count"), bytes(&["abc"]));
    assert_eq!(map.len(), 1);
}

#[test]
fn count_with_two_values_is_an_error() {
    let mut map = HeaderMap::new();
    map.append("x-count", HeaderValue::from_static("1"));
    map.append("x-count", HeaderValue::from_static("2"));
    assert_eq!(map.typed_try_get::<Count>(), Err(Error::invalid()));
    assert_eq!(map.typed_get::<Count>(), None);
}

#[test]
fn counts_with_one_bad_value_is_an_error() {
    let mut map = HeaderMap::new();
    map.append("x-counts", HeaderValue::from_static("1"));
    map.append("x-counts", HeaderValue::from_static("two"));
    assert_eq!(map.typed_try_get::<Counts>(), Err(Error::invalid()));
    assert_eq!(map.typed_get::<Counts>(), None);
}

#[test]
fn counts_decodes_values_stored_by_hand() {
    let mut map = HeaderMap::new();
    map.append("x-counts", HeaderValue::from_static("8"));
    map.append("x-counts", HeaderValue::from_static("0"));
    map.append("x-counts", HeaderValue::from_static("300"));
    assert_eq!(map.typed_get::<Counts>(), Some(Counts(vec![8, 0, 300])));
}

#[test]
fn repeated_lookup_gives_same_result() {
    let mut map = HeaderMap::new();
    map.insert("x-count", HeaderValue::from_static("15"));
    let first = map.typed_try_get::<Count>();
    let second = map.typed_try_get::<Count>();
    assert_eq!(first, second);
    assert_eq!(first, Ok(Some(Count(15))));

    map.insert("x-count", HeaderValue::from_static("x"));
    assert_eq!(map.typed_try_get::<Count>(), map.typed_try_get::<Count>());
}

#[test]
fn parse_count_values() {
    assert_eq!(parse_count(b"0"), Some(0));
    assert_eq!(parse_count(b"007"), Some(7));
    assert_eq!(parse_count(b"12345"), Some(12345));
    assert_eq!(parse_count(b"18446744073709551615"), Some(u64::MAX));
}

#[test]
fn parse_count_rejects() {
    assert_eq!(parse_count(b""), None);
    assert_eq!(parse_count(b"18446744073709551616"), None);
    assert_eq!(parse_count(b"99999999999999999999x"), None);
    assert_eq!(parse_count(b"12a"), None);
    assert_eq!(parse_count(b"+1"), None);
    assert_eq!(parse_count(b"-1"), None);
    assert_eq!(parse_count(b" 1"), None);
}
