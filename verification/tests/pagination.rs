use musawarah::keys::PaginationParams;
use musawarah::paginate::{paginate, scan_all, CursorPage, KeyTable, PageError, MAX_PAGE_SIZE};

fn table_of(keys: &[u128]) -> KeyTable {
    let mut t = KeyTable::new();
    for k in keys {
        t.insert(*k);
    }
    t
}

#[test]
fn zero_limit_is_bad_request() {
    let t = table_of(&[1, 2, 3]);
    let r = paginate(&t, None, 0);
    assert_eq!(r.unwrap_err(), PageError::BadRequest);
}

#[test]
fn empty_collection_is_terminal_not_an_error() {
    let t = KeyTable::new();
    let page = paginate(&t, None, 10).unwrap();
    assert!(page.items.is_empty());
    assert!(!page.has_more);
    assert_eq!(page.next_cursor, None);

    // Any cursor over the empty collection gives the same terminal answer.
    let page = paginate(&t, Some(12345), 10).unwrap();
    assert!(page.items.is_empty());
    assert!(!page.has_more);
    assert_eq!(page.next_cursor, None);
}

#[test]
fn cursor_past_the_domain_maximum_is_terminal() {
    let t = table_of(&[10, 20, 30]);
    let page = paginate(&t, Some(u128::MAX), 5).unwrap();
    assert!(page.items.is_empty());
    assert!(!page.has_more);
    assert_eq!(page.next_cursor, None);
}

#[test]
fn three_keys_limit_two_pages_out_in_two_steps() {
    // Keys ascending; request {min_key: null, limit: 2} then feed the
    // cursor back in.
    let k0: u128 = 0x00000000_0000_4000_8000_000000000001;
    let k1: u128 = 0x00000001_0000_4000_8000_000000000002;
    let k2: u128 = 0x00000002_0000_4000_8000_000000000003;
    let t = table_of(&[k0, k1, k2]);

    let first: CursorPage = paginate(&t, None, 2).unwrap();
    assert_eq!(first.items, vec![k0, k1]);
    assert!(first.has_more);
    assert_eq!(first.next_cursor, Some(k1));

    let second = paginate(&t, first.next_cursor, 2).unwrap();
    assert_eq!(second.items, vec![k2]);
    assert!(!second.has_more);
    assert_eq!(second.next_cursor, None);
}

#[test]
fn walking_all_pages_visits_every_key_once() {
    // Inserted in arbitrary order; the walk sees each exactly once,
    // ascending, and terminates.
    let keys: Vec<u128> = vec![44, 2, 99, 17, 3, 71, 18, 1, 100, 55];
    let t = table_of(&keys);
    for limit in [1u64, 2, 3, 7, 100] {
        let visited = scan_all(&t, limit);
        let mut expected = keys.clone();
        expected.sort_unstable();
        assert_eq!(visited, expected);
    }
}

#[test]
fn page_walk_by_hand_matches_scan() {
    let keys: Vec<u128> = (1..=25).map(|i| (i * i) as u128).collect();
    let t = table_of(&keys);
    let mut visited: Vec<u128> = Vec::new();
    let mut cursor: Option<u128> = None;
    loop {
        let page = paginate(&t, cursor, 4).unwrap();
        visited.extend_from_slice(&page.items);
        assert_eq!(page.has_more, page.next_cursor.is_some());
        if page.has_more {
            assert_eq!(page.items.len(), 4);
            cursor = page.next_cursor;
        } else {
            break;
        }
    }
    assert_eq!(visited, keys);
}

#[test]
fn limits_above_the_maximum_are_clamped() {
    let keys: Vec<u128> = (1..=150).map(|i| i as u128).collect();
    let t = table_of(&keys);
    let page = paginate(&t, None, 100000).unwrap();
    assert_eq!(page.items.len(), MAX_PAGE_SIZE as usize);
    assert!(page.has_more);
    assert_eq!(page.next_cursor, Some(MAX_PAGE_SIZE as u128));
}

#[test]
fn inserting_a_key_twice_keeps_one_copy() {
    let mut t = KeyTable::new();
    assert!(t.insert(7));
    assert!(t.insert(3));
    assert!(!t.insert(7));
    assert!(t.contains(7));
    assert!(t.contains(3));
    assert!(!t.contains(4));
    let all = scan_all(&t, 10);
    assert_eq!(all, vec![3, 7]);
}

#[test]
fn query_after_is_exclusive_and_bounded() {
    let t = table_of(&[5, 6, 7, 8, 9]);
    assert_eq!(t.query_after(Some(6), 2), vec![7, 8]);
    assert_eq!(t.query_after(Some(9), 2), Vec::<u128>::new());
    assert_eq!(t.query_after(None, 100), vec![5, 6, 7, 8, 9]);
}

#[test]
fn default_params_span_the_whole_domain() {
    let p = PaginationParams::new();
    assert_eq!(p.cursor(), None);
    assert_eq!(p.window(), (0, u128::MAX));
}

#[test]
fn explicit_params_carry_their_values() {
    let p = PaginationParams::from_values(42, 90);
    assert_eq!(p.cursor(), Some(42));
    assert_eq!(p.window(), (42, 90));
    // The raw UUIDs round-trip through the key order faithfully.
    assert_eq!(p.min_id.as_u128(), 42);
    assert_eq!(p.max_id.as_u128(), 90);
    assert!(p.min_id < p.max_id);
}
