use call_screening::listing::{select_first, ListingKey};

fn key(rank: i64, id: u128, slot: usize) -> ListingKey {
    ListingKey { rank, id, slot }
}

fn by_sorting(keys: &[ListingKey], limit: Option<usize>) -> Vec<ListingKey> {
    let mut sorted = keys.to_vec();
    sorted.sort_by_key(|k| (k.rank, k.id));
    if let Some(entries) = limit {
        sorted.truncate(entries);
    }
    sorted
}

#[test]
fn keys_are_listed_by_rank_and_then_by_identifier() {
    let keys = vec![key(3, 9, 0), key(1, 5, 1), key(3, 2, 2), key(-7, 8, 3), key(1, 4, 4)];
    let listed = select_first(&keys, None);
    assert_eq!(listed, vec![key(-7, 8, 3), key(1, 4, 4), key(1, 5, 1), key(3, 2, 2), key(3, 9, 0)]);
    assert_eq!(select_first(&keys, Some(2)), vec![key(-7, 8, 3), key(1, 4, 4)]);
    assert_eq!(select_first(&keys, Some(0)), Vec::<ListingKey>::new());
    assert_eq!(select_first(&keys, Some(9)).len(), 5);
    assert_eq!(select_first(&Vec::new(), Some(3)), Vec::<ListingKey>::new());
    assert!(key(1, 4, 0).is_before(&key(1, 5, 0)));
    assert!(!key(1, 5, 0).is_before(&key(1, 5, 0)));
    assert!(key(i64::MIN, 5, 0).is_before(&key(i64::MAX, 1, 0)));
}

#[test]
fn a_listing_is_what_sorting_and_cutting_gives() {
    let mut state: u64 = 42;
    for round in 0..300usize {
        let mut keys = Vec::new();
        let count = round % 17;
        for slot in 0..count {
            state = state.wrapping_mul(6_364_136_223_846_793_005).wrapping_add(1_442_695_040_888_963_407);
            keys.push(key(((state >> 33) % 5) as i64 - 2, slot as u128 * 7 % 17, slot));
        }
        let mut ids: Vec<u128> = keys.iter().map(|k| k.id).collect();
        ids.sort();
        ids.dedup();
        if ids.len() != keys.len() {
            continue;
        }
        for limit in [None, Some(0), Some(1), Some(5), Some(16), Some(40)] {
            assert_eq!(select_first(&keys, limit), by_sorting(&keys, limit));
        }
    }
}
