use hotel_ink::guest::is_valid_id;
use hotel_ink::pool::{contains_room, full_pool, is_distinct, is_subset, remove_room};
use hotel_ink::text::is_blank;
use hotel_ink::timestamp::{convert_timestamp, local_seconds, rendered_or_epoch};

#[test]
fn blank_texts() {
    assert!(is_blank(""));
    assert!(is_blank("   "));
    assert!(is_blank("\t\n\r "));
    assert!(is_blank("\u{3000}\u{a0}"));
    assert!(!is_blank(" a "));
    assert!(!is_blank("a"));
    assert!(!is_blank("  a@x.com"));
}

#[test]
fn local_seconds_exact_values() {
    assert_eq!(local_seconds(0), -10_800);
    assert_eq!(local_seconds(999), -10_800);
    assert_eq!(local_seconds(1_000), -10_799);
    assert_eq!(local_seconds(10_800_000), 0);
    assert_eq!(local_seconds(1_700_000_000_123), 1_699_989_200);
    assert_eq!(local_seconds(u64::MAX), 18_446_744_073_709_551 - 10_800);
}

#[test]
fn rendered_instants() {
    assert_eq!(convert_timestamp(1_700_000_000_000), "2023-11-14T19:13:20+00:00");
    assert_eq!(convert_timestamp(1_700_000_000_999), "2023-11-14T19:13:20+00:00");
    assert_eq!(convert_timestamp(0), "1969-12-31T21:00:00+00:00");
    assert_eq!(convert_timestamp(10_800_000), "1970-01-01T00:00:00+00:00");
    assert_eq!(convert_timestamp(10_801_000), "1970-01-01T00:00:01+00:00");
}

#[test]
fn instant_beyond_the_calendar_shows_the_epoch() {
    assert_eq!(convert_timestamp(u64::MAX), "1970-01-01T00:00:00+00:00");
}

#[test]
fn valid_identifiers() {
    assert!(!is_valid_id(99_999_999));
    assert!(is_valid_id(100_000_000));
    assert!(is_valid_id(999_999_999));
    assert!(!is_valid_id(1_000_000_000));
}

#[test]
fn pool_operations() {
    let mut pool = full_pool();
    assert_eq!(pool.len(), 20);
    assert!(contains_room(&pool, 1));
    assert!(contains_room(&pool, 20));
    assert!(!contains_room(&pool, 0));
    assert!(!contains_room(&pool, 21));
    remove_room(&mut pool, 3);
    assert!(!contains_room(&pool, 3));
    assert_eq!(pool.len(), 19);
    assert_eq!(&pool[..4], &[1, 2, 4, 5]);
    remove_room(&mut pool, 3);
    assert_eq!(pool.len(), 19);
    let mut twice = vec![4u32, 7, 4, 9];
    remove_room(&mut twice, 4);
    assert_eq!(twice, vec![7, 9]);
}

#[test]
fn distinct_and_subset_pools() {
    assert!(is_distinct(&vec![]));
    assert!(is_distinct(&vec![3, 1, 2]));
    assert!(!is_distinct(&vec![3, 1, 3]));
    assert!(is_subset(&vec![], &vec![1]));
    assert!(is_subset(&vec![2, 1], &vec![1, 2, 3]));
    assert!(!is_subset(&vec![2, 4], &vec![1, 2, 3]));
}

#[test]
fn rendered_text_is_shown_and_the_epoch_stands_in() {
    let epoch = "1970-01-01T00:00:00+00:00".to_string();
    assert_eq!(
        rendered_or_epoch(Some("2023-11-14T19:13:20+00:00".to_string()), epoch.clone()),
        "2023-11-14T19:13:20+00:00"
    );
    assert_eq!(rendered_or_epoch(None, epoch.clone()), "1970-01-01T00:00:00+00:00");
    assert_eq!(rendered_or_epoch(Some(String::new()), epoch), "");
}
