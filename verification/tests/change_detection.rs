use ferrocopy::change_detection::{ChangeDetector, ListChangeDetector};

#[test]
fn test_detects_new_key() {
    let mut d = ChangeDetector::new();
    assert!(d.changed("files", 3u64));
}

#[test]
fn test_same_value_no_change() {
    let mut d = ChangeDetector::new();
    d.changed("files", 3u64);
    assert!(!d.changed("files", 3u64));
}

#[test]
fn test_different_value_detected() {
    let mut d = ChangeDetector::new();
    d.changed("files", 3u64);
    assert!(d.changed("files", 5u64));
}

#[test]
fn test_multiple_keys_independent() {
    let mut d = ChangeDetector::new();
    d.changed("a", 1u64);
    d.changed("b", 2u64);
    assert!(!d.changed("a", 1u64));
    assert!(d.changed("b", 99u64));
}

#[test]
fn test_list_change_detection() {
    let mut d = ListChangeDetector::<&str>::new();
    assert!(d.changed(&["a", "b"]));
    assert!(!d.changed(&["a", "b"]));
    assert!(d.changed(&["a", "c"]));
}

#[test]
fn test_list_different_length() {
    let mut d = ListChangeDetector::<&str>::new();
    d.changed(&["a", "b"]);
    assert!(d.changed(&["a"]));
}

#[test]
fn test_empty_then_non_empty() {
    let mut d = ListChangeDetector::<&str>::new();
    assert!(!d.changed(&[] as &[&str]));
    assert!(d.changed(&["x"]));
}

#[test]
fn repeated_value_reports_no_change_after_an_update() {
    let mut d = ChangeDetector::new();
    assert!(d.changed("speed", 10u64));
    assert!(d.changed("speed", 20u64));
    assert!(!d.changed("speed", 20u64));
    assert!(d.changed("speed", 10u64));
}

#[test]
fn update_under_one_key_leaves_other_key_alone() {
    let mut d = ChangeDetector::new();
    d.changed("a", 1u64);
    d.changed("b", 1u64);
    d.changed("a", 7u64);
    assert!(!d.changed("b", 1u64));
}

#[test]
fn list_seen_twice_is_unchanged_the_second_time() {
    let mut d = ListChangeDetector::<u32>::new();
    assert!(d.changed(&[1, 2, 3]));
    assert!(!d.changed(&[1, 2, 3]));
    assert!(d.changed(&[1, 2, 4]));
    assert!(!d.changed(&[1, 2, 4]));
}

#[test]
fn result_follows_the_last_value_under_the_key() {
    let mut d: ChangeDetector<u64> = ChangeDetector::new();
    assert!(d.changed("a", 1));
    assert!(d.changed("b", 2));
    assert!(d.changed("a", 3));
    assert!(d.changed("b", 1));
    assert!(!d.changed("a", 3));
    assert!(d.changed("a", 1));
    assert!(!d.changed("b", 1));
}
