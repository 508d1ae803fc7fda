use ferrocopy::color_scheme::{from_rgb, get_scheme, scheme_index, schemes};

#[test]
fn test_scheme_count() {
    assert_eq!(schemes().len(), 5);
}

#[test]
fn test_get_scheme() {
    let scheme = get_scheme(0).unwrap();
    assert_eq!(scheme.name, "Deep Space");
}

#[test]
fn test_scheme_index() {
    assert_eq!(scheme_index("Aurora"), Some(3));
    assert_eq!(scheme_index("Unknown"), None);
}

#[test]
fn test_all_schemes_have_unique_names() {
    let all = schemes();
    let mut names: Vec<&str> = all.iter().map(|s| s.name).collect();
    names.sort();
    names.dedup();
    assert_eq!(names.len(), all.len());
}

#[test]
fn scheme_past_the_end_is_none() {
    assert!(get_scheme(5).is_none());
    assert_eq!(get_scheme(4).unwrap().name, "Blood Moon");
}

#[test]
fn scheme_colours_match_the_presets() {
    let all = schemes();
    assert_eq!(all[0].bg, from_rgb(10, 10, 20));
    assert_eq!(all[0].accent, from_rgb(100, 180, 255));
    assert_eq!(all[3].accent, from_rgb(50, 255, 150));
    assert_eq!(all[4].error, from_rgb(255, 0, 0));
}

#[test]
fn scheme_index_is_case_sensitive() {
    assert_eq!(scheme_index("aurora"), None);
    assert_eq!(scheme_index("Deep Space"), Some(0));
    assert_eq!(scheme_index("Blood Moon"), Some(4));
}
