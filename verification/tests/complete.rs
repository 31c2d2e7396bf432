use tinymist_query::complete::safe_str_slice;

#[test]
fn test_before() {
    const TEST_UTF8_STR: &str = "我们";
    for i in 0..=TEST_UTF8_STR.len() {
        for j in 0..=TEST_UTF8_STR.len() {
            let _s = std::hint::black_box(safe_str_slice(TEST_UTF8_STR, i, j));
        }
    }
}

#[test]
fn slice_moves_to_boundaries() {
    let s = "我们";
    assert_eq!(safe_str_slice(s, 0, 6), "我们");
    assert_eq!(safe_str_slice(s, 0, 3), "我");
    assert_eq!(safe_str_slice(s, 3, 6), "们");
    assert_eq!(safe_str_slice(s, 1, 6), "们");
    assert_eq!(safe_str_slice(s, 2, 6), "们");
    assert_eq!(safe_str_slice(s, 0, 5), "我");
    assert_eq!(safe_str_slice(s, 0, 4), "我");
    assert_eq!(safe_str_slice(s, 0, 2), "");
    assert_eq!(safe_str_slice(s, 1, 2), "");
    assert_eq!(safe_str_slice(s, 4, 5), "");
    assert_eq!(safe_str_slice(s, 6, 6), "");
}

#[test]
fn slice_tolerates_positions_behind_the_end() {
    assert_eq!(safe_str_slice("abc", 1, 100), "bc");
    assert_eq!(safe_str_slice("abc", 100, 2), "");
    assert_eq!(safe_str_slice("abc", 100, 200), "");
    assert_eq!(safe_str_slice("", 0, 0), "");
    assert_eq!(safe_str_slice("abc", 2, 1), "");
}
