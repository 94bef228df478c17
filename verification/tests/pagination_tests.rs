use staff::pagination::{compute_offset, make_pagination, resolve_page};
use staff::text::parse_nonneg_i32;

#[test]
fn offset_is_ten_per_page() {
    assert_eq!(compute_offset(0), 0);
    assert_eq!(compute_offset(1), 10);
    assert_eq!(compute_offset(5), 50);
    assert_eq!(compute_offset(123456), 1234560);
    assert_eq!(compute_offset(i32::MAX), 10 * i32::MAX as i64);
}

#[test]
fn missing_page_resolves_to_zero() {
    assert_eq!(resolve_page(&None), 0);
}

#[test]
fn negative_page_resolves_to_zero() {
    assert_eq!(resolve_page(&Some("-3".to_string())), 0);
    assert_eq!(resolve_page(&Some("-0".to_string())), 0);
    assert_eq!(resolve_page(&Some("-".to_string())), 0);
}

#[test]
fn unparsable_page_resolves_to_zero() {
    assert_eq!(resolve_page(&Some("abc".to_string())), 0);
    assert_eq!(resolve_page(&Some("".to_string())), 0);
    assert_eq!(resolve_page(&Some(" 5".to_string())), 0);
    assert_eq!(resolve_page(&Some("1e5".to_string())), 0);
    assert_eq!(resolve_page(&Some("12a".to_string())), 0);
    assert_eq!(resolve_page(&Some("+".to_string())), 0);
    assert_eq!(resolve_page(&Some("2147483648".to_string())), 0);
    assert_eq!(resolve_page(&Some("99999999999999999999".to_string())), 0);
}

#[test]
fn parsable_page_resolves_to_its_value() {
    assert_eq!(resolve_page(&Some("0".to_string())), 0);
    assert_eq!(resolve_page(&Some("7".to_string())), 7);
    assert_eq!(resolve_page(&Some("+12".to_string())), 12);
    assert_eq!(resolve_page(&Some("007".to_string())), 7);
    assert_eq!(resolve_page(&Some("2147483647".to_string())), i32::MAX);
}

#[test]
fn pagination_triple_is_page_and_neighbours() {
    let p = make_pagination(4);
    assert_eq!(p.page, 4);
    assert_eq!(p.next, 5);
    assert_eq!(p.prev, 3);
}

#[test]
fn pagination_at_page_zero_has_negative_prev() {
    let p = make_pagination(0);
    assert_eq!(p.page, 0);
    assert_eq!(p.next, 1);
    assert_eq!(p.prev, -1);
}

#[test]
fn nonneg_parse_accepts_plain_and_signed_digits() {
    assert_eq!(parse_nonneg_i32("0"), Some(0));
    assert_eq!(parse_nonneg_i32("42"), Some(42));
    assert_eq!(parse_nonneg_i32("+42"), Some(42));
    assert_eq!(parse_nonneg_i32("2147483647"), Some(i32::MAX));
}

#[test]
fn nonneg_parse_rejects_everything_else() {
    assert_eq!(parse_nonneg_i32(""), None);
    assert_eq!(parse_nonneg_i32("+"), None);
    assert_eq!(parse_nonneg_i32("-1"), None);
    assert_eq!(parse_nonneg_i32("4 2"), None);
    assert_eq!(parse_nonneg_i32("2147483648"), None);
    assert_eq!(parse_nonneg_i32("x"), None);
}
