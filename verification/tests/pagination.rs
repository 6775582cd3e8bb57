use ize_service_api::utils::pagination::{calculate_meta, pagination_in_range, resolve_pagination, PaginationParams};

fn float_pages(total: i64, size: i64) -> i64 {
    (total as f64 / size as f64).ceil() as i64
}

#[test]
fn meta_echoes_its_inputs() {
    let meta = calculate_meta(25, 2, 10);
    assert_eq!(meta.total_items, 25);
    assert_eq!(meta.current_page, 2);
    assert_eq!(meta.page_size, 10);
    assert_eq!(meta.total_pages, 3);
}

#[test]
fn meta_exact_page_counts() {
    assert_eq!(calculate_meta(0, 1, 10).total_pages, 0);
    assert_eq!(calculate_meta(1, 1, 10).total_pages, 1);
    assert_eq!(calculate_meta(10, 1, 10).total_pages, 1);
    assert_eq!(calculate_meta(11, 1, 10).total_pages, 2);
    assert_eq!(calculate_meta(30, 1, 10).total_pages, 3);
}

#[test]
fn meta_zero_page_size() {
    assert_eq!(calculate_meta(5, 1, 0).total_pages, i64::MAX);
    assert_eq!(calculate_meta(0, 1, 0).total_pages, 0);
    assert_eq!(calculate_meta(-5, 1, 0).total_pages, i64::MIN);
}

#[test]
fn meta_negative_values() {
    assert_eq!(calculate_meta(-25, 1, 10).total_pages, -2);
    assert_eq!(calculate_meta(25, 1, -10).total_pages, -2);
    assert_eq!(calculate_meta(-25, 1, -10).total_pages, 3);
}

#[test]
fn meta_extremes_saturate() {
    assert_eq!(calculate_meta(i64::MIN, 1, -1).total_pages, i64::MAX);
    assert_eq!(calculate_meta(i64::MAX, 1, 1).total_pages, i64::MAX);
    assert_eq!(calculate_meta(i64::MIN, 1, 1).total_pages, i64::MIN);
}

#[test]
fn meta_matches_float_ceiling_on_small_values() {
    for total in -60i64..=60 {
        for size in -12i64..=12 {
            assert_eq!(calculate_meta(total, 1, size).total_pages, float_pages(total, size), "{} {}", total, size);
        }
    }
}

#[test]
fn pagination_defaults() {
    let params = PaginationParams { page: None, page_size: None };
    assert!(pagination_in_range(&params));
    assert_eq!(resolve_pagination(&params), (1, 10, 0));
}

#[test]
fn pagination_offset() {
    let params = PaginationParams { page: Some(3), page_size: Some(20) };
    assert_eq!(resolve_pagination(&params), (3, 20, 40));
    let params = PaginationParams { page: Some(0), page_size: None };
    assert_eq!(resolve_pagination(&params), (0, 10, -10));
}

#[test]
fn pagination_overflow_is_detected() {
    assert!(!pagination_in_range(&PaginationParams { page: Some(i64::MIN), page_size: None }));
    assert!(!pagination_in_range(&PaginationParams { page: Some(i64::MAX), page_size: Some(2) }));
    assert!(pagination_in_range(&PaginationParams { page: Some(2), page_size: Some(i64::MAX) }));
    assert!(!pagination_in_range(&PaginationParams { page: Some(3), page_size: Some(i64::MAX) }));
    assert!(!pagination_in_range(&PaginationParams { page: Some(0), page_size: Some(i64::MIN) }));
    assert!(pagination_in_range(&PaginationParams { page: Some(0), page_size: Some(-i64::MAX) }));
    assert!(pagination_in_range(&PaginationParams { page: Some(2), page_size: Some(i64::MIN) }));
    assert!(pagination_in_range(&PaginationParams { page: Some(1), page_size: Some(i64::MIN) }));
    assert!(!pagination_in_range(&PaginationParams { page: Some(3), page_size: Some(i64::MIN) }));
}

#[test]
fn pagination_check_matches_checked_arithmetic() {
    let values = [i64::MIN, i64::MIN + 1, -4611686018427387905, -4611686018427387904, -3, -2, -1, 0, 1, 2, 3, 4611686018427387904, i64::MAX - 1, i64::MAX];
    for &page in values.iter() {
        for &size in values.iter() {
            let expected = page.checked_sub(1).and_then(|p| p.checked_mul(size)).is_some();
            let params = PaginationParams { page: Some(page), page_size: Some(size) };
            assert_eq!(pagination_in_range(&params), expected, "{} {}", page, size);
        }
    }
}

#[test]
fn pages_cover_items_example() {
    let meta = calculate_meta(95, 1, 10);
    assert!((meta.total_pages - 1) * 10 < 95);
    assert!(meta.total_pages * 10 >= 95);
}
