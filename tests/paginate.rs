use bichon::error::ErrorCode;
use bichon::paginate::{paginate_vec, validate_pagination_params};

fn items(n: u64) -> Vec<String> {
    (0..n).map(|i| format!("item_{}", i)).collect()
}

#[test]
fn pagination_boundary() {
    let all = items(101);
    let page_eleven = paginate_vec(&all, Some(11), Some(10)).unwrap();
    assert_eq!(page_eleven.items, vec!["item_100".to_string()]);
    assert_eq!(page_eleven.total_pages, Some(11));
    assert_eq!(page_eleven.total_items, 101);
    let page_twelve = paginate_vec(&all, Some(12), Some(10)).unwrap();
    assert!(page_twelve.items.is_empty());
    assert_eq!(page_twelve.total_pages, Some(11));
}

#[test]
fn pagination_rejects_zero() {
    let all = items(3);
    assert_eq!(paginate_vec(&all, Some(0), Some(10)).unwrap_err().code, ErrorCode::InvalidParameter);
    assert_eq!(paginate_vec(&all, Some(1), Some(0)).unwrap_err().code, ErrorCode::InvalidParameter);
    assert_eq!(paginate_vec(&all, Some(0), None).unwrap_err().code, ErrorCode::InvalidParameter);
    assert_eq!(paginate_vec(&all, None, Some(0)).unwrap_err().code, ErrorCode::InvalidParameter);
}

#[test]
fn pagination_slices_and_counts() {
    let all = items(25);
    let p = paginate_vec(&all, Some(2), Some(10)).unwrap();
    assert_eq!(p.items, items(25)[10..20].to_vec());
    assert_eq!(p.total_pages, Some(3));
    let last = paginate_vec(&all, Some(3), Some(10)).unwrap();
    assert_eq!(last.items.len(), 5);
    assert_eq!(last.items[0], "item_20");
    let empty: Vec<u64> = Vec::new();
    let none = paginate_vec(&empty, Some(1), Some(10)).unwrap();
    assert_eq!(none.total_pages, Some(0));
    assert!(none.items.is_empty());
}

#[test]
fn pagination_without_parameters_returns_everything() {
    let all = items(4);
    let p = paginate_vec(&all, None, None).unwrap();
    assert_eq!(p.items, all);
    assert_eq!(p.total_pages, None);
    let q = paginate_vec(&all, Some(2), None).unwrap();
    assert_eq!(q.items.len(), 4);
    assert_eq!(q.page, Some(2));
}

#[test]
fn pagination_huge_page_is_empty() {
    let all = items(5);
    let p = paginate_vec(&all, Some(u64::MAX), Some(u64::MAX)).unwrap();
    assert!(p.items.is_empty());
    assert_eq!(p.total_pages, Some(1));
}

#[test]
fn listing_parameters_are_bounded() {
    assert!(validate_pagination_params(1, 500).is_ok());
    assert_eq!(validate_pagination_params(0, 10).unwrap_err().code, ErrorCode::InvalidParameter);
    assert_eq!(validate_pagination_params(1, 0).unwrap_err().code, ErrorCode::InvalidParameter);
    assert_eq!(validate_pagination_params(1, 501).unwrap_err().code, ErrorCode::InvalidParameter);
}
