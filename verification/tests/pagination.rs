use quizzical::responses::{effective_page, effective_size, PaginatedResponse};

#[test]
fn test_total_records_less_than_limit() {
    let names: Vec<String> = vec![
        "james".into(),
        "bond".into(),
        "harry".into(),
        "potter".into(),
        "ron".into(),
    ];
    let response = PaginatedResponse::new(names, 1u32, 5u32, 10u32);

    assert_eq!(response.page, 1);
    assert_eq!(response.size, 5);
    assert_eq!(response.page_count, 1);
    assert_eq!(response.last, true);
}

#[test]
fn test_total_records_equals_limit() {
    let names: Vec<String> = vec![
        "james".into(),
        "bond".into(),
        "harry".into(),
        "potter".into(),
        "ron".into(),
    ];
    let response = PaginatedResponse::new(names, 1u32, 5u32, 5u32);

    assert_eq!(response.page, 1);
    assert_eq!(response.size, 5);
    assert_eq!(response.page_count, 1);
    assert_eq!(response.last, true);
}

#[test]
fn test_total_records_more_than_limit() {
    let names: Vec<String> = vec![
        "james".into(),
        "bond".into(),
        "harry".into(),
        "potter".into(),
        "ron".into(),
    ];
    let response = PaginatedResponse::new(names, 1u32, 25u32, 10u32);

    assert_eq!(response.page, 1);
    assert_eq!(response.size, 5);
    assert_eq!(response.page_count, 3);
    assert_eq!(response.last, false);
}

#[test]
fn test_last_page_is_true_when_page_is_last() {
    let names: Vec<String> = vec![
        "james".into(),
        "bond".into(),
        "harry".into(),
        "potter".into(),
        "ron".into(),
    ];
    let response = PaginatedResponse::new(names, 3u32, 25u32, 10u32);

    assert_eq!(response.page, 3);
    assert_eq!(response.size, 5);
    assert_eq!(response.page_count, 3);
    assert_eq!(response.last, true);
}

#[test]
fn test_last_page_is_true_when_page_is_last2() {
    let names: Vec<String> = vec![
        "james".into(),
        "bond".into(),
        "harry".into(),
        "potter".into(),
        "ron".into(),
    ];
    let response = PaginatedResponse::new(names, 4u32, 25u32, 10u32);

    assert_eq!(response.page, 4);
    assert_eq!(response.size, 5);
    assert_eq!(response.page_count, 3);
    assert_eq!(response.last, true);
}

#[test]
fn test_page_count_is_exact_ceiling() {
    let r = PaginatedResponse::new(Vec::<String>::new(), 1, 25, 10);
    assert_eq!(r.page_count, 3);
    let r = PaginatedResponse::new(Vec::<String>::new(), 1, 5, 5);
    assert_eq!(r.page_count, 1);
    let r = PaginatedResponse::new(Vec::<String>::new(), 1, 0, 10);
    assert_eq!(r.page_count, 0);
    let r = PaginatedResponse::new(Vec::<String>::new(), 1, 30, 10);
    assert_eq!(r.page_count, 3);
    let r = PaginatedResponse::new(Vec::<String>::new(), 1, 31, 10);
    assert_eq!(r.page_count, 4);
}

#[test]
fn test_zero_limit_behaves_as_limit_one() {
    let a = PaginatedResponse::new(Vec::<u32>::new(), 2, 7, 0);
    let b = PaginatedResponse::new(Vec::<u32>::new(), 2, 7, 1);
    assert_eq!(a.page_count, b.page_count);
    assert_eq!(a.page_count, 7);
    assert_eq!(a.last, b.last);
}

#[test]
fn test_last_flag_edge_cases() {
    let at_end = PaginatedResponse::new(Vec::<u32>::new(), 3, 25, 10);
    assert!(at_end.last);
    let beyond_end = PaginatedResponse::new(Vec::<u32>::new(), 4, 25, 10);
    assert!(beyond_end.last);
    let before_end = PaginatedResponse::new(Vec::<u32>::new(), 1, 25, 10);
    assert!(!before_end.last);
}

#[test]
fn test_effective_page_and_size_defaults() {
    assert_eq!(effective_page(None), 1);
    assert_eq!(effective_page(Some(0)), 1);
    assert_eq!(effective_page(Some(-3)), 1);
    assert_eq!(effective_page(Some(7)), 7);
    assert_eq!(effective_size(None), 10);
    assert_eq!(effective_size(Some(0)), 10);
    assert_eq!(effective_size(Some(-3)), 10);
    assert_eq!(effective_size(Some(9)), 10);
    assert_eq!(effective_size(Some(25)), 25);
}
