use comic_notifier::errors::PipelineError;
use comic_notifier::store::{complete_record, find_subscribers, StoreItem};

fn item(id: &str, category: &str, email: Option<&str>) -> StoreItem {
    StoreItem {
        subscription_id: Some(id.to_string()),
        category: Some(category.to_string()),
        email: email.map(|e| e.to_string()),
    }
}

#[test]
fn matching_categories_only() {
    let items = vec![
        item("1", "x", Some("a@example.com")),
        item("2", "y", Some("b@example.com")),
        item("3", "x", Some("c@example.com")),
    ];
    let got = find_subscribers(&"x".to_string(), &items).unwrap();
    assert_eq!(got, vec!["a@example.com".to_string(), "c@example.com".to_string()]);
}

#[test]
fn no_match_is_empty_not_an_error() {
    let items = vec![
        item("1", "x", Some("a@example.com")),
        item("2", "y", Some("b@example.com")),
    ];
    let got = find_subscribers(&"z".to_string(), &items).unwrap();
    assert_eq!(got, Vec::<String>::new());
}

#[test]
fn empty_store_is_empty() {
    let got = find_subscribers(&"x".to_string(), &Vec::new()).unwrap();
    assert_eq!(got, Vec::<String>::new());
}

#[test]
fn missing_email_on_match_is_store_error() {
    let items = vec![
        item("1", "x", Some("a@example.com")),
        item("2", "x", None),
    ];
    let got = find_subscribers(&"x".to_string(), &items);
    assert!(matches!(got, Err(PipelineError::StoreError { .. })));
}

#[test]
fn missing_email_off_category_is_ignored() {
    let items = vec![
        item("1", "x", Some("a@example.com")),
        item("2", "y", None),
    ];
    let got = find_subscribers(&"x".to_string(), &items).unwrap();
    assert_eq!(got, vec!["a@example.com".to_string()]);
}

#[test]
fn missing_category_never_matches() {
    let items = vec![StoreItem {
        subscription_id: Some("1".to_string()),
        category: None,
        email: Some("a@example.com".to_string()),
    }];
    let got = find_subscribers(&"x".to_string(), &items).unwrap();
    assert_eq!(got, Vec::<String>::new());
}

#[test]
fn complete_record_needs_all_attributes() {
    let whole = complete_record(item("1", "x", Some("a@example.com"))).unwrap();
    assert_eq!(whole.subscription_id, "1");
    assert_eq!(whole.category, "x");
    assert_eq!(whole.email, "a@example.com");
    assert!(complete_record(item("1", "x", None)).is_none());
    assert!(complete_record(StoreItem {
        subscription_id: None,
        category: Some("x".to_string()),
        email: Some("a@example.com".to_string()),
    })
    .is_none());
}
