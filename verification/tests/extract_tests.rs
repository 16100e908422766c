use comic_notifier::errors::PipelineError;
use comic_notifier::extract::extract;

const GOOD_PAGE: &str = r#"<html><body>
<div class="comic-list">
  <div class="comic-item-container"
       data-image="https://assets.example.com/strip-2023-01-05.gif"
       data-id="2023-01-05"
       data-date="Thursday January 05, 2023">
    <img src="x.gif"/>
  </div>
  <div class="comic-item-container"
       data-image="https://assets.example.com/strip-2023-01-04.gif"
       data-id="2023-01-04"
       data-date="Wednesday January 04, 2023"></div>
</div>
</body></html>"#;

#[test]
fn well_formed_page_yields_metadata() {
    let meta = extract(GOOD_PAGE).unwrap();
    assert_eq!(meta.asset_url, "https://assets.example.com/strip-2023-01-05.gif");
    assert_eq!(meta.release_code, "2023-01-05");
    assert_eq!(meta.display_date, "Thursday January 05, 2023");
}

#[test]
fn first_matching_element_wins() {
    let meta = extract(GOOD_PAGE).unwrap();
    assert_ne!(meta.release_code, "2023-01-04");
}

#[test]
fn release_code_shape_on_well_formed_page() {
    let meta = extract(GOOD_PAGE).unwrap();
    let code = meta.release_code.as_bytes();
    assert_eq!(code.len(), 10);
    for (i, b) in code.iter().enumerate() {
        if i == 4 || i == 7 {
            assert_eq!(*b, b'-');
        } else {
            assert!(b.is_ascii_digit());
        }
    }
    assert!(!meta.asset_url.is_empty());
}

#[test]
fn page_without_item_container_is_parse_error() {
    let page = "<html><body><div class=\"other\">nothing here</div></body></html>";
    let got = extract(page);
    assert!(matches!(got, Err(PipelineError::ParseError { .. })));
}

#[test]
fn item_container_missing_attribute_is_parse_error() {
    let page = r#"<html><body>
      <div class="comic-item-container" data-image="x.gif" data-id="2023-01-05"></div>
    </body></html>"#;
    let got = extract(page);
    assert!(matches!(got, Err(PipelineError::ParseError { .. })));
}

#[test]
fn empty_page_is_parse_error() {
    let got = extract("");
    assert!(matches!(got, Err(PipelineError::ParseError { .. })));
}
