use comic_notifier::response::CustomOutput;

#[test]
fn new_wraps_body_with_fixed_envelope() {
    let out = CustomOutput::new("{\"ok\":true}".to_string());
    assert!(!out.is_base64_encoded);
    assert_eq!(out.status_code, 200);
    assert_eq!(out.body, "{\"ok\":true}");
    assert_eq!(out.headers, vec![("Access-Control-Allow-Origin", "*")]);
}
