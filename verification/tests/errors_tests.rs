use comic_notifier::errors::PipelineError;

#[test]
fn message_returns_the_detail() {
    let fetch = PipelineError::FetchError { detail: "connection refused".to_string() };
    assert_eq!(fetch.message(), "connection refused");
    let parse = PipelineError::ParseError { detail: "no container".to_string() };
    assert_eq!(parse.message(), "no container");
    let store = PipelineError::StoreError { detail: "unreachable".to_string() };
    assert_eq!(store.message(), "unreachable");
}
