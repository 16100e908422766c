use comic_notifier::pipeline::{step, Action, Config, Event, Outcome, RunState};
use comic_notifier::store::StoreItem;

const PAGE: &str = r#"<html><body>
  <div class="comic-item-container"
       data-image="https://assets.example.com/strip-2023-01-05.gif"
       data-id="2023-01-05"
       data-date="Thursday January 05, 2023"></div>
</body></html>"#;

fn config() -> Config {
    Config {
        source_url: "https://comics.example.com".to_string(),
        sender: "sender@example.com".to_string(),
        category: "dilbert".to_string(),
    }
}

fn item(id: &str, category: &str, email: &str) -> StoreItem {
    StoreItem {
        subscription_id: Some(id.to_string()),
        category: Some(category.to_string()),
        email: Some(email.to_string()),
    }
}

#[test]
fn happy_run_with_one_relay_failure() {
    let config = config();
    let asset = b"GIF89a pretend image".to_vec();

    let (state, action) = step(&config, RunState::Starting, Event::Start);
    assert!(matches!(&action, Action::FetchPage { url } if url == "https://comics.example.com"));

    let (state, action) = step(
        &config,
        state,
        Event::PageFetched { result: Ok(PAGE.to_string()) },
    );
    assert!(matches!(
        &action,
        Action::FetchAsset { url } if url == "https://assets.example.com/strip-2023-01-05.gif"
    ));

    let (state, action) = step(
        &config,
        state,
        Event::AssetFetched { result: Ok(asset.clone()) },
    );
    assert!(matches!(&action, Action::QueryStore { category } if category == "dilbert"));

    let records = vec![
        item("1", "dilbert", "a@example.com"),
        item("2", "other", "x@example.com"),
        item("3", "dilbert", "b@example.com"),
        item("4", "dilbert", "c@example.com"),
    ];
    let (mut state, mut action) = step(
        &config,
        state,
        Event::StoreScanned { result: Ok(records) },
    );

    // Drive the notify phase: the relay fails for the second recipient only.
    let mut sent: Vec<String> = Vec::new();
    let mut first_message: Option<Vec<u8>> = None;
    loop {
        match action {
            Action::Proceed => {
                let r = step(&config, state, Event::Advance);
                state = r.0;
                action = r.1;
            },
            Action::Send { recipient, message } => {
                if first_message.is_none() {
                    first_message = Some(message);
                }
                let outcome = if recipient == "b@example.com" {
                    Err("relay refused the message".to_string())
                } else {
                    Ok(())
                };
                sent.push(recipient);
                let r = step(&config, state, Event::SendCompleted { result: outcome });
                state = r.0;
                action = r.1;
            },
            Action::Stop => break,
            _ => panic!("unexpected action in the notify phase"),
        }
    }

    // All three matching recipients were attempted, in store order.
    assert_eq!(
        sent,
        vec![
            "a@example.com".to_string(),
            "b@example.com".to_string(),
            "c@example.com".to_string()
        ]
    );

    // The submitted message carries the subject and the attachment.
    let msg = String::from_utf8(first_message.unwrap()).unwrap();
    assert!(msg.contains("Subject: Dilbert for 5.1.2023\r\n"));
    assert!(msg.contains("To: a@example.com\r\n"));
    assert!(msg.contains("From: sender@example.com\r\n"));

    // The run ends Done with one result per recipient and exactly one failure.
    match state {
        RunState::Done { results } => {
            assert_eq!(results.len(), 3);
            assert_eq!(results[0].recipient, "a@example.com");
            assert_eq!(results[1].recipient, "b@example.com");
            assert_eq!(results[2].recipient, "c@example.com");
            let failures: Vec<usize> = results
                .iter()
                .enumerate()
                .filter(|(_, r)| matches!(r.outcome, Outcome::Failure { .. }))
                .map(|(i, _)| i)
                .collect();
            assert_eq!(failures, vec![1]);
        },
        _ => panic!("the run did not end in Done"),
    }
}

#[test]
fn store_error_means_no_notification() {
    let config = config();
    let state = RunState::Starting;
    let (state, _) = step(&config, state, Event::Start);
    let (state, _) = step(&config, state, Event::PageFetched { result: Ok(PAGE.to_string()) });
    let (state, _) = step(&config, state, Event::AssetFetched { result: Ok(b"gif".to_vec()) });
    let (state, action) = step(
        &config,
        state,
        Event::StoreScanned { result: Err("store unreachable".to_string()) },
    );
    assert!(matches!(action, Action::Stop));
    assert!(matches!(
        state,
        RunState::Aborted { error: comic_notifier::errors::PipelineError::StoreError { .. } }
    ));
}

#[test]
fn malformed_record_aborts_before_notifying() {
    let config = config();
    let (state, _) = step(&config, RunState::Starting, Event::Start);
    let (state, _) = step(&config, state, Event::PageFetched { result: Ok(PAGE.to_string()) });
    let (state, _) = step(&config, state, Event::AssetFetched { result: Ok(b"gif".to_vec()) });
    let records = vec![StoreItem {
        subscription_id: Some("1".to_string()),
        category: Some("dilbert".to_string()),
        email: None,
    }];
    let (state, action) = step(&config, state, Event::StoreScanned { result: Ok(records) });
    assert!(matches!(action, Action::Stop));
    assert!(matches!(
        state,
        RunState::Aborted { error: comic_notifier::errors::PipelineError::StoreError { .. } }
    ));
}

#[test]
fn page_fetch_failure_aborts() {
    let config = config();
    let (state, _) = step(&config, RunState::Starting, Event::Start);
    let (state, action) = step(
        &config,
        state,
        Event::PageFetched { result: Err("connection refused".to_string()) },
    );
    assert!(matches!(action, Action::Stop));
    assert!(matches!(
        state,
        RunState::Aborted { error: comic_notifier::errors::PipelineError::FetchError { .. } }
    ));
}

#[test]
fn parse_failure_fetches_nothing_more() {
    let config = config();
    let (state, _) = step(&config, RunState::Starting, Event::Start);
    let page = "<html><body>no container here</body></html>".to_string();
    let (state, action) = step(&config, state, Event::PageFetched { result: Ok(page) });
    assert!(matches!(action, Action::Stop));
    assert!(matches!(
        state,
        RunState::Aborted { error: comic_notifier::errors::PipelineError::ParseError { .. } }
    ));
}

#[test]
fn malformed_release_code_aborts() {
    let config = config();
    let page = r#"<html><body>
      <div class="comic-item-container" data-image="x.gif" data-id="not-a-date!"
           data-date="someday"></div>
    </body></html>"#
        .to_string();
    let (state, _) = step(&config, RunState::Starting, Event::Start);
    let (state, _) = step(&config, state, Event::PageFetched { result: Ok(page) });
    let (state, action) = step(&config, state, Event::AssetFetched { result: Ok(b"gif".to_vec()) });
    assert!(matches!(action, Action::Stop));
    assert!(matches!(
        state,
        RunState::Aborted { error: comic_notifier::errors::PipelineError::ParseError { .. } }
    ));
}

#[test]
fn no_recipients_means_done_with_no_results() {
    let config = config();
    let (state, _) = step(&config, RunState::Starting, Event::Start);
    let (state, _) = step(&config, state, Event::PageFetched { result: Ok(PAGE.to_string()) });
    let (state, _) = step(&config, state, Event::AssetFetched { result: Ok(b"gif".to_vec()) });
    let (state, action) = step(&config, state, Event::StoreScanned { result: Ok(Vec::new()) });
    assert!(matches!(action, Action::Proceed));
    let (state, action) = step(&config, state, Event::Advance);
    assert!(matches!(action, Action::Stop));
    match state {
        RunState::Done { results } => assert!(results.is_empty()),
        _ => panic!("the run did not end in Done"),
    }
}

#[test]
fn unsendable_recipient_is_recorded_and_skipped() {
    let config = config();
    let (state, _) = step(&config, RunState::Starting, Event::Start);
    let (state, _) = step(&config, state, Event::PageFetched { result: Ok(PAGE.to_string()) });
    let (state, _) = step(&config, state, Event::AssetFetched { result: Ok(b"gif".to_vec()) });
    let records = vec![
        item("1", "dilbert", "evil\r\nBcc: other@example.com"),
        item("2", "dilbert", "fine@example.com"),
    ];
    let (mut state, mut action) = step(&config, state, Event::StoreScanned { result: Ok(records) });
    let mut sent: Vec<String> = Vec::new();
    loop {
        match action {
            Action::Proceed => {
                let r = step(&config, state, Event::Advance);
                state = r.0;
                action = r.1;
            },
            Action::Send { recipient, .. } => {
                sent.push(recipient);
                let r = step(&config, state, Event::SendCompleted { result: Ok(()) });
                state = r.0;
                action = r.1;
            },
            Action::Stop => break,
            _ => panic!("unexpected action in the notify phase"),
        }
    }
    // Only the clean address was submitted; both got a result.
    assert_eq!(sent, vec!["fine@example.com".to_string()]);
    match state {
        RunState::Done { results } => {
            assert_eq!(results.len(), 2);
            assert!(matches!(results[0].outcome, Outcome::Failure { .. }));
            assert!(matches!(results[1].outcome, Outcome::Success));
        },
        _ => panic!("the run did not end in Done"),
    }
}
