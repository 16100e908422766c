use comic_notifier::message::{build_message, read_attachment, subject_line};

fn bytes(s: &str) -> Vec<u8> {
    s.as_bytes().to_vec()
}

#[test]
fn subject_line_exact() {
    assert_eq!(subject_line(5, 1, 2023), bytes("Dilbert for 5.1.2023"));
    assert_eq!(subject_line(31, 12, 1999), bytes("Dilbert for 31.12.1999"));
    assert_eq!(subject_line(0, 0, 0), bytes("Dilbert for 0.0.0"));
}

#[test]
fn message_layout_exact() {
    let msg = build_message(
        &bytes("to@example.com"),
        &bytes("from@example.com"),
        &bytes("hello"),
        &bytes("GIF!"),
    )
    .unwrap();
    let expected = "To: to@example.com\r\nFrom: from@example.com\r\nSubject: hello\r\n\
                    MIME-Version: 1.0\r\nContent-Type: image/gif\r\n\
                    Content-Disposition: inline\r\nContent-Transfer-Encoding: base64\r\n\
                    \r\nR0lGIQ==";
    assert_eq!(String::from_utf8(msg).unwrap(), expected);
}

#[test]
fn message_round_trip_recovers_attachment() {
    let payloads: Vec<Vec<u8>> = vec![
        Vec::new(),
        b"GIF89a little image".to_vec(),
        (0u8..=255u8).collect(),
    ];
    for payload in payloads {
        let msg = build_message(
            &bytes("to@example.com"),
            &bytes("from@example.com"),
            &bytes("a subject"),
            &payload,
        )
        .unwrap();
        assert_eq!(read_attachment(&msg), Some(payload));
    }
}

#[test]
fn header_field_with_line_break_is_refused() {
    let err = build_message(
        &bytes("to@example.com\r\nBcc: sneaky@example.com"),
        &bytes("from@example.com"),
        &bytes("hello"),
        &bytes("data"),
    );
    assert!(err.is_err());
    let err = build_message(
        &bytes("to@example.com"),
        &bytes("from@example.com"),
        &bytes("subject\nwith break"),
        &bytes("data"),
    );
    assert!(err.is_err());
}

#[test]
fn read_attachment_without_blank_line_is_none() {
    assert_eq!(read_attachment(&bytes("To: x\r\nno body here")), None);
    assert_eq!(read_attachment(&Vec::new()), None);
}

#[test]
fn read_attachment_with_undecodable_body_is_none() {
    assert_eq!(read_attachment(&bytes("To: x\r\n\r\nnot base64!")), None);
}
