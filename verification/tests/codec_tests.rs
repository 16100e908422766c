use comic_notifier::codec::{decode, encode};

fn enc(data: &[u8]) -> Vec<u8> {
    encode(&data.to_vec())
}

#[test]
fn encode_empty() {
    assert_eq!(enc(b""), b"".to_vec());
}

#[test]
fn encode_rfc_vectors() {
    assert_eq!(enc(b"f"), b"Zg==".to_vec());
    assert_eq!(enc(b"fo"), b"Zm8=".to_vec());
    assert_eq!(enc(b"foo"), b"Zm9v".to_vec());
    assert_eq!(enc(b"foob"), b"Zm9vYg==".to_vec());
    assert_eq!(enc(b"fooba"), b"Zm9vYmE=".to_vec());
    assert_eq!(enc(b"foobar"), b"Zm9vYmFy".to_vec());
}

#[test]
fn decode_rfc_vectors() {
    assert_eq!(decode(&b"".to_vec()), Some(b"".to_vec()));
    assert_eq!(decode(&b"Zg==".to_vec()), Some(b"f".to_vec()));
    assert_eq!(decode(&b"Zm8=".to_vec()), Some(b"fo".to_vec()));
    assert_eq!(decode(&b"Zm9vYmFy".to_vec()), Some(b"foobar".to_vec()));
}

#[test]
fn decode_rejects_bad_input() {
    assert_eq!(decode(&b"A".to_vec()), None);
    assert_eq!(decode(&b"AAA".to_vec()), None);
    assert_eq!(decode(&b"AA=A".to_vec()), None);
    assert_eq!(decode(&b"AA!=".to_vec()), None);
    assert_eq!(decode(&b"====".to_vec()), None);
    // non-canonical padding: stray bits below the used ones
    assert_eq!(decode(&b"AB==".to_vec()), None);
    assert_eq!(decode(&b"AAB=".to_vec()), None);
    // padding before the final group
    assert_eq!(decode(&b"AA==AAAA".to_vec()), None);
}

#[test]
fn round_trip_all_byte_values() {
    let data: Vec<u8> = (0u8..=255u8).collect();
    for len in 0..data.len() {
        let slice = data[..len].to_vec();
        assert_eq!(decode(&encode(&slice)), Some(slice));
    }
}

#[test]
fn encode_matches_reference_implementation() {
    let samples: Vec<Vec<u8>> = vec![
        b"".to_vec(),
        b"f".to_vec(),
        b"hello world".to_vec(),
        (0u8..=255u8).collect(),
        vec![0u8; 57],
        vec![255u8; 100],
    ];
    for data in samples {
        let ours = String::from_utf8(encode(&data)).unwrap();
        #[allow(deprecated)]
        let reference = base64::encode(&data);
        assert_eq!(ours, reference);
    }
}

#[test]
fn decode_matches_reference_implementation() {
    let inputs = vec!["Zm9vYmFy", "AQID", "/+/+", "0123", "abcd"];
    for text in inputs {
        let ours = decode(&text.as_bytes().to_vec());
        #[allow(deprecated)]
        let reference = base64::decode(text).ok();
        assert_eq!(ours, reference);
    }
}
