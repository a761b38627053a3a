use job_alerts::job::Job;
use job_alerts::snapshot::{decode_snapshot, encode_snapshot, load_snapshot, StorageError};

fn posting(title: &str) -> Job {
    Job {
        title: title.to_string(),
        company: "Acme".to_string(),
        location: "Perth, WA".to_string(),
        link: "https://example.com/a".to_string(),
        logo_url: "https://example.com/logo.png".to_string(),
        posted: "2 days ago".to_string(),
    }
}

#[test]
fn round_trip_empty_snapshot() {
    let bytes = encode_snapshot(&[]);
    assert!(bytes.is_empty());
    assert_eq!(decode_snapshot(&bytes), Ok(Vec::new()));
}

#[test]
fn round_trip_keeps_order_and_text() {
    let mut odd = posting("Ingénieur – systèmes 🚀");
    odd.company = String::new();
    odd.location = "  spaced  \n".to_string();
    let jobs = vec![posting("b"), odd, posting("a"), posting("b")];
    let bytes = encode_snapshot(&jobs);
    assert_eq!(decode_snapshot(&bytes), Ok(jobs.clone()));
    assert_eq!(load_snapshot(Some(&bytes)), Ok(jobs));
}

#[test]
fn stored_form_of_one_field_layout() {
    let mut j = posting("ab");
    j.company = String::new();
    j.location = String::new();
    j.link = String::new();
    j.logo_url = String::new();
    j.posted = "é".to_string();
    let bytes = encode_snapshot(&[j]);
    let mut expected = vec![2, 0, 0, 0, 0, 0, 0, 0, b'a', b'b'];
    for _ in 0..4 {
        expected.extend_from_slice(&[0; 8]);
    }
    expected.extend_from_slice(&[2, 0, 0, 0, 0, 0, 0, 0, 0xc3, 0xa9]);
    assert_eq!(bytes, expected);
}

#[test]
fn absent_snapshot_loads_empty() {
    assert_eq!(load_snapshot(None), Ok(Vec::new()));
}

#[test]
fn truncated_snapshot_is_corrupt() {
    let bytes = encode_snapshot(&[posting("a")]);
    for cut in 1..bytes.len() {
        assert_eq!(decode_snapshot(&bytes[..cut]), Err(StorageError::Corrupt));
    }
}

#[test]
fn trailing_garbage_is_corrupt() {
    let mut bytes = encode_snapshot(&[posting("a")]);
    bytes.push(7);
    assert_eq!(load_snapshot(Some(&bytes)), Err(StorageError::Corrupt));
}

#[test]
fn invalid_utf8_is_corrupt() {
    let mut bytes = vec![1, 0, 0, 0, 0, 0, 0, 0, 0xff];
    for _ in 0..5 {
        bytes.extend_from_slice(&[0; 8]);
    }
    assert_eq!(decode_snapshot(&bytes), Err(StorageError::Corrupt));
    bytes[8] = b'x';
    assert_eq!(decode_snapshot(&bytes).unwrap()[0].title, "x");
}

#[test]
fn huge_length_prefix_is_corrupt() {
    let bytes = vec![0xff; 16];
    assert_eq!(decode_snapshot(&bytes), Err(StorageError::Corrupt));
}
