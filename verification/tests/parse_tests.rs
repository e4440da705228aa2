use mailsync::flag::{Flag, Flags};
use mailsync::maildir::{decode_folder, encode_folder, maildir_folder_dirname};
use mailsync::numstr::{i64_to_string, u64_to_string};
use mailsync::parse::{envelope_from_headers, envelope_from_imap_parts, EnvelopeParseError};

fn headers(pairs: &[(&str, &str)]) -> Vec<(String, String)> {
    pairs.iter().map(|(k, v)| (k.to_string(), v.to_string())).collect()
}

#[test]
fn maildir_envelope_reads_recognized_headers() {
    let envelope = envelope_from_headers(
        &String::from("mid-1"),
        Flags::from_iter(vec![Flag::Seen]),
        &headers(&[
            ("Subject", "subject"),
            ("From", "Jane Doe <from@localhost>"),
            ("Date", "Thu, 10 Nov 2022 14:26:33 +0000"),
            ("Message-ID", "<m@x>"),
            ("X-Other", "ignored"),
        ]),
    )
    .unwrap();
    assert_eq!(envelope.internal_id, "mid-1");
    assert_eq!(envelope.id, "mid-1");
    assert_eq!(envelope.subject, "subject");
    assert_eq!(envelope.from.name.as_deref(), Some("Jane Doe"));
    assert_eq!(envelope.from.addr, "from@localhost");
    assert_eq!(envelope.date, 1668090393);
    assert_eq!(envelope.message_id, "<m@x>");
    assert_eq!(envelope.flags, Flags::from_iter(vec![Flag::Seen]));
}

#[test]
fn maildir_envelope_header_names_ignore_case() {
    let envelope = envelope_from_headers(
        &String::from("mid-2"),
        Flags::default(),
        &headers(&[("SUBJECT", "loud"), ("from", "a@b")]),
    )
    .unwrap();
    assert_eq!(envelope.subject, "loud");
    assert_eq!(envelope.from.addr, "a@b");
}

#[test]
fn maildir_envelope_without_sender_fails() {
    let err = envelope_from_headers(
        &String::from("mid-3"),
        Flags::default(),
        &headers(&[("Subject", "alone")]),
    )
    .unwrap_err();
    assert!(matches!(err, EnvelopeParseError::GetSender(_)));
}

#[test]
fn maildir_envelope_message_id_falls_back_to_the_timestamp() {
    let envelope = envelope_from_headers(
        &String::from("mid-4"),
        Flags::default(),
        &headers(&[("From", "a@b"), ("Date", "Thu, 10 Nov 2022 14:26:33 +0000")]),
    )
    .unwrap();
    assert_eq!(envelope.message_id, "1668090393");
}

#[test]
fn imap_envelope_is_built_from_fetch_parts() {
    let envelope = envelope_from_imap_parts(
        Some(42),
        7,
        Flags::from_iter(vec![Flag::Seen]),
        true,
        &Some(b"hello".to_vec()),
        true,
        &None,
        &Some(b"from".to_vec()),
        &Some(b"localhost".to_vec()),
        &Some(b"Thu, 10 Nov 2022 14:26:33 +0000".to_vec()),
        &Some(b" <m@x> ".to_vec()),
    )
    .unwrap();
    assert_eq!(envelope.id, "42");
    assert_eq!(envelope.internal_id, "42");
    assert_eq!(envelope.subject, "hello");
    assert_eq!(envelope.from.name, None);
    assert_eq!(envelope.from.addr, "from@localhost");
    assert_eq!(envelope.date, 1668090393);
    assert_eq!(envelope.message_id, "<m@x>");
}

#[test]
fn imap_envelope_without_uid_fails() {
    let err = envelope_from_imap_parts(
        None,
        7,
        Flags::default(),
        true,
        &None,
        true,
        &None,
        &Some(b"a".to_vec()),
        &Some(b"b".to_vec()),
        &None,
        &None,
    )
    .unwrap_err();
    assert!(matches!(err, EnvelopeParseError::GetUid(7)));
}

#[test]
fn imap_envelope_message_id_falls_back_to_the_timestamp() {
    let envelope = envelope_from_imap_parts(
        Some(1),
        1,
        Flags::default(),
        true,
        &None,
        true,
        &None,
        &Some(b"a".to_vec()),
        &Some(b"b".to_vec()),
        &None,
        &None,
    )
    .unwrap();
    assert_eq!(envelope.date, 0);
    assert_eq!(envelope.message_id, "0");
}

#[test]
fn decimal_rendering_is_exact() {
    assert_eq!(u64_to_string(0), "0");
    assert_eq!(u64_to_string(7), "7");
    assert_eq!(u64_to_string(10), "10");
    assert_eq!(u64_to_string(90210), "90210");
    assert_eq!(i64_to_string(-12), "-12");
    assert_eq!(i64_to_string(0), "0");
}

#[test]
fn maildir_folder_names_are_percent_encoded() {
    assert_eq!(encode_folder("Boîte"), "Bo%C3%AEte");
    assert_eq!(decode_folder("Bo%C3%AEte"), "Boîte");
    assert_eq!(maildir_folder_dirname("INBOX"), "cur");
    assert_eq!(maildir_folder_dirname("Sent Items"), ".Sent%20Items");
}
