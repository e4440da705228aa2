use mailsync::flag::{Flag, Flags};

#[test]
fn to_normalized_string_writes_maildir_letters() {
    let flags = Flags::from_iter(vec![Flag::Seen, Flag::Answered, Flag::Deleted]);
    assert_eq!(flags.to_normalized_string(), "SRT");
    // Flags with no maildir letter are left out.
    let flags = Flags::from_iter(vec![Flag::Recent, Flag::Custom(String::from("zzz")), Flag::Draft]);
    assert_eq!(flags.to_normalized_string(), "D");
    assert_eq!(Flags::default().to_normalized_string(), "");
}

#[test]
fn from_maildir_string_reads_letters_both_cases() {
    assert_eq!(
        Flags::from_maildir_string("RS"),
        Flags::from_iter(vec![Flag::Answered, Flag::Seen])
    );
    assert_eq!(
        Flags::from_maildir_string("rs"),
        Flags::from_iter(vec![Flag::Answered, Flag::Seen])
    );
    assert_eq!(
        Flags::from_maildir_string("P"),
        Flags::from_iter(vec![Flag::Custom(String::from("Passed"))])
    );
    assert_eq!(Flags::from_maildir_string(""), Flags::default());
}

#[test]
fn flag_set_equality_ignores_order_and_repeats() {
    let a = Flags::from_iter(vec![Flag::Seen, Flag::Flagged]);
    let b = Flags::from_iter(vec![Flag::Flagged, Flag::Seen, Flag::Flagged]);
    assert_eq!(a, b);
    let c = Flags::from_iter(vec![Flag::Seen]);
    assert_ne!(a, c);
}

#[test]
fn insert_and_remove_keep_set_semantics() {
    let mut flags = Flags::new();
    flags.insert(Flag::Seen);
    flags.insert(Flag::Seen);
    assert_eq!(flags.len(), 1);
    assert!(flags.contains(&Flag::Seen));
    flags.remove(&Flag::Seen);
    assert!(!flags.contains(&Flag::Seen));
    assert_eq!(flags.len(), 0);
}

#[test]
fn cache_text_round_trips() {
    let flags = Flags::from_iter(vec![
        Flag::Seen,
        Flag::Answered,
        Flag::Custom(String::from("mulled")),
    ]);
    let text = flags.to_text();
    assert_eq!(text, "Seen Answered mulled");
    assert_eq!(Flags::from_text(&text), flags);
    assert_eq!(Flags::from_text(""), Flags::default());
    assert_eq!(Flag::from_text("Deleted"), Flag::Deleted);
    assert_eq!(Flag::from_text("other"), Flag::Custom(String::from("other")));
}
