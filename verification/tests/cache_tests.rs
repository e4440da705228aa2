use mailsync::cache::Cache;
use mailsync::envelope::Envelope;
use mailsync::flag::{Flag, Flags};

fn memory_db() -> rusqlite::Connection {
    let conn = rusqlite::Connection::open_in_memory().unwrap();
    Cache::init(&conn).unwrap();
    Cache::init_envelopes(&conn).unwrap();
    Cache::init_ids(&conn).unwrap();
    conn
}

#[test]
fn folder_rows_are_kept_per_side() {
    let conn = memory_db();
    Cache::insert_local_folder(&conn, "me", "INBOX").unwrap();
    Cache::insert_remote_folder(&conn, "me", "Sent").unwrap();
    assert_eq!(Cache::list_local_folders(&conn, "me", None).unwrap(), vec!["INBOX"]);
    assert_eq!(Cache::list_remote_folders(&conn, "me", None).unwrap(), vec!["Sent"]);
    Cache::delete_local_folder(&conn, "me", "INBOX").unwrap();
    assert!(Cache::list_local_folders(&conn, "me", None).unwrap().is_empty());
    assert_eq!(Cache::list_remote_folders(&conn, "me", None).unwrap(), vec!["Sent"]);
}

#[test]
fn folder_listing_honours_the_subset() {
    let conn = memory_db();
    Cache::insert_remote_folder(&conn, "me", "INBOX").unwrap();
    Cache::insert_remote_folder(&conn, "me", "Sent").unwrap();
    let subset = vec![String::from("Sent"), String::from("Archive")];
    assert_eq!(
        Cache::list_remote_folders(&conn, "me", Some(&subset)).unwrap(),
        vec!["Sent"]
    );
}

#[test]
fn envelope_rows_round_trip_with_flags() {
    let conn = memory_db();
    let envelope = Envelope {
        id: String::from("e1"),
        internal_id: String::from("i1"),
        message_id: String::from("<m@x>"),
        flags: Flags::from_iter(vec![Flag::Seen, Flag::Custom(String::from("mulled"))]),
        ..Envelope::default()
    };
    Cache::insert_local_envelope(&conn, "me", "INBOX", &envelope).unwrap();
    let rows = Cache::list_local_envelopes(&conn, "me", "INBOX").unwrap();
    assert_eq!(rows.len(), 1);
    assert_eq!(rows[0].internal_id, "i1");
    assert_eq!(rows[0].id, "e1");
    assert_eq!(rows[0].message_id, "<m@x>");
    assert_eq!(rows[0].flags, envelope.flags);
    // The other side and other folders stay untouched.
    assert!(Cache::list_remote_envelopes(&conn, "me", "INBOX").unwrap().is_empty());
    assert!(Cache::list_local_envelopes(&conn, "me", "Sent").unwrap().is_empty());
    Cache::delete_local_envelope(&conn, "me", "INBOX", "i1").unwrap();
    assert!(Cache::list_local_envelopes(&conn, "me", "INBOX").unwrap().is_empty());
}

#[test]
fn id_pairs_round_trip_per_account_and_folder() {
    let conn = memory_db();
    Cache::insert_id(&conn, "me", "INBOX", "i1", "abc").unwrap();
    Cache::insert_id(&conn, "me", "INBOX", "i2", "def").unwrap();
    Cache::insert_id(&conn, "me", "Sent", "i3", "aaa").unwrap();
    let pairs = Cache::load_ids(&conn, "me", "INBOX").unwrap();
    assert_eq!(
        pairs,
        vec![
            (String::from("i1"), String::from("abc")),
            (String::from("i2"), String::from("def")),
        ]
    );
    assert!(Cache::load_ids(&conn, "other", "INBOX").unwrap().is_empty());
}
