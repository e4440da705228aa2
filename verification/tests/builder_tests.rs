use mailsync::backend::{AccountConfig, BackendBuilder, BackendSyncBuilder};
use mailsync::maildir::MaildirBackendBuilder;
use mailsync::notmuch::NotmuchBackendBuilder;

fn config() -> AccountConfig {
    AccountConfig {
        name: String::from("me"),
        sync: true,
        sync_dir: String::from("/tmp"),
    }
}

#[test]
fn sync_builder_accumulates_its_settings() {
    let builder = BackendSyncBuilder::new(config());
    assert!(builder.folders.is_none());
    assert!(!builder.dry_run);
    assert!(!builder.progress);

    let builder = builder
        .only_folder(String::from("INBOX"))
        .only_folder(String::from("Sent"))
        .dry_run(true)
        .on_progress(true);
    assert_eq!(
        builder.folders,
        Some(vec![String::from("INBOX"), String::from("Sent")])
    );
    assert!(builder.dry_run);
    assert!(builder.progress);

    let builder = builder.all_folders();
    assert!(builder.folders.is_none());

    let builder = builder.only_folders(vec![String::from("Archive")]);
    assert_eq!(builder.folders, Some(vec![String::from("Archive")]));
}

#[test]
fn backend_builder_accumulates_its_settings() {
    let builder = BackendBuilder::new();
    assert_eq!(builder.sessions_pool_size, 0);
    assert!(!builder.disable_cache);
    let builder = builder.sessions_pool_size(8).disable_cache(true);
    assert_eq!(builder.sessions_pool_size, 8);
    assert!(builder.disable_cache);
}

#[test]
fn store_builders_carry_their_database_path() {
    let builder = MaildirBackendBuilder::new();
    assert!(builder.db_path.is_none());
    let builder = builder.db_path(String::from("/tmp/ids.sqlite"));
    assert_eq!(builder.db_path, Some(String::from("/tmp/ids.sqlite")));

    let builder = NotmuchBackendBuilder::new();
    assert!(builder.db_path.is_none());
    let builder = builder.db_path(String::from("/tmp/index"));
    assert_eq!(builder.db_path, Some(String::from("/tmp/index")));
}

#[test]
fn notmuch_query_addresses_ids_exactly() {
    let ids = vec![String::from("a@x"), String::from("b@y")];
    assert_eq!(
        mailsync::notmuch::notmuch_internal_ids_query(&ids),
        "mid:\"/^(a@x|b@y)$/\""
    );
    let one = vec![String::from("only@z")];
    assert_eq!(
        mailsync::notmuch::notmuch_internal_ids_query(&one),
        "mid:\"/^(only@z)$/\""
    );
}
