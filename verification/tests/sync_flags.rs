use mailsync::envelope::Envelope;
use mailsync::flag::{Flag, Flags};

#[test]
fn sync_all() {
    assert_eq!(
        mailsync::flag_sync::sync_all(None, None, None, None),
        Flags::default()
    );

    assert_eq!(
        mailsync::flag_sync::sync_all(
            None,
            None,
            None,
            Some(&Envelope {
                flags: Flags::from_iter(vec![Flag::Seen]),
                ..Envelope::default()
            }),
        ),
        Flags::from_iter(vec![Flag::Seen]),
    );

    assert_eq!(
        mailsync::flag_sync::sync_all(
            Some(&Envelope::default()),
            Some(&Envelope::default()),
            Some(&Envelope::default()),
            Some(&Envelope {
                flags: Flags::from_iter(vec![Flag::Seen]),
                ..Envelope::default()
            }),
        ),
        Flags::from_iter(vec![Flag::Seen]),
    );

    assert_eq!(
        mailsync::flag_sync::sync_all(
            Some(&Envelope::default()),
            Some(&Envelope::default()),
            Some(&Envelope {
                flags: Flags::from_iter(vec![Flag::Seen]),
                ..Envelope::default()
            }),
            Some(&Envelope::default()),
        ),
        Flags::default()
    );

    assert_eq!(
        mailsync::flag_sync::sync_all(
            Some(&Envelope::default()),
            Some(&Envelope::default()),
            Some(&Envelope {
                flags: Flags::from_iter(vec![Flag::Seen]),
                ..Envelope::default()
            }),
            Some(&Envelope {
                flags: Flags::from_iter(vec![Flag::Seen]),
                ..Envelope::default()
            }),
        ),
        Flags::from_iter(vec![Flag::Seen]),
    );

    assert_eq!(
        mailsync::flag_sync::sync_all(
            Some(&Envelope::default()),
            Some(&Envelope {
                flags: Flags::from_iter(vec![Flag::Seen]),
                ..Envelope::default()
            }),
            Some(&Envelope::default()),
            Some(&Envelope::default()),
        ),
        Flags::from_iter(vec![Flag::Seen]),
    );

    assert_eq!(
        mailsync::flag_sync::sync_all(
            Some(&Envelope::default()),
            Some(&Envelope {
                flags: Flags::from_iter(vec![Flag::Seen]),
                ..Envelope::default()
            }),
            Some(&Envelope::default()),
            Some(&Envelope {
                flags: Flags::from_iter(vec![Flag::Seen]),
                ..Envelope::default()
            }),
        ),
        Flags::from_iter(vec![Flag::Seen]),
    );

    assert_eq!(
        mailsync::flag_sync::sync_all(
            Some(&Envelope::default()),
            Some(&Envelope {
                flags: Flags::from_iter(vec![Flag::Seen]),
                ..Envelope::default()
            }),
            Some(&Envelope {
                flags: Flags::from_iter(vec![Flag::Seen]),
                ..Envelope::default()
            }),
            Some(&Envelope::default()),
        ),
        Flags::from_iter(vec![Flag::Seen]),
    );

    assert_eq!(
        mailsync::flag_sync::sync_all(
            Some(&Envelope::default()),
            Some(&Envelope {
                flags: Flags::from_iter(vec![Flag::Seen]),
                ..Envelope::default()
            }),
            Some(&Envelope {
                flags: Flags::from_iter(vec![Flag::Seen]),
                ..Envelope::default()
            }),
            Some(&Envelope {
                flags: Flags::from_iter(vec![Flag::Seen]),
                ..Envelope::default()
            }),
        ),
        Flags::from_iter(vec![Flag::Seen]),
    );

    assert_eq!(
        mailsync::flag_sync::sync_all(
            Some(&Envelope {
                flags: Flags::from_iter(vec![Flag::Seen]),
                ..Envelope::default()
            }),
            Some(&Envelope::default()),
            Some(&Envelope::default()),
            Some(&Envelope::default()),
        ),
        Flags::default()
    );

    assert_eq!(
        mailsync::flag_sync::sync_all(
            Some(&Envelope {
                flags: Flags::from_iter(vec![Flag::Seen]),
                ..Envelope::default()
            }),
            Some(&Envelope::default()),
            Some(&Envelope::default()),
            Some(&Envelope {
                flags: Flags::from_iter(vec![Flag::Seen]),
                ..Envelope::default()
            }),
        ),
        Flags::from_iter(vec![Flag::Seen]),
    );

    assert_eq!(
        mailsync::flag_sync::sync_all(
            Some(&Envelope {
                flags: Flags::from_iter(vec![Flag::Seen]),
                ..Envelope::default()
            }),
            Some(&Envelope::default()),
            Some(&Envelope {
                flags: Flags::from_iter(vec![Flag::Seen]),
                ..Envelope::default()
            }),
            Some(&Envelope::default()),
        ),
        Flags::default(),
    );

    assert_eq!(
        mailsync::flag_sync::sync_all(
            Some(&Envelope {
                flags: Flags::from_iter(vec![Flag::Seen]),
                ..Envelope::default()
            }),
            Some(&Envelope::default()),
            Some(&Envelope {
                flags: Flags::from_iter(vec![Flag::Seen]),
                ..Envelope::default()
            }),
            Some(&Envelope {
                flags: Flags::from_iter(vec![Flag::Seen]),
                ..Envelope::default()
            }),
        ),
        Flags::default(),
    );

    assert_eq!(
        mailsync::flag_sync::sync_all(
            Some(&Envelope {
                flags: Flags::from_iter(vec![Flag::Seen]),
                ..Envelope::default()
            }),
            Some(&Envelope {
                flags: Flags::from_iter(vec![Flag::Seen]),
                ..Envelope::default()
            }),
            Some(&Envelope::default()),
            Some(&Envelope::default()),
        ),
        Flags::from_iter(vec![Flag::Seen]),
    );

    assert_eq!(
        mailsync::flag_sync::sync_all(
            Some(&Envelope {
                flags: Flags::from_iter(vec![Flag::Seen]),
                ..Envelope::default()
            }),
            Some(&Envelope {
                flags: Flags::from_iter(vec![Flag::Seen]),
                ..Envelope::default()
            }),
            Some(&Envelope::default()),
            Some(&Envelope {
                flags: Flags::from_iter(vec![Flag::Seen]),
                ..Envelope::default()
            }),
        ),
        Flags::from_iter(vec![Flag::Seen]),
    );

    assert_eq!(
        mailsync::flag_sync::sync_all(
            Some(&Envelope {
                flags: Flags::from_iter(vec![Flag::Seen]),
                ..Envelope::default()
            }),
            Some(&Envelope {
                flags: Flags::from_iter(vec![Flag::Seen]),
                ..Envelope::default()
            }),
            Some(&Envelope {
                flags: Flags::from_iter(vec![Flag::Seen]),
                ..Envelope::default()
            }),
            Some(&Envelope::default()),
        ),
        Flags::default(),
    );

    assert_eq!(
        mailsync::flag_sync::sync_all(
            Some(&Envelope {
                flags: Flags::from_iter(vec![Flag::Seen, Flag::Flagged]),
                ..Envelope::default()
            }),
            Some(&Envelope {
                flags: Flags::from_iter(vec![Flag::Seen, Flag::Flagged]),
                ..Envelope::default()
            }),
            Some(&Envelope {
                flags: Flags::from_iter(vec![Flag::Seen, Flag::Flagged]),
                ..Envelope::default()
            }),
            Some(&Envelope {
                flags: Flags::from_iter(vec![Flag::Seen, Flag::Flagged]),
                ..Envelope::default()
            }),
        ),
        Flags::from_iter(vec![Flag::Seen, Flag::Flagged]),
    );
}

#[test]
fn deleted_flag_conflict_resolves_to_undelete() {
    // The Deleted flag present at the remote cache and the live remote
    // only: the local side purged it without recording the removal.
    // The merge drops the flag rather than silently expunging mail.
    let marked = Envelope {
        flags: Flags::from_iter(vec![Flag::Deleted]),
        ..Envelope::default()
    };
    assert_eq!(mailsync::flag_sync::sync_all(None, None, Some(&marked), Some(&marked)), Flags::default());

    // Any other flag in the same pattern is kept.
    let seen = Envelope {
        flags: Flags::from_iter(vec![Flag::Seen]),
        ..Envelope::default()
    };
    assert_eq!(
        mailsync::flag_sync::sync_all(None, None, Some(&seen), Some(&seen)),
        Flags::from_iter(vec![Flag::Seen])
    );
}

#[test]
fn custom_flags_merge_by_name() {
    let tagged = Envelope {
        flags: Flags::from_iter(vec![Flag::Custom(String::from("mulled"))]),
        ..Envelope::default()
    };
    assert_eq!(
        mailsync::flag_sync::sync_all(None, Some(&tagged), None, None),
        Flags::from_iter(vec![Flag::Custom(String::from("mulled"))])
    );
    assert_eq!(mailsync::flag_sync::sync_all(Some(&tagged), None, None, None), Flags::default());
}
