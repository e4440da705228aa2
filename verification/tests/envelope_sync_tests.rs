use mailsync::envelope::Envelope;
use mailsync::envelope_sync::{
    build_envelope_patch, envelope_sync_hunks, EnvelopeQuad, EnvelopeSyncCacheHunk,
    EnvelopeSyncHunk,
};
use mailsync::flag::{Flag, Flags};
use mailsync::folder_sync::Side;

fn envelope(internal_id: &str, message_id: &str, flags: Vec<Flag>) -> Envelope {
    Envelope {
        id: internal_id.to_string(),
        internal_id: internal_id.to_string(),
        message_id: message_id.to_string(),
        flags: Flags::from_iter(flags),
        ..Envelope::default()
    }
}

#[test]
fn message_absent_locally_with_remote_cache_record_is_deleted_remotely() {
    // The cache and the remote both show the message with Seen; the
    // local cache and the local side lack it entirely: the local
    // deletion propagates, converging on "the message exists nowhere".
    let folder = String::from("INBOX");
    let quad = EnvelopeQuad {
        local_cache: None,
        local: None,
        remote_cache: Some(envelope("7", "<m@x>", vec![Flag::Seen])),
        remote: Some(envelope("7", "<m@x>", vec![Flag::Seen])),
    };
    let (hunks, cache_hunks) = envelope_sync_hunks(&folder, &quad);
    assert_eq!(hunks.len(), 1);
    assert!(matches!(
        &hunks[0],
        EnvelopeSyncHunk::DeleteEmail(f, iid, Side::Remote) if f == "INBOX" && iid == "7"
    ));
    assert_eq!(cache_hunks.len(), 1);
    assert!(matches!(
        &cache_hunks[0],
        EnvelopeSyncCacheHunk::DeleteEnvelope(_, iid, Side::Remote) if iid == "7"
    ));
}

#[test]
fn new_remote_message_is_copied_to_local() {
    let folder = String::from("INBOX");
    let quad = EnvelopeQuad {
        local_cache: None,
        local: None,
        remote_cache: None,
        remote: Some(envelope("9", "<n@x>", vec![Flag::Seen])),
    };
    let (hunks, cache_hunks) = envelope_sync_hunks(&folder, &quad);
    assert_eq!(hunks.len(), 1);
    assert!(matches!(
        &hunks[0],
        EnvelopeSyncHunk::CopyEmail(_, e, Side::Remote, Side::Local) if e.internal_id == "9"
    ));
    assert_eq!(cache_hunks.len(), 2);
    assert!(matches!(&cache_hunks[0], EnvelopeSyncCacheHunk::InsertEnvelope(_, _, Side::Local)));
    assert!(matches!(&cache_hunks[1], EnvelopeSyncCacheHunk::InsertEnvelope(_, _, Side::Remote)));
}

#[test]
fn converged_message_plans_nothing() {
    let folder = String::from("INBOX");
    let quad = EnvelopeQuad {
        local_cache: Some(envelope("3", "<c@x>", vec![Flag::Seen])),
        local: Some(envelope("3", "<c@x>", vec![Flag::Seen])),
        remote_cache: Some(envelope("30", "<c@x>", vec![Flag::Seen])),
        remote: Some(envelope("30", "<c@x>", vec![Flag::Seen])),
    };
    let (hunks, cache_hunks) = envelope_sync_hunks(&folder, &quad);
    assert_eq!(hunks.len(), 0);
    assert_eq!(cache_hunks.len(), 0);
}

#[test]
fn remote_flag_addition_is_propagated() {
    // Both sides hold the message; the remote added Flagged since the
    // last pass. The merged set is written to the stale side and the
    // stale caches.
    let folder = String::from("INBOX");
    let quad = EnvelopeQuad {
        local_cache: Some(envelope("3", "<c@x>", vec![Flag::Seen])),
        local: Some(envelope("3", "<c@x>", vec![Flag::Seen])),
        remote_cache: Some(envelope("30", "<c@x>", vec![Flag::Seen])),
        remote: Some(envelope("30", "<c@x>", vec![Flag::Seen, Flag::Flagged])),
    };
    let (hunks, cache_hunks) = envelope_sync_hunks(&folder, &quad);
    let expected = Flags::from_iter(vec![Flag::Seen, Flag::Flagged]);
    assert_eq!(hunks.len(), 1);
    match &hunks[0] {
        EnvelopeSyncHunk::SetFlags(_, e, Side::Local) => {
            assert_eq!(e.internal_id, "3");
            assert_eq!(e.flags, expected);
        }
        other => panic!("unexpected hunk: {:?}", other),
    }
    // Both cache rows are stale: each is dropped and rewritten.
    assert_eq!(cache_hunks.len(), 4);
    assert!(matches!(&cache_hunks[0], EnvelopeSyncCacheHunk::DeleteEnvelope(_, _, Side::Local)));
    assert!(matches!(&cache_hunks[1], EnvelopeSyncCacheHunk::InsertEnvelope(_, _, Side::Local)));
    assert!(matches!(&cache_hunks[2], EnvelopeSyncCacheHunk::DeleteEnvelope(_, _, Side::Remote)));
    assert!(matches!(&cache_hunks[3], EnvelopeSyncCacheHunk::InsertEnvelope(_, _, Side::Remote)));
}

#[test]
fn correlation_joins_uncached_messages_by_message_id() {
    let folder = String::from("INBOX");
    let local = vec![envelope("a1", "<same@x>", vec![Flag::Seen])];
    let remote = vec![envelope("b2", "<same@x>", vec![Flag::Seen])];
    let none: Vec<Envelope> = Vec::new();
    let plan = build_envelope_patch(&folder, &none, &local, &none, &remote);
    // One identity, present live on both sides: no copy, no deletion,
    // just two cache inserts.
    assert_eq!(plan.quads.len(), 1);
    assert_eq!(plan.patch.len(), 0);
    assert_eq!(plan.cache_patch.len(), 2);
}

#[test]
fn correlation_keeps_distinct_messages_apart() {
    let folder = String::from("INBOX");
    let local = vec![envelope("a1", "<one@x>", vec![])];
    let remote = vec![envelope("b2", "<two@x>", vec![])];
    let none: Vec<Envelope> = Vec::new();
    let plan = build_envelope_patch(&folder, &none, &local, &none, &remote);
    assert_eq!(plan.quads.len(), 2);
    // Each side's new message is copied to the other.
    assert_eq!(plan.patch.len(), 2);
    assert!(matches!(&plan.patch[0], EnvelopeSyncHunk::CopyEmail(_, _, Side::Local, Side::Remote)));
    assert!(matches!(&plan.patch[1], EnvelopeSyncHunk::CopyEmail(_, _, Side::Remote, Side::Local)));
}
