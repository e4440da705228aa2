use mailsync::backend::BackendSyncProgressEvent;

#[test]
fn progress_events_describe_themselves() {
    assert_eq!(
        BackendSyncProgressEvent::GetLocalCachedFolders.to_display_string(),
        "Getting local cached folders"
    );
    assert_eq!(
        BackendSyncProgressEvent::ProcessFoldersPatch(2).to_display_string(),
        "Processing 2 hunks of folders patch"
    );
    assert_eq!(
        BackendSyncProgressEvent::ProcessFolderHunk(String::from("INBOX")).to_display_string(),
        "Processing folder hunk: INBOX"
    );
    assert_eq!(
        BackendSyncProgressEvent::ProcessEnvelopesPatch(11).to_display_string(),
        "Processing 11 hunks of envelopes patch"
    );
    assert_eq!(
        BackendSyncProgressEvent::StartEnvelopesSync(String::from("INBOX"), 1, 3)
            .to_display_string(),
        "Starting envelopes synchronization"
    );
}
