use std::cell::RefCell;
use std::time::{SystemTime, UNIX_EPOCH};

use mailsync::backend::{
    AccountConfig, Backend, BackendError, BackendSyncBuilder, BackendSyncProgressEvent, Folder,
};
use mailsync::envelope::Envelope;
use mailsync::flag::{Flag, Flags};

struct MemEmail {
    folder: String,
    internal_id: String,
    body: Vec<u8>,
    flags: Flags,
}

struct MemBackend {
    label: String,
    state: RefCell<MemState>,
}

struct MemState {
    folders: Vec<String>,
    emails: Vec<MemEmail>,
    counter: u64,
}

impl MemBackend {
    fn new(label: &str, folders: &[&str]) -> MemBackend {
        MemBackend {
            label: label.to_string(),
            state: RefCell::new(MemState {
                folders: folders.iter().map(|f| f.to_string()).collect(),
                emails: Vec::new(),
                counter: 0,
            }),
        }
    }

    fn put(&self, folder: &str, body: &str, flags: Vec<Flag>) {
        let mut state = self.state.borrow_mut();
        state.counter += 1;
        let internal_id = format!("{}-{}", self.label, state.counter);
        state.emails.push(MemEmail {
            folder: folder.to_string(),
            internal_id,
            body: body.as_bytes().to_vec(),
            flags: Flags::from_iter(flags),
        });
    }

    fn bodies(&self, folder: &str) -> Vec<String> {
        let state = self.state.borrow();
        let mut out: Vec<String> = state
            .emails
            .iter()
            .filter(|e| e.folder == folder)
            .map(|e| String::from_utf8(e.body.clone()).unwrap())
            .collect();
        out.sort();
        out
    }

    fn flags_of(&self, folder: &str, body: &str) -> Flags {
        let state = self.state.borrow();
        state
            .emails
            .iter()
            .find(|e| e.folder == folder && e.body == body.as_bytes())
            .map(|e| e.flags.clone())
            .unwrap()
    }
}

impl Backend for MemBackend {
    fn name(&self) -> String {
        self.label.clone()
    }

    fn add_folder(&self, folder: &str) -> Result<(), BackendError> {
        let mut state = self.state.borrow_mut();
        if !state.folders.iter().any(|f| f == folder) {
            state.folders.push(folder.to_string());
        }
        Ok(())
    }

    fn list_folders(&self) -> Result<Vec<Folder>, BackendError> {
        let state = self.state.borrow();
        Ok(state
            .folders
            .iter()
            .map(|f| Folder {
                delim: String::from("/"),
                name: f.clone(),
                desc: f.clone(),
            })
            .collect())
    }

    fn expunge_folder(&self, folder: &str) -> Result<(), BackendError> {
        let mut state = self.state.borrow_mut();
        state
            .emails
            .retain(|e| !(e.folder == folder && e.flags.contains(&Flag::Deleted)));
        Ok(())
    }

    fn purge_folder(&self, folder: &str) -> Result<(), BackendError> {
        let mut state = self.state.borrow_mut();
        state.emails.retain(|e| e.folder != folder);
        Ok(())
    }

    fn delete_folder(&self, folder: &str) -> Result<(), BackendError> {
        let mut state = self.state.borrow_mut();
        state.folders.retain(|f| f != folder);
        state.emails.retain(|e| e.folder != folder);
        Ok(())
    }

    fn get_envelope(&self, folder: &str, id: &str) -> Result<Envelope, BackendError> {
        let state = self.state.borrow();
        state
            .emails
            .iter()
            .find(|e| e.folder == folder && e.internal_id == id)
            .map(|e| Envelope {
                id: e.internal_id.clone(),
                internal_id: e.internal_id.clone(),
                message_id: String::from_utf8(e.body.clone()).unwrap(),
                flags: e.flags.clone(),
                ..Envelope::default()
            })
            .ok_or(BackendError::NotFound(id.to_string()))
    }

    fn list_envelopes(
        &self,
        folder: &str,
        _page_size: usize,
        _page: usize,
    ) -> Result<Vec<Envelope>, BackendError> {
        let state = self.state.borrow();
        Ok(state
            .emails
            .iter()
            .filter(|e| e.folder == folder)
            .map(|e| Envelope {
                id: e.internal_id.clone(),
                internal_id: e.internal_id.clone(),
                message_id: String::from_utf8(e.body.clone()).unwrap(),
                flags: e.flags.clone(),
                ..Envelope::default()
            })
            .collect())
    }

    fn search_envelopes(
        &self,
        _folder: &str,
        _query: &str,
        _sort: &str,
        _page_size: usize,
        _page: usize,
    ) -> Result<Vec<Envelope>, BackendError> {
        Err(BackendError::SearchEnvelopesUnimplemented)
    }

    fn add_email(
        &self,
        folder: &str,
        email: &Vec<u8>,
        flags: &Flags,
    ) -> Result<String, BackendError> {
        let mut state = self.state.borrow_mut();
        state.counter += 1;
        let internal_id = format!("{}-{}", self.label, state.counter);
        state.emails.push(MemEmail {
            folder: folder.to_string(),
            internal_id: internal_id.clone(),
            body: email.clone(),
            flags: flags.clone(),
        });
        Ok(internal_id)
    }

    fn preview_emails(
        &self,
        folder: &str,
        ids: &Vec<String>,
    ) -> Result<Vec<Vec<u8>>, BackendError> {
        let state = self.state.borrow();
        let mut out = Vec::new();
        for id in ids {
            match state
                .emails
                .iter()
                .find(|e| e.folder == folder && &e.internal_id == id)
            {
                Some(e) => out.push(e.body.clone()),
                None => return Err(BackendError::NotFound(id.clone())),
            }
        }
        Ok(out)
    }

    fn get_emails(&self, folder: &str, ids: &Vec<String>) -> Result<Vec<Vec<u8>>, BackendError> {
        self.preview_emails(folder, ids)
    }

    fn copy_emails(
        &self,
        from_folder: &str,
        to_folder: &str,
        ids: &Vec<String>,
    ) -> Result<(), BackendError> {
        let bodies = self.preview_emails(from_folder, ids)?;
        for body in bodies {
            self.add_email(to_folder, &body, &Flags::new())?;
        }
        Ok(())
    }

    fn move_emails(
        &self,
        from_folder: &str,
        to_folder: &str,
        ids: &Vec<String>,
    ) -> Result<(), BackendError> {
        self.copy_emails(from_folder, to_folder, ids)?;
        self.delete_emails(from_folder, ids)
    }

    fn delete_emails(&self, folder: &str, ids: &Vec<String>) -> Result<(), BackendError> {
        let mut state = self.state.borrow_mut();
        state
            .emails
            .retain(|e| !(e.folder == folder && ids.iter().any(|id| id == &e.internal_id)));
        Ok(())
    }

    fn add_flags(
        &self,
        folder: &str,
        ids: &Vec<String>,
        flags: &Flags,
    ) -> Result<(), BackendError> {
        let mut state = self.state.borrow_mut();
        for e in state.emails.iter_mut() {
            if e.folder == folder && ids.iter().any(|id| id == &e.internal_id) {
                for f in flags.as_vec() {
                    e.flags.insert(f.clone());
                }
            }
        }
        Ok(())
    }

    fn set_flags(
        &self,
        folder: &str,
        ids: &Vec<String>,
        flags: &Flags,
    ) -> Result<(), BackendError> {
        let mut state = self.state.borrow_mut();
        for e in state.emails.iter_mut() {
            if e.folder == folder && ids.iter().any(|id| id == &e.internal_id) {
                e.flags = flags.clone();
            }
        }
        Ok(())
    }

    fn remove_flags(
        &self,
        folder: &str,
        ids: &Vec<String>,
        flags: &Flags,
    ) -> Result<(), BackendError> {
        let mut state = self.state.borrow_mut();
        for e in state.emails.iter_mut() {
            if e.folder == folder && ids.iter().any(|id| id == &e.internal_id) {
                for f in flags.as_vec() {
                    e.flags.remove(f);
                }
            }
        }
        Ok(())
    }
}

fn fresh_account(tag: &str) -> AccountConfig {
    let nanos = SystemTime::now()
        .duration_since(UNIX_EPOCH)
        .unwrap()
        .as_nanos();
    AccountConfig {
        name: format!("mailsync-test-{}-{}", tag, nanos),
        sync: true,
        sync_dir: String::from("/tmp"),
    }
}

#[test]
fn sync_pass_converges_and_the_next_pass_plans_nothing() {
    let local = MemBackend::new("local", &["INBOX"]);
    let remote = MemBackend::new("remote", &["INBOX", "Archive"]);
    local.put("INBOX", "<m1@x>", vec![Flag::Seen]);
    remote.put("INBOX", "<m2@x>", vec![Flag::Flagged]);

    let config = fresh_account("converge");
    let report = BackendSyncBuilder::new(config.clone())
        .sync(&local, &remote)
        .unwrap();

    // Folder convergence: the remote-only folder now exists locally.
    assert!(report.folders.iter().any(|f| f == "INBOX"));
    assert!(report.folders.iter().any(|f| f == "Archive"));
    assert!(local.state.borrow().folders.iter().any(|f| f == "Archive"));

    // Envelope convergence: each side now holds both messages.
    assert_eq!(local.bodies("INBOX"), vec!["<m1@x>", "<m2@x>"]);
    assert_eq!(remote.bodies("INBOX"), vec!["<m1@x>", "<m2@x>"]);

    // Flag convergence: both sides agree per message.
    assert_eq!(
        local.flags_of("INBOX", "<m1@x>"),
        remote.flags_of("INBOX", "<m1@x>")
    );
    assert_eq!(
        local.flags_of("INBOX", "<m2@x>"),
        remote.flags_of("INBOX", "<m2@x>")
    );

    // Every hunk of the first pass succeeded.
    assert!(report.folders_patch.iter().all(|(_, e)| e.is_none()));
    assert!(report.envelopes_patch.iter().all(|(_, e)| e.is_none()));
    assert!(report.folders_cache_patch.1.is_none());
    assert!(report.envelopes_cache_patch.1.is_empty());

    // Idempotence: with no live changes, the second pass plans
    // nothing at all.
    let second = BackendSyncBuilder::new(config)
        .sync(&local, &remote)
        .unwrap();
    assert_eq!(second.folders_patch.len(), 0);
    assert_eq!(second.folders_cache_patch.0.len(), 0);
    assert_eq!(second.envelopes_patch.len(), 0);
    assert_eq!(second.envelopes_cache_patch.0.len(), 0);
}

#[test]
fn fresh_deleted_flag_propagates_and_both_sides_expunge() {
    let local = MemBackend::new("local", &["INBOX"]);
    let remote = MemBackend::new("remote", &["INBOX"]);
    local.put("INBOX", "<m@x>", vec![Flag::Seen]);
    remote.put("INBOX", "<m@x>", vec![Flag::Seen]);

    let config = fresh_account("expunge");
    // First pass records the converged state in both caches.
    BackendSyncBuilder::new(config.clone())
        .sync(&local, &remote)
        .unwrap();

    // The remote marks the message Deleted. A flag present at one
    // live side only is a fresh addition — no cache recorded it — so
    // it propagates, and the expunge at the end of the folder's pass
    // removes the message from both sides.
    {
        let mut state = remote.state.borrow_mut();
        for e in state.emails.iter_mut() {
            e.flags.insert(Flag::Deleted);
        }
    }
    BackendSyncBuilder::new(config.clone())
        .sync(&local, &remote)
        .unwrap();
    assert!(local.bodies("INBOX").is_empty());
    assert!(remote.bodies("INBOX").is_empty());

    // The next pass clears the stale cache rows, and the one after
    // that plans nothing.
    BackendSyncBuilder::new(config.clone())
        .sync(&local, &remote)
        .unwrap();
    let last = BackendSyncBuilder::new(config)
        .sync(&local, &remote)
        .unwrap();
    assert_eq!(last.folders_patch.len(), 0);
    assert_eq!(last.envelopes_patch.len(), 0);
    assert_eq!(last.envelopes_cache_patch.0.len(), 0);
}

#[test]
fn disabled_sync_is_refused() {
    let local = MemBackend::new("local", &[]);
    let remote = MemBackend::new("remote", &[]);
    let mut config = fresh_account("disabled");
    config.sync = false;
    let err = BackendSyncBuilder::new(config).sync(&local, &remote).unwrap_err();
    assert!(matches!(err, BackendError::SyncNotEnabled(_)));
}

#[test]
fn dry_run_plans_but_touches_nothing() {
    let local = MemBackend::new("local", &["INBOX"]);
    let remote = MemBackend::new("remote", &["INBOX"]);
    remote.put("INBOX", "<only@x>", vec![]);

    let config = fresh_account("dryrun");
    let report = BackendSyncBuilder::new(config)
        .dry_run(true)
        .on_progress(true)
        .sync(&local, &remote)
        .unwrap();
    assert_eq!(report.envelopes_patch.len(), 1);
    assert!(local.bodies("INBOX").is_empty());
    // Each folder's envelope phase is announced at its one-based
    // position among the reconciled folders.
    for (i, folder) in report.folders.iter().enumerate() {
        assert!(report.progress_events.iter().any(|e| matches!(
            e,
            BackendSyncProgressEvent::StartEnvelopesSync(f, p, t)
                if f == folder && *p == i + 1 && *t == report.folders.len()
        )));
    }
}

#[test]
fn failing_progress_callback_aborts_the_pass() {
    let local = MemBackend::new("local", &["INBOX"]);
    let remote = MemBackend::new("remote", &["INBOX"]);
    remote.put("INBOX", "<only@x>", vec![]);

    let config = fresh_account("abort");
    let refuse = |_event: &mailsync::backend::BackendSyncProgressEvent| -> Result<(), String> {
        Err(String::from("stop"))
    };
    let err = BackendSyncBuilder::new(config.clone())
        .sync_with_progress(&local, &remote, &refuse)
        .unwrap_err();
    assert!(matches!(err, BackendError::Progress(_)));
    // The aborted pass rolled its cache writes back, so a later full
    // pass still sees uncached state and converges from scratch.
    assert!(local.bodies("INBOX").is_empty());
    BackendSyncBuilder::new(config).sync(&local, &remote).unwrap();
    assert_eq!(local.bodies("INBOX"), vec!["<only@x>"]);
    assert_eq!(remote.bodies("INBOX"), vec!["<only@x>"]);
}
