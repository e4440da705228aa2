//! The capability interface every mailbox store implements, and the
//! types a synchronization pass is configured with and reports
//! through.

use vstd::prelude::*;

use crate::cache::{open_sync_db, Cache};
use crate::envelope::Envelope;
use crate::envelope_sync::{
    build_envelope_patch, EnvelopeSyncCacheHunk, EnvelopeSyncHunk, EnvelopeSyncPlan,
};
use crate::flag::{Flag, Flags};
use crate::folder_sync::{
    build_folder_patch, spec_restrict_names, FolderSyncCacheHunk, FolderSyncHunk, Side,
};
use crate::numstr::{spec_dec_chars, u64_to_string};

verus! {

/// Why a backend operation failed.
#[derive(Debug)]
pub enum BackendError {
    /// No backend kind is configured.
    BuildBackend,
    /// The account's sync lock could not be taken.
    SyncAccountLock(String),
    /// Synchronization is not enabled for the account.
    SyncNotEnabled(String),
    /// A listing was asked for a page out of range.
    OutOfBounds(usize),
    /// No entity with the given identifier.
    NotFound(String),
    /// The store does not support searching.
    SearchEnvelopesUnimplemented,
    /// The sync cache could not be read or written.
    Cache(String),
    /// The caller's progress callback refused an event, aborting the
    /// pass.
    Progress(String),
    /// Any other failure of the underlying store, with its message.
    Other(String),
}

/// A folder as a backend lists it.
#[derive(Debug)]
pub struct Folder {
    pub delim: String,
    pub name: String,
    pub desc: String,
}

impl Clone for Folder {
    fn clone(&self) -> (r: Folder)
        ensures
            r.delim@ == self.delim@,
            r.name@ == self.name@,
            r.desc@ == self.desc@,
    {
        Folder { delim: self.delim.clone(), name: self.name.clone(), desc: self.desc.clone() }
    }
}

/// The operations every mailbox store offers. Each identifier-taking
/// operation has a twin that takes backend-internal identifiers;
/// stores that draw no distinction inherit the forwarding twin.
pub trait Backend {
    fn name(&self) -> String;

    fn add_folder(&self, folder: &str) -> Result<(), BackendError>;

    fn list_folders(&self) -> Result<Vec<Folder>, BackendError>;

    fn expunge_folder(&self, folder: &str) -> Result<(), BackendError>;

    fn purge_folder(&self, folder: &str) -> Result<(), BackendError>;

    fn delete_folder(&self, folder: &str) -> Result<(), BackendError>;

    fn get_envelope(&self, folder: &str, id: &str) -> Result<Envelope, BackendError>;

    fn get_envelope_internal(&self, folder: &str, internal_id: &str) -> Result<
        Envelope,
        BackendError,
    > {
        self.get_envelope(folder, internal_id)
    }

    fn list_envelopes(&self, folder: &str, page_size: usize, page: usize) -> Result<
        Vec<Envelope>,
        BackendError,
    >;

    fn search_envelopes(
        &self,
        folder: &str,
        query: &str,
        sort: &str,
        page_size: usize,
        page: usize,
    ) -> Result<Vec<Envelope>, BackendError>;

    fn add_email(&self, folder: &str, email: &Vec<u8>, flags: &Flags) -> Result<
        String,
        BackendError,
    >;

    fn add_email_internal(&self, folder: &str, email: &Vec<u8>, flags: &Flags) -> Result<
        String,
        BackendError,
    > {
        self.add_email(folder, email, flags)
    }

    fn preview_emails(&self, folder: &str, ids: &Vec<String>) -> Result<Vec<Vec<u8>>, BackendError>;

    fn preview_emails_internal(&self, folder: &str, internal_ids: &Vec<String>) -> Result<
        Vec<Vec<u8>>,
        BackendError,
    > {
        self.preview_emails(folder, internal_ids)
    }

    fn get_emails(&self, folder: &str, ids: &Vec<String>) -> Result<Vec<Vec<u8>>, BackendError>;

    fn get_emails_internal(&self, folder: &str, internal_ids: &Vec<String>) -> Result<
        Vec<Vec<u8>>,
        BackendError,
    > {
        self.get_emails(folder, internal_ids)
    }

    fn copy_emails(&self, from_folder: &str, to_folder: &str, ids: &Vec<String>) -> Result<
        (),
        BackendError,
    >;

    fn copy_emails_internal(
        &self,
        from_folder: &str,
        to_folder: &str,
        internal_ids: &Vec<String>,
    ) -> Result<(), BackendError> {
        self.copy_emails(from_folder, to_folder, internal_ids)
    }

    fn move_emails(&self, from_folder: &str, to_folder: &str, ids: &Vec<String>) -> Result<
        (),
        BackendError,
    >;

    fn move_emails_internal(
        &self,
        from_folder: &str,
        to_folder: &str,
        internal_ids: &Vec<String>,
    ) -> Result<(), BackendError> {
        self.move_emails(from_folder, to_folder, internal_ids)
    }

    fn mark_emails_as_deleted(&self, folder: &str, ids: &Vec<String>) -> Result<
        (),
        BackendError,
    > {
        let mut deleted: Vec<Flag> = Vec::new();
        deleted.push(Flag::Deleted);
        self.add_flags(folder, ids, &Flags::from_iter(deleted))
    }

    fn mark_emails_as_deleted_internal(&self, folder: &str, internal_ids: &Vec<String>) -> Result<
        (),
        BackendError,
    > {
        let mut deleted: Vec<Flag> = Vec::new();
        deleted.push(Flag::Deleted);
        self.add_flags_internal(folder, internal_ids, &Flags::from_iter(deleted))
    }

    fn delete_emails(&self, folder: &str, ids: &Vec<String>) -> Result<(), BackendError>;

    fn delete_emails_internal(&self, folder: &str, internal_ids: &Vec<String>) -> Result<
        (),
        BackendError,
    > {
        self.delete_emails(folder, internal_ids)
    }

    fn add_flags(&self, folder: &str, ids: &Vec<String>, flags: &Flags) -> Result<
        (),
        BackendError,
    >;

    fn add_flags_internal(&self, folder: &str, internal_ids: &Vec<String>, flags: &Flags) -> Result<
        (),
        BackendError,
    > {
        self.add_flags(folder, internal_ids, flags)
    }

    fn set_flags(&self, folder: &str, ids: &Vec<String>, flags: &Flags) -> Result<
        (),
        BackendError,
    >;

    fn set_flags_internal(&self, folder: &str, internal_ids: &Vec<String>, flags: &Flags) -> Result<
        (),
        BackendError,
    > {
        self.set_flags(folder, internal_ids, flags)
    }

    fn remove_flags(&self, folder: &str, ids: &Vec<String>, flags: &Flags) -> Result<
        (),
        BackendError,
    >;

    fn remove_flags_internal(
        &self,
        folder: &str,
        internal_ids: &Vec<String>,
        flags: &Flags,
    ) -> Result<(), BackendError> {
        self.remove_flags(folder, internal_ids, flags)
    }

    fn close(&self) -> Result<(), BackendError> {
        Ok(())
    }
}

/// What a sync pass is about to do, sent at defined checkpoints so a
/// caller can render progress.
#[derive(Debug)]
pub enum BackendSyncProgressEvent {
    GetLocalCachedFolders,
    GetLocalFolders,
    GetRemoteCachedFolders,
    GetRemoteFolders,
    BuildFoldersPatch,
    ProcessFoldersPatch(usize),
    ProcessFolderHunk(String),
    StartEnvelopesSync(String, usize, usize),
    GetLocalCachedEnvelopes,
    GetLocalEnvelopes,
    GetRemoteCachedEnvelopes,
    GetRemoteEnvelopes,
    BuildEnvelopesPatch,
    ProcessEnvelopesPatch(usize),
    ProcessEnvelopeHunk(String),
}

impl BackendSyncProgressEvent {
    /// The event's one-line description.
    pub fn to_display_string(&self) -> (r: String)
        ensures
            r@ == spec_event_display(self),
    {
        proof {
            reveal_strlit("Getting local cached folders");
            reveal_strlit("Getting local folders");
            reveal_strlit("Getting remote cached folders");
            reveal_strlit("Getting remote folders");
            reveal_strlit("Building folders patch");
            reveal_strlit("Processing ");
            reveal_strlit(" hunks of folders patch");
            reveal_strlit("Processing folder hunk: ");
            reveal_strlit("Starting envelopes synchronization");
            reveal_strlit("Getting local cached envelopes");
            reveal_strlit("Getting local envelopes");
            reveal_strlit("Getting remote cached envelopes");
            reveal_strlit("Getting remote envelopes");
            reveal_strlit("Building envelopes patch");
            reveal_strlit(" hunks of envelopes patch");
            reveal_strlit("Processing envelope hunk: ");
        }
        match self {
            BackendSyncProgressEvent::GetLocalCachedFolders => String::from_str(
                "Getting local cached folders",
            ),
            BackendSyncProgressEvent::GetLocalFolders => String::from_str("Getting local folders"),
            BackendSyncProgressEvent::GetRemoteCachedFolders => String::from_str(
                "Getting remote cached folders",
            ),
            BackendSyncProgressEvent::GetRemoteFolders => String::from_str(
                "Getting remote folders",
            ),
            BackendSyncProgressEvent::BuildFoldersPatch => String::from_str(
                "Building folders patch",
            ),
            BackendSyncProgressEvent::ProcessFoldersPatch(n) => {
                let mut s = String::from_str("Processing ");
                s.append(u64_to_string(*n as u64).as_str());
                s.append(" hunks of folders patch");
                s
            },
            BackendSyncProgressEvent::ProcessFolderHunk(h) => {
                let mut s = String::from_str("Processing folder hunk: ");
                s.append(h.as_str());
                s
            },
            BackendSyncProgressEvent::StartEnvelopesSync(_, _, _) => String::from_str(
                "Starting envelopes synchronization",
            ),
            BackendSyncProgressEvent::GetLocalCachedEnvelopes => String::from_str(
                "Getting local cached envelopes",
            ),
            BackendSyncProgressEvent::GetLocalEnvelopes => String::from_str(
                "Getting local envelopes",
            ),
            BackendSyncProgressEvent::GetRemoteCachedEnvelopes => String::from_str(
                "Getting remote cached envelopes",
            ),
            BackendSyncProgressEvent::GetRemoteEnvelopes => String::from_str(
                "Getting remote envelopes",
            ),
            BackendSyncProgressEvent::BuildEnvelopesPatch => String::from_str(
                "Building envelopes patch",
            ),
            BackendSyncProgressEvent::ProcessEnvelopesPatch(n) => {
                let mut s = String::from_str("Processing ");
                s.append(u64_to_string(*n as u64).as_str());
                s.append(" hunks of envelopes patch");
                s
            },
            BackendSyncProgressEvent::ProcessEnvelopeHunk(h) => {
                let mut s = String::from_str("Processing envelope hunk: ");
                s.append(h.as_str());
                s
            },
        }
    }
}

/// The one-line description of a progress event.
pub open spec fn spec_event_display(e: &BackendSyncProgressEvent) -> Seq<char> {
    match e {
        BackendSyncProgressEvent::GetLocalCachedFolders => "Getting local cached folders"@,
        BackendSyncProgressEvent::GetLocalFolders => "Getting local folders"@,
        BackendSyncProgressEvent::GetRemoteCachedFolders => "Getting remote cached folders"@,
        BackendSyncProgressEvent::GetRemoteFolders => "Getting remote folders"@,
        BackendSyncProgressEvent::BuildFoldersPatch => "Building folders patch"@,
        BackendSyncProgressEvent::ProcessFoldersPatch(n) => "Processing "@ + spec_dec_chars(
            *n as nat,
        ) + " hunks of folders patch"@,
        BackendSyncProgressEvent::ProcessFolderHunk(h) => "Processing folder hunk: "@ + h@,
        BackendSyncProgressEvent::StartEnvelopesSync(_, _, _) =>
            "Starting envelopes synchronization"@,
        BackendSyncProgressEvent::GetLocalCachedEnvelopes => "Getting local cached envelopes"@,
        BackendSyncProgressEvent::GetLocalEnvelopes => "Getting local envelopes"@,
        BackendSyncProgressEvent::GetRemoteCachedEnvelopes => "Getting remote cached envelopes"@,
        BackendSyncProgressEvent::GetRemoteEnvelopes => "Getting remote envelopes"@,
        BackendSyncProgressEvent::BuildEnvelopesPatch => "Building envelopes patch"@,
        BackendSyncProgressEvent::ProcessEnvelopesPatch(n) => "Processing "@ + spec_dec_chars(
            *n as nat,
        ) + " hunks of envelopes patch"@,
        BackendSyncProgressEvent::ProcessEnvelopeHunk(h) => "Processing envelope hunk: "@ + h@,
    }
}

/// What one full sync pass did: the reconciled folder names, each
/// hunk with its outcome, and the cache changes with theirs. A `None`
/// outcome is success; backend outcomes and cache outcomes are kept
/// apart so a caller can tell a diverged mailbox from failed
/// bookkeeping.
#[derive(Debug)]
pub struct BackendSyncReport {
    pub folders: Vec<String>,
    pub folders_patch: Vec<(FolderSyncHunk, Option<BackendError>)>,
    pub folders_cache_patch: (Vec<FolderSyncCacheHunk>, Option<BackendError>),
    pub envelopes_patch: Vec<(EnvelopeSyncHunk, Option<BackendError>)>,
    pub envelopes_cache_patch: (Vec<EnvelopeSyncCacheHunk>, Vec<BackendError>),
    pub progress_events: Vec<BackendSyncProgressEvent>,
}

/// The account settings a sync pass reads.
#[derive(Debug)]
pub struct AccountConfig {
    /// The account's name, which keys its cache rows and its lock.
    pub name: String,
    /// Whether synchronization is enabled for the account.
    pub sync: bool,
    /// The directory the account's local replica and sync cache live
    /// in.
    pub sync_dir: String,
}

impl Clone for AccountConfig {
    fn clone(&self) -> (r: AccountConfig)
        ensures
            r.name@ == self.name@,
            r.sync == self.sync,
            r.sync_dir@ == self.sync_dir@,
    {
        AccountConfig {
            name: self.name.clone(),
            sync: self.sync,
            sync_dir: self.sync_dir.clone(),
        }
    }
}

/// Configures one synchronization pass.
#[derive(Debug)]
pub struct BackendSyncBuilder {
    pub account_config: AccountConfig,
    pub progress: bool,
    pub folders: Option<Vec<String>>,
    pub dry_run: bool,
}

impl BackendSyncBuilder {
    pub fn new(account_config: AccountConfig) -> (r: BackendSyncBuilder)
        ensures
            r.account_config.name@ == account_config.name@,
            r.account_config.sync == account_config.sync,
            r.account_config.sync_dir@ == account_config.sync_dir@,
            !r.progress,
            r.folders is None,
            !r.dry_run,
    {
        BackendSyncBuilder { account_config, progress: false, folders: None, dry_run: false }
    }

    /// Asks the pass to record a progress event at each checkpoint in
    /// its report.
    pub fn on_progress(self, enabled: bool) -> (r: BackendSyncBuilder)
        ensures
            r.progress == enabled,
            r.account_config == self.account_config,
            r.folders == self.folders,
            r.dry_run == self.dry_run,
    {
        BackendSyncBuilder { progress: enabled, ..self }
    }

    /// Lets the pass touch every folder.
    pub fn all_folders(self) -> (r: BackendSyncBuilder)
        ensures
            r.folders is None,
            r.account_config == self.account_config,
            r.progress == self.progress,
            r.dry_run == self.dry_run,
    {
        BackendSyncBuilder { folders: None, ..self }
    }

    /// Restricts the pass to one more named folder.
    pub fn only_folder(self, folder: String) -> (r: BackendSyncBuilder)
        ensures
            match self.folders {
                None => r.folders matches Some(fs) && fs@.len() == 1 && fs@[0] == folder,
                Some(prior) => r.folders matches Some(fs) && fs@ == prior@.push(folder),
            },
            r.account_config == self.account_config,
            r.progress == self.progress,
            r.dry_run == self.dry_run,
    {
        let folders = match self.folders {
            None => {
                let mut fs: Vec<String> = Vec::new();
                fs.push(folder);
                Some(fs)
            },
            Some(mut fs) => {
                fs.push(folder);
                Some(fs)
            },
        };
        BackendSyncBuilder { folders, ..self }
    }

    /// Restricts the pass to exactly the named folders.
    pub fn only_folders(self, folders: Vec<String>) -> (r: BackendSyncBuilder)
        ensures
            r.folders matches Some(fs) && fs == folders,
            r.account_config == self.account_config,
            r.progress == self.progress,
            r.dry_run == self.dry_run,
    {
        BackendSyncBuilder { folders: Some(folders), ..self }
    }

    /// Makes the pass plan without touching any store.
    pub fn dry_run(self, dry_run: bool) -> (r: BackendSyncBuilder)
        ensures
            r.dry_run == dry_run,
            r.account_config == self.account_config,
            r.progress == self.progress,
            r.folders == self.folders,
    {
        BackendSyncBuilder { dry_run, ..self }
    }
}

/// Chooses and configures a backend kind.
#[derive(Debug)]
pub struct BackendBuilder {
    pub sessions_pool_size: usize,
    pub disable_cache: bool,
}

impl BackendBuilder {
    pub fn new() -> (r: BackendBuilder)
        ensures
            r.sessions_pool_size == 0,
            !r.disable_cache,
    {
        BackendBuilder { sessions_pool_size: 0, disable_cache: false }
    }

    /// How many protocol sessions a pooled backend may hold.
    pub fn sessions_pool_size(self, pool_size: usize) -> (r: BackendBuilder)
        ensures
            r.sessions_pool_size == pool_size,
            r.disable_cache == self.disable_cache,
    {
        BackendBuilder { sessions_pool_size: pool_size, ..self }
    }

    /// Whether to bypass the local replica and talk to the remote
    /// store directly.
    pub fn disable_cache(self, disable_cache: bool) -> (r: BackendBuilder)
        ensures
            r.disable_cache == disable_cache,
            r.sessions_pool_size == self.sessions_pool_size,
    {
        BackendBuilder { disable_cache, ..self }
    }
}

impl Default for BackendBuilder {
    fn default() -> (r: BackendBuilder)
        ensures
            r.sessions_pool_size == 0,
            !r.disable_cache,
    {
        BackendBuilder::new()
    }
}

/// Relies on proc-lock: declares its guard type; the lock is held
/// while the guard lives and released when it drops.
#[verifier::external_type_specification]
#[verifier::external_body]
pub struct ExLockGuard(proc_lock::LockGuard);

/// Relies on proc-lock's `lock`: takes the named advisory file lock
/// under the system's temporary directory, blocking until it is free.
#[verifier::external_body]
fn acquire_sync_lock(name: &str) -> (r: Result<proc_lock::LockGuard, String>) {
    proc_lock::lock(&proc_lock::LockPath::Tmp(name)).map_err(|e| format!("{e}"))
}

/// The names of a folder listing.
pub open spec fn spec_listing_names(folders: Seq<Folder>) -> Seq<Seq<char>> {
    folders.map_values(|f: Folder| f.name@)
}

/// Whether the event announces the start of the given folder's
/// envelope phase, with its one-based position and the folder total.
pub open spec fn spec_is_start_event(
    e: BackendSyncProgressEvent,
    folder: Seq<char>,
    position: int,
    total: int,
) -> bool {
    e matches BackendSyncProgressEvent::StartEnvelopesSync(f, p, t) && f@ == folder && p == position
        && t == total
}

/// Whether the recorded events announce every folder's envelope phase
/// at its one-based position.
pub open spec fn spec_all_starts_recorded(
    events: Seq<BackendSyncProgressEvent>,
    folders: Seq<String>,
    upto: int,
) -> bool {
    forall|i: int|
        0 <= i < upto ==> exists|k: int|
            0 <= k < events.len() && spec_is_start_event(
                #[trigger] events[k],
                (#[trigger] folders[i])@,
                i + 1,
                folders.len() as int,
            )
}

/// The view of an optional allow-list.
pub open spec fn spec_allow_names(allow: Option<Vec<String>>) -> Option<Seq<Seq<char>>> {
    match allow {
        Some(v) => Some(crate::folder_sync::spec_names(v@)),
        None => None,
    }
}

/// The names of the listed folders, kept to the allow-list when one
/// is given, in listing order.
#[verifier::loop_isolation(false)]
fn folder_names_of(folders: &Vec<Folder>, allow: &Option<Vec<String>>) -> (r: Vec<String>)
    ensures
        crate::folder_sync::spec_names(r@) == spec_restrict_names(
            spec_listing_names(folders@),
            spec_allow_names(*allow),
        ),
{
    let ghost all = spec_listing_names(folders@);
    let ghost allowv = spec_allow_names(*allow);
    let mut names: Vec<String> = Vec::new();
    let n = folders.len();
    let mut i: usize = 0;
    proof {
        assert(crate::folder_sync::spec_names(names@) =~= spec_restrict_names(all.take(0), allowv));
    }
    while i < n
        invariant
            n == folders.len(),
            i <= n,
            crate::folder_sync::spec_names(names@) == spec_restrict_names(
                all.take(i as int),
                allowv,
            ),
        decreases n - i,
    {
        let name = &folders[i].name;
        let keep = match allow {
            None => true,
            Some(allowed) => crate::folder_sync::contains_name(allowed, name),
        };
        proof {
            assert(all.take(i + 1).drop_last() =~= all.take(i as int));
            assert(all.take(i + 1).last() == all[i as int]);
            assert(all[i as int] == name@);
        }
        if keep {
            names.push(name.clone());
        }
        proof {
            assert(crate::folder_sync::spec_names(names@) =~= spec_restrict_names(
                all.take(i + 1),
                allowv,
            ));
        }
        i = i + 1;
    }
    proof {
        assert(all.take(n as int) =~= all);
    }
    names
}

/// The same envelopes in the same order, each with its flag set
/// rebuilt, so every flag set is well-formed whatever the backend
/// handed back.
#[verifier::loop_isolation(false)]
fn normalize_envelopes(envelopes: Vec<Envelope>) -> (r: Vec<Envelope>)
    ensures
        r@.len() == envelopes@.len(),
        forall|k: int|
            0 <= k < r@.len() ==> (#[trigger] r@[k])@ == envelopes@[k]@ && r@[k].wf(),
{
    let mut out: Vec<Envelope> = Vec::new();
    let n = envelopes.len();
    let mut i: usize = 0;
    while i < n
        invariant
            n == envelopes.len(),
            i <= n,
            out@.len() == i,
            forall|k: int|
                0 <= k < i ==> (#[trigger] out@[k])@ == envelopes@[k]@ && out@[k].wf(),
        decreases n - i,
    {
        let mut e = envelopes[i].clone();
        let flags = e.flags.normalized();
        e.flags = flags;
        proof {
            assert(e@ == envelopes@[i as int]@);
        }
        out.push(e);
        i = i + 1;
    }
    out
}

/// One message copy's outcome: which internal identifier the target
/// store assigned, so the target-side cache row can carry it.
struct CopyOutcome {
    folder: String,
    target: Side,
    source_internal_id: String,
    new_internal_id: String,
}

impl BackendSyncBuilder {
    /// Runs one synchronization pass against the given local and
    /// remote stores, with no progress callback.
    pub fn sync<L: Backend, R: Backend>(&self, local: &L, remote: &R) -> (res: Result<
        BackendSyncReport,
        BackendError,
    >)
        ensures
            (res matches Err(e) && e is SyncNotEnabled) <==> !self.account_config.sync,
            res matches Err(e) ==> {
                ||| e is SyncNotEnabled
                ||| e is SyncAccountLock
                ||| e is Cache
                ||| e is Progress
                ||| e is Other
            },
            res matches Ok(r) ==> {
                &&& (self.dry_run ==> (forall|k: int|
                    0 <= k < r.folders_patch@.len() ==> (#[trigger] r.folders_patch@[k]).1 is None)
                    && (forall|k: int|
                    0 <= k < r.envelopes_patch@.len()
                        ==> (#[trigger] r.envelopes_patch@[k]).1 is None)
                    && r.folders_cache_patch.1 is None)
                &&& (!self.progress ==> r.progress_events@.len() == 0)
                &&& (self.progress ==> spec_all_starts_recorded(
                    r.progress_events@,
                    r.folders@,
                    r.folders@.len() as int,
                ))
            },
    {
        let quiet = |_event: &BackendSyncProgressEvent| -> Result<(), String> { Ok(()) };
        self.sync_with_progress(local, remote, &quiet)
    }

    /// Runs one synchronization pass against the given local and
    /// remote stores, handing every progress event to the callback; a
    /// callback failure aborts the whole pass.
    ///
    /// The pass takes the account's lock, opens the cache, runs every
    /// cache read and write of the pass inside one transaction,
    /// reconciles folders, then reconciles each surviving folder's
    /// envelopes, applying message copies before flag changes. A setup
    /// failure — sync disabled, the lock, the cache database — or a
    /// callback failure rolls the transaction back and aborts; a
    /// failure while applying one hunk is recorded beside that hunk in
    /// the report, and the pass goes on. Snapshot failures of one
    /// folder are recorded in the report's error list and the folder
    /// is passed over.
    #[verifier::loop_isolation(false)]
    pub fn sync_with_progress<
        L: Backend,
        R: Backend,
        F: Fn(&BackendSyncProgressEvent) -> Result<(), String>,
    >(&self, local: &L, remote: &R, on_progress: &F) -> (res: Result<
        BackendSyncReport,
        BackendError,
    >)
        requires
            forall|e: &BackendSyncProgressEvent| #[trigger] call_requires(*on_progress, (e,)),
        ensures
            (res matches Err(e) && e is SyncNotEnabled) <==> !self.account_config.sync,
            res matches Err(e) ==> {
                ||| e is SyncNotEnabled
                ||| e is SyncAccountLock
                ||| e is Cache
                ||| e is Progress
                ||| e is Other
            },
            res matches Ok(r) ==> {
                &&& (self.dry_run ==> (forall|k: int|
                    0 <= k < r.folders_patch@.len() ==> (#[trigger] r.folders_patch@[k]).1 is None)
                    && (forall|k: int|
                    0 <= k < r.envelopes_patch@.len()
                        ==> (#[trigger] r.envelopes_patch@[k]).1 is None)
                    && r.folders_cache_patch.1 is None)
                &&& (!self.progress ==> r.progress_events@.len() == 0)
                &&& (self.progress ==> spec_all_starts_recorded(
                    r.progress_events@,
                    r.folders@,
                    r.folders@.len() as int,
                ))
            },
    {
        let account = &self.account_config.name;
        if !self.account_config.sync {
            return Err(BackendError::SyncNotEnabled(account.clone()));
        }
        let mut lock_name = String::from_str("mailsync-");
        lock_name.append(account.as_str());
        lock_name.append(".lock");
        let _guard = match acquire_sync_lock(lock_name.as_str()) {
            Ok(g) => g,
            Err(e) => {
                return Err(BackendError::SyncAccountLock(e));
            },
        };

        let conn = match open_sync_db(self.account_config.sync_dir.as_str()) {
            Ok(c) => c,
            Err(e) => {
                return Err(BackendError::Cache(e));
            },
        };
        if let Err(e) = Cache::init(&conn) {
            return Err(BackendError::Cache(e));
        }
        if let Err(e) = Cache::init_envelopes(&conn) {
            return Err(BackendError::Cache(e));
        }
        if let Err(e) = crate::cache::begin_transaction(&conn) {
            return Err(BackendError::Cache(e));
        }

        let mut events: Vec<BackendSyncProgressEvent> = Vec::new();

        // Folder phase: read the four snapshots.
        if let Err(msg) = self.emit(&mut events, on_progress, BackendSyncProgressEvent::GetLocalCachedFolders) {
            return Self::abort(&conn, BackendError::Progress(msg));
        }
        let allow_ref: Option<&Vec<String>> = match &self.folders {
            Some(fs) => Some(fs),
            None => None,
        };
        let local_cached_folders = match Cache::list_local_folders(
            &conn,
            account.as_str(),
            allow_ref,
        ) {
            Ok(v) => v,
            Err(e) => {
                return Self::abort(&conn, BackendError::Cache(e));
            },
        };
        if let Err(msg) = self.emit(&mut events, on_progress, BackendSyncProgressEvent::GetLocalFolders) {
            return Self::abort(&conn, BackendError::Progress(msg));
        }
        let local_folders = match local.list_folders() {
            Ok(v) => folder_names_of(&v, &self.folders),
            Err(_) => {
                return Self::abort(
                    &conn,
                    BackendError::Other(String::from_str("local folder listing failed")),
                );
            },
        };
        if let Err(msg) = self.emit(&mut events, on_progress, BackendSyncProgressEvent::GetRemoteCachedFolders) {
            return Self::abort(&conn, BackendError::Progress(msg));
        }
        let remote_cached_folders = match Cache::list_remote_folders(
            &conn,
            account.as_str(),
            allow_ref,
        ) {
            Ok(v) => v,
            Err(e) => {
                return Self::abort(&conn, BackendError::Cache(e));
            },
        };
        if let Err(msg) = self.emit(&mut events, on_progress, BackendSyncProgressEvent::GetRemoteFolders) {
            return Self::abort(&conn, BackendError::Progress(msg));
        }
        let remote_folders = match remote.list_folders() {
            Ok(v) => folder_names_of(&v, &self.folders),
            Err(_) => {
                return Self::abort(
                    &conn,
                    BackendError::Other(String::from_str("remote folder listing failed")),
                );
            },
        };

        if let Err(msg) = self.emit(&mut events, on_progress, BackendSyncProgressEvent::BuildFoldersPatch) {
            return Self::abort(&conn, BackendError::Progress(msg));
        }
        let folder_plan = build_folder_patch(
            &local_cached_folders,
            &local_folders,
            &remote_cached_folders,
            &remote_folders,
        );
        if let Err(msg) = self.emit(
            &mut events,
            on_progress,
            BackendSyncProgressEvent::ProcessFoldersPatch(folder_plan.patch.len()),
        ) {
            return Self::abort(&conn, BackendError::Progress(msg));
        }

        // Folder phase: apply, creations before deletions before
        // cache updates, recording one outcome per hunk.
        let mut folders_patch: Vec<(crate::folder_sync::FolderSyncHunk, Option<BackendError>)> =
            Vec::new();
        let fp_len = folder_plan.patch.len();
        let mut fi: usize = 0;
        while fi < fp_len
            invariant
                fp_len == folder_plan.patch.len(),
                fi <= fp_len,
                forall|e: &BackendSyncProgressEvent| #[trigger] call_requires(*on_progress, (e,)),
                self.dry_run ==> forall|k: int|
                    0 <= k < folders_patch@.len() ==> (#[trigger] folders_patch@[k]).1 is None,
                !self.progress ==> events@.len() == 0,
            decreases fp_len - fi,
        {
            let hunk = folder_plan.patch[fi].clone();
            let hunk_name = match &hunk {
                crate::folder_sync::FolderSyncHunk::CreateFolder(n2, _) => n2.clone(),
                crate::folder_sync::FolderSyncHunk::DeleteFolder(n2, _) => n2.clone(),
            };
            if let Err(msg) = self.emit(
                &mut events,
                on_progress,
                BackendSyncProgressEvent::ProcessFolderHunk(hunk_name),
            ) {
                return Self::abort(&conn, BackendError::Progress(msg));
            }
            let outcome: Option<BackendError> = if self.dry_run {
                None
            } else {
                let applied = match &hunk {
                    crate::folder_sync::FolderSyncHunk::CreateFolder(n2, Side::Local) =>
                        local.add_folder(n2.as_str()),
                    crate::folder_sync::FolderSyncHunk::CreateFolder(n2, Side::Remote) =>
                        remote.add_folder(n2.as_str()),
                    crate::folder_sync::FolderSyncHunk::DeleteFolder(n2, Side::Local) =>
                        local.delete_folder(n2.as_str()),
                    crate::folder_sync::FolderSyncHunk::DeleteFolder(n2, Side::Remote) =>
                        remote.delete_folder(n2.as_str()),
                };
                match applied {
                    Ok(_) => None,
                    Err(e) => Some(e),
                }
            };
            folders_patch.push((hunk, outcome));
            fi = fi + 1;
        }

        let mut folders_cache_error: Option<BackendError> = None;
        let fcp_len = folder_plan.cache_patch.len();
        let mut fci: usize = 0;
        while fci < fcp_len
            invariant
                fcp_len == folder_plan.cache_patch.len(),
                fci <= fcp_len,
                self.dry_run ==> folders_cache_error is None,
            decreases fcp_len - fci,
        {
            if !self.dry_run && folders_cache_error.is_none() {
                let applied = match &folder_plan.cache_patch[fci] {
                    crate::folder_sync::FolderSyncCacheHunk::InsertFolder(n2, Side::Local) =>
                        Cache::insert_local_folder(&conn, account.as_str(), n2.as_str()),
                    crate::folder_sync::FolderSyncCacheHunk::InsertFolder(n2, Side::Remote) =>
                        Cache::insert_remote_folder(&conn, account.as_str(), n2.as_str()),
                    crate::folder_sync::FolderSyncCacheHunk::DeleteFolder(n2, Side::Local) =>
                        Cache::delete_local_folder(&conn, account.as_str(), n2.as_str()),
                    crate::folder_sync::FolderSyncCacheHunk::DeleteFolder(n2, Side::Remote) =>
                        Cache::delete_remote_folder(&conn, account.as_str(), n2.as_str()),
                };
                if let Err(e) = applied {
                    folders_cache_error = Some(BackendError::Cache(e));
                }
            }
            fci = fci + 1;
        }

        // Envelope phase, folder by folder.
        let mut envelopes_patch: Vec<(
            crate::envelope_sync::EnvelopeSyncHunk,
            Option<BackendError>,
        )> = Vec::new();
        let mut envelopes_cache_hunks: Vec<crate::envelope_sync::EnvelopeSyncCacheHunk> =
            Vec::new();
        let mut envelopes_cache_errors: Vec<BackendError> = Vec::new();

        let folder_total = folder_plan.folders.len();
        let mut foi: usize = 0;
        while foi < folder_total
            invariant
                folder_total == folder_plan.folders.len(),
                foi <= folder_total,
                forall|e: &BackendSyncProgressEvent| #[trigger] call_requires(*on_progress, (e,)),
                self.dry_run ==> forall|k: int|
                    0 <= k < envelopes_patch@.len() ==> (#[trigger] envelopes_patch@[k]).1 is None,
                !self.progress ==> events@.len() == 0,
                self.progress ==> spec_all_starts_recorded(
                    events@,
                    folder_plan.folders@,
                    foi as int,
                ),
            decreases folder_total - foi,
        {
            let folder = folder_plan.folders[foi].clone();
            let ghost events_pre = events@;
            if let Err(msg) = self.emit(
                &mut events,
                on_progress,
                BackendSyncProgressEvent::StartEnvelopesSync(folder.clone(), foi + 1, folder_total),
            ) {
                return Self::abort(&conn, BackendError::Progress(msg));
            }
            proof {
                if self.progress {
                    assert(events@.len() > events_pre.len());
                    assert(events@[events@.len() - 1] == BackendSyncProgressEvent::StartEnvelopesSync(
                        folder,
                        (foi + 1) as usize,
                        folder_total,
                    ));
                }
            }
            let ghost events_mid = events@;
            let outcome = self.sync_folder_envelopes(
                local,
                remote,
                &conn,
                &folder,
                on_progress,
                &mut events,
                &mut envelopes_patch,
                &mut envelopes_cache_hunks,
                &mut envelopes_cache_errors,
            );
            if let Err(msg) = outcome {
                return Self::abort(&conn, BackendError::Progress(msg));
            }
            if !self.dry_run {
                if let Err(e) = local.expunge_folder(folder.as_str()) {
                    envelopes_cache_errors.push(e);
                }
                if let Err(e) = remote.expunge_folder(folder.as_str()) {
                    envelopes_cache_errors.push(e);
                }
            }
            proof {
                if self.progress {
                    assert forall|i2: int| 0 <= i2 < foi + 1 implies exists|k: int|
                        0 <= k < events@.len() && spec_is_start_event(
                            #[trigger] events@[k],
                            (#[trigger] folder_plan.folders@[i2])@,
                            i2 + 1,
                            folder_plan.folders@.len() as int,
                        ) by {
                        if i2 == foi {
                            let at = events_mid.len() - 1;
                            assert(spec_is_start_event(
                                events_mid[at],
                                folder_plan.folders@[i2]@,
                                i2 + 1,
                                folder_plan.folders@.len() as int,
                            ));
                            assert(events@[at] == events_mid[at]);
                        } else {
                            let k = choose|k: int|
                                0 <= k < events_pre.len() && spec_is_start_event(
                                    #[trigger] events_pre[k],
                                    folder_plan.folders@[i2]@,
                                    i2 + 1,
                                    folder_plan.folders@.len() as int,
                                );
                            assert(events_mid[k] == events_pre[k]);
                            assert(events@[k] == events_mid[k]);
                        }
                    }
                    assert(spec_all_starts_recorded(
                        events@,
                        folder_plan.folders@,
                        foi + 1,
                    ));
                }
            }
            foi = foi + 1;
        }

        if let Err(e) = crate::cache::commit_transaction(&conn) {
            return Err(BackendError::Cache(e));
        }

        Ok(
            BackendSyncReport {
                folders: folder_plan.folders,
                folders_patch,
                folders_cache_patch: (folder_plan.cache_patch, folders_cache_error),
                envelopes_patch,
                envelopes_cache_patch: (envelopes_cache_hunks, envelopes_cache_errors),
                progress_events: events,
            },
        )
    }

    /// Rolls the pass's transaction back and fails with the given
    /// error; the rollback's own outcome cannot improve on the error
    /// already in hand.
    fn abort(conn: &rusqlite::Connection, e: BackendError) -> (res: Result<
        BackendSyncReport,
        BackendError,
    >)
        ensures
            res matches Err(e2) && e2 == e,
    {
        let rolled_back = crate::cache::rollback_transaction(conn);
        match rolled_back {
            Ok(_) => Err(e),
            Err(_) => Err(e),
        }
    }

    /// Hands one event to the callback, and records it in the report
    /// when asked to.
    fn emit<F: Fn(&BackendSyncProgressEvent) -> Result<(), String>>(
        &self,
        events: &mut Vec<BackendSyncProgressEvent>,
        on_progress: &F,
        event: BackendSyncProgressEvent,
    ) -> (r: Result<(), String>)
        requires
            forall|e: &BackendSyncProgressEvent| #[trigger] call_requires(*on_progress, (e,)),
        ensures
            final (events)@.len() >= old(events)@.len(),
            forall|k: int|
                0 <= k < old(events)@.len() ==> #[trigger] final (events)@[k] == old(events)@[k],
            !self.progress ==> final (events)@ == old(events)@,
            self.progress ==> final (events)@ == old(events)@.push(event),
    {
        let outcome = (on_progress)(&event);
        if self.progress {
            events.push(event);
        }
        outcome
    }

    /// Reconciles one folder's envelopes: reads the four snapshots,
    /// plans, applies copies and deletions and flag changes, then
    /// brings both caches up to date. Fails only when the progress
    /// callback does; a snapshot failure records an error and passes
    /// the folder over.
    #[verifier::loop_isolation(false)]
    fn sync_folder_envelopes<
        L: Backend,
        R: Backend,
        F: Fn(&BackendSyncProgressEvent) -> Result<(), String>,
    >(
        &self,
        local: &L,
        remote: &R,
        conn: &rusqlite::Connection,
        folder: &String,
        on_progress: &F,
        events: &mut Vec<BackendSyncProgressEvent>,
        envelopes_patch: &mut Vec<(crate::envelope_sync::EnvelopeSyncHunk, Option<BackendError>)>,
        envelopes_cache_hunks: &mut Vec<crate::envelope_sync::EnvelopeSyncCacheHunk>,
        envelopes_cache_errors: &mut Vec<BackendError>,
    ) -> (r: Result<(), String>)
        requires
            forall|e: &BackendSyncProgressEvent| #[trigger] call_requires(*on_progress, (e,)),
            self.dry_run ==> forall|k: int|
                0 <= k < old(envelopes_patch)@.len()
                    ==> (#[trigger] old(envelopes_patch)@[k]).1 is None,
        ensures
            self.dry_run ==> forall|k: int|
                0 <= k < final (envelopes_patch)@.len()
                    ==> (#[trigger] final (envelopes_patch)@[k]).1 is None,
            !self.progress ==> final (events)@.len() == old(events)@.len(),
            final (events)@.len() >= old(events)@.len(),
            forall|k: int|
                0 <= k < old(events)@.len() ==> #[trigger] final (events)@[k] == old(events)@[k],
    {
        let account = &self.account_config.name;
        if let Err(msg) = self.emit(
            events,
            on_progress,
            BackendSyncProgressEvent::GetLocalCachedEnvelopes,
        ) {
            return Err(msg);
        }
        let local_cached = match Cache::list_local_envelopes(conn, account.as_str(), folder.as_str(
        )) {
            Ok(v) => v,
            Err(e) => {
                envelopes_cache_errors.push(BackendError::Cache(e));
                return Ok(());
            },
        };
        if let Err(msg) = self.emit(events, on_progress, BackendSyncProgressEvent::GetLocalEnvelopes) {
            return Err(msg);
        }
        let local_live = match local.list_envelopes(folder.as_str(), 0, 0) {
            Ok(v) => normalize_envelopes(v),
            Err(e) => {
                envelopes_cache_errors.push(e);
                return Ok(());
            },
        };
        if let Err(msg) = self.emit(
            events,
            on_progress,
            BackendSyncProgressEvent::GetRemoteCachedEnvelopes,
        ) {
            return Err(msg);
        }
        let remote_cached = match Cache::list_remote_envelopes(
            conn,
            account.as_str(),
            folder.as_str(),
        ) {
            Ok(v) => v,
            Err(e) => {
                envelopes_cache_errors.push(BackendError::Cache(e));
                return Ok(());
            },
        };
        if let Err(msg) = self.emit(events, on_progress, BackendSyncProgressEvent::GetRemoteEnvelopes) {
            return Err(msg);
        }
        let remote_live = match remote.list_envelopes(folder.as_str(), 0, 0) {
            Ok(v) => normalize_envelopes(v),
            Err(e) => {
                envelopes_cache_errors.push(e);
                return Ok(());
            },
        };

        if let Err(msg) = self.emit(events, on_progress, BackendSyncProgressEvent::BuildEnvelopesPatch) {
            return Err(msg);
        }
        let plan: EnvelopeSyncPlan = build_envelope_patch(
            folder,
            &local_cached,
            &local_live,
            &remote_cached,
            &remote_live,
        );
        if let Err(msg) = self.emit(
            events,
            on_progress,
            BackendSyncProgressEvent::ProcessEnvelopesPatch(plan.patch.len()),
        ) {
            return Err(msg);
        }

        // Apply the backend hunks; copies note the identifier the
        // target assigned.
        let mut copies: Vec<CopyOutcome> = Vec::new();
        let input = plan.patch;
        let mut idx: usize = 0;
        let n = input.len();
        while idx < n
            invariant
                n == input.len(),
                idx <= n,
                forall|e: &BackendSyncProgressEvent| #[trigger] call_requires(*on_progress, (e,)),
                self.dry_run ==> forall|k: int|
                    0 <= k < envelopes_patch@.len() ==> (#[trigger] envelopes_patch@[k]).1 is None,
                !self.progress ==> events@.len() == old(events)@.len(),
                events@.len() >= old(events)@.len(),
                forall|k: int|
                    0 <= k < old(events)@.len() ==> #[trigger] events@[k] == old(events)@[k],
            decreases n - idx,
        {
            let hunk = input[idx].clone();
            if let Err(msg) = self.emit(
                events,
                on_progress,
                BackendSyncProgressEvent::ProcessEnvelopeHunk(folder.clone()),
            ) {
                return Err(msg);
            }
            let outcome: Option<BackendError> = if self.dry_run {
                None
            } else {
                self.apply_envelope_hunk(local, remote, &hunk, &mut copies)
            };
            envelopes_patch.push((hunk, outcome));
            idx = idx + 1;
        }

        // Apply the cache hunks; a target-side row whose message was
        // just copied carries the identifier the copy produced.
        let cn = plan.cache_patch.len();
        let mut ci: usize = 0;
        while ci < cn
            invariant
                cn == plan.cache_patch.len(),
                ci <= cn,
            decreases cn - ci,
        {
            let hunk = plan.cache_patch[ci].clone();
            if !self.dry_run {
                let applied = self.apply_envelope_cache_hunk(conn, &hunk, &copies);
                if let Err(e) = applied {
                    envelopes_cache_errors.push(BackendError::Cache(e));
                }
            }
            envelopes_cache_hunks.push(hunk);
            ci = ci + 1;
        }
        Ok(())
    }

    /// Applies one backend envelope hunk, noting a copy's new
    /// identifier.
    fn apply_envelope_hunk<L: Backend, R: Backend>(
        &self,
        local: &L,
        remote: &R,
        hunk: &crate::envelope_sync::EnvelopeSyncHunk,
        copies: &mut Vec<CopyOutcome>,
    ) -> (r: Option<BackendError>) {
        match hunk {
            crate::envelope_sync::EnvelopeSyncHunk::CopyEmail(folder, envelope, source, target) => {
                let mut ids: Vec<String> = Vec::new();
                ids.push(envelope.internal_id.clone());
                let fetched = match source {
                    Side::Local => local.preview_emails_internal(folder.as_str(), &ids),
                    Side::Remote => remote.preview_emails_internal(folder.as_str(), &ids),
                };
                let mut bodies = match fetched {
                    Ok(b) => b,
                    Err(e) => {
                        return Some(e);
                    },
                };
                let body = match bodies.pop() {
                    Some(b) => b,
                    None => {
                        return Some(BackendError::NotFound(envelope.internal_id.clone()));
                    },
                };
                let added = match target {
                    Side::Local => local.add_email_internal(
                        folder.as_str(),
                        &body,
                        &envelope.flags,
                    ),
                    Side::Remote => remote.add_email_internal(
                        folder.as_str(),
                        &body,
                        &envelope.flags,
                    ),
                };
                match added {
                    Ok(new_id) => {
                        copies.push(
                            CopyOutcome {
                                folder: folder.clone(),
                                target: *target,
                                source_internal_id: envelope.internal_id.clone(),
                                new_internal_id: new_id,
                            },
                        );
                        None
                    },
                    Err(e) => Some(e),
                }
            },
            crate::envelope_sync::EnvelopeSyncHunk::DeleteEmail(folder, internal_id, side) => {
                let mut ids: Vec<String> = Vec::new();
                ids.push(internal_id.clone());
                let applied = match side {
                    Side::Local => local.delete_emails_internal(folder.as_str(), &ids),
                    Side::Remote => remote.delete_emails_internal(folder.as_str(), &ids),
                };
                match applied {
                    Ok(_) => None,
                    Err(e) => Some(e),
                }
            },
            crate::envelope_sync::EnvelopeSyncHunk::SetFlags(folder, envelope, side) => {
                let mut ids: Vec<String> = Vec::new();
                ids.push(envelope.internal_id.clone());
                let applied = match side {
                    Side::Local => local.set_flags_internal(
                        folder.as_str(),
                        &ids,
                        &envelope.flags,
                    ),
                    Side::Remote => remote.set_flags_internal(
                        folder.as_str(),
                        &ids,
                        &envelope.flags,
                    ),
                };
                match applied {
                    Ok(_) => None,
                    Err(e) => Some(e),
                }
            },
        }
    }

    /// Applies one cache envelope hunk, rewriting an inserted row's
    /// internal identifier where the copy that produced the message
    /// assigned a new one.
    fn apply_envelope_cache_hunk(
        &self,
        conn: &rusqlite::Connection,
        hunk: &crate::envelope_sync::EnvelopeSyncCacheHunk,
        copies: &Vec<CopyOutcome>,
    ) -> (r: Result<(), String>) {
        let account = &self.account_config.name;
        match hunk {
            crate::envelope_sync::EnvelopeSyncCacheHunk::InsertEnvelope(folder, envelope, side) => {
                let mut row = envelope.clone();
                let n = copies.len();
                let mut i: usize = 0;
                while i < n
                    invariant
                        n == copies.len(),
                        i <= n,
                        row.wf() == envelope.wf(),
                    decreases n - i,
                {
                    if copies[i].target == *side && copies[i].folder.eq(folder)
                        && copies[i].source_internal_id.eq(&envelope.internal_id) {
                        row.internal_id = copies[i].new_internal_id.clone();
                    }
                    i = i + 1;
                }
                let flags = crate::flag::Flags::from_iter(row.flags.as_vec().clone());
                row.flags = flags;
                match side {
                    Side::Local => Cache::insert_local_envelope(
                        conn,
                        account.as_str(),
                        folder.as_str(),
                        &row,
                    ),
                    Side::Remote => Cache::insert_remote_envelope(
                        conn,
                        account.as_str(),
                        folder.as_str(),
                        &row,
                    ),
                }
            },
            crate::envelope_sync::EnvelopeSyncCacheHunk::DeleteEnvelope(folder, internal_id, side) => {
                match side {
                    Side::Local => Cache::delete_local_envelope(
                        conn,
                        account.as_str(),
                        folder.as_str(),
                        internal_id.as_str(),
                    ),
                    Side::Remote => Cache::delete_remote_envelope(
                        conn,
                        account.as_str(),
                        folder.as_str(),
                        internal_id.as_str(),
                    ),
                }
            },
        }
    }
}

} // verus!
