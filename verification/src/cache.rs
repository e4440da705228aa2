//! The sync cache: a relational record, per account and side, of the
//! folders and envelopes that existed after the previous successful
//! sync. It is the reconciliation algorithm's memory of the prior
//! converged state, nothing more.
//!
//! Rows of the local side are keyed by the account name with a
//! `:cache` suffix; rows of the remote side by the bare account name.
//! What a query returns is whatever the database file holds; the
//! functions here state nothing stronger, and the reconciliation
//! functions are verified for every value they could hand back.

use vstd::prelude::*;

use crate::envelope::{Envelope, Mailbox};
use crate::flag::Flags;
use crate::folder_sync::{contains_name, lemma_restrict_none, spec_names, spec_restrict_names};

verus! {

/// Relies on rusqlite: declares its connection type, which this crate
/// only carries through.
#[verifier::external_type_specification]
#[verifier::external_body]
pub struct ExConnection(rusqlite::Connection);

/// Relies on rusqlite's `Connection::open`: opens (or creates) the
/// database file at the given path.
#[verifier::external_body]
fn open_connection(path: &str) -> (r: Result<rusqlite::Connection, String>) {
    rusqlite::Connection::open(path).map_err(|e| format!("{e}"))
}

/// Relies on rusqlite's `Connection::busy_timeout`: makes statements
/// wait for a concurrently held database lock instead of failing at
/// once.
#[verifier::external_body]
fn set_busy_timeout(conn: &rusqlite::Connection) -> (r: Result<(), String>) {
    conn.busy_timeout(std::time::Duration::from_millis(5000)).map_err(|e| format!("{e}"))
}

/// Relies on rusqlite's `Connection::execute`: runs one SQL statement
/// with the given textual parameters, yielding the changed row count.
#[verifier::external_body]
fn exec_sql(conn: &rusqlite::Connection, sql: &str, params: &Vec<String>) -> (r: Result<
    usize,
    String,
>) {
    conn.execute(sql, rusqlite::params_from_iter(params.iter())).map_err(|e| format!("{e}"))
}

/// Relies on rusqlite's `Connection::prepare` and `Statement::query_map`:
/// runs one SQL query with the given textual parameters and reads the
/// given number of text columns out of every row.
#[verifier::external_body]
fn query_rows(conn: &rusqlite::Connection, sql: &str, params: &Vec<String>, ncols: usize) -> (r:
    Result<Vec<Vec<String>>, String>) {
    let run = || -> rusqlite::Result<Vec<Vec<String>>> {
        let mut stmt = conn.prepare(sql)?;
        let rows = stmt.query_map(rusqlite::params_from_iter(params.iter()), |row| {
            let mut out = Vec::new();
            for i in 0..ncols {
                out.push(row.get::<usize, String>(i)?);
            }
            Ok(out)
        })?;
        rows.collect()
    };
    run().map_err(|e| format!("{e}"))
}

/// Opens the cache database under the account's sync directory.
pub fn open_sync_db(sync_dir: &str) -> (r: Result<rusqlite::Connection, String>) {
    proof {
        reveal_strlit("/.sync.sqlite");
    }
    let mut path = sync_dir.to_owned();
    path.append("/.sync.sqlite");
    let conn = match open_connection(path.as_str()) {
        Ok(conn) => conn,
        Err(e) => {
            return Err(e);
        },
    };
    match set_busy_timeout(&conn) {
        Ok(_) => Ok(conn),
        Err(e) => Err(e),
    }
}

/// Starts the pass's write transaction, taking the database's write
/// lock up front so every cache read and write of the pass stands in
/// one transaction.
pub fn begin_transaction(conn: &rusqlite::Connection) -> (r: Result<(), String>) {
    let params: Vec<String> = Vec::new();
    match exec_sql(conn, "BEGIN IMMEDIATE", &params) {
        Ok(_) => Ok(()),
        Err(e) => Err(e),
    }
}

/// Commits the pass's transaction: its cache writes become durable
/// together.
pub fn commit_transaction(conn: &rusqlite::Connection) -> (r: Result<(), String>) {
    let params: Vec<String> = Vec::new();
    match exec_sql(conn, "COMMIT", &params) {
        Ok(_) => Ok(()),
        Err(e) => Err(e),
    }
}

/// Rolls the pass's transaction back: its cache writes are undone
/// together.
pub fn rollback_transaction(conn: &rusqlite::Connection) -> (r: Result<(), String>) {
    let params: Vec<String> = Vec::new();
    match exec_sql(conn, "ROLLBACK", &params) {
        Ok(_) => Ok(()),
        Err(e) => Err(e),
    }
}

/// The account key of one side's rows: the local side's rows carry a
/// `:cache` suffix.
fn side_key(account: &str, local: bool) -> (r: String)
    ensures
        local ==> r@ == account@ + ":cache"@,
        !local ==> r@ == account@,
{
    proof {
        reveal_strlit(":cache");
    }
    let mut key = account.to_owned();
    if local {
        key.append(":cache");
    }
    key
}

/// The folder and envelope tables of the sync cache.
pub struct Cache;

impl Cache {
    /// Creates the folder table if the database lacks it.
    pub fn init(conn: &rusqlite::Connection) -> (r: Result<(), String>) {
        let params: Vec<String> = Vec::new();
        match exec_sql(
            conn,
            "CREATE TABLE IF NOT EXISTS folders (account TEXT NOT NULL, name TEXT NOT NULL, UNIQUE(name, account))",
            &params,
        ) {
            Ok(_) => Ok(()),
            Err(e) => Err(e),
        }
    }

    /// Creates the envelope table if the database lacks it.
    pub fn init_envelopes(conn: &rusqlite::Connection) -> (r: Result<(), String>) {
        let params: Vec<String> = Vec::new();
        match exec_sql(
            conn,
            "CREATE TABLE IF NOT EXISTS envelopes (account TEXT NOT NULL, folder TEXT NOT NULL, internal_id TEXT NOT NULL, id TEXT NOT NULL, message_id TEXT NOT NULL, flags TEXT NOT NULL, UNIQUE(internal_id, folder, account))",
            &params,
        ) {
            Ok(_) => Ok(()),
            Err(e) => Err(e),
        }
    }

    /// Creates the id mapper's append-only table if the database
    /// lacks it.
    pub fn init_ids(conn: &rusqlite::Connection) -> (r: Result<(), String>) {
        let params: Vec<String> = Vec::new();
        match exec_sql(
            conn,
            "CREATE TABLE IF NOT EXISTS ids (account TEXT NOT NULL, folder TEXT NOT NULL, internal_id TEXT NOT NULL, hash TEXT NOT NULL, UNIQUE(internal_id, folder, account))",
            &params,
        ) {
            Ok(_) => Ok(()),
            Err(e) => Err(e),
        }
    }

    /// The id mapper's recorded pairs for one account and folder, in
    /// insertion order.
    pub fn load_ids(conn: &rusqlite::Connection, account: &str, folder: &str) -> (r: Result<
        Vec<(String, String)>,
        String,
    >) {
        let mut params: Vec<String> = Vec::new();
        params.push(account.to_owned());
        params.push(folder.to_owned());
        let rows = match query_rows(
            conn,
            "SELECT internal_id, hash FROM ids WHERE account = ? AND folder = ? ORDER BY rowid",
            &params,
            2,
        ) {
            Ok(rows) => rows,
            Err(e) => {
                return Err(e);
            },
        };
        let mut out: Vec<(String, String)> = Vec::new();
        let n = rows.len();
        let mut i: usize = 0;
        while i < n
            invariant
                n == rows.len(),
                i <= n,
            decreases n - i,
        {
            if rows[i].len() >= 2 {
                out.push((rows[i][0].clone(), rows[i][1].clone()));
            }
            i = i + 1;
        }
        Ok(out)
    }

    /// Appends one id mapper pair for one account and folder; a pair
    /// whose internal identifier is already recorded is left as it is,
    /// as the table is append-only.
    pub fn insert_id(
        conn: &rusqlite::Connection,
        account: &str,
        folder: &str,
        internal_id: &str,
        hash: &str,
    ) -> (r: Result<(), String>) {
        let mut params: Vec<String> = Vec::new();
        params.push(account.to_owned());
        params.push(folder.to_owned());
        params.push(internal_id.to_owned());
        params.push(hash.to_owned());
        match exec_sql(conn, "INSERT OR IGNORE INTO ids VALUES (?, ?, ?, ?)", &params) {
            Ok(_) => Ok(()),
            Err(e) => Err(e),
        }
    }

    fn list_folders_by_key(conn: &rusqlite::Connection, key: String) -> (r: Result<
        Vec<String>,
        String,
    >) {
        let mut params: Vec<String> = Vec::new();
        params.push(key);
        let rows = match query_rows(
            conn,
            "SELECT name FROM folders WHERE account = ?",
            &params,
            1,
        ) {
            Ok(rows) => rows,
            Err(e) => {
                return Err(e);
            },
        };
        let mut names: Vec<String> = Vec::new();
        let n = rows.len();
        let mut i: usize = 0;
        while i < n
            invariant
                n == rows.len(),
                i <= n,
            decreases n - i,
        {
            if rows[i].len() >= 1 {
                names.push(rows[i][0].clone());
            }
            i = i + 1;
        }
        Ok(names)
    }

    /// Keeps exactly the names the requested subset allows, in their
    /// stored order; with no subset, all of them.
    #[verifier::loop_isolation(false)]
    fn restrict(names: Vec<String>, subset: Option<&Vec<String>>) -> (r: Vec<String>)
        ensures
            spec_names(r@) == spec_restrict_names(
                spec_names(names@),
                match subset {
                    Some(v) => Some(spec_names(v@)),
                    None => None,
                },
            ),
    {
        match subset {
            None => {
                proof {
                    lemma_restrict_none(spec_names(names@));
                }
                names
            },
            Some(allowed) => {
                let ghost all = spec_names(names@);
                let ghost allowv = Some(spec_names(allowed@));
                let mut kept: Vec<String> = Vec::new();
                let n = names.len();
                let mut i: usize = 0;
                proof {
                    assert(spec_names(kept@) =~= spec_restrict_names(all.take(0), allowv));
                }
                while i < n
                    invariant
                        n == names.len(),
                        i <= n,
                        spec_names(kept@) == spec_restrict_names(all.take(i as int), allowv),
                    decreases n - i,
                {
                    proof {
                        assert(all.take(i + 1).drop_last() =~= all.take(i as int));
                        assert(all.take(i + 1).last() == all[i as int]);
                        assert(all[i as int] == names@[i as int]@);
                    }
                    if contains_name(allowed, &names[i]) {
                        kept.push(names[i].clone());
                    }
                    proof {
                        assert(spec_names(kept@) =~= spec_restrict_names(all.take(i + 1), allowv));
                    }
                    i = i + 1;
                }
                proof {
                    assert(all.take(n as int) =~= all);
                }
                kept
            },
        }
    }

    /// The folder names recorded for the local side, optionally
    /// restricted to a requested subset.
    pub fn list_local_folders(
        conn: &rusqlite::Connection,
        account: &str,
        folders: Option<&Vec<String>>,
    ) -> (r: Result<Vec<String>, String>) {
        match Self::list_folders_by_key(conn, side_key(account, true)) {
            Ok(names) => Ok(Self::restrict(names, folders)),
            Err(e) => Err(e),
        }
    }

    /// The folder names recorded for the remote side, optionally
    /// restricted to a requested subset.
    pub fn list_remote_folders(
        conn: &rusqlite::Connection,
        account: &str,
        folders: Option<&Vec<String>>,
    ) -> (r: Result<Vec<String>, String>) {
        match Self::list_folders_by_key(conn, side_key(account, false)) {
            Ok(names) => Ok(Self::restrict(names, folders)),
            Err(e) => Err(e),
        }
    }

    fn insert_folder_by_key(conn: &rusqlite::Connection, key: String, folder: &str) -> (r: Result<
        (),
        String,
    >) {
        let mut params: Vec<String> = Vec::new();
        params.push(key);
        params.push(folder.to_owned());
        match exec_sql(conn, "INSERT INTO folders VALUES (?, ?)", &params) {
            Ok(_) => Ok(()),
            Err(e) => Err(e),
        }
    }

    fn delete_folder_by_key(conn: &rusqlite::Connection, key: String, folder: &str) -> (r: Result<
        (),
        String,
    >) {
        let mut params: Vec<String> = Vec::new();
        params.push(key);
        params.push(folder.to_owned());
        match exec_sql(conn, "DELETE FROM folders WHERE account = ? AND name = ?", &params) {
            Ok(_) => Ok(()),
            Err(e) => Err(e),
        }
    }

    /// Records a folder for the local side.
    pub fn insert_local_folder(conn: &rusqlite::Connection, account: &str, folder: &str) -> (r:
        Result<(), String>) {
        Self::insert_folder_by_key(conn, side_key(account, true), folder)
    }

    /// Records a folder for the remote side.
    pub fn insert_remote_folder(conn: &rusqlite::Connection, account: &str, folder: &str) -> (r:
        Result<(), String>) {
        Self::insert_folder_by_key(conn, side_key(account, false), folder)
    }

    /// Forgets a folder of the local side.
    pub fn delete_local_folder(conn: &rusqlite::Connection, account: &str, folder: &str) -> (r:
        Result<(), String>) {
        Self::delete_folder_by_key(conn, side_key(account, true), folder)
    }

    /// Forgets a folder of the remote side.
    pub fn delete_remote_folder(conn: &rusqlite::Connection, account: &str, folder: &str) -> (r:
        Result<(), String>) {
        Self::delete_folder_by_key(conn, side_key(account, false), folder)
    }

    fn list_envelopes_by_key(conn: &rusqlite::Connection, key: String, folder: &str) -> (r: Result<
        Vec<Envelope>,
        String,
    >)
        ensures
            r matches Ok(v) ==> forall|k: int| 0 <= k < v@.len() ==> (#[trigger] v@[k]).wf(),
    {
        let mut params: Vec<String> = Vec::new();
        params.push(key);
        params.push(folder.to_owned());
        let rows = match query_rows(
            conn,
            "SELECT internal_id, id, message_id, flags FROM envelopes WHERE account = ? AND folder = ?",
            &params,
            4,
        ) {
            Ok(rows) => rows,
            Err(e) => {
                return Err(e);
            },
        };
        let mut envelopes: Vec<Envelope> = Vec::new();
        let n = rows.len();
        let mut i: usize = 0;
        while i < n
            invariant
                n == rows.len(),
                i <= n,
                forall|k: int| 0 <= k < envelopes@.len() ==> (#[trigger] envelopes@[k]).wf(),
            decreases n - i,
        {
            match Self::envelope_of_row(&rows[i]) {
                Some(envelope) => {
                    envelopes.push(envelope);
                },
                None => {},
            }
            i = i + 1;
        }
        Ok(envelopes)
    }

    /// One stored row read back as an envelope: identity columns and
    /// flags; the display fields a cache row does not keep come back
    /// empty. A row with missing columns cannot have been written by
    /// this cache and is passed over.
    fn envelope_of_row(row: &Vec<String>) -> (r: Option<Envelope>)
        ensures
            r is Some <==> row@.len() >= 4,
            r matches Some(e) ==> {
                &&& e@.internal_id == row@[0]@
                &&& e@.id == row@[1]@
                &&& e@.message_id == row@[2]@
                &&& e@.flags == crate::flag::spec_words(row@[3]@).map_values(
                    |w: Seq<char>| crate::flag::spec_flag_of_text(w),
                ).to_set()
                &&& e@.subject == Seq::<char>::empty()
                &&& e@.from.name is None
                &&& e@.from.addr == Seq::<char>::empty()
                &&& e@.date == 0
                &&& e.wf()
            },
    {
        if row.len() >= 4 {
            let flags = Flags::from_text(row[3].as_str());
            Some(
                Envelope {
                    id: row[1].clone(),
                    internal_id: row[0].clone(),
                    message_id: row[2].clone(),
                    flags,
                    subject: String::new(),
                    from: Mailbox::default(),
                    date: 0,
                },
            )
        } else {
            None
        }
    }

    /// The envelopes recorded for the local side of one folder. Only
    /// identity and flags are recorded; display fields come back
    /// empty.
    pub fn list_local_envelopes(conn: &rusqlite::Connection, account: &str, folder: &str) -> (r:
        Result<Vec<Envelope>, String>)
        ensures
            r matches Ok(v) ==> forall|k: int| 0 <= k < v@.len() ==> (#[trigger] v@[k]).wf(),
    {
        Self::list_envelopes_by_key(conn, side_key(account, true), folder)
    }

    /// The envelopes recorded for the remote side of one folder.
    pub fn list_remote_envelopes(conn: &rusqlite::Connection, account: &str, folder: &str) -> (r:
        Result<Vec<Envelope>, String>)
        ensures
            r matches Ok(v) ==> forall|k: int| 0 <= k < v@.len() ==> (#[trigger] v@[k]).wf(),
    {
        Self::list_envelopes_by_key(conn, side_key(account, false), folder)
    }

    fn insert_envelope_by_key(
        conn: &rusqlite::Connection,
        key: String,
        folder: &str,
        envelope: &Envelope,
    ) -> (r: Result<(), String>)
        requires
            envelope.wf(),
    {
        let mut params: Vec<String> = Vec::new();
        params.push(key);
        params.push(folder.to_owned());
        params.push(envelope.internal_id.clone());
        params.push(envelope.id.clone());
        params.push(envelope.message_id.clone());
        params.push(envelope.flags.to_text());
        match exec_sql(conn, "INSERT INTO envelopes VALUES (?, ?, ?, ?, ?, ?)", &params) {
            Ok(_) => Ok(()),
            Err(e) => Err(e),
        }
    }

    fn delete_envelope_by_key(
        conn: &rusqlite::Connection,
        key: String,
        folder: &str,
        internal_id: &str,
    ) -> (r: Result<(), String>) {
        let mut params: Vec<String> = Vec::new();
        params.push(key);
        params.push(folder.to_owned());
        params.push(internal_id.to_owned());
        match exec_sql(
            conn,
            "DELETE FROM envelopes WHERE account = ? AND folder = ? AND internal_id = ?",
            &params,
        ) {
            Ok(_) => Ok(()),
            Err(e) => Err(e),
        }
    }

    /// Records an envelope for the local side of one folder.
    pub fn insert_local_envelope(
        conn: &rusqlite::Connection,
        account: &str,
        folder: &str,
        envelope: &Envelope,
    ) -> (r: Result<(), String>)
        requires
            envelope.wf(),
    {
        Self::insert_envelope_by_key(conn, side_key(account, true), folder, envelope)
    }

    /// Records an envelope for the remote side of one folder.
    pub fn insert_remote_envelope(
        conn: &rusqlite::Connection,
        account: &str,
        folder: &str,
        envelope: &Envelope,
    ) -> (r: Result<(), String>)
        requires
            envelope.wf(),
    {
        Self::insert_envelope_by_key(conn, side_key(account, false), folder, envelope)
    }

    /// Forgets an envelope of the local side of one folder.
    pub fn delete_local_envelope(
        conn: &rusqlite::Connection,
        account: &str,
        folder: &str,
        internal_id: &str,
    ) -> (r: Result<(), String>) {
        Self::delete_envelope_by_key(conn, side_key(account, true), folder, internal_id)
    }

    /// Forgets an envelope of the remote side of one folder.
    pub fn delete_remote_envelope(
        conn: &rusqlite::Connection,
        account: &str,
        folder: &str,
        internal_id: &str,
    ) -> (r: Result<(), String>) {
        Self::delete_envelope_by_key(conn, side_key(account, false), folder, internal_id)
    }
}

} // verus!
