//! Building a notmuch-backed store: the query-indexed local store's
//! configuration, and the query its flag operations address messages
//! with.

use vstd::prelude::*;

use crate::folder_sync::spec_names;

verus! {

/// The given texts joined with pipes, as a query alternation.
pub open spec fn spec_join_pipe(ids: Seq<Seq<char>>) -> Seq<char>
    decreases ids.len(),
{
    if ids.len() == 0 {
        Seq::empty()
    } else if ids.len() == 1 {
        ids[0]
    } else {
        spec_join_pipe(ids.drop_last()) + seq!['|'] + ids.last()
    }
}

/// The notmuch query that addresses exactly the messages with the
/// given identifiers: an anchored message-id alternation.
#[verifier::loop_isolation(false)]
pub fn notmuch_internal_ids_query(internal_ids: &Vec<String>) -> (r: String)
    ensures
        r@ == "mid:\"/^("@ + spec_join_pipe(spec_names(internal_ids@)) + ")$/\""@,
{
    proof {
        reveal_strlit("mid:\"/^(");
        reveal_strlit(")$/\"");
        reveal_strlit("|");
    }
    let ghost all = spec_names(internal_ids@);
    let mut s = String::from_str("mid:\"/^(");
    let n = internal_ids.len();
    let mut i: usize = 0;
    proof {
        assert(all.take(0) =~= Seq::<Seq<char>>::empty());
        assert(s@ =~= "mid:\"/^("@ + spec_join_pipe(all.take(0)));
    }
    while i < n
        invariant
            n == internal_ids.len(),
            i <= n,
            s@ == "mid:\"/^("@ + spec_join_pipe(all.take(i as int)),
        decreases n - i,
    {
        proof {
            assert(all.take(i + 1).drop_last() =~= all.take(i as int));
            assert(all.take(i + 1).last() == all[i as int]);
            assert(all[i as int] == internal_ids@[i as int]@);
        }
        if i > 0 {
            s.append("|");
        } else {
            proof {
                assert(all.take(1) =~= seq![all[0]]);
            }
        }
        s.append(internal_ids[i].as_str());
        proof {
            assert(s@ =~= "mid:\"/^("@ + spec_join_pipe(all.take(i + 1)));
        }
        i = i + 1;
    }
    proof {
        assert(all.take(n as int) =~= all);
    }
    s.append(")$/\"");
    s
}

/// Builds a notmuch-backed store.
#[derive(Debug)]
pub struct NotmuchBackendBuilder {
    /// Where the store's index database lives; the store's own
    /// default when absent.
    pub db_path: Option<String>,
}

impl NotmuchBackendBuilder {
    pub fn new() -> (r: NotmuchBackendBuilder)
        ensures
            r.db_path is None,
    {
        NotmuchBackendBuilder { db_path: None }
    }

    pub fn db_path(self, path: String) -> (r: NotmuchBackendBuilder)
        ensures
            r.db_path matches Some(p) && p == path,
    {
        NotmuchBackendBuilder { db_path: Some(path) }
    }
}

impl Default for NotmuchBackendBuilder {
    fn default() -> (r: NotmuchBackendBuilder)
        ensures
            r.db_path is None,
    {
        NotmuchBackendBuilder::new()
    }
}

} // verus!
