//! Four-way reconciliation over the set of folder names.
//!
//! One folder name is observed at four points: the local cache, the
//! live local side, the remote cache and the live remote side. A name
//! with no cache record and at least one live occurrence was newly
//! created and is propagated; a name with a cache record missing from a
//! live side was deleted there and the deletion is propagated. The
//! patch lists the backend changes first and the cache changes after
//! them, as they are applied.

use vstd::prelude::*;

use crate::seqs::{
    lemma_dedup_no_duplicates, lemma_dedup_same_elements, lemma_dedup_take_step, spec_dedup,
};

verus! {

/// One of the two replicas being reconciled.
#[derive(Clone, Copy, Debug, PartialEq, Eq, Structural)]
pub enum Side {
    Local,
    Remote,
}

/// One proposed change to a live side.
#[derive(Debug)]
pub enum FolderSyncHunk {
    CreateFolder(String, Side),
    DeleteFolder(String, Side),
}

/// The mathematical identity of a folder hunk.
pub enum FolderSyncHunkView {
    CreateFolder(Seq<char>, Side),
    DeleteFolder(Seq<char>, Side),
}

impl View for FolderSyncHunk {
    type V = FolderSyncHunkView;

    open spec fn view(&self) -> FolderSyncHunkView {
        match self {
            FolderSyncHunk::CreateFolder(n, s) => FolderSyncHunkView::CreateFolder(n@, *s),
            FolderSyncHunk::DeleteFolder(n, s) => FolderSyncHunkView::DeleteFolder(n@, *s),
        }
    }
}

impl Clone for FolderSyncHunk {
    fn clone(&self) -> (r: FolderSyncHunk)
        ensures
            r@ == self@,
    {
        match self {
            FolderSyncHunk::CreateFolder(n, s) => FolderSyncHunk::CreateFolder(n.clone(), *s),
            FolderSyncHunk::DeleteFolder(n, s) => FolderSyncHunk::DeleteFolder(n.clone(), *s),
        }
    }
}

/// One proposed change to a cache.
#[derive(Debug)]
pub enum FolderSyncCacheHunk {
    InsertFolder(String, Side),
    DeleteFolder(String, Side),
}

/// The mathematical identity of a folder cache hunk.
pub enum FolderSyncCacheHunkView {
    InsertFolder(Seq<char>, Side),
    DeleteFolder(Seq<char>, Side),
}

impl View for FolderSyncCacheHunk {
    type V = FolderSyncCacheHunkView;

    open spec fn view(&self) -> FolderSyncCacheHunkView {
        match self {
            FolderSyncCacheHunk::InsertFolder(n, s) => FolderSyncCacheHunkView::InsertFolder(
                n@,
                *s,
            ),
            FolderSyncCacheHunk::DeleteFolder(n, s) => FolderSyncCacheHunkView::DeleteFolder(
                n@,
                *s,
            ),
        }
    }
}

impl Clone for FolderSyncCacheHunk {
    fn clone(&self) -> (r: FolderSyncCacheHunk)
        ensures
            r@ == self@,
    {
        match self {
            FolderSyncCacheHunk::InsertFolder(n, s) => FolderSyncCacheHunk::InsertFolder(
                n.clone(),
                *s,
            ),
            FolderSyncCacheHunk::DeleteFolder(n, s) => FolderSyncCacheHunk::DeleteFolder(
                n.clone(),
                *s,
            ),
        }
    }
}

/// Whether a folder with the given presence pattern exists on both
/// sides after the sync pass: a cached name survives only when both
/// live sides still have it; an uncached name survives when either
/// live side has it (a new creation, propagated to the other).
pub open spec fn spec_folder_kept(lc: bool, l: bool, rc: bool, r: bool) -> bool {
    if lc || rc {
        l && r
    } else {
        l || r
    }
}

/// The backend changes for one folder name under one presence pattern.
pub open spec fn spec_folder_hunks(name: Seq<char>, lc: bool, l: bool, rc: bool, r: bool) -> Seq<
    FolderSyncHunkView,
> {
    if lc || rc {
        if l && r {
            Seq::empty()
        } else {
            (if l {
                seq![FolderSyncHunkView::DeleteFolder(name, Side::Local)]
            } else {
                Seq::empty()
            }) + (if r {
                seq![FolderSyncHunkView::DeleteFolder(name, Side::Remote)]
            } else {
                Seq::empty()
            })
        }
    } else {
        if l && !r {
            seq![FolderSyncHunkView::CreateFolder(name, Side::Remote)]
        } else if !l && r {
            seq![FolderSyncHunkView::CreateFolder(name, Side::Local)]
        } else {
            Seq::empty()
        }
    }
}

/// The cache changes for one folder name under one presence pattern.
pub open spec fn spec_folder_cache_hunks(
    name: Seq<char>,
    lc: bool,
    l: bool,
    rc: bool,
    r: bool,
) -> Seq<FolderSyncCacheHunkView> {
    if spec_folder_kept(lc, l, rc, r) {
        (if !lc {
            seq![FolderSyncCacheHunkView::InsertFolder(name, Side::Local)]
        } else {
            Seq::empty()
        }) + (if !rc {
            seq![FolderSyncCacheHunkView::InsertFolder(name, Side::Remote)]
        } else {
            Seq::empty()
        })
    } else {
        (if lc {
            seq![FolderSyncCacheHunkView::DeleteFolder(name, Side::Local)]
        } else {
            Seq::empty()
        }) + (if rc {
            seq![FolderSyncCacheHunkView::DeleteFolder(name, Side::Remote)]
        } else {
            Seq::empty()
        })
    }
}

/// The names of a list of folders.
pub open spec fn spec_names(v: Seq<String>) -> Seq<Seq<char>> {
    v.map_values(|s: String| s@)
}

/// The names an allow-list keeps, in their listed order: all of them
/// when there is no list, else exactly those the list holds.
pub open spec fn spec_restrict_names(
    names: Seq<Seq<char>>,
    allow: Option<Seq<Seq<char>>>,
) -> Seq<Seq<char>>
    decreases names.len(),
{
    if names.len() == 0 {
        Seq::empty()
    } else {
        spec_restrict_names(names.drop_last(), allow) + (if (match allow {
            None => true,
            Some(a) => a.contains(names.last()),
        }) {
            seq![names.last()]
        } else {
            Seq::empty()
        })
    }
}

/// With no allow-list, restriction keeps everything.
pub proof fn lemma_restrict_none(names: Seq<Seq<char>>)
    ensures
        spec_restrict_names(names, None) == names,
    decreases names.len(),
{
    if names.len() > 0 {
        lemma_restrict_none(names.drop_last());
        assert(spec_restrict_names(names, None) =~= names);
    } else {
        assert(spec_restrict_names(names, None) =~= names);
    }
}

/// The backend patch over a list of names, one name's hunks after the
/// previous name's.
pub open spec fn spec_folder_patch(
    names: Seq<Seq<char>>,
    lcs: Set<Seq<char>>,
    ls: Set<Seq<char>>,
    rcs: Set<Seq<char>>,
    rs: Set<Seq<char>>,
) -> Seq<FolderSyncHunkView>
    decreases names.len(),
{
    if names.len() == 0 {
        Seq::empty()
    } else {
        spec_folder_patch(names.drop_last(), lcs, ls, rcs, rs) + spec_folder_hunks(
            names.last(),
            lcs.contains(names.last()),
            ls.contains(names.last()),
            rcs.contains(names.last()),
            rs.contains(names.last()),
        )
    }
}

/// The cache patch over a list of names.
pub open spec fn spec_folder_cache_patch(
    names: Seq<Seq<char>>,
    lcs: Set<Seq<char>>,
    ls: Set<Seq<char>>,
    rcs: Set<Seq<char>>,
    rs: Set<Seq<char>>,
) -> Seq<FolderSyncCacheHunkView>
    decreases names.len(),
{
    if names.len() == 0 {
        Seq::empty()
    } else {
        spec_folder_cache_patch(names.drop_last(), lcs, ls, rcs, rs) + spec_folder_cache_hunks(
            names.last(),
            lcs.contains(names.last()),
            ls.contains(names.last()),
            rcs.contains(names.last()),
            rs.contains(names.last()),
        )
    }
}

/// The names that survive the pass, in evaluation order.
pub open spec fn spec_kept_names(
    names: Seq<Seq<char>>,
    lcs: Set<Seq<char>>,
    ls: Set<Seq<char>>,
    rcs: Set<Seq<char>>,
    rs: Set<Seq<char>>,
) -> Seq<Seq<char>>
    decreases names.len(),
{
    if names.len() == 0 {
        Seq::empty()
    } else {
        spec_kept_names(names.drop_last(), lcs, ls, rcs, rs) + (if spec_folder_kept(
            lcs.contains(names.last()),
            ls.contains(names.last()),
            rcs.contains(names.last()),
            rs.contains(names.last()),
        ) {
            seq![names.last()]
        } else {
            Seq::empty()
        })
    }
}

/// A folder reconciliation plan: the names that survive, the backend
/// changes, and the cache changes, in application order.
#[derive(Debug)]
pub struct FolderSyncPlan {
    pub folders: Vec<String>,
    pub patch: Vec<FolderSyncHunk>,
    pub cache_patch: Vec<FolderSyncCacheHunk>,
}

/// Whether a list of folder names holds the given name.
pub(crate) fn contains_name(v: &Vec<String>, name: &String) -> (r: bool)
    ensures
        r == spec_names(v@).contains(name@),
{
    let n = v.len();
    let mut i: usize = 0;
    while i < n
        invariant
            n == v.len(),
            i <= n,
            forall|k: int| 0 <= k < i ==> #[trigger] spec_names(v@)[k] != name@,
        decreases n - i,
    {
        proof {
            assert(spec_names(v@)[i as int] == v@[i as int]@);
        }
        if v[i].eq(name) {
            assert(spec_names(v@)[i as int] == v@[i as int]@);
            assert(spec_names(v@)[i as int] == name@);
            assert(spec_names(v@).contains(name@));
            return true;
        }
        i = i + 1;
    }
    proof {
        assert(!spec_names(v@).contains(name@));
    }
    false
}

/// The backend and cache changes for one folder name, from its
/// presence at the four observation points.
pub fn folder_sync_hunks(name: &String, lc: bool, l: bool, rc: bool, r: bool) -> (res: (
    Vec<FolderSyncHunk>,
    Vec<FolderSyncCacheHunk>,
))
    ensures
        res.0@.map_values(|h: FolderSyncHunk| h@) == spec_folder_hunks(name@, lc, l, rc, r),
        res.1@.map_values(|h: FolderSyncCacheHunk| h@) == spec_folder_cache_hunks(
            name@,
            lc,
            l,
            rc,
            r,
        ),
{
    let mut hunks: Vec<FolderSyncHunk> = Vec::new();
    let mut cache_hunks: Vec<FolderSyncCacheHunk> = Vec::new();
    if lc || rc {
        if l && r {
        } else {
            if l {
                hunks.push(FolderSyncHunk::DeleteFolder(name.clone(), Side::Local));
            }
            if r {
                hunks.push(FolderSyncHunk::DeleteFolder(name.clone(), Side::Remote));
            }
        }
    } else {
        if l && !r {
            hunks.push(FolderSyncHunk::CreateFolder(name.clone(), Side::Remote));
        } else if !l && r {
            hunks.push(FolderSyncHunk::CreateFolder(name.clone(), Side::Local));
        }
    }
    let kept = if lc || rc {
        l && r
    } else {
        l || r
    };
    if kept {
        if !lc {
            cache_hunks.push(FolderSyncCacheHunk::InsertFolder(name.clone(), Side::Local));
        }
        if !rc {
            cache_hunks.push(FolderSyncCacheHunk::InsertFolder(name.clone(), Side::Remote));
        }
    } else {
        if lc {
            cache_hunks.push(FolderSyncCacheHunk::DeleteFolder(name.clone(), Side::Local));
        }
        if rc {
            cache_hunks.push(FolderSyncCacheHunk::DeleteFolder(name.clone(), Side::Remote));
        }
    }
    proof {
        assert(hunks@.map_values(|h: FolderSyncHunk| h@) =~= spec_folder_hunks(name@, lc, l, rc, r));
        assert(cache_hunks@.map_values(|h: FolderSyncCacheHunk| h@) =~= spec_folder_cache_hunks(
            name@,
            lc,
            l,
            rc,
            r,
        ));
    }
    (hunks, cache_hunks)
}

/// Builds the folder reconciliation plan from the four folder-name
/// snapshots: the universe of names is their union, each name is
/// classified by its presence pattern, and the hunks are collected in
/// evaluation order.
#[verifier::loop_isolation(false)]
pub fn build_folder_patch(
    local_cache: &Vec<String>,
    local: &Vec<String>,
    remote_cache: &Vec<String>,
    remote: &Vec<String>,
) -> (plan: FolderSyncPlan)
    ensures
        ({
            let names = spec_dedup(
                spec_names(local_cache@) + spec_names(local@) + spec_names(remote_cache@)
                    + spec_names(remote@),
            );
            let lcs = spec_names(local_cache@).to_set();
            let ls = spec_names(local@).to_set();
            let rcs = spec_names(remote_cache@).to_set();
            let rs = spec_names(remote@).to_set();
            &&& spec_names(plan.folders@) == spec_kept_names(names, lcs, ls, rcs, rs)
            &&& plan.patch@.map_values(|h: FolderSyncHunk| h@) == spec_folder_patch(
                names,
                lcs,
                ls,
                rcs,
                rs,
            )
            &&& plan.cache_patch@.map_values(|h: FolderSyncCacheHunk| h@)
                == spec_folder_cache_patch(names, lcs, ls, rcs, rs)
        }),
{
    let ghost lcs = spec_names(local_cache@).to_set();
    let ghost ls = spec_names(local@).to_set();
    let ghost rcs = spec_names(remote_cache@).to_set();
    let ghost rs = spec_names(remote@).to_set();

    let mut all: Vec<String> = Vec::new();
    append_names(&mut all, local_cache);
    append_names(&mut all, local);
    append_names(&mut all, remote_cache);
    append_names(&mut all, remote);
    proof {
        assert(spec_names(all@) =~= spec_names(local_cache@) + spec_names(local@) + spec_names(
            remote_cache@,
        ) + spec_names(remote@));
    }

    let mut names: Vec<String> = Vec::new();
    let n = all.len();
    let mut i: usize = 0;
    while i < n
        invariant
            n == all.len(),
            i <= n,
            spec_names(names@) == spec_dedup(spec_names(all@).take(i as int)),
        decreases n - i,
    {
        proof {
            lemma_dedup_take_step(spec_names(all@), i as int);
            assert(spec_names(all@)[i as int] == all@[i as int]@);
        }
        if !contains_name(&names, &all[i]) {
            proof {
                lemma_dedup_same_elements(spec_names(all@).take(i as int));
                assert(spec_names(names@).contains(all@[i as int]@) == spec_names(all@).take(
                    i as int,
                ).contains(all@[i as int]@));
            }
            names.push(all[i].clone());
            proof {
                assert(spec_names(names@) =~= spec_dedup(spec_names(all@).take(i + 1)));
            }
        } else {
            proof {
                lemma_dedup_same_elements(spec_names(all@).take(i as int));
                assert(spec_names(names@) =~= spec_dedup(spec_names(all@).take(i + 1)));
            }
        }
        i = i + 1;
    }
    proof {
        assert(spec_names(all@).take(spec_names(all@).len() as int) =~= spec_names(all@));
    }
    let ghost universe = spec_dedup(spec_names(all@));

    let mut folders: Vec<String> = Vec::new();
    let mut patch: Vec<FolderSyncHunk> = Vec::new();
    let mut cache_patch: Vec<FolderSyncCacheHunk> = Vec::new();
    let m = names.len();
    let mut j: usize = 0;
    while j < m
        invariant
            m == names.len(),
            j <= m,
            spec_names(folders@) == spec_kept_names(universe.take(j as int), lcs, ls, rcs, rs),
            patch@.map_values(|h: FolderSyncHunk| h@) == spec_folder_patch(
                universe.take(j as int),
                lcs,
                ls,
                rcs,
                rs,
            ),
            cache_patch@.map_values(|h: FolderSyncCacheHunk| h@) == spec_folder_cache_patch(
                universe.take(j as int),
                lcs,
                ls,
                rcs,
                rs,
            ),
        decreases m - j,
    {
        let name = &names[j];
        let lc = contains_name(local_cache, name);
        let l = contains_name(local, name);
        let rc = contains_name(remote_cache, name);
        let r = contains_name(remote, name);
        let (mut hunks, mut cache_hunks) = folder_sync_hunks(name, lc, l, rc, r);
        let kept = if lc || rc {
            l && r
        } else {
            l || r
        };
        if kept {
            folders.push(name.clone());
        }
        patch.append(&mut hunks);
        cache_patch.append(&mut cache_hunks);
        proof {
            assert(universe.take(j + 1).drop_last() =~= universe.take(j as int));
            assert(universe.take(j + 1).last() == universe[j as int]);
            assert(universe[j as int] == name@);
            assert(spec_names(folders@) =~= spec_kept_names(universe.take(j + 1), lcs, ls, rcs, rs));
            assert(patch@.map_values(|h: FolderSyncHunk| h@) =~= spec_folder_patch(
                universe.take(j + 1),
                lcs,
                ls,
                rcs,
                rs,
            ));
            assert(cache_patch@.map_values(|h: FolderSyncCacheHunk| h@)
                =~= spec_folder_cache_patch(universe.take(j + 1), lcs, ls, rcs, rs));
        }
        j = j + 1;
    }
    proof {
        assert(universe.take(universe.len() as int) =~= universe);
    }
    FolderSyncPlan { folders, patch, cache_patch }
}

/// The folder name a backend hunk is about.
pub open spec fn spec_hunk_name(h: FolderSyncHunkView) -> Seq<char> {
    match h {
        FolderSyncHunkView::CreateFolder(n, _) => n,
        FolderSyncHunkView::DeleteFolder(n, _) => n,
    }
}

/// The folder name a cache hunk is about.
pub open spec fn spec_cache_hunk_name(h: FolderSyncCacheHunkView) -> Seq<char> {
    match h {
        FolderSyncCacheHunkView::InsertFolder(n, _) => n,
        FolderSyncCacheHunkView::DeleteFolder(n, _) => n,
    }
}

/// The two live folder sets after one backend hunk is applied.
pub open spec fn spec_apply_folder_hunk(
    h: FolderSyncHunkView,
    ls: Set<Seq<char>>,
    rs: Set<Seq<char>>,
) -> (Set<Seq<char>>, Set<Seq<char>>) {
    match h {
        FolderSyncHunkView::CreateFolder(n, Side::Local) => (ls.insert(n), rs),
        FolderSyncHunkView::CreateFolder(n, Side::Remote) => (ls, rs.insert(n)),
        FolderSyncHunkView::DeleteFolder(n, Side::Local) => (ls.remove(n), rs),
        FolderSyncHunkView::DeleteFolder(n, Side::Remote) => (ls, rs.remove(n)),
    }
}

/// The two live folder sets after a list of backend hunks is applied
/// in order.
pub open spec fn spec_apply_folder_hunks(
    hs: Seq<FolderSyncHunkView>,
    ls: Set<Seq<char>>,
    rs: Set<Seq<char>>,
) -> (Set<Seq<char>>, Set<Seq<char>>)
    decreases hs.len(),
{
    if hs.len() == 0 {
        (ls, rs)
    } else {
        let step = spec_apply_folder_hunk(hs.first(), ls, rs);
        spec_apply_folder_hunks(hs.drop_first(), step.0, step.1)
    }
}

/// The two cache folder sets after one cache hunk is applied.
pub open spec fn spec_apply_folder_cache_hunk(
    h: FolderSyncCacheHunkView,
    lcs: Set<Seq<char>>,
    rcs: Set<Seq<char>>,
) -> (Set<Seq<char>>, Set<Seq<char>>) {
    match h {
        FolderSyncCacheHunkView::InsertFolder(n, Side::Local) => (lcs.insert(n), rcs),
        FolderSyncCacheHunkView::InsertFolder(n, Side::Remote) => (lcs, rcs.insert(n)),
        FolderSyncCacheHunkView::DeleteFolder(n, Side::Local) => (lcs.remove(n), rcs),
        FolderSyncCacheHunkView::DeleteFolder(n, Side::Remote) => (lcs, rcs.remove(n)),
    }
}

/// The two cache folder sets after a list of cache hunks is applied in
/// order.
pub open spec fn spec_apply_folder_cache_hunks(
    hs: Seq<FolderSyncCacheHunkView>,
    lcs: Set<Seq<char>>,
    rcs: Set<Seq<char>>,
) -> (Set<Seq<char>>, Set<Seq<char>>)
    decreases hs.len(),
{
    if hs.len() == 0 {
        (lcs, rcs)
    } else {
        let step = spec_apply_folder_cache_hunk(hs.first(), lcs, rcs);
        spec_apply_folder_cache_hunks(hs.drop_first(), step.0, step.1)
    }
}

proof fn lemma_apply_folder_hunks_concat(
    a: Seq<FolderSyncHunkView>,
    b: Seq<FolderSyncHunkView>,
    ls: Set<Seq<char>>,
    rs: Set<Seq<char>>,
)
    ensures
        spec_apply_folder_hunks(a + b, ls, rs) == spec_apply_folder_hunks(
            b,
            spec_apply_folder_hunks(a, ls, rs).0,
            spec_apply_folder_hunks(a, ls, rs).1,
        ),
    decreases a.len(),
{
    if a.len() == 0 {
        assert(a + b =~= b);
    } else {
        assert((a + b).first() == a.first());
        assert((a + b).drop_first() =~= a.drop_first() + b);
        let step = spec_apply_folder_hunk(a.first(), ls, rs);
        lemma_apply_folder_hunks_concat(a.drop_first(), b, step.0, step.1);
    }
}

proof fn lemma_apply_folder_cache_hunks_concat(
    a: Seq<FolderSyncCacheHunkView>,
    b: Seq<FolderSyncCacheHunkView>,
    lcs: Set<Seq<char>>,
    rcs: Set<Seq<char>>,
)
    ensures
        spec_apply_folder_cache_hunks(a + b, lcs, rcs) == spec_apply_folder_cache_hunks(
            b,
            spec_apply_folder_cache_hunks(a, lcs, rcs).0,
            spec_apply_folder_cache_hunks(a, lcs, rcs).1,
        ),
    decreases a.len(),
{
    if a.len() == 0 {
        assert(a + b =~= b);
    } else {
        assert((a + b).first() == a.first());
        assert((a + b).drop_first() =~= a.drop_first() + b);
        let step = spec_apply_folder_cache_hunk(a.first(), lcs, rcs);
        lemma_apply_folder_cache_hunks_concat(a.drop_first(), b, step.0, step.1);
    }
}

proof fn lemma_apply_folder_hunks_frame(
    hs: Seq<FolderSyncHunkView>,
    ls: Set<Seq<char>>,
    rs: Set<Seq<char>>,
    x: Seq<char>,
)
    requires
        forall|i: int| 0 <= i < hs.len() ==> spec_hunk_name(#[trigger] hs[i]) != x,
    ensures
        spec_apply_folder_hunks(hs, ls, rs).0.contains(x) == ls.contains(x),
        spec_apply_folder_hunks(hs, ls, rs).1.contains(x) == rs.contains(x),
    decreases hs.len(),
{
    if hs.len() > 0 {
        let step = spec_apply_folder_hunk(hs.first(), ls, rs);
        assert(spec_hunk_name(hs[0]) != x);
        assert(forall|i: int|
            0 <= i < hs.drop_first().len() ==> spec_hunk_name(#[trigger] hs.drop_first()[i]) != x);
        lemma_apply_folder_hunks_frame(hs.drop_first(), step.0, step.1, x);
    }
}

proof fn lemma_apply_folder_cache_hunks_frame(
    hs: Seq<FolderSyncCacheHunkView>,
    lcs: Set<Seq<char>>,
    rcs: Set<Seq<char>>,
    x: Seq<char>,
)
    requires
        forall|i: int| 0 <= i < hs.len() ==> spec_cache_hunk_name(#[trigger] hs[i]) != x,
    ensures
        spec_apply_folder_cache_hunks(hs, lcs, rcs).0.contains(x) == lcs.contains(x),
        spec_apply_folder_cache_hunks(hs, lcs, rcs).1.contains(x) == rcs.contains(x),
    decreases hs.len(),
{
    if hs.len() > 0 {
        let step = spec_apply_folder_cache_hunk(hs.first(), lcs, rcs);
        assert(spec_cache_hunk_name(hs[0]) != x);
        assert(forall|i: int|
            0 <= i < hs.drop_first().len() ==> spec_cache_hunk_name(#[trigger] hs.drop_first()[i])
                != x);
        lemma_apply_folder_cache_hunks_frame(hs.drop_first(), step.0, step.1, x);
    }
}

proof fn lemma_apply_one_folder_hunk(h: FolderSyncHunkView, ls: Set<Seq<char>>, rs: Set<Seq<char>>)
    ensures
        spec_apply_folder_hunks(seq![h], ls, rs) == spec_apply_folder_hunk(h, ls, rs),
{
    assert(seq![h].first() == h);
    assert(seq![h].drop_first() =~= Seq::<FolderSyncHunkView>::empty());
    let step = spec_apply_folder_hunk(h, ls, rs);
    assert(spec_apply_folder_hunks(Seq::<FolderSyncHunkView>::empty(), step.0, step.1) == (
        step.0,
        step.1,
    ));
}

proof fn lemma_apply_two_folder_hunks(
    h1: FolderSyncHunkView,
    h2: FolderSyncHunkView,
    ls: Set<Seq<char>>,
    rs: Set<Seq<char>>,
)
    ensures
        spec_apply_folder_hunks(seq![h1, h2], ls, rs) == spec_apply_folder_hunk(
            h2,
            spec_apply_folder_hunk(h1, ls, rs).0,
            spec_apply_folder_hunk(h1, ls, rs).1,
        ),
{
    assert(seq![h1, h2].first() == h1);
    assert(seq![h1, h2].drop_first() =~= seq![h2]);
    let step = spec_apply_folder_hunk(h1, ls, rs);
    lemma_apply_one_folder_hunk(h2, step.0, step.1);
}

proof fn lemma_apply_own_folder_hunks(
    n: Seq<char>,
    lc: bool,
    l: bool,
    rc: bool,
    r: bool,
    ls: Set<Seq<char>>,
    rs: Set<Seq<char>>,
)
    requires
        ls.contains(n) == l,
        rs.contains(n) == r,
    ensures
        spec_apply_folder_hunks(spec_folder_hunks(n, lc, l, rc, r), ls, rs).0.contains(n)
            == spec_folder_kept(lc, l, rc, r),
        spec_apply_folder_hunks(spec_folder_hunks(n, lc, l, rc, r), ls, rs).1.contains(n)
            == spec_folder_kept(lc, l, rc, r),
        forall|x: Seq<char>|
            x != n ==> spec_apply_folder_hunks(spec_folder_hunks(n, lc, l, rc, r), ls, rs).0.contains(
                x,
            ) == ls.contains(x),
        forall|x: Seq<char>|
            x != n ==> spec_apply_folder_hunks(spec_folder_hunks(n, lc, l, rc, r), ls, rs).1.contains(
                x,
            ) == rs.contains(x),
{
    let hs = spec_folder_hunks(n, lc, l, rc, r);
    let dl = FolderSyncHunkView::DeleteFolder(n, Side::Local);
    let dr = FolderSyncHunkView::DeleteFolder(n, Side::Remote);
    if lc || rc {
        if l && r {
        } else if l && !r {
            assert(hs =~= seq![dl]);
            lemma_apply_one_folder_hunk(dl, ls, rs);
        } else if !l && r {
            assert(hs =~= seq![dr]);
            lemma_apply_one_folder_hunk(dr, ls, rs);
        } else {
            assert(hs =~= Seq::<FolderSyncHunkView>::empty());
        }
    } else {
        if l && !r {
            let cr = FolderSyncHunkView::CreateFolder(n, Side::Remote);
            assert(hs =~= seq![cr]);
            lemma_apply_one_folder_hunk(cr, ls, rs);
        } else if !l && r {
            let cl = FolderSyncHunkView::CreateFolder(n, Side::Local);
            assert(hs =~= seq![cl]);
            lemma_apply_one_folder_hunk(cl, ls, rs);
        }
    }
}

proof fn lemma_apply_one_folder_cache_hunk(
    h: FolderSyncCacheHunkView,
    lcs: Set<Seq<char>>,
    rcs: Set<Seq<char>>,
)
    ensures
        spec_apply_folder_cache_hunks(seq![h], lcs, rcs) == spec_apply_folder_cache_hunk(
            h,
            lcs,
            rcs,
        ),
{
    assert(seq![h].first() == h);
    assert(seq![h].drop_first() =~= Seq::<FolderSyncCacheHunkView>::empty());
    let step = spec_apply_folder_cache_hunk(h, lcs, rcs);
    assert(spec_apply_folder_cache_hunks(Seq::<FolderSyncCacheHunkView>::empty(), step.0, step.1)
        == (step.0, step.1));
}

proof fn lemma_apply_two_folder_cache_hunks(
    h1: FolderSyncCacheHunkView,
    h2: FolderSyncCacheHunkView,
    lcs: Set<Seq<char>>,
    rcs: Set<Seq<char>>,
)
    ensures
        spec_apply_folder_cache_hunks(seq![h1, h2], lcs, rcs) == spec_apply_folder_cache_hunk(
            h2,
            spec_apply_folder_cache_hunk(h1, lcs, rcs).0,
            spec_apply_folder_cache_hunk(h1, lcs, rcs).1,
        ),
{
    assert(seq![h1, h2].first() == h1);
    assert(seq![h1, h2].drop_first() =~= seq![h2]);
    let step = spec_apply_folder_cache_hunk(h1, lcs, rcs);
    lemma_apply_one_folder_cache_hunk(h2, step.0, step.1);
}

proof fn lemma_apply_own_folder_cache_hunks(
    n: Seq<char>,
    lc: bool,
    l: bool,
    rc: bool,
    r: bool,
    lcs: Set<Seq<char>>,
    rcs: Set<Seq<char>>,
)
    requires
        lcs.contains(n) == lc,
        rcs.contains(n) == rc,
    ensures
        spec_apply_folder_cache_hunks(spec_folder_cache_hunks(n, lc, l, rc, r), lcs, rcs).0.contains(
            n,
        ) == spec_folder_kept(lc, l, rc, r),
        spec_apply_folder_cache_hunks(spec_folder_cache_hunks(n, lc, l, rc, r), lcs, rcs).1.contains(
            n,
        ) == spec_folder_kept(lc, l, rc, r),
        forall|x: Seq<char>|
            x != n ==> spec_apply_folder_cache_hunks(
                spec_folder_cache_hunks(n, lc, l, rc, r),
                lcs,
                rcs,
            ).0.contains(x) == lcs.contains(x),
        forall|x: Seq<char>|
            x != n ==> spec_apply_folder_cache_hunks(
                spec_folder_cache_hunks(n, lc, l, rc, r),
                lcs,
                rcs,
            ).1.contains(x) == rcs.contains(x),
{
    let hs = spec_folder_cache_hunks(n, lc, l, rc, r);
    let il = FolderSyncCacheHunkView::InsertFolder(n, Side::Local);
    let ir = FolderSyncCacheHunkView::InsertFolder(n, Side::Remote);
    let dl = FolderSyncCacheHunkView::DeleteFolder(n, Side::Local);
    let dr = FolderSyncCacheHunkView::DeleteFolder(n, Side::Remote);
    if spec_folder_kept(lc, l, rc, r) {
        if !lc && !rc {
            assert(hs =~= seq![il, ir]);
            lemma_apply_two_folder_cache_hunks(il, ir, lcs, rcs);
        } else if !lc && rc {
            assert(hs =~= seq![il]);
            lemma_apply_one_folder_cache_hunk(il, lcs, rcs);
        } else if lc && !rc {
            assert(hs =~= seq![ir]);
            lemma_apply_one_folder_cache_hunk(ir, lcs, rcs);
        } else {
            assert(hs =~= Seq::<FolderSyncCacheHunkView>::empty());
        }
    } else {
        if lc && rc {
            assert(hs =~= seq![dl, dr]);
            lemma_apply_two_folder_cache_hunks(dl, dr, lcs, rcs);
        } else if lc && !rc {
            assert(hs =~= seq![dl]);
            lemma_apply_one_folder_cache_hunk(dl, lcs, rcs);
        } else if !lc && rc {
            assert(hs =~= seq![dr]);
            lemma_apply_one_folder_cache_hunk(dr, lcs, rcs);
        } else {
            assert(hs =~= Seq::<FolderSyncCacheHunkView>::empty());
        }
    }
}

proof fn lemma_folder_patch_membership(
    names: Seq<Seq<char>>,
    lcs: Set<Seq<char>>,
    ls: Set<Seq<char>>,
    rcs: Set<Seq<char>>,
    rs: Set<Seq<char>>,
    x: Seq<char>,
)
    requires
        names.no_duplicates(),
    ensures
        ({
            let live = spec_apply_folder_hunks(spec_folder_patch(names, lcs, ls, rcs, rs), ls, rs);
            let kept = spec_folder_kept(
                lcs.contains(x),
                ls.contains(x),
                rcs.contains(x),
                rs.contains(x),
            );
            if names.contains(x) {
                live.0.contains(x) == kept && live.1.contains(x) == kept
            } else {
                live.0.contains(x) == ls.contains(x) && live.1.contains(x) == rs.contains(x)
            }
        }),
    decreases names.len(),
{
    if names.len() > 0 {
        let prefix = names.drop_last();
        let last = names.last();
        let lc = lcs.contains(last);
        let l = ls.contains(last);
        let rc = rcs.contains(last);
        let r = rs.contains(last);
        assert(prefix.no_duplicates());
        assert(!prefix.contains(last)) by {
            if prefix.contains(last) {
                let k = choose|k: int| 0 <= k < prefix.len() && #[trigger] prefix[k] == last;
                assert(names[k] == names[names.len() - 1]);
            }
        }
        lemma_apply_folder_hunks_concat(
            spec_folder_patch(prefix, lcs, ls, rcs, rs),
            spec_folder_hunks(last, lc, l, rc, r),
            ls,
            rs,
        );
        let mid = spec_apply_folder_hunks(spec_folder_patch(prefix, lcs, ls, rcs, rs), ls, rs);
        lemma_folder_patch_membership(prefix, lcs, ls, rcs, rs, last);
        lemma_apply_own_folder_hunks(last, lc, l, rc, r, mid.0, mid.1);
        if x == last {
        } else {
            lemma_folder_patch_membership(prefix, lcs, ls, rcs, rs, x);
            assert(names.contains(x) == prefix.contains(x)) by {
                if names.contains(x) {
                    let k = choose|k: int| 0 <= k < names.len() && #[trigger] names[k] == x;
                    assert(prefix[k] == x);
                }
                if prefix.contains(x) {
                    let k = choose|k: int| 0 <= k < prefix.len() && #[trigger] prefix[k] == x;
                    assert(names[k] == x);
                }
            }
        }
    }
}

proof fn lemma_folder_cache_patch_membership(
    names: Seq<Seq<char>>,
    lcs: Set<Seq<char>>,
    ls: Set<Seq<char>>,
    rcs: Set<Seq<char>>,
    rs: Set<Seq<char>>,
    x: Seq<char>,
)
    requires
        names.no_duplicates(),
    ensures
        ({
            let caches = spec_apply_folder_cache_hunks(
                spec_folder_cache_patch(names, lcs, ls, rcs, rs),
                lcs,
                rcs,
            );
            let kept = spec_folder_kept(
                lcs.contains(x),
                ls.contains(x),
                rcs.contains(x),
                rs.contains(x),
            );
            if names.contains(x) {
                caches.0.contains(x) == kept && caches.1.contains(x) == kept
            } else {
                caches.0.contains(x) == lcs.contains(x) && caches.1.contains(x) == rcs.contains(x)
            }
        }),
    decreases names.len(),
{
    if names.len() > 0 {
        let prefix = names.drop_last();
        let last = names.last();
        let lc = lcs.contains(last);
        let l = ls.contains(last);
        let rc = rcs.contains(last);
        let r = rs.contains(last);
        assert(prefix.no_duplicates());
        assert(!prefix.contains(last)) by {
            if prefix.contains(last) {
                let k = choose|k: int| 0 <= k < prefix.len() && #[trigger] prefix[k] == last;
                assert(names[k] == names[names.len() - 1]);
            }
        }
        lemma_apply_folder_cache_hunks_concat(
            spec_folder_cache_patch(prefix, lcs, ls, rcs, rs),
            spec_folder_cache_hunks(last, lc, l, rc, r),
            lcs,
            rcs,
        );
        let mid = spec_apply_folder_cache_hunks(
            spec_folder_cache_patch(prefix, lcs, ls, rcs, rs),
            lcs,
            rcs,
        );
        lemma_folder_cache_patch_membership(prefix, lcs, ls, rcs, rs, last);
        lemma_apply_own_folder_cache_hunks(last, lc, l, rc, r, mid.0, mid.1);
        if x == last {
        } else {
            lemma_folder_cache_patch_membership(prefix, lcs, ls, rcs, rs, x);
            assert(names.contains(x) == prefix.contains(x)) by {
                if names.contains(x) {
                    let k = choose|k: int| 0 <= k < names.len() && #[trigger] names[k] == x;
                    assert(prefix[k] == x);
                }
                if prefix.contains(x) {
                    let k = choose|k: int| 0 <= k < prefix.len() && #[trigger] prefix[k] == x;
                    assert(names[k] == x);
                }
            }
        }
    }
}

/// Law of idempotence, folder level: when the four observation points
/// already agree — both live sides and both caches hold the same
/// folder set — the pass plans no backend change and no cache change.
pub proof fn lemma_folder_sync_idempotent(names: Seq<Seq<char>>, s: Set<Seq<char>>)
    ensures
        spec_folder_patch(names, s, s, s, s) == Seq::<FolderSyncHunkView>::empty(),
        spec_folder_cache_patch(names, s, s, s, s) == Seq::<FolderSyncCacheHunkView>::empty(),
    decreases names.len(),
{
    if names.len() > 0 {
        lemma_folder_sync_idempotent(names.drop_last(), s);
        let b = s.contains(names.last());
        assert(spec_folder_hunks(names.last(), b, b, b, b) =~= Seq::<FolderSyncHunkView>::empty());
        assert(spec_folder_cache_hunks(names.last(), b, b, b, b) =~= Seq::<
            FolderSyncCacheHunkView,
        >::empty());
        assert(spec_folder_patch(names, s, s, s, s) =~= Seq::<FolderSyncHunkView>::empty());
        assert(spec_folder_cache_patch(names, s, s, s, s) =~= Seq::<
            FolderSyncCacheHunkView,
        >::empty());
    }
}

/// Law of convergence, folder level: once every hunk of one pass is
/// applied, the two live sides and the two caches hold one and the
/// same folder set — the names the decision table kept.
pub proof fn lemma_folder_sync_convergence(
    names: Seq<Seq<char>>,
    lcs: Set<Seq<char>>,
    ls: Set<Seq<char>>,
    rcs: Set<Seq<char>>,
    rs: Set<Seq<char>>,
)
    requires
        names.no_duplicates(),
        forall|x: Seq<char>|
            lcs.contains(x) || ls.contains(x) || rcs.contains(x) || rs.contains(x)
                ==> #[trigger] names.contains(x),
    ensures
        ({
            let live = spec_apply_folder_hunks(spec_folder_patch(names, lcs, ls, rcs, rs), ls, rs);
            let caches = spec_apply_folder_cache_hunks(
                spec_folder_cache_patch(names, lcs, ls, rcs, rs),
                lcs,
                rcs,
            );
            let converged = Set::new(
                |x: Seq<char>|
                    names.contains(x) && spec_folder_kept(
                        lcs.contains(x),
                        ls.contains(x),
                        rcs.contains(x),
                        rs.contains(x),
                    ),
            );
            live.0 == converged && live.1 == converged && caches.0 == converged && caches.1
                == converged
        }),
{
    let live = spec_apply_folder_hunks(spec_folder_patch(names, lcs, ls, rcs, rs), ls, rs);
    let caches = spec_apply_folder_cache_hunks(
        spec_folder_cache_patch(names, lcs, ls, rcs, rs),
        lcs,
        rcs,
    );
    let converged = Set::new(
        |x: Seq<char>|
            names.contains(x) && spec_folder_kept(
                lcs.contains(x),
                ls.contains(x),
                rcs.contains(x),
                rs.contains(x),
            ),
    );
    assert forall|x: Seq<char>| #[trigger] live.0.contains(x) == converged.contains(x) by {
        lemma_folder_patch_membership(names, lcs, ls, rcs, rs, x);
    }
    assert forall|x: Seq<char>| #[trigger] live.1.contains(x) == converged.contains(x) by {
        lemma_folder_patch_membership(names, lcs, ls, rcs, rs, x);
    }
    assert forall|x: Seq<char>| #[trigger] caches.0.contains(x) == converged.contains(x) by {
        lemma_folder_cache_patch_membership(names, lcs, ls, rcs, rs, x);
    }
    assert forall|x: Seq<char>| #[trigger] caches.1.contains(x) == converged.contains(x) by {
        lemma_folder_cache_patch_membership(names, lcs, ls, rcs, rs, x);
    }
    assert(live.0 =~= converged);
    assert(live.1 =~= converged);
    assert(caches.0 =~= converged);
    assert(caches.1 =~= converged);
}

/// The convergence law applied to what `build_folder_patch` builds:
/// its universe of names is the four snapshots' names with repeats
/// removed, which holds every observed name exactly once, so applying
/// its patch and its cache patch in full leaves the two live sides and
/// the two caches with one and the same folder set.
pub proof fn lemma_folder_plan_convergence(
    lc_names: Seq<Seq<char>>,
    l_names: Seq<Seq<char>>,
    rc_names: Seq<Seq<char>>,
    r_names: Seq<Seq<char>>,
)
    ensures
        ({
            let names = spec_dedup(lc_names + l_names + rc_names + r_names);
            let lcs = lc_names.to_set();
            let ls = l_names.to_set();
            let rcs = rc_names.to_set();
            let rs = r_names.to_set();
            let live = spec_apply_folder_hunks(spec_folder_patch(names, lcs, ls, rcs, rs), ls, rs);
            let caches = spec_apply_folder_cache_hunks(
                spec_folder_cache_patch(names, lcs, ls, rcs, rs),
                lcs,
                rcs,
            );
            live.0 == live.1 && caches.0 == live.0 && caches.1 == live.0
        }),
{
    let all = lc_names + l_names + rc_names + r_names;
    let names = spec_dedup(all);
    let lcs = lc_names.to_set();
    let ls = l_names.to_set();
    let rcs = rc_names.to_set();
    let rs = r_names.to_set();
    lemma_dedup_no_duplicates(all);
    lemma_dedup_same_elements(all);
    assert forall|x: Seq<char>|
        lcs.contains(x) || ls.contains(x) || rcs.contains(x) || rs.contains(x) implies #[trigger] names.contains(
        x,
    ) by {
        if lcs.contains(x) {
            let k = choose|k: int| 0 <= k < lc_names.len() && #[trigger] lc_names[k] == x;
            assert(all[k] == x);
        } else if ls.contains(x) {
            let k = choose|k: int| 0 <= k < l_names.len() && #[trigger] l_names[k] == x;
            assert(all[lc_names.len() + k] == x);
        } else if rcs.contains(x) {
            let k = choose|k: int| 0 <= k < rc_names.len() && #[trigger] rc_names[k] == x;
            assert(all[lc_names.len() + l_names.len() + k] == x);
        } else {
            let k = choose|k: int| 0 <= k < r_names.len() && #[trigger] r_names[k] == x;
            assert(all[lc_names.len() + l_names.len() + rc_names.len() + k] == x);
        }
        assert(all.contains(x));
    }
    lemma_folder_sync_convergence(names, lcs, ls, rcs, rs);
}

/// Appends every name of `src` to `dst`.
#[verifier::loop_isolation(false)]
fn append_names(dst: &mut Vec<String>, src: &Vec<String>)
    ensures
        spec_names(final (dst)@) == spec_names(old(dst)@) + spec_names(src@),
{
    let n = src.len();
    let mut i: usize = 0;
    while i < n
        invariant
            n == src.len(),
            i <= n,
            spec_names(dst@) == spec_names(old(dst)@) + spec_names(src@).take(i as int),
        decreases n - i,
    {
        let ghost pre = dst@;
        dst.push(src[i].clone());
        proof {
            assert(dst@ =~= pre.push(src@[i as int]));
            assert(spec_names(dst@) =~= spec_names(pre).push(src@[i as int]@));
            assert(spec_names(src@).take(i + 1) =~= spec_names(src@).take(i as int).push(
                spec_names(src@)[i as int],
            ));
            assert(spec_names(src@)[i as int] == src@[i as int]@);
            assert(spec_names(dst@) =~= spec_names(old(dst)@) + spec_names(src@).take(i + 1));
        }
        i = i + 1;
    }
    proof {
        assert(spec_names(src@).take(n as int) =~= spec_names(src@));
    }
}

} // verus!
