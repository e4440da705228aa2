//! Four-way reconciliation over the envelopes of one folder.
//!
//! Envelopes are first correlated across the four observation points:
//! within one side, a cache row and a live envelope belong together
//! when they share the backend-internal identifier; across sides, two
//! cached rows belong together when they recorded the same stable
//! identifier, and uncached envelopes fall back to their Message-ID.
//! Each correlated identity is then classified by its presence
//! pattern, exactly as folder names are, and identities kept on both
//! sides get their flags merged by the flag decision table.
//!
//! A copy hunk names the source envelope; the applier that copies it
//! learns the target's new internal identifier only then, and writes
//! it into the target-side cache row it inserts.

use vstd::prelude::*;

use crate::envelope::{Envelope, EnvelopeView};
use crate::flag::{FlagView, Flags};
use crate::flag_sync::spec_merged_flags;
use crate::folder_sync::Side;

verus! {

/// One proposed change to a live side's envelopes.
#[derive(Debug)]
pub enum EnvelopeSyncHunk {
    /// Copy the given envelope's message from the first side to the
    /// second.
    CopyEmail(String, Envelope, Side, Side),
    /// Delete the message with the given internal identifier.
    DeleteEmail(String, String, Side),
    /// Replace the flags of the message with the envelope's.
    SetFlags(String, Envelope, Side),
}

/// The mathematical identity of an envelope hunk.
pub enum EnvelopeSyncHunkView {
    CopyEmail(Seq<char>, EnvelopeView, Side, Side),
    DeleteEmail(Seq<char>, Seq<char>, Side),
    SetFlags(Seq<char>, EnvelopeView, Side),
}

impl View for EnvelopeSyncHunk {
    type V = EnvelopeSyncHunkView;

    open spec fn view(&self) -> EnvelopeSyncHunkView {
        match self {
            EnvelopeSyncHunk::CopyEmail(f, e, s, t) => EnvelopeSyncHunkView::CopyEmail(
                f@,
                e@,
                *s,
                *t,
            ),
            EnvelopeSyncHunk::DeleteEmail(f, i, s) => EnvelopeSyncHunkView::DeleteEmail(
                f@,
                i@,
                *s,
            ),
            EnvelopeSyncHunk::SetFlags(f, e, s) => EnvelopeSyncHunkView::SetFlags(f@, e@, *s),
        }
    }
}

/// One proposed change to a cache's envelope rows.
#[derive(Debug)]
pub enum EnvelopeSyncCacheHunk {
    /// Record the envelope in the given side's cache.
    InsertEnvelope(String, Envelope, Side),
    /// Drop the row with the given internal identifier from the given
    /// side's cache.
    DeleteEnvelope(String, String, Side),
}

/// The mathematical identity of an envelope cache hunk.
pub enum EnvelopeSyncCacheHunkView {
    InsertEnvelope(Seq<char>, EnvelopeView, Side),
    DeleteEnvelope(Seq<char>, Seq<char>, Side),
}

impl View for EnvelopeSyncCacheHunk {
    type V = EnvelopeSyncCacheHunkView;

    open spec fn view(&self) -> EnvelopeSyncCacheHunkView {
        match self {
            EnvelopeSyncCacheHunk::InsertEnvelope(f, e, s) => EnvelopeSyncCacheHunkView::InsertEnvelope(
                f@,
                e@,
                *s,
            ),
            EnvelopeSyncCacheHunk::DeleteEnvelope(f, i, s) => EnvelopeSyncCacheHunkView::DeleteEnvelope(
                f@,
                i@,
                *s,
            ),
        }
    }
}

impl Clone for EnvelopeSyncHunk {
    fn clone(&self) -> (r: EnvelopeSyncHunk)
        ensures
            r@ == self@,
    {
        match self {
            EnvelopeSyncHunk::CopyEmail(f, e, s, t) => EnvelopeSyncHunk::CopyEmail(
                f.clone(),
                e.clone(),
                *s,
                *t,
            ),
            EnvelopeSyncHunk::DeleteEmail(f, i, s) => EnvelopeSyncHunk::DeleteEmail(
                f.clone(),
                i.clone(),
                *s,
            ),
            EnvelopeSyncHunk::SetFlags(f, e, s) => EnvelopeSyncHunk::SetFlags(
                f.clone(),
                e.clone(),
                *s,
            ),
        }
    }
}

impl Clone for EnvelopeSyncCacheHunk {
    fn clone(&self) -> (r: EnvelopeSyncCacheHunk)
        ensures
            r@ == self@,
            r matches EnvelopeSyncCacheHunk::InsertEnvelope(_, e, _) ==> (
            *self matches EnvelopeSyncCacheHunk::InsertEnvelope(_, e0, _) && e.wf() == e0.wf()),
    {
        match self {
            EnvelopeSyncCacheHunk::InsertEnvelope(f, e, s) => EnvelopeSyncCacheHunk::InsertEnvelope(
                f.clone(),
                e.clone(),
                *s,
            ),
            EnvelopeSyncCacheHunk::DeleteEnvelope(f, i, s) => EnvelopeSyncCacheHunk::DeleteEnvelope(
                f.clone(),
                i.clone(),
                *s,
            ),
        }
    }
}

/// One correlated identity: the same message as the four observation
/// points saw it, each slot possibly absent.
#[derive(Debug)]
pub struct EnvelopeQuad {
    pub local_cache: Option<Envelope>,
    pub local: Option<Envelope>,
    pub remote_cache: Option<Envelope>,
    pub remote: Option<Envelope>,
}

/// The view of an optionally-present envelope.
pub open spec fn spec_opt_env(o: Option<Envelope>) -> Option<EnvelopeView> {
    match o {
        Some(e) => Some(e@),
        None => None,
    }
}

/// The flag set of an optionally-present envelope view.
pub open spec fn spec_optv_flags(o: Option<EnvelopeView>) -> Set<FlagView> {
    match o {
        Some(e) => e.flags,
        None => Set::empty(),
    }
}

/// Whether the identity survives the pass: a cached identity survives
/// only when both live sides still hold the message; an uncached one
/// survives when either live side holds it.
pub open spec fn spec_envelope_kept(
    lc: Option<EnvelopeView>,
    l: Option<EnvelopeView>,
    rc: Option<EnvelopeView>,
    r: Option<EnvelopeView>,
) -> bool {
    if lc is Some || rc is Some {
        l is Some && r is Some
    } else {
        l is Some || r is Some
    }
}

/// The merged flag set of one identity across the four points.
pub open spec fn spec_quad_merged_flags(
    lc: Option<EnvelopeView>,
    l: Option<EnvelopeView>,
    rc: Option<EnvelopeView>,
    r: Option<EnvelopeView>,
) -> Set<FlagView> {
    spec_merged_flags(
        spec_optv_flags(lc),
        spec_optv_flags(l),
        spec_optv_flags(rc),
        spec_optv_flags(r),
    )
}

/// An envelope view with its flags replaced.
pub open spec fn spec_with_flags(e: EnvelopeView, flags: Set<FlagView>) -> EnvelopeView {
    EnvelopeView { flags, ..e }
}

/// The backend changes for one identity under one presence pattern.
pub open spec fn spec_envelope_hunks(
    folder: Seq<char>,
    lc: Option<EnvelopeView>,
    l: Option<EnvelopeView>,
    rc: Option<EnvelopeView>,
    r: Option<EnvelopeView>,
) -> Seq<EnvelopeSyncHunkView> {
    let merged = spec_quad_merged_flags(lc, l, rc, r);
    if lc is Some || rc is Some {
        if l is Some && r is Some {
            spec_set_flags_hunks(folder, l->Some_0, r->Some_0, merged)
        } else {
            (match l {
                Some(lv) => seq![
                    EnvelopeSyncHunkView::DeleteEmail(folder, lv.internal_id, Side::Local),
                ],
                None => Seq::empty(),
            }) + (match r {
                Some(rv) => seq![
                    EnvelopeSyncHunkView::DeleteEmail(folder, rv.internal_id, Side::Remote),
                ],
                None => Seq::empty(),
            })
        }
    } else {
        match (l, r) {
            (Some(lv), Some(rv)) => spec_set_flags_hunks(folder, lv, rv, merged),
            (Some(lv), None) => seq![
                EnvelopeSyncHunkView::CopyEmail(folder, lv, Side::Local, Side::Remote),
            ],
            (None, Some(rv)) => seq![
                EnvelopeSyncHunkView::CopyEmail(folder, rv, Side::Remote, Side::Local),
            ],
            (None, None) => Seq::empty(),
        }
    }
}

/// The flag-repair changes for an identity kept live on both sides:
/// each side whose flags differ from the merged set is rewritten.
pub open spec fn spec_set_flags_hunks(
    folder: Seq<char>,
    lv: EnvelopeView,
    rv: EnvelopeView,
    merged: Set<FlagView>,
) -> Seq<EnvelopeSyncHunkView> {
    (if lv.flags != merged {
        seq![EnvelopeSyncHunkView::SetFlags(folder, spec_with_flags(lv, merged), Side::Local)]
    } else {
        Seq::empty()
    }) + (if rv.flags != merged {
        seq![EnvelopeSyncHunkView::SetFlags(folder, spec_with_flags(rv, merged), Side::Remote)]
    } else {
        Seq::empty()
    })
}

/// The cache row an identity's surviving side is recorded from: the
/// side's own live envelope when it has one, else the live envelope of
/// the other side, whose message is being copied over.
pub open spec fn spec_cache_basis(
    own: Option<EnvelopeView>,
    other: Option<EnvelopeView>,
) -> EnvelopeView
    recommends
        own is Some || other is Some,
{
    if own is Some {
        own->Some_0
    } else {
        other->Some_0
    }
}

/// The cache changes of one side for one identity.
pub open spec fn spec_envelope_cache_hunks_side(
    folder: Seq<char>,
    cached: Option<EnvelopeView>,
    own_live: Option<EnvelopeView>,
    other_live: Option<EnvelopeView>,
    kept: bool,
    merged: Set<FlagView>,
    side: Side,
) -> Seq<EnvelopeSyncCacheHunkView> {
    if kept {
        let row = spec_with_flags(spec_cache_basis(own_live, other_live), merged);
        match cached {
            None => seq![EnvelopeSyncCacheHunkView::InsertEnvelope(folder, row, side)],
            Some(cv) => if cv.flags != merged {
                seq![
                    EnvelopeSyncCacheHunkView::DeleteEnvelope(folder, cv.internal_id, side),
                    EnvelopeSyncCacheHunkView::InsertEnvelope(folder, row, side),
                ]
            } else {
                Seq::empty()
            },
        }
    } else {
        match cached {
            Some(cv) => seq![
                EnvelopeSyncCacheHunkView::DeleteEnvelope(folder, cv.internal_id, side),
            ],
            None => Seq::empty(),
        }
    }
}

/// The cache changes for one identity under one presence pattern.
pub open spec fn spec_envelope_cache_hunks(
    folder: Seq<char>,
    lc: Option<EnvelopeView>,
    l: Option<EnvelopeView>,
    rc: Option<EnvelopeView>,
    r: Option<EnvelopeView>,
) -> Seq<EnvelopeSyncCacheHunkView> {
    let kept = spec_envelope_kept(lc, l, rc, r);
    let merged = spec_quad_merged_flags(lc, l, rc, r);
    spec_envelope_cache_hunks_side(folder, lc, l, r, kept, merged, Side::Local)
        + spec_envelope_cache_hunks_side(folder, rc, r, l, kept, merged, Side::Remote)
}

impl EnvelopeQuad {
    /// Well-formed: every present envelope has a well-formed flag set.
    pub open spec fn wf(&self) -> bool {
        &&& (self.local_cache matches Some(e) ==> e.wf())
        &&& (self.local matches Some(e) ==> e.wf())
        &&& (self.remote_cache matches Some(e) ==> e.wf())
        &&& (self.remote matches Some(e) ==> e.wf())
    }
}

/// The given envelope with its flags replaced.
fn with_flags(e: &Envelope, flags: &Flags) -> (r: Envelope)
    ensures
        r@ == spec_with_flags(e@, flags@),
        r.wf() == flags.wf(),
{
    let mut r = e.clone();
    r.flags = flags.clone();
    r
}

/// The backend and cache changes for one correlated identity.
pub fn envelope_sync_hunks(folder: &String, quad: &EnvelopeQuad) -> (res: (
    Vec<EnvelopeSyncHunk>,
    Vec<EnvelopeSyncCacheHunk>,
))
    requires
        quad.wf(),
    ensures
        res.0@.map_values(|h: EnvelopeSyncHunk| h@) == spec_envelope_hunks(
            folder@,
            spec_opt_env(quad.local_cache),
            spec_opt_env(quad.local),
            spec_opt_env(quad.remote_cache),
            spec_opt_env(quad.remote),
        ),
        res.1@.map_values(|h: EnvelopeSyncCacheHunk| h@) == spec_envelope_cache_hunks(
            folder@,
            spec_opt_env(quad.local_cache),
            spec_opt_env(quad.local),
            spec_opt_env(quad.remote_cache),
            spec_opt_env(quad.remote),
        ),
{
    let ghost lcv = spec_opt_env(quad.local_cache);
    let ghost lv = spec_opt_env(quad.local);
    let ghost rcv = spec_opt_env(quad.remote_cache);
    let ghost rv = spec_opt_env(quad.remote);
    let ghost merged_spec = spec_quad_merged_flags(lcv, lv, rcv, rv);
    let ghost kept_spec = spec_envelope_kept(lcv, lv, rcv, rv);

    let lc_ref: Option<&Envelope> = match &quad.local_cache {
        Some(e) => Some(e),
        None => None,
    };
    let l_ref: Option<&Envelope> = match &quad.local {
        Some(e) => Some(e),
        None => None,
    };
    let rc_ref: Option<&Envelope> = match &quad.remote_cache {
        Some(e) => Some(e),
        None => None,
    };
    let r_ref: Option<&Envelope> = match &quad.remote {
        Some(e) => Some(e),
        None => None,
    };
    let merged = crate::flag_sync::sync_all(lc_ref, l_ref, rc_ref, r_ref);
    proof {
        assert(merged@ == merged_spec);
    }

    let prior = lc_ref.is_some() || rc_ref.is_some();
    let kept = if prior {
        l_ref.is_some() && r_ref.is_some()
    } else {
        l_ref.is_some() || r_ref.is_some()
    };

    let mut hunks: Vec<EnvelopeSyncHunk> = Vec::new();
    if prior {
        match (&quad.local, &quad.remote) {
            (Some(le), Some(re)) => {
                push_set_flags_hunks(&mut hunks, folder, le, re, &merged);
            },
            (Some(le), None) => {
                hunks.push(
                    EnvelopeSyncHunk::DeleteEmail(
                        folder.clone(),
                        le.internal_id.clone(),
                        Side::Local,
                    ),
                );
            },
            (None, Some(re)) => {
                hunks.push(
                    EnvelopeSyncHunk::DeleteEmail(
                        folder.clone(),
                        re.internal_id.clone(),
                        Side::Remote,
                    ),
                );
            },
            (None, None) => {},
        }
    } else {
        match (&quad.local, &quad.remote) {
            (Some(le), Some(re)) => {
                push_set_flags_hunks(&mut hunks, folder, le, re, &merged);
            },
            (Some(le), None) => {
                hunks.push(
                    EnvelopeSyncHunk::CopyEmail(
                        folder.clone(),
                        le.clone(),
                        Side::Local,
                        Side::Remote,
                    ),
                );
            },
            (None, Some(re)) => {
                hunks.push(
                    EnvelopeSyncHunk::CopyEmail(
                        folder.clone(),
                        re.clone(),
                        Side::Remote,
                        Side::Local,
                    ),
                );
            },
            (None, None) => {},
        }
    }
    proof {
        assert(hunks@.map_values(|h: EnvelopeSyncHunk| h@) =~= spec_envelope_hunks(
            folder@,
            lcv,
            lv,
            rcv,
            rv,
        ));
    }

    let mut cache_hunks: Vec<EnvelopeSyncCacheHunk> = Vec::new();
    push_cache_hunks_side(
        &mut cache_hunks,
        folder,
        &quad.local_cache,
        &quad.local,
        &quad.remote,
        kept,
        &merged,
        false,
    );
    push_cache_hunks_side(
        &mut cache_hunks,
        folder,
        &quad.remote_cache,
        &quad.remote,
        &quad.local,
        kept,
        &merged,
        true,
    );
    proof {
        assert(cache_hunks@.map_values(|h: EnvelopeSyncCacheHunk| h@) =~= spec_envelope_cache_hunks(
            folder@,
            lcv,
            lv,
            rcv,
            rv,
        ));
    }
    (hunks, cache_hunks)
}

/// Appends the flag-repair hunks for an identity live on both sides.
fn push_set_flags_hunks(
    hunks: &mut Vec<EnvelopeSyncHunk>,
    folder: &String,
    le: &Envelope,
    re: &Envelope,
    merged: &Flags,
)
    ensures
        final (hunks)@.map_values(|h: EnvelopeSyncHunk| h@) == old(hunks)@.map_values(
            |h: EnvelopeSyncHunk| h@,
        ) + spec_set_flags_hunks(folder@, le@, re@, merged@),
{
    let ghost before = hunks@.map_values(|h: EnvelopeSyncHunk| h@);
    if !le.flags.eq(merged) {
        hunks.push(EnvelopeSyncHunk::SetFlags(folder.clone(), with_flags(le, merged), Side::Local));
    }
    if !re.flags.eq(merged) {
        hunks.push(
            EnvelopeSyncHunk::SetFlags(folder.clone(), with_flags(re, merged), Side::Remote),
        );
    }
    proof {
        assert(hunks@.map_values(|h: EnvelopeSyncHunk| h@) =~= before + spec_set_flags_hunks(
            folder@,
            le@,
            re@,
            merged@,
        ));
    }
}

/// Appends one side's cache changes for one identity.
fn push_cache_hunks_side(
    hunks: &mut Vec<EnvelopeSyncCacheHunk>,
    folder: &String,
    cached: &Option<Envelope>,
    own_live: &Option<Envelope>,
    other_live: &Option<Envelope>,
    kept: bool,
    merged: &Flags,
    remote: bool,
)
    requires
        kept ==> own_live is Some || other_live is Some,
    ensures
        final (hunks)@.map_values(|h: EnvelopeSyncCacheHunk| h@) == old(hunks)@.map_values(
            |h: EnvelopeSyncCacheHunk| h@,
        ) + spec_envelope_cache_hunks_side(
            folder@,
            spec_opt_env(*cached),
            spec_opt_env(*own_live),
            spec_opt_env(*other_live),
            kept,
            merged@,
            if remote {
                Side::Remote
            } else {
                Side::Local
            },
        ),
{
    let side = if remote {
        Side::Remote
    } else {
        Side::Local
    };
    let ghost before = hunks@.map_values(|h: EnvelopeSyncCacheHunk| h@);
    if kept {
        let basis = match own_live {
            Some(e) => e,
            None => match other_live {
                Some(e) => e,
                None => {
                    proof {
                        assert(false);
                    }
                    unreached()
                },
            },
        };
        let row = with_flags(basis, merged);
        match cached {
            None => {
                hunks.push(EnvelopeSyncCacheHunk::InsertEnvelope(folder.clone(), row, side));
            },
            Some(cv) => {
                if !cv.flags.eq(merged) {
                    hunks.push(
                        EnvelopeSyncCacheHunk::DeleteEnvelope(
                            folder.clone(),
                            cv.internal_id.clone(),
                            side,
                        ),
                    );
                    hunks.push(EnvelopeSyncCacheHunk::InsertEnvelope(folder.clone(), row, side));
                }
            },
        }
    } else {
        match cached {
            Some(cv) => {
                hunks.push(
                    EnvelopeSyncCacheHunk::DeleteEnvelope(
                        folder.clone(),
                        cv.internal_id.clone(),
                        side,
                    ),
                );
            },
            None => {},
        }
    }
    proof {
        assert(hunks@.map_values(|h: EnvelopeSyncCacheHunk| h@) =~= before
            + spec_envelope_cache_hunks_side(
            folder@,
            spec_opt_env(*cached),
            spec_opt_env(*own_live),
            spec_opt_env(*other_live),
            kept,
            merged@,
            side,
        ));
    }
}

/// One side's pairing of cache rows with live envelopes, by the
/// backend-internal identifier.
#[derive(Debug)]
pub struct SidePair {
    pub cache: Option<Envelope>,
    pub live: Option<Envelope>,
}

/// Well-formed pair: when both slots are present they name the same
/// backend-internal identifier.
pub open spec fn spec_pair_wf(c: Option<EnvelopeView>, l: Option<EnvelopeView>) -> bool {
    (c is Some && l is Some) ==> c->Some_0.internal_id == l->Some_0.internal_id
}

/// Whether a local pair and a remote pair describe the same message:
/// two cached pairs match by the stable identifier their caches
/// recorded; otherwise two live envelopes match by Message-ID.
pub open spec fn spec_pairs_match(
    pc: Option<EnvelopeView>,
    pl: Option<EnvelopeView>,
    qc: Option<EnvelopeView>,
    ql: Option<EnvelopeView>,
) -> bool {
    if pc is Some && qc is Some {
        pc->Some_0.id == qc->Some_0.id
    } else {
        pl is Some && ql is Some && pl->Some_0.message_id == ql->Some_0.message_id
    }
}

/// The index of the first envelope with the given internal identifier.
fn find_by_internal_id(v: &Vec<Envelope>, internal_id: &String) -> (res: Option<usize>)
    ensures
        match res {
            Some(i) => i < v@.len() && v@[i as int]@.internal_id == internal_id@,
            None => forall|k: int| 0 <= k < v@.len() ==> #[trigger] v@[k]@.internal_id != internal_id@,
        },
{
    let n = v.len();
    let mut i: usize = 0;
    while i < n
        invariant
            n == v.len(),
            i <= n,
            forall|k: int| 0 <= k < i ==> #[trigger] v@[k]@.internal_id != internal_id@,
        decreases n - i,
    {
        if v[i].internal_id.eq(internal_id) {
            return Some(i);
        }
        i = i + 1;
    }
    None
}

/// Well-formed optionally-present envelope: its flag set, if any,
/// stores no flag twice.
pub open spec fn spec_opt_wf(o: Option<Envelope>) -> bool {
    o matches Some(e) ==> e.wf()
}

/// Clones an optionally-present envelope.
fn clone_opt_env(o: &Option<Envelope>) -> (r: Option<Envelope>)
    ensures
        spec_opt_env(r) == spec_opt_env(*o),
        r is Some <==> *o is Some,
        spec_opt_wf(r) == spec_opt_wf(*o),
{
    match o {
        Some(e) => Some(e.clone()),
        None => None,
    }
}

/// Pairs one side's cache rows with its live envelopes: every live
/// envelope is paired with the first cache row sharing its internal
/// identifier, and every cache row no live envelope claims becomes a
/// cache-only pair.
#[verifier::loop_isolation(false)]
pub fn pair_side(cache: &Vec<Envelope>, live: &Vec<Envelope>) -> (res: Vec<SidePair>)
    requires
        forall|k: int| 0 <= k < cache@.len() ==> (#[trigger] cache@[k]).wf(),
        forall|k: int| 0 <= k < live@.len() ==> (#[trigger] live@[k]).wf(),
    ensures
        forall|k: int|
            0 <= k < res@.len() ==> spec_opt_wf((#[trigger] res@[k]).cache) && spec_opt_wf(
                res@[k].live,
            ),
        forall|k: int|
            0 <= k < res@.len() ==> spec_pair_wf(
                spec_opt_env((#[trigger] res@[k]).cache),
                spec_opt_env(res@[k].live),
            ),
        res@.len() <= cache@.len() + live@.len(),
        live@.len() <= res@.len(),
        forall|i: int|
            0 <= i < live@.len() ==> spec_opt_env((#[trigger] res@[i]).live) == Some(live@[i]@),
        forall|j: int|
            0 <= j < cache@.len() ==> exists|k: int|
                0 <= k < res@.len() && ((#[trigger] res@[k]).cache matches Some(c)
                    && c@.internal_id == (#[trigger] cache@[j])@.internal_id),
{
    let mut res: Vec<SidePair> = Vec::new();
    let n = live.len();
    let mut i: usize = 0;
    while i < n
        invariant
            n == live.len(),
            i <= n,
            res@.len() == i,
            forall|k: int|
                0 <= k < i ==> spec_opt_wf((#[trigger] res@[k]).cache) && spec_opt_wf(
                    res@[k].live,
                ),
            forall|k: int|
                0 <= k < i ==> spec_pair_wf(
                    spec_opt_env((#[trigger] res@[k]).cache),
                    spec_opt_env(res@[k].live),
                ),
            forall|k: int|
                0 <= k < i ==> spec_opt_env((#[trigger] res@[k]).live) == Some(live@[k]@),
            forall|k: int|
                0 <= k < i ==> ((#[trigger] res@[k]).cache is None ==> forall|j2: int|
                    0 <= j2 < cache@.len() ==> (#[trigger] cache@[j2])@.internal_id
                        != live@[k]@.internal_id),
        decreases n - i,
    {
        let found = find_by_internal_id(cache, &live[i].internal_id);
        let paired_cache = match found {
            Some(j) => Some(cache[j].clone()),
            None => None,
        };
        res.push(SidePair { cache: paired_cache, live: Some(live[i].clone()) });
        i = i + 1;
    }
    let m = cache.len();
    let mut j: usize = 0;
    while j < m
        invariant
            m == cache.len(),
            n <= res@.len(),
            j <= m,
            forall|k: int|
                0 <= k < res@.len() ==> spec_opt_wf((#[trigger] res@[k]).cache) && spec_opt_wf(
                    res@[k].live,
                ),
            forall|k: int|
                0 <= k < res@.len() ==> spec_pair_wf(
                    spec_opt_env((#[trigger] res@[k]).cache),
                    spec_opt_env(res@[k].live),
                ),
            res@.len() <= n + j,
            forall|i2: int|
                0 <= i2 < n ==> spec_opt_env((#[trigger] res@[i2]).live) == Some(live@[i2]@),
            forall|k: int|
                0 <= k < n ==> ((#[trigger] res@[k]).cache is None ==> forall|j2: int|
                    0 <= j2 < cache@.len() ==> (#[trigger] cache@[j2])@.internal_id
                        != live@[k]@.internal_id),
            forall|j2: int|
                0 <= j2 < j ==> exists|k: int|
                    0 <= k < res@.len() && ((#[trigger] res@[k]).cache matches Some(c)
                        && c@.internal_id == (#[trigger] cache@[j2])@.internal_id),
        decreases m - j,
    {
        let claimed = find_by_internal_id(live, &cache[j].internal_id);
        match claimed {
            Some(i2) => {
                proof {
                    assert(spec_opt_env(res@[i2 as int].live) == Some(live@[i2 as int]@));
                    assert(res@[i2 as int].cache is Some);
                    assert(res@[i2 as int].cache->Some_0@.internal_id
                        == cache@[j as int]@.internal_id);
                }
            },
            None => {
                let ghost pre = res@;
                res.push(SidePair { cache: Some(cache[j].clone()), live: None });
                proof {
                    assert(res@[res@.len() - 1].cache->Some_0@.internal_id
                        == cache@[j as int]@.internal_id);
                    assert forall|j2: int| 0 <= j2 < j implies exists|k: int|
                        0 <= k < res@.len() && ((#[trigger] res@[k]).cache matches Some(c)
                            && c@.internal_id == (#[trigger] cache@[j2])@.internal_id) by {
                        let k = choose|k: int|
                            0 <= k < pre.len() && ((#[trigger] pre[k]).cache matches Some(c)
                                && c@.internal_id == cache@[j2]@.internal_id);
                        assert(res@[k] == pre[k]);
                    }
                }
            },
        }
        proof {
            assert(exists|k: int|
                0 <= k < res@.len() && ((#[trigger] res@[k]).cache matches Some(c)
                    && c@.internal_id == cache@[j as int]@.internal_id));
        }
        j = j + 1;
    }
    res
}

/// Whether exec pairs match, mirroring `spec_pairs_match`.
fn pairs_match(p: &SidePair, q: &SidePair) -> (res: bool)
    ensures
        res == spec_pairs_match(
            spec_opt_env(p.cache),
            spec_opt_env(p.live),
            spec_opt_env(q.cache),
            spec_opt_env(q.live),
        ),
{
    match (&p.cache, &q.cache) {
        (Some(pc), Some(qc)) => pc.id.eq(&qc.id),
        _ => match (&p.live, &q.live) {
            (Some(pl), Some(ql)) => pl.message_id.eq(&ql.message_id),
            _ => false,
        },
    }
}

/// The local slots of a correlated identity, as views.
pub open spec fn spec_quad_local(q: EnvelopeQuad) -> (Option<EnvelopeView>, Option<EnvelopeView>) {
    (spec_opt_env(q.local_cache), spec_opt_env(q.local))
}

/// The remote slots of a correlated identity, as views.
pub open spec fn spec_quad_remote(q: EnvelopeQuad) -> (Option<EnvelopeView>, Option<EnvelopeView>) {
    (spec_opt_env(q.remote_cache), spec_opt_env(q.remote))
}

/// Whether some identity's live remote slot holds the given envelope.
pub open spec fn spec_remote_live_placed(quads: Seq<EnvelopeQuad>, e: EnvelopeView) -> bool {
    exists|k: int|
        0 <= k < quads.len() && spec_quad_remote(#[trigger] quads[k]).1 == Some(e)
}

/// Whether some identity carries the given remote pair's two slots.
pub open spec fn spec_remote_pair_placed(
    quads: Seq<EnvelopeQuad>,
    c: Option<EnvelopeView>,
    l: Option<EnvelopeView>,
) -> bool {
    exists|k: int|
        0 <= k < quads.len() && spec_quad_remote(#[trigger] quads[k]).0 == c && spec_quad_remote(
            quads[k],
        ).1 == l
}

/// Correlates the four snapshots of one folder into identities.
///
/// Local pairs come first, in the order of the live local list
/// followed by unclaimed local cache rows; every remote pair is
/// either joined to the first matching local pair or appended as a
/// remote-only identity, so every envelope of every snapshot appears
/// among the identities.
#[verifier::loop_isolation(false)]
#[verifier::rlimit(60)]
pub fn correlate_envelopes(
    local_cache: &Vec<Envelope>,
    local: &Vec<Envelope>,
    remote_cache: &Vec<Envelope>,
    remote: &Vec<Envelope>,
) -> (quads: Vec<EnvelopeQuad>)
    requires
        forall|k: int| 0 <= k < local_cache@.len() ==> (#[trigger] local_cache@[k]).wf(),
        forall|k: int| 0 <= k < local@.len() ==> (#[trigger] local@[k]).wf(),
        forall|k: int| 0 <= k < remote_cache@.len() ==> (#[trigger] remote_cache@[k]).wf(),
        forall|k: int| 0 <= k < remote@.len() ==> (#[trigger] remote@[k]).wf(),
    ensures
        forall|k: int| 0 <= k < quads@.len() ==> (#[trigger] quads@[k]).wf(),
        forall|k: int|
            0 <= k < quads@.len() ==> spec_pair_wf(
                spec_quad_local(#[trigger] quads@[k]).0,
                spec_quad_local(quads@[k]).1,
            ) && spec_pair_wf(spec_quad_remote(quads@[k]).0, spec_quad_remote(quads@[k]).1),
        forall|k: int|
            0 <= k < quads@.len() && (spec_quad_local(#[trigger] quads@[k]).0 is Some
                || spec_quad_local(quads@[k]).1 is Some) && (spec_quad_remote(quads@[k]).0 is Some
                || spec_quad_remote(quads@[k]).1 is Some) ==> spec_pairs_match(
                spec_quad_local(quads@[k]).0,
                spec_quad_local(quads@[k]).1,
                spec_quad_remote(quads@[k]).0,
                spec_quad_remote(quads@[k]).1,
            ),
        forall|i: int|
            0 <= i < local@.len() ==> spec_quad_local(#[trigger] quads@[i]).1 == Some(local@[i]@),
        forall|j: int|
            0 <= j < local_cache@.len() ==> exists|k: int|
                0 <= k < quads@.len() && (spec_quad_local(#[trigger] quads@[k]).0 matches Some(c)
                    && c.internal_id == (#[trigger] local_cache@[j])@.internal_id),
        forall|j: int|
            #![trigger remote@[j]]
            0 <= j < remote@.len() ==> spec_remote_live_placed(quads@, remote@[j]@),
        forall|j: int|
            0 <= j < remote_cache@.len() ==> exists|k: int|
                0 <= k < quads@.len() && (spec_quad_remote(#[trigger] quads@[k]).0 matches Some(c)
                    && c.internal_id == (#[trigger] remote_cache@[j])@.internal_id),
{
    let lp = pair_side(local_cache, local);
    let rp = pair_side(remote_cache, remote);

    let mut quads: Vec<EnvelopeQuad> = Vec::new();
    let mut taken: Vec<bool> = Vec::new();
    let rn = rp.len();
    let mut t: usize = 0;
    while t < rn
        invariant
            taken@.len() == t,
            t <= rn,
            forall|k: int| 0 <= k < t ==> !(#[trigger] taken@[k]),
        decreases rn - t,
    {
        taken.push(false);
        t = t + 1;
    }

    let ln = lp.len();
    let mut i: usize = 0;
    while i < ln
        invariant
            ln == lp.len(),
            rn == rp.len(),
            taken@.len() == rn,
            i <= ln,
            quads@.len() == i,
            forall|k: int| 0 <= k < i ==> (#[trigger] quads@[k]).wf(),
            forall|k: int|
                0 <= k < i ==> spec_quad_local(#[trigger] quads@[k]).0 == spec_opt_env(
                    lp@[k].cache,
                ) && spec_quad_local(quads@[k]).1 == spec_opt_env(lp@[k].live),
            forall|k: int|
                0 <= k < i ==> spec_pair_wf(
                    spec_quad_remote(#[trigger] quads@[k]).0,
                    spec_quad_remote(quads@[k]).1,
                ),
            forall|k: int|
                0 <= k < i && (spec_quad_remote(#[trigger] quads@[k]).0 is Some
                    || spec_quad_remote(quads@[k]).1 is Some) ==> spec_pairs_match(
                    spec_quad_local(quads@[k]).0,
                    spec_quad_local(quads@[k]).1,
                    spec_quad_remote(quads@[k]).0,
                    spec_quad_remote(quads@[k]).1,
                ),
            forall|j2: int|
                0 <= j2 < rn && #[trigger] taken@[j2] ==> spec_remote_pair_placed(
                    quads@,
                    spec_opt_env(rp@[j2].cache),
                    spec_opt_env(rp@[j2].live),
                ),
        decreases ln - i,
    {
        let mut found: Option<usize> = None;
        let mut j: usize = 0;
        while j < rn
            invariant
                rn == rp.len(),
                taken@.len() == rn,
                j <= rn,
                match found {
                    Some(fj) => fj < rn && !taken@[fj as int] && spec_pairs_match(
                        spec_opt_env(lp@[i as int].cache),
                        spec_opt_env(lp@[i as int].live),
                        spec_opt_env(rp@[fj as int].cache),
                        spec_opt_env(rp@[fj as int].live),
                    ),
                    None => true,
                },
            decreases rn - j,
        {
            if found.is_none() && !taken[j] && pairs_match(&lp[i], &rp[j]) {
                found = Some(j);
            }
            j = j + 1;
        }
        let ghost quads_before = quads@;
        match found {
            Some(fj) => {
                let q = EnvelopeQuad {
                    local_cache: clone_opt_env(&lp[i].cache),
                    local: clone_opt_env(&lp[i].live),
                    remote_cache: clone_opt_env(&rp[fj].cache),
                    remote: clone_opt_env(&rp[fj].live),
                };
                taken.set(fj, true);
                quads.push(q);
                proof {
                    assert forall|j2: int|
                        0 <= j2 < rn && #[trigger] taken@[j2] implies spec_remote_pair_placed(
                        quads@,
                        spec_opt_env(rp@[j2].cache),
                        spec_opt_env(rp@[j2].live),
                    ) by {
                        let was_taken = taken@[j2];
                        if j2 == fj {
                            assert(spec_quad_remote(quads@[quads@.len() - 1]).0 == spec_opt_env(
                                rp@[j2].cache,
                            ));
                            assert(spec_quad_remote(quads@[quads@.len() - 1]).1 == spec_opt_env(
                                rp@[j2].live,
                            ));
                        } else {
                            let k = choose|k: int|
                                0 <= k < quads_before.len() && spec_quad_remote(
                                    #[trigger] quads_before[k],
                                ).0 == spec_opt_env(rp@[j2].cache) && spec_quad_remote(
                                    quads_before[k],
                                ).1 == spec_opt_env(rp@[j2].live);
                            assert(quads@[k] == quads_before[k]);
                        }
                    }
                }
            },
            None => {
                let q = EnvelopeQuad {
                    local_cache: clone_opt_env(&lp[i].cache),
                    local: clone_opt_env(&lp[i].live),
                    remote_cache: None,
                    remote: None,
                };
                quads.push(q);
                proof {
                    assert forall|j2: int|
                        0 <= j2 < rn && #[trigger] taken@[j2] implies spec_remote_pair_placed(
                        quads@,
                        spec_opt_env(rp@[j2].cache),
                        spec_opt_env(rp@[j2].live),
                    ) by {
                        let was_taken = taken@[j2];
                        let k = choose|k: int|
                            0 <= k < quads_before.len() && spec_quad_remote(
                                #[trigger] quads_before[k],
                            ).0 == spec_opt_env(rp@[j2].cache) && spec_quad_remote(
                                quads_before[k],
                            ).1 == spec_opt_env(rp@[j2].live);
                        assert(quads@[k] == quads_before[k]);
                    }
                }
            },
        }
        i = i + 1;
    }
    let mut j: usize = 0;
    while j < rn
        invariant
            rn == rp.len(),
            taken@.len() == rn,
            j <= rn,
            ln <= quads@.len(),
            forall|k: int| 0 <= k < quads@.len() ==> (#[trigger] quads@[k]).wf(),
            forall|k: int|
                0 <= k < ln ==> spec_quad_local(#[trigger] quads@[k]).0 == spec_opt_env(
                    lp@[k].cache,
                ) && spec_quad_local(quads@[k]).1 == spec_opt_env(lp@[k].live),
            forall|k: int|
                ln <= k < quads@.len() ==> spec_quad_local(#[trigger] quads@[k]).0 is None
                    && spec_quad_local(quads@[k]).1 is None,
            forall|k: int|
                0 <= k < quads@.len() ==> spec_pair_wf(
                    spec_quad_remote(#[trigger] quads@[k]).0,
                    spec_quad_remote(quads@[k]).1,
                ),
            forall|k: int|
                0 <= k < quads@.len() && (spec_quad_local(#[trigger] quads@[k]).0 is Some
                    || spec_quad_local(quads@[k]).1 is Some) && (spec_quad_remote(
                    quads@[k],
                ).0 is Some || spec_quad_remote(quads@[k]).1 is Some) ==> spec_pairs_match(
                    spec_quad_local(quads@[k]).0,
                    spec_quad_local(quads@[k]).1,
                    spec_quad_remote(quads@[k]).0,
                    spec_quad_remote(quads@[k]).1,
                ),
            forall|j2: int|
                0 <= j2 < j ==> spec_remote_pair_placed(
                    quads@,
                    spec_opt_env((#[trigger] rp@[j2]).cache),
                    spec_opt_env(rp@[j2].live),
                ),
            forall|j2: int|
                0 <= j2 < rn && #[trigger] taken@[j2] ==> spec_remote_pair_placed(
                    quads@,
                    spec_opt_env(rp@[j2].cache),
                    spec_opt_env(rp@[j2].live),
                ),
        decreases rn - j,
    {
        let ghost quads_before = quads@;
        if !taken[j] {
            let q = EnvelopeQuad {
                local_cache: None,
                local: None,
                remote_cache: clone_opt_env(&rp[j].cache),
                remote: clone_opt_env(&rp[j].live),
            };
            quads.push(q);
            proof {
                assert forall|j2: int| 0 <= j2 < j + 1 implies spec_remote_pair_placed(
                    quads@,
                    spec_opt_env((#[trigger] rp@[j2]).cache),
                    spec_opt_env(rp@[j2].live),
                ) by {
                    if j2 == j {
                        assert(spec_quad_remote(quads@[quads@.len() - 1]).0 == spec_opt_env(
                            rp@[j2].cache,
                        ));
                        assert(spec_quad_remote(quads@[quads@.len() - 1]).1 == spec_opt_env(
                            rp@[j2].live,
                        ));
                    } else {
                        let k = choose|k: int|
                            0 <= k < quads_before.len() && spec_quad_remote(
                                #[trigger] quads_before[k],
                            ).0 == spec_opt_env(rp@[j2].cache) && spec_quad_remote(
                                quads_before[k],
                            ).1 == spec_opt_env(rp@[j2].live);
                        assert(quads@[k] == quads_before[k]);
                    }
                }
                assert forall|j2: int|
                    0 <= j2 < rn && #[trigger] taken@[j2] implies spec_remote_pair_placed(
                    quads@,
                    spec_opt_env(rp@[j2].cache),
                    spec_opt_env(rp@[j2].live),
                ) by {
                    let k = choose|k: int|
                        0 <= k < quads_before.len() && spec_quad_remote(
                            #[trigger] quads_before[k],
                        ).0 == spec_opt_env(rp@[j2].cache) && spec_quad_remote(
                            quads_before[k],
                        ).1 == spec_opt_env(rp@[j2].live);
                    assert(quads@[k] == quads_before[k]);
                }
            }
        } else {
            proof {
                assert forall|j2: int| 0 <= j2 < j + 1 implies spec_remote_pair_placed(
                    quads@,
                    spec_opt_env((#[trigger] rp@[j2]).cache),
                    spec_opt_env(rp@[j2].live),
                ) by {
                    if j2 == j {
                        assert(taken@[j2]);
                    }
                }
            }
        }
        j = j + 1;
    }
    proof {
        assert forall|i2: int|
            0 <= i2 < local@.len() implies spec_quad_local(#[trigger] quads@[i2]).1 == Some(
            local@[i2]@,
        ) by {
            assert(spec_quad_local(quads@[i2]).1 == spec_opt_env(lp@[i2].live));
            assert(spec_opt_env(lp@[i2].live) == Some(local@[i2]@));
        }
        assert forall|j2: int| 0 <= j2 < local_cache@.len() implies exists|k: int|
            0 <= k < quads@.len() && (spec_quad_local(#[trigger] quads@[k]).0 matches Some(c)
                && c.internal_id == (#[trigger] local_cache@[j2])@.internal_id) by {
            let k2 = choose|k2: int|
                0 <= k2 < lp@.len() && ((#[trigger] lp@[k2]).cache matches Some(c)
                    && c@.internal_id == local_cache@[j2]@.internal_id);
            assert(spec_quad_local(quads@[k2]).0 == spec_opt_env(lp@[k2].cache));
        }
        assert forall|j2: int| 0 <= j2 < remote@.len() implies spec_remote_live_placed(
            quads@,
            remote@[j2]@,
        ) by {
            assert(spec_remote_pair_placed(
                quads@,
                spec_opt_env((#[trigger] rp@[j2]).cache),
                spec_opt_env(rp@[j2].live),
            ));
            let k = choose|k: int|
                0 <= k < quads@.len() && spec_quad_remote(#[trigger] quads@[k]).0 == spec_opt_env(
                    rp@[j2].cache,
                ) && spec_quad_remote(quads@[k]).1 == spec_opt_env(rp@[j2].live);
            assert(spec_opt_env(rp@[j2].live) == Some(remote@[j2]@));
            assert(spec_quad_remote(quads@[k]).1 == Some(remote@[j2]@));
        }
        assert forall|j2: int| 0 <= j2 < remote_cache@.len() implies exists|k: int|
            0 <= k < quads@.len() && (spec_quad_remote(#[trigger] quads@[k]).0 matches Some(c)
                && c.internal_id == (#[trigger] remote_cache@[j2])@.internal_id) by {
            let k2 = choose|k2: int|
                0 <= k2 < rp@.len() && ((#[trigger] rp@[k2]).cache matches Some(c)
                    && c@.internal_id == remote_cache@[j2]@.internal_id);
            assert(spec_remote_pair_placed(
                quads@,
                spec_opt_env((#[trigger] rp@[k2]).cache),
                spec_opt_env(rp@[k2].live),
            ));
            let k = choose|k: int|
                0 <= k < quads@.len() && spec_quad_remote(#[trigger] quads@[k]).0 == spec_opt_env(
                    rp@[k2].cache,
                ) && spec_quad_remote(quads@[k]).1 == spec_opt_env(rp@[k2].live);
        }
    }
    quads
}

/// The whole backend patch over a list of correlated identities.
pub open spec fn spec_envelope_patch(folder: Seq<char>, quads: Seq<EnvelopeQuad>) -> Seq<
    EnvelopeSyncHunkView,
>
    decreases quads.len(),
{
    if quads.len() == 0 {
        Seq::empty()
    } else {
        spec_envelope_patch(folder, quads.drop_last()) + spec_envelope_hunks(
            folder,
            spec_opt_env(quads.last().local_cache),
            spec_opt_env(quads.last().local),
            spec_opt_env(quads.last().remote_cache),
            spec_opt_env(quads.last().remote),
        )
    }
}

/// The whole cache patch over a list of correlated identities.
pub open spec fn spec_envelope_cache_patch(folder: Seq<char>, quads: Seq<EnvelopeQuad>) -> Seq<
    EnvelopeSyncCacheHunkView,
>
    decreases quads.len(),
{
    if quads.len() == 0 {
        Seq::empty()
    } else {
        spec_envelope_cache_patch(folder, quads.drop_last()) + spec_envelope_cache_hunks(
            folder,
            spec_opt_env(quads.last().local_cache),
            spec_opt_env(quads.last().local),
            spec_opt_env(quads.last().remote_cache),
            spec_opt_env(quads.last().remote),
        )
    }
}

/// An envelope reconciliation plan for one folder: the correlated
/// identities, the backend changes and the cache changes, in
/// application order. Message copies must be applied before flag
/// changes; the patch is ordered per identity, and an identity's copy
/// hunk is the only hunk it has, so the order within the patch honours
/// that.
#[derive(Debug)]
pub struct EnvelopeSyncPlan {
    pub quads: Vec<EnvelopeQuad>,
    pub patch: Vec<EnvelopeSyncHunk>,
    pub cache_patch: Vec<EnvelopeSyncCacheHunk>,
}

/// Builds the envelope reconciliation plan for one folder from the
/// four envelope snapshots.
#[verifier::loop_isolation(false)]
pub fn build_envelope_patch(
    folder: &String,
    local_cache: &Vec<Envelope>,
    local: &Vec<Envelope>,
    remote_cache: &Vec<Envelope>,
    remote: &Vec<Envelope>,
) -> (plan: EnvelopeSyncPlan)
    requires
        forall|k: int| 0 <= k < local_cache@.len() ==> (#[trigger] local_cache@[k]).wf(),
        forall|k: int| 0 <= k < local@.len() ==> (#[trigger] local@[k]).wf(),
        forall|k: int| 0 <= k < remote_cache@.len() ==> (#[trigger] remote_cache@[k]).wf(),
        forall|k: int| 0 <= k < remote@.len() ==> (#[trigger] remote@[k]).wf(),
    ensures
        plan.patch@.map_values(|h: EnvelopeSyncHunk| h@) == spec_envelope_patch(
            folder@,
            plan.quads@,
        ),
        plan.cache_patch@.map_values(|h: EnvelopeSyncCacheHunk| h@) == spec_envelope_cache_patch(
            folder@,
            plan.quads@,
        ),
        forall|k: int|
            0 <= k < plan.quads@.len() ==> spec_pair_wf(
                spec_quad_local(#[trigger] plan.quads@[k]).0,
                spec_quad_local(plan.quads@[k]).1,
            ) && spec_pair_wf(
                spec_quad_remote(plan.quads@[k]).0,
                spec_quad_remote(plan.quads@[k]).1,
            ),
        forall|k: int|
            0 <= k < plan.quads@.len() && (spec_quad_local(#[trigger] plan.quads@[k]).0 is Some
                || spec_quad_local(plan.quads@[k]).1 is Some) && (spec_quad_remote(
                plan.quads@[k],
            ).0 is Some || spec_quad_remote(plan.quads@[k]).1 is Some) ==> spec_pairs_match(
                spec_quad_local(plan.quads@[k]).0,
                spec_quad_local(plan.quads@[k]).1,
                spec_quad_remote(plan.quads@[k]).0,
                spec_quad_remote(plan.quads@[k]).1,
            ),
        forall|j: int|
            0 <= j < local@.len() ==> spec_quad_local(#[trigger] plan.quads@[j]).1 == Some(
                local@[j]@,
            ),
        forall|j: int|
            0 <= j < local_cache@.len() ==> exists|k: int|
                0 <= k < plan.quads@.len() && (spec_quad_local(
                    #[trigger] plan.quads@[k],
                ).0 matches Some(c) && c.internal_id == (#[trigger] local_cache@[j])@.internal_id),
        forall|j: int|
            #![trigger remote@[j]]
            0 <= j < remote@.len() ==> spec_remote_live_placed(plan.quads@, remote@[j]@),
        forall|j: int|
            0 <= j < remote_cache@.len() ==> exists|k: int|
                0 <= k < plan.quads@.len() && (spec_quad_remote(
                    #[trigger] plan.quads@[k],
                ).0 matches Some(c) && c.internal_id == (#[trigger] remote_cache@[j])@.internal_id),
{
    let quads = correlate_envelopes(local_cache, local, remote_cache, remote);
    let mut patch: Vec<EnvelopeSyncHunk> = Vec::new();
    let mut cache_patch: Vec<EnvelopeSyncCacheHunk> = Vec::new();
    let n = quads.len();
    let mut i: usize = 0;
    while i < n
        invariant
            n == quads@.len(),
            i <= n,
            patch@.map_values(|h: EnvelopeSyncHunk| h@) == spec_envelope_patch(
                folder@,
                quads@.take(i as int),
            ),
            cache_patch@.map_values(|h: EnvelopeSyncCacheHunk| h@) == spec_envelope_cache_patch(
                folder@,
                quads@.take(i as int),
            ),
        decreases n - i,
    {
        let (mut hunks, mut cache_hunks) = envelope_sync_hunks(folder, &quads[i]);
        patch.append(&mut hunks);
        cache_patch.append(&mut cache_hunks);
        proof {
            assert(quads@.take(i + 1).drop_last() =~= quads@.take(i as int));
            assert(quads@.take(i + 1).last() == quads@[i as int]);
            assert(patch@.map_values(|h: EnvelopeSyncHunk| h@) =~= spec_envelope_patch(
                folder@,
                quads@.take(i + 1),
            ));
            assert(cache_patch@.map_values(|h: EnvelopeSyncCacheHunk| h@)
                =~= spec_envelope_cache_patch(folder@, quads@.take(i + 1)));
        }
        i = i + 1;
    }
    proof {
        assert(quads@.take(n as int) =~= quads@);
    }
    EnvelopeSyncPlan { quads, patch, cache_patch }
}

/// The flags of an optionally-present envelope view, kept optional.
pub open spec fn spec_optv_opt_flags(o: Option<EnvelopeView>) -> Option<Set<FlagView>> {
    match o {
        Some(e) => Some(e.flags),
        None => None,
    }
}

/// One identity's live state on the two sides after one backend hunk.
pub open spec fn spec_apply_env_hunk(
    h: EnvelopeSyncHunkView,
    l: Option<Set<FlagView>>,
    r: Option<Set<FlagView>>,
) -> (Option<Set<FlagView>>, Option<Set<FlagView>>) {
    match h {
        EnvelopeSyncHunkView::CopyEmail(_, e, _, tgt) => if tgt == Side::Local {
            (Some(e.flags), r)
        } else {
            (l, Some(e.flags))
        },
        EnvelopeSyncHunkView::DeleteEmail(_, _, side) => if side == Side::Local {
            (None, r)
        } else {
            (l, None)
        },
        EnvelopeSyncHunkView::SetFlags(_, e, side) => if side == Side::Local {
            (Some(e.flags), r)
        } else {
            (l, Some(e.flags))
        },
    }
}

/// One identity's live state after a list of backend hunks.
pub open spec fn spec_apply_env_hunks(
    hs: Seq<EnvelopeSyncHunkView>,
    l: Option<Set<FlagView>>,
    r: Option<Set<FlagView>>,
) -> (Option<Set<FlagView>>, Option<Set<FlagView>>)
    decreases hs.len(),
{
    if hs.len() == 0 {
        (l, r)
    } else {
        let step = spec_apply_env_hunk(hs.first(), l, r);
        spec_apply_env_hunks(hs.drop_first(), step.0, step.1)
    }
}

/// One identity's cache state on the two sides after one cache hunk.
pub open spec fn spec_apply_env_cache_hunk(
    h: EnvelopeSyncCacheHunkView,
    lc: Option<Set<FlagView>>,
    rc: Option<Set<FlagView>>,
) -> (Option<Set<FlagView>>, Option<Set<FlagView>>) {
    match h {
        EnvelopeSyncCacheHunkView::InsertEnvelope(_, e, side) => if side == Side::Local {
            (Some(e.flags), rc)
        } else {
            (lc, Some(e.flags))
        },
        EnvelopeSyncCacheHunkView::DeleteEnvelope(_, _, side) => if side == Side::Local {
            (None, rc)
        } else {
            (lc, None)
        },
    }
}

/// One identity's cache state after a list of cache hunks.
pub open spec fn spec_apply_env_cache_hunks(
    hs: Seq<EnvelopeSyncCacheHunkView>,
    lc: Option<Set<FlagView>>,
    rc: Option<Set<FlagView>>,
) -> (Option<Set<FlagView>>, Option<Set<FlagView>>)
    decreases hs.len(),
{
    if hs.len() == 0 {
        (lc, rc)
    } else {
        let step = spec_apply_env_cache_hunk(hs.first(), lc, rc);
        spec_apply_env_cache_hunks(hs.drop_first(), step.0, step.1)
    }
}

proof fn lemma_apply_one_env_hunk(
    h: EnvelopeSyncHunkView,
    l: Option<Set<FlagView>>,
    r: Option<Set<FlagView>>,
)
    ensures
        spec_apply_env_hunks(seq![h], l, r) == spec_apply_env_hunk(h, l, r),
{
    assert(seq![h].first() == h);
    assert(seq![h].drop_first() =~= Seq::<EnvelopeSyncHunkView>::empty());
    let step = spec_apply_env_hunk(h, l, r);
    assert(spec_apply_env_hunks(Seq::<EnvelopeSyncHunkView>::empty(), step.0, step.1) == (
        step.0,
        step.1,
    ));
}

proof fn lemma_apply_two_env_hunks(
    h1: EnvelopeSyncHunkView,
    h2: EnvelopeSyncHunkView,
    l: Option<Set<FlagView>>,
    r: Option<Set<FlagView>>,
)
    ensures
        spec_apply_env_hunks(seq![h1, h2], l, r) == spec_apply_env_hunk(
            h2,
            spec_apply_env_hunk(h1, l, r).0,
            spec_apply_env_hunk(h1, l, r).1,
        ),
{
    assert(seq![h1, h2].first() == h1);
    assert(seq![h1, h2].drop_first() =~= seq![h2]);
    let step = spec_apply_env_hunk(h1, l, r);
    lemma_apply_one_env_hunk(h2, step.0, step.1);
}

proof fn lemma_apply_one_env_cache_hunk(
    h: EnvelopeSyncCacheHunkView,
    lc: Option<Set<FlagView>>,
    rc: Option<Set<FlagView>>,
)
    ensures
        spec_apply_env_cache_hunks(seq![h], lc, rc) == spec_apply_env_cache_hunk(h, lc, rc),
{
    assert(seq![h].first() == h);
    assert(seq![h].drop_first() =~= Seq::<EnvelopeSyncCacheHunkView>::empty());
    let step = spec_apply_env_cache_hunk(h, lc, rc);
    assert(spec_apply_env_cache_hunks(Seq::<EnvelopeSyncCacheHunkView>::empty(), step.0, step.1)
        == (step.0, step.1));
}

proof fn lemma_apply_env_cache_hunks_concat(
    a: Seq<EnvelopeSyncCacheHunkView>,
    b: Seq<EnvelopeSyncCacheHunkView>,
    lc: Option<Set<FlagView>>,
    rc: Option<Set<FlagView>>,
)
    ensures
        spec_apply_env_cache_hunks(a + b, lc, rc) == spec_apply_env_cache_hunks(
            b,
            spec_apply_env_cache_hunks(a, lc, rc).0,
            spec_apply_env_cache_hunks(a, lc, rc).1,
        ),
    decreases a.len(),
{
    if a.len() == 0 {
        assert(a + b =~= b);
    } else {
        assert((a + b).first() == a.first());
        assert((a + b).drop_first() =~= a.drop_first() + b);
        let step = spec_apply_env_cache_hunk(a.first(), lc, rc);
        lemma_apply_env_cache_hunks_concat(a.drop_first(), b, step.0, step.1);
    }
}

/// The merged set over four points that all hold the same flag set is
/// that set; over one live point alone it is that point's set.
proof fn lemma_merged_flags_special(f: Set<FlagView>)
    ensures
        spec_merged_flags(f, f, f, f) == f,
        spec_merged_flags(Set::empty(), f, Set::empty(), Set::empty()) == f,
        spec_merged_flags(Set::empty(), Set::empty(), Set::empty(), f) == f,
{
    assert(spec_merged_flags(f, f, f, f) =~= f);
    assert(spec_merged_flags(Set::empty(), f, Set::empty(), Set::empty()) =~= f);
    assert(spec_merged_flags(Set::empty(), Set::empty(), Set::empty(), f) =~= f);
}

proof fn lemma_apply_cache_side(
    folder: Seq<char>,
    cached: Option<EnvelopeView>,
    own_live: Option<EnvelopeView>,
    other_live: Option<EnvelopeView>,
    kept: bool,
    merged: Set<FlagView>,
    side: Side,
    lc0: Option<Set<FlagView>>,
    rc0: Option<Set<FlagView>>,
)
    requires
        kept ==> own_live is Some || other_live is Some,
        (if side == Side::Local {
            lc0
        } else {
            rc0
        }) == spec_optv_opt_flags(cached),
    ensures
        ({
            let out = spec_apply_env_cache_hunks(
                spec_envelope_cache_hunks_side(
                    folder,
                    cached,
                    own_live,
                    other_live,
                    kept,
                    merged,
                    side,
                ),
                lc0,
                rc0,
            );
            let own_out = if side == Side::Local {
                out.0
            } else {
                out.1
            };
            let other_out = if side == Side::Local {
                out.1
            } else {
                out.0
            };
            own_out == (if kept {
                Some(merged)
            } else {
                None::<Set<FlagView>>
            }) && other_out == (if side == Side::Local {
                rc0
            } else {
                lc0
            })
        }),
{
    let hs = spec_envelope_cache_hunks_side(folder, cached, own_live, other_live, kept, merged, side);
    if kept {
        let row = spec_with_flags(spec_cache_basis(own_live, other_live), merged);
        let ins = EnvelopeSyncCacheHunkView::InsertEnvelope(folder, row, side);
        match cached {
            None => {
                assert(hs =~= seq![ins]);
                lemma_apply_one_env_cache_hunk(ins, lc0, rc0);
            },
            Some(cv) => {
                if cv.flags != merged {
                    let del = EnvelopeSyncCacheHunkView::DeleteEnvelope(
                        folder,
                        cv.internal_id,
                        side,
                    );
                    assert(hs =~= seq![del, ins]);
                    assert(seq![del, ins].first() == del);
                    assert(seq![del, ins].drop_first() =~= seq![ins]);
                    let step = spec_apply_env_cache_hunk(del, lc0, rc0);
                    lemma_apply_one_env_cache_hunk(ins, step.0, step.1);
                } else {
                    assert(hs =~= Seq::<EnvelopeSyncCacheHunkView>::empty());
                }
            },
        }
    } else {
        match cached {
            Some(cv) => {
                let del = EnvelopeSyncCacheHunkView::DeleteEnvelope(folder, cv.internal_id, side);
                assert(hs =~= seq![del]);
                lemma_apply_one_env_cache_hunk(del, lc0, rc0);
            },
            None => {
                assert(hs =~= Seq::<EnvelopeSyncCacheHunkView>::empty());
            },
        }
    }
}

/// Law of idempotence, envelope level: for an identity on which the
/// four observation points already agree — absent everywhere, or
/// present everywhere with one and the same flag set — the pass plans
/// no backend change and no cache change. A whole converged folder is
/// such identities only, so its second pass plans an empty patch.
pub proof fn lemma_envelope_sync_idempotent(
    folder: Seq<char>,
    lc: Option<EnvelopeView>,
    l: Option<EnvelopeView>,
    rc: Option<EnvelopeView>,
    r: Option<EnvelopeView>,
)
    requires
        (lc is None && l is None && rc is None && r is None) || (lc is Some && l is Some
            && rc is Some && r is Some && lc->Some_0.flags == l->Some_0.flags && rc->Some_0.flags
            == l->Some_0.flags && r->Some_0.flags == l->Some_0.flags),
    ensures
        spec_envelope_hunks(folder, lc, l, rc, r) == Seq::<EnvelopeSyncHunkView>::empty(),
        spec_envelope_cache_hunks(folder, lc, l, rc, r) == Seq::<
            EnvelopeSyncCacheHunkView,
        >::empty(),
{
    if l is Some {
        let f = l->Some_0.flags;
        lemma_merged_flags_special(f);
        assert(spec_quad_merged_flags(lc, l, rc, r) == f);
        assert(spec_envelope_hunks(folder, lc, l, rc, r) =~= Seq::<EnvelopeSyncHunkView>::empty());
        assert(spec_envelope_cache_hunks_side(folder, lc, l, r, true, f, Side::Local) =~= Seq::<
            EnvelopeSyncCacheHunkView,
        >::empty());
        assert(spec_envelope_cache_hunks_side(folder, rc, r, l, true, f, Side::Remote) =~= Seq::<
            EnvelopeSyncCacheHunkView,
        >::empty());
        assert(spec_envelope_cache_hunks(folder, lc, l, rc, r) =~= Seq::<
            EnvelopeSyncCacheHunkView,
        >::empty());
    } else {
        assert(spec_envelope_hunks(folder, lc, l, rc, r) =~= Seq::<EnvelopeSyncHunkView>::empty());
        assert(spec_envelope_cache_hunks(folder, lc, l, rc, r) =~= Seq::<
            EnvelopeSyncCacheHunkView,
        >::empty());
    }
}

/// Whether one correlated identity is already converged: absent at
/// all four points, or present at all four with one and the same flag
/// set.
pub open spec fn spec_quad_converged(q: EnvelopeQuad) -> bool {
    let lc = spec_opt_env(q.local_cache);
    let l = spec_opt_env(q.local);
    let rc = spec_opt_env(q.remote_cache);
    let r = spec_opt_env(q.remote);
    ||| (lc is None && l is None && rc is None && r is None)
    ||| (lc is Some && l is Some && rc is Some && r is Some && lc->Some_0.flags == l->Some_0.flags
        && rc->Some_0.flags == l->Some_0.flags && r->Some_0.flags == l->Some_0.flags)
}

/// Law of idempotence over a whole folder: a plan built over converged
/// identities only is empty — it has no backend hunk and no cache
/// hunk. After one full pass converges a folder, a second pass with no
/// live changes sees only such identities, so it plans nothing.
pub proof fn lemma_envelope_plan_idempotent(folder: Seq<char>, quads: Seq<EnvelopeQuad>)
    requires
        forall|k: int| 0 <= k < quads.len() ==> spec_quad_converged(#[trigger] quads[k]),
    ensures
        spec_envelope_patch(folder, quads) == Seq::<EnvelopeSyncHunkView>::empty(),
        spec_envelope_cache_patch(folder, quads) == Seq::<EnvelopeSyncCacheHunkView>::empty(),
    decreases quads.len(),
{
    if quads.len() > 0 {
        assert(quads.drop_last().len() == quads.len() - 1);
        assert(forall|k: int|
            0 <= k < quads.drop_last().len() ==> spec_quad_converged(
                #[trigger] quads.drop_last()[k],
            ));
        lemma_envelope_plan_idempotent(folder, quads.drop_last());
        let last = quads[quads.len() - 1];
        assert(spec_quad_converged(last));
        lemma_envelope_sync_idempotent(
            folder,
            spec_opt_env(last.local_cache),
            spec_opt_env(last.local),
            spec_opt_env(last.remote_cache),
            spec_opt_env(last.remote),
        );
        assert(spec_envelope_patch(folder, quads) =~= Seq::<EnvelopeSyncHunkView>::empty());
        assert(spec_envelope_cache_patch(folder, quads) =~= Seq::<
            EnvelopeSyncCacheHunkView,
        >::empty());
    }
}

/// Law of convergence, envelope level: once one identity's hunks are
/// applied in order, the message either exists on both live sides and
/// in both caches with exactly the merged flag set, or exists nowhere
/// — whichever way the presence table decided. The one deliberate
/// asymmetry is inside the merged set itself: the Deleted flag's
/// conflicts resolve toward undeletion.
pub proof fn lemma_envelope_sync_convergence(
    folder: Seq<char>,
    lc: Option<EnvelopeView>,
    l: Option<EnvelopeView>,
    rc: Option<EnvelopeView>,
    r: Option<EnvelopeView>,
)
    ensures
        ({
            let merged = spec_quad_merged_flags(lc, l, rc, r);
            let kept = spec_envelope_kept(lc, l, rc, r);
            let live = spec_apply_env_hunks(
                spec_envelope_hunks(folder, lc, l, rc, r),
                spec_optv_opt_flags(l),
                spec_optv_opt_flags(r),
            );
            let caches = spec_apply_env_cache_hunks(
                spec_envelope_cache_hunks(folder, lc, l, rc, r),
                spec_optv_opt_flags(lc),
                spec_optv_opt_flags(rc),
            );
            let goal = if kept {
                Some(merged)
            } else {
                None::<Set<FlagView>>
            };
            live.0 == goal && live.1 == goal && caches.0 == goal && caches.1 == goal
        }),
{
    let merged = spec_quad_merged_flags(lc, l, rc, r);
    let kept = spec_envelope_kept(lc, l, rc, r);
    let l0 = spec_optv_opt_flags(l);
    let r0 = spec_optv_opt_flags(r);
    let hs = spec_envelope_hunks(folder, lc, l, rc, r);

    // The live sides.
    if lc is Some || rc is Some {
        if l is Some && r is Some {
            lemma_set_flags_apply(folder, l->Some_0, r->Some_0, merged, l0, r0);
        } else {
            let dl = EnvelopeSyncHunkView::DeleteEmail(folder, l->Some_0.internal_id, Side::Local);
            let dr = EnvelopeSyncHunkView::DeleteEmail(folder, r->Some_0.internal_id, Side::Remote);
            if l is Some && r is None {
                assert(hs =~= seq![dl]);
                lemma_apply_one_env_hunk(dl, l0, r0);
            } else if l is None && r is Some {
                assert(hs =~= seq![dr]);
                lemma_apply_one_env_hunk(dr, l0, r0);
            } else {
                assert(hs =~= Seq::<EnvelopeSyncHunkView>::empty());
            }
        }
    } else {
        if l is Some && r is Some {
            lemma_set_flags_apply(folder, l->Some_0, r->Some_0, merged, l0, r0);
        } else if l is Some {
            let cp = EnvelopeSyncHunkView::CopyEmail(folder, l->Some_0, Side::Local, Side::Remote);
            assert(hs =~= seq![cp]);
            lemma_apply_one_env_hunk(cp, l0, r0);
            lemma_merged_flags_special(l->Some_0.flags);
            assert(spec_optv_flags(lc) =~= Set::<FlagView>::empty());
            assert(spec_optv_flags(rc) =~= Set::<FlagView>::empty());
            assert(spec_optv_flags(r) =~= Set::<FlagView>::empty());
            assert(merged == l->Some_0.flags);
        } else if r is Some {
            let cp = EnvelopeSyncHunkView::CopyEmail(folder, r->Some_0, Side::Remote, Side::Local);
            assert(hs =~= seq![cp]);
            lemma_apply_one_env_hunk(cp, l0, r0);
            lemma_merged_flags_special(r->Some_0.flags);
            assert(spec_optv_flags(lc) =~= Set::<FlagView>::empty());
            assert(spec_optv_flags(rc) =~= Set::<FlagView>::empty());
            assert(spec_optv_flags(l) =~= Set::<FlagView>::empty());
            assert(merged == r->Some_0.flags);
        } else {
            assert(hs =~= Seq::<EnvelopeSyncHunkView>::empty());
        }
    }

    // The caches.
    lemma_apply_env_cache_hunks_concat(
        spec_envelope_cache_hunks_side(folder, lc, l, r, kept, merged, Side::Local),
        spec_envelope_cache_hunks_side(folder, rc, r, l, kept, merged, Side::Remote),
        spec_optv_opt_flags(lc),
        spec_optv_opt_flags(rc),
    );
    lemma_apply_cache_side(
        folder,
        lc,
        l,
        r,
        kept,
        merged,
        Side::Local,
        spec_optv_opt_flags(lc),
        spec_optv_opt_flags(rc),
    );
    let mid = spec_apply_env_cache_hunks(
        spec_envelope_cache_hunks_side(folder, lc, l, r, kept, merged, Side::Local),
        spec_optv_opt_flags(lc),
        spec_optv_opt_flags(rc),
    );
    lemma_apply_cache_side(folder, rc, r, l, kept, merged, Side::Remote, mid.0, mid.1);
}

proof fn lemma_set_flags_apply(
    folder: Seq<char>,
    lv: EnvelopeView,
    rv: EnvelopeView,
    merged: Set<FlagView>,
    l0: Option<Set<FlagView>>,
    r0: Option<Set<FlagView>>,
)
    requires
        l0 == Some(lv.flags),
        r0 == Some(rv.flags),
    ensures
        spec_apply_env_hunks(spec_set_flags_hunks(folder, lv, rv, merged), l0, r0) == (
            Some(merged),
            Some(merged),
        ),
{
    let hs = spec_set_flags_hunks(folder, lv, rv, merged);
    let sl = EnvelopeSyncHunkView::SetFlags(folder, spec_with_flags(lv, merged), Side::Local);
    let sr = EnvelopeSyncHunkView::SetFlags(folder, spec_with_flags(rv, merged), Side::Remote);
    if lv.flags != merged && rv.flags != merged {
        assert(hs =~= seq![sl, sr]);
        lemma_apply_two_env_hunks(sl, sr, l0, r0);
    } else if lv.flags != merged {
        assert(hs =~= seq![sl]);
        lemma_apply_one_env_hunk(sl, l0, r0);
    } else if rv.flags != merged {
        assert(hs =~= seq![sr]);
        lemma_apply_one_env_hunk(sr, l0, r0);
    } else {
        assert(hs =~= Seq::<EnvelopeSyncHunkView>::empty());
    }
}

} // verus!
