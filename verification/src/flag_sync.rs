//! The flag-merge decision table: reconciles one flag's presence across
//! the four observation points of a sync pass.
//!
//! The four points are the local cache, the live local side, the remote
//! cache and the live remote side. Ambiguous add/remove conflicts
//! resolve in favour of keeping the flag, because losing data is worse
//! than staleness — except for the Deleted flag, where keeping it could
//! silently expunge mail, so the conflict resolves in favour of
//! removing it (an un-delete wins).

use vstd::prelude::*;

use crate::envelope::Envelope;
use crate::flag::{Flag, FlagView, Flags};

verus! {

/// Whether a flag seen at the given subset of the four points belongs
/// in the merged flag set. `deleted` marks the Deleted flag, whose
/// conflicts resolve the opposite way.
pub open spec fn spec_flag_decision(lc: bool, l: bool, rc: bool, r: bool, deleted: bool) -> bool {
    match (lc, l, rc, r) {
        // Nowhere: nothing to merge.
        (false, false, false, false) => false,
        // Only live remote: a new remote flag, keep it.
        (false, false, false, true) => true,
        // Only the remote cache: stale, drop it.
        (false, false, true, false) => false,
        // Remote cache and live remote vs. nothing local: conflict.
        (false, false, true, true) => !deleted,
        // Only live local: a new local flag, keep it.
        (false, true, false, false) => true,
        // Both live sides: added on both at once, keep it.
        (false, true, false, true) => true,
        // Live local vs. remote cache: conflict.
        (false, true, true, false) => !deleted,
        // Everywhere but the local cache: the local cache lags, keep it.
        (false, true, true, true) => true,
        // Only the local cache: stale, drop it.
        (true, false, false, false) => false,
        // Local cache vs. live remote: conflict.
        (true, false, false, true) => !deleted,
        // Both caches only: removed on both live sides, drop it.
        (true, false, true, false) => false,
        // Everywhere but live local: removed locally, drop it.
        (true, false, true, true) => false,
        // Local cache and live local vs. nothing remote: conflict.
        (true, true, false, false) => !deleted,
        // Everywhere but the remote cache: the remote cache lags, keep it.
        (true, true, false, true) => true,
        // Everywhere but live remote: removed remotely, drop it.
        (true, true, true, false) => false,
        // Everywhere: steady state, keep it.
        (true, true, true, true) => true,
    }
}

/// The four presence patterns on which "keep" and "remove" signals
/// genuinely conflict: one pair of points says added, the other says
/// removed, and no order between them is known.
pub open spec fn spec_flag_conflict(lc: bool, l: bool, rc: bool, r: bool) -> bool {
    ||| (!lc && !l && rc && r)
    ||| (!lc && l && rc && !r)
    ||| (lc && !l && !rc && r)
    ||| (lc && l && !rc && !r)
}

/// The merged flag set over the four points' flag sets: every flag seen
/// somewhere, kept or dropped by the decision table.
pub open spec fn spec_merged_flags(
    lc: Set<FlagView>,
    l: Set<FlagView>,
    rc: Set<FlagView>,
    r: Set<FlagView>,
) -> Set<FlagView> {
    Set::new(
        |fv: FlagView|
            {
                &&& lc.union(l).union(rc).union(r).contains(fv)
                &&& spec_flag_decision(
                    lc.contains(fv),
                    l.contains(fv),
                    rc.contains(fv),
                    r.contains(fv),
                    fv == FlagView::Deleted,
                )
            },
    )
}

/// The flag set of an optionally-present envelope; an absent envelope
/// contributes no flags.
pub open spec fn spec_opt_flags(e: Option<&Envelope>) -> Set<FlagView> {
    match e {
        Some(e) => e.flags@,
        None => Set::empty(),
    }
}

/// The decision table has an outcome for every one of the sixteen
/// presence combinations, and the Deleted flag's outcome differs from
/// any other flag's exactly on the four conflict patterns, where an
/// ordinary flag is kept and Deleted is dropped.
pub proof fn lemma_flag_decision_total(lc: bool, l: bool, rc: bool, r: bool)
    ensures
        (spec_flag_decision(lc, l, rc, r, true) != spec_flag_decision(lc, l, rc, r, false))
            == spec_flag_conflict(lc, l, rc, r),
        spec_flag_conflict(lc, l, rc, r) ==> spec_flag_decision(lc, l, rc, r, false)
            && !spec_flag_decision(lc, l, rc, r, true),
{
}

/// A flag absent from all four points never appears in the merged set,
/// and the merged set only holds flags seen at some point.
pub proof fn lemma_merged_flags_no_invention(
    lc: Set<FlagView>,
    l: Set<FlagView>,
    rc: Set<FlagView>,
    r: Set<FlagView>,
)
    ensures
        spec_merged_flags(lc, l, rc, r).subset_of(lc.union(l).union(rc).union(r)),
{
    assert forall|fv: FlagView| spec_merged_flags(lc, l, rc, r).contains(fv) implies lc.union(
        l,
    ).union(rc).union(r).contains(fv) by {}
}

/// Whether the given flag is kept by the decision table.
fn flag_decision(lc: bool, l: bool, rc: bool, r: bool, deleted: bool) -> (res: bool)
    ensures
        res == spec_flag_decision(lc, l, rc, r, deleted),
{
    match (lc, l, rc, r) {
        (false, false, false, false) => false,
        (false, false, false, true) => true,
        (false, false, true, false) => false,
        (false, false, true, true) => !deleted,
        (false, true, false, false) => true,
        (false, true, false, true) => true,
        (false, true, true, false) => !deleted,
        (false, true, true, true) => true,
        (true, false, false, false) => false,
        (true, false, false, true) => !deleted,
        (true, false, true, false) => false,
        (true, false, true, true) => false,
        (true, true, false, false) => !deleted,
        (true, true, false, true) => true,
        (true, true, true, false) => false,
        (true, true, true, true) => true,
    }
}

/// Merges one envelope's flags across the four observation points.
///
/// Every flag seen at any point is run through the decision table
/// independently; the result is the union of the kept flags.
#[verifier::loop_isolation(false)]
pub fn sync_all(
    local_cache: Option<&Envelope>,
    local: Option<&Envelope>,
    remote_cache: Option<&Envelope>,
    remote: Option<&Envelope>,
) -> (res: Flags)
    requires
        local_cache matches Some(e) ==> e.wf(),
        local matches Some(e) ==> e.wf(),
        remote_cache matches Some(e) ==> e.wf(),
        remote matches Some(e) ==> e.wf(),
    ensures
        res.wf(),
        res@ == spec_merged_flags(
            spec_opt_flags(local_cache),
            spec_opt_flags(local),
            spec_opt_flags(remote_cache),
            spec_opt_flags(remote),
        ),
{
    let ghost lcs = spec_opt_flags(local_cache);
    let ghost ls = spec_opt_flags(local);
    let ghost rcs = spec_opt_flags(remote_cache);
    let ghost rs = spec_opt_flags(remote);

    let mut all = Flags::new();
    if let Some(e) = local_cache {
        all.insert_all(&e.flags);
    }
    if let Some(e) = local {
        all.insert_all(&e.flags);
    }
    if let Some(e) = remote_cache {
        all.insert_all(&e.flags);
    }
    if let Some(e) = remote {
        all.insert_all(&e.flags);
    }
    proof {
        assert(all@ =~= lcs.union(ls).union(rcs).union(rs));
    }

    let mut res = Flags::new();
    let v = all.as_vec();
    let n = v.len();
    let mut i: usize = 0;
    while i < n
        invariant
            n == v.len(),
            i <= n,
            res.wf(),
            res@ == Set::new(
                |fv: FlagView|
                    {
                        &&& all.seq_view().take(i as int).to_set().contains(fv)
                        &&& spec_flag_decision(
                            lcs.contains(fv),
                            ls.contains(fv),
                            rcs.contains(fv),
                            rs.contains(fv),
                            fv == FlagView::Deleted,
                        )
                    },
            ),
        decreases n - i,
    {
        let f = &v[i];
        let lc_has = match local_cache {
            Some(e) => e.flags.contains(f),
            None => false,
        };
        let l_has = match local {
            Some(e) => e.flags.contains(f),
            None => false,
        };
        let rc_has = match remote_cache {
            Some(e) => e.flags.contains(f),
            None => false,
        };
        let r_has = match remote {
            Some(e) => e.flags.contains(f),
            None => false,
        };
        let deleted = *f == Flag::Deleted;
        proof {
            crate::seqs::lemma_take_one_more_to_set(all.seq_view(), i as int);
        }
        if flag_decision(lc_has, l_has, rc_has, r_has, deleted) {
            res.insert(f.clone());
        }
        proof {
            assert(res@ =~= Set::new(
                |fv: FlagView|
                    {
                        &&& all.seq_view().take(i + 1).to_set().contains(fv)
                        &&& spec_flag_decision(
                            lcs.contains(fv),
                            ls.contains(fv),
                            rcs.contains(fv),
                            rs.contains(fv),
                            fv == FlagView::Deleted,
                        )
                    },
            ));
        }
        i = i + 1;
    }
    proof {
        crate::seqs::lemma_take_all_to_set(all.seq_view());
        assert(res@ =~= spec_merged_flags(lcs, ls, rcs, rs));
    }
    res
}

} // verus!
