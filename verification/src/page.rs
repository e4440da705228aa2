//! Paginated listing: the window arithmetic every backend's envelope
//! listing shares, and the fetch range an IMAP session asks for.
//!
//! Pages and page sizes are zero-based; a page size of zero means one
//! unbounded page. With a positive page size, a page whose first slot
//! lies at or past the end of the listing is out of range — for an
//! empty listing, every such page is.

use vstd::prelude::*;

use crate::envelope::{Envelope, EnvelopeView};
use crate::numstr::{spec_dec_chars, u64_to_string};

verus! {

/// Why a listing call failed.
#[derive(Debug)]
pub enum ListEnvelopesError {
    /// The zero-based page that lies out of range.
    OutOfBounds(usize),
}

/// The window of indices a page covers, in a listing of the given
/// length.
pub fn paginate(len: usize, page_size: usize, page: usize) -> (res: Result<
    (usize, usize),
    ListEnvelopesError,
>)
    ensures
        match res {
            Ok(w) => {
                &&& (page_size == 0 ==> w == (0usize, len))
                &&& (page_size > 0 ==> page * page_size < len && w.0 == page * page_size && w.1
                    == (if page * page_size + page_size <= len {
                    page * page_size + page_size
                } else {
                    len as int
                }))
            },
            Err(e) => {
                &&& page_size > 0 && page * page_size >= len
                &&& e == ListEnvelopesError::OutOfBounds(page)
            },
        },
{
    if page_size == 0 {
        return Ok((0, len));
    }
    if len == 0 {
        return Err(ListEnvelopesError::OutOfBounds(page));
    }
    if page > (len - 1) / page_size {
        proof {
            assert(page * page_size >= len) by (nonlinear_arith)
                requires
                    page > ((len - 1) as int) / (page_size as int),
                    len > 0,
                    page_size > 0,
            ;
        }
        return Err(ListEnvelopesError::OutOfBounds(page));
    }
    proof {
        assert(page * page_size <= len - 1) by (nonlinear_arith)
            requires
                page <= ((len - 1) as int) / (page_size as int),
                len > 0,
                page_size > 0,
        ;
    }
    let begin = page * page_size;
    let end = if page_size >= len - begin {
        len
    } else {
        begin + page_size
    };
    Ok((begin, end))
}

/// One page of a listing, in the listing's own order.
#[verifier::loop_isolation(false)]
pub fn page_envelopes(envelopes: &Vec<Envelope>, page_size: usize, page: usize) -> (res: Result<
    Vec<Envelope>,
    ListEnvelopesError,
>)
    ensures
        match res {
            Ok(v) => {
                &&& (page_size == 0 ==> v@.map_values(|x: Envelope| x@) == envelopes@.map_values(
                    |x: Envelope| x@,
                ))
                &&& (page_size > 0 ==> page * page_size < envelopes@.len() && v@.map_values(
                    |x: Envelope| x@,
                ) == envelopes@.map_values(|x: Envelope| x@).subrange(
                    page * page_size,
                    if page * page_size + page_size <= envelopes@.len() {
                        page * page_size + page_size
                    } else {
                        envelopes@.len() as int
                    },
                ))
            },
            Err(e) => {
                &&& page_size > 0 && page * page_size >= envelopes@.len()
                &&& e == ListEnvelopesError::OutOfBounds(page)
            },
        },
{
    let window = paginate(envelopes.len(), page_size, page)?;
    let (begin, end) = window;
    let mut v: Vec<Envelope> = Vec::new();
    let mut i: usize = begin;
    while i < end
        invariant
            begin <= i <= end <= envelopes@.len(),
            v@.map_values(|x: Envelope| x@) == envelopes@.map_values(|x: Envelope| x@).subrange(
                begin as int,
                i as int,
            ),
        decreases end - i,
    {
        let ghost pre = v@;
        v.push(envelopes[i].clone());
        proof {
            assert(v@ =~= pre.push(v@.last()));
            assert(v@.last()@ == envelopes@[i as int]@);
            assert(v@.map_values(|x: Envelope| x@) =~= envelopes@.map_values(
                |x: Envelope| x@,
            ).subrange(begin as int, i + 1));
        }
        i = i + 1;
    }
    proof {
        assert(v@.map_values(|x: Envelope| x@) == envelopes@.map_values(|x: Envelope| x@).subrange(
            begin as int,
            end as int,
        ));
    }
    Ok(v)
}

/// The message sequence numbers one IMAP fetch page covers: a run of
/// the given count, descending from the given start.
pub open spec fn spec_desc_range(from: int, count: nat) -> Seq<int>
    decreases count,
{
    if count == 0 {
        Seq::empty()
    } else {
        seq![from] + spec_desc_range(from - 1, (count - 1) as nat)
    }
}

/// The comma-separated decimal writing of a sequence-number run.
pub open spec fn spec_join_dec(v: Seq<int>) -> Seq<char>
    decreases v.len(),
{
    if v.len() == 0 {
        Seq::empty()
    } else if v.len() == 1 {
        spec_dec_chars(v[0] as nat)
    } else {
        spec_join_dec(v.drop_last()) + seq![','] + spec_dec_chars(v.last() as nat)
    }
}

/// The sequence-number set an IMAP fetch of one page asks for, written
/// as the wire expects it: all of `1:*`, or the page's sequence
/// numbers in descending order.
///
/// The listing is ordered by recency, so page zero covers the highest
/// sequence numbers; the run stops at one, never below.
#[verifier::loop_isolation(false)]
pub fn imap_fetch_range(folder_size: usize, page_size: usize, page: usize) -> (res: Result<
    String,
    ListEnvelopesError,
>)
    requires
        folder_size > 0,
        folder_size <= 0xffff_ffff,
    ensures
        match res {
            Ok(s) => {
                &&& (page_size == 0 ==> s@ == "1:*"@)
                &&& (page_size > 0 ==> page * page_size < folder_size && s@ == spec_join_dec(
                    spec_desc_range(
                        folder_size - page * page_size,
                        (if page_size <= folder_size - page * page_size {
                            page_size as int
                        } else {
                            folder_size - page * page_size
                        }) as nat,
                    ),
                ))
            },
            Err(e) => {
                &&& page_size > 0 && page * page_size >= folder_size
                &&& e == ListEnvelopesError::OutOfBounds(page)
            },
        },
{
    if page_size == 0 {
        proof {
            reveal_strlit("1:*");
        }
        return Ok(String::from_str("1:*"));
    }
    let window = paginate(folder_size, page_size, page)?;
    let begin = window.0;
    let cursor = folder_size - begin;
    let count = if page_size <= cursor {
        page_size
    } else {
        cursor
    };
    let ghost whole = spec_desc_range(cursor as int, count as nat);
    proof {
        lemma_desc_range_index(cursor as int, count as nat);
    }
    let mut s = u64_to_string(cursor as u64);
    let mut k: usize = 1;
    proof {
        assert(whole.take(1) =~= seq![cursor as int]);
        assert(s@ =~= spec_join_dec(whole.take(1)));
    }
    while k < count
        invariant
            1 <= k <= count,
            s@ == spec_join_dec(whole.take(k as int)),
        decreases count - k,
    {
        proof {
            reveal_strlit(",");
            assert(whole.take(k + 1).drop_last() =~= whole.take(k as int));
            assert(whole.take(k + 1).last() == whole[k as int]);
            assert(whole[k as int] == cursor - k);
        }
        s.append(",");
        s.append(u64_to_string((cursor - k) as u64).as_str());
        proof {
            assert(s@ =~= spec_join_dec(whole.take(k + 1)));
        }
        k = k + 1;
    }
    proof {
        assert(whole.take(count as int) =~= whole);
    }
    Ok(s)
}

/// The elements of a descending run, by index.
proof fn lemma_desc_range_index(from: int, count: nat)
    ensures
        spec_desc_range(from, count).len() == count,
        forall|k: int| 0 <= k < count ==> #[trigger] spec_desc_range(from, count)[k] == from - k,
    decreases count,
{
    if count > 0 {
        lemma_desc_range_index(from - 1, (count - 1) as nat);
        assert forall|k: int| 0 <= k < count implies #[trigger] spec_desc_range(from, count)[k]
            == from - k by {
            if k > 0 {
                assert(spec_desc_range(from, count)[k] == spec_desc_range(
                    from - 1,
                    (count - 1) as nat,
                )[k - 1]);
            }
        }
    }
}

/// Whether a listing is ordered by date, newest first.
pub open spec fn spec_sorted_by_date_desc(s: Seq<EnvelopeView>) -> bool {
    forall|i: int, j: int| 0 <= i < j < s.len() ==> s[i].date >= s[j].date
}

/// The index of a newest envelope in a non-empty listing.
fn index_of_newest(envelopes: &Vec<Envelope>) -> (r: usize)
    requires
        envelopes@.len() > 0,
    ensures
        r < envelopes@.len(),
        forall|k: int|
            0 <= k < envelopes@.len() ==> envelopes@[r as int]@.date >= (#[trigger] envelopes@[k])@.date,
{
    let n = envelopes.len();
    let mut best: usize = 0;
    let mut i: usize = 1;
    while i < n
        invariant
            n == envelopes@.len(),
            best < i <= n,
            forall|k: int|
                0 <= k < i ==> envelopes@[best as int]@.date >= (#[trigger] envelopes@[k])@.date,
        decreases n - i,
    {
        if envelopes[i].date > envelopes[best].date {
            best = i;
        }
        i = i + 1;
    }
    best
}

/// The same envelopes ordered by date, newest first: every backend's
/// listing order.
#[verifier::loop_isolation(false)]
pub fn sort_by_date_desc(envelopes: Vec<Envelope>) -> (r: Vec<Envelope>)
    ensures
        r@.len() == envelopes@.len(),
        spec_sorted_by_date_desc(r@.map_values(|e: Envelope| e@)),
        r@.map_values(|e: Envelope| e@).to_multiset() == envelopes@.map_values(
            |e: Envelope| e@,
        ).to_multiset(),
{
    let ghost orig = envelopes@.map_values(|e: Envelope| e@);
    let mut input = envelopes;
    let mut out: Vec<Envelope> = Vec::new();
    proof {
        let out0 = out@.map_values(|e: Envelope| e@);
        out0.to_multiset_ensures();
        assert forall|a: EnvelopeView| out0.to_multiset().count(a) == 0 by {
            assert(!out0.contains(a));
        }
        assert(out0.to_multiset() =~= vstd::multiset::Multiset::<EnvelopeView>::empty());
        assert(out0.to_multiset().add(orig.to_multiset()) =~= orig.to_multiset());
        assert(input@.map_values(|e: Envelope| e@) =~= orig);
    }
    while input.len() > 0
        invariant
            out@.len() + input@.len() == orig.len(),
            out@.map_values(|e: Envelope| e@).to_multiset().add(
                input@.map_values(|e: Envelope| e@).to_multiset(),
            ) == orig.to_multiset(),
            spec_sorted_by_date_desc(out@.map_values(|e: Envelope| e@)),
            forall|a: int, b: int|
                0 <= a < out@.len() && 0 <= b < input@.len()
                    ==> (#[trigger] out@[a])@.date >= (#[trigger] input@[b])@.date,
        decreases input@.len(),
    {
        let ghost in_pre = input@.map_values(|e: Envelope| e@);
        let ghost out_pre = out@.map_values(|e: Envelope| e@);
        let m = index_of_newest(&input);
        let e = input.remove(m);
        out.push(e);
        proof {
            let in_post = input@.map_values(|e2: Envelope| e2@);
            let out_post = out@.map_values(|e2: Envelope| e2@);
            assert(in_post =~= in_pre.remove(m as int));
            assert(out_post =~= out_pre.push(e@));
            in_pre.to_multiset_ensures();
            out_pre.to_multiset_ensures();
            assert(in_post.to_multiset() =~= in_pre.to_multiset().remove(in_pre[m as int]));
            assert(out_post.to_multiset() =~= out_pre.to_multiset().insert(e@));
            assert(in_pre[m as int] == e@);
            assert(out_post.to_multiset().add(in_post.to_multiset()) =~= out_pre.to_multiset().add(
                in_pre.to_multiset(),
            ));
            assert(spec_sorted_by_date_desc(out_post)) by {
                assert(forall|a: int| 0 <= a < out_pre.len() ==> #[trigger] out_post[a]
                    == out_pre[a]);
                assert(out_post[out_post.len() - 1] == e@);
            }
            assert(forall|b: int|
                0 <= b < in_post.len() ==> (#[trigger] input@[b])@.date == in_pre[(if b < m {
                    b
                } else {
                    b + 1
                })].date);
        }
    }
    proof {
        let leftover = input@.map_values(|e2: Envelope| e2@);
        leftover.to_multiset_ensures();
        assert forall|a: EnvelopeView| leftover.to_multiset().count(a) == 0 by {
            assert(!leftover.contains(a));
        }
        assert(out@.map_values(|e2: Envelope| e2@).to_multiset().add(leftover.to_multiset())
            =~= out@.map_values(|e2: Envelope| e2@).to_multiset());
    }
    out
}

/// The given texts joined with commas, as a uid set is written.
pub open spec fn spec_join_comma(ids: Seq<Seq<char>>) -> Seq<char>
    decreases ids.len(),
{
    if ids.len() == 0 {
        Seq::empty()
    } else if ids.len() == 1 {
        ids[0]
    } else {
        spec_join_comma(ids.drop_last()) + seq![','] + ids.last()
    }
}

/// The uid set one page of search results covers, written as the wire
/// expects it: the page's window of the found uids, comma-joined;
/// out-of-range pages fail as every listing does.
#[verifier::loop_isolation(false)]
pub fn search_uid_page(uids: &Vec<String>, page_size: usize, page: usize) -> (res: Result<
    String,
    ListEnvelopesError,
>)
    ensures
        ({
            let names = crate::folder_sync::spec_names(uids@);
            match res {
                Ok(s) => {
                    &&& (page_size == 0 ==> s@ == spec_join_comma(names))
                    &&& (page_size > 0 ==> page * page_size < names.len() && s@ == spec_join_comma(
                        names.subrange(
                            page * page_size,
                            if page * page_size + page_size <= names.len() {
                                page * page_size + page_size
                            } else {
                                names.len() as int
                            },
                        ),
                    ))
                },
                Err(e) => {
                    &&& page_size > 0 && page * page_size >= names.len()
                    &&& e == ListEnvelopesError::OutOfBounds(page)
                },
            }
        }),
{
    let ghost names = crate::folder_sync::spec_names(uids@);
    let window = paginate(uids.len(), page_size, page)?;
    let (begin, end) = window;
    let ghost slice = names.subrange(begin as int, end as int);
    let mut s = String::new();
    let mut k: usize = begin;
    proof {
        assert(slice.take(0) =~= Seq::<Seq<char>>::empty());
        assert(s@ =~= spec_join_comma(slice.take(0)));
    }
    while k < end
        invariant
            begin <= k <= end <= uids@.len(),
            s@ == spec_join_comma(slice.take(k - begin)),
        decreases end - k,
    {
        proof {
            reveal_strlit(",");
            assert(slice.take(k - begin + 1).drop_last() =~= slice.take(k - begin));
            assert(slice.take(k - begin + 1).last() == slice[k - begin]);
            assert(slice[k - begin] == uids@[k as int]@);
        }
        if k > begin {
            s.append(",");
        } else {
            proof {
                assert(slice.take(1) =~= seq![slice[0]]);
            }
        }
        s.append(uids[k].as_str());
        proof {
            assert(s@ =~= spec_join_comma(slice.take(k - begin + 1)));
        }
        k = k + 1;
    }
    proof {
        assert(slice.take(end - begin) =~= slice);
        if page_size == 0 {
            assert(names.subrange(0, names.len() as int) =~= names);
        }
    }
    Ok(s)
}

} // verus!
