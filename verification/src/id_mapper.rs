//! A persisted bijection between backend-internal identifiers and
//! short, stable, user-facing identifiers.
//!
//! Each internal identifier is hashed; its external identifier is the
//! shortest prefix of that hash that tells every recorded entry apart.
//! Entries are only appended; when a new entry's hash collides with an
//! old one's prefix, the shared minimum prefix length grows until all
//! entries are unambiguous again.

use vstd::prelude::*;

verus! {

/// Why an id mapper operation failed.
#[derive(Debug)]
pub enum IdMapperError {
    /// No entry maps the given identifier.
    NotFound(String),
    /// Two different internal identifiers hash to the very same value,
    /// so no prefix length can tell them apart.
    HashCollision(String),
    /// A persisted pair cannot be read back: a repeated internal
    /// identifier or an empty hash.
    InvalidEntry(String),
}

/// What the digest of an internal identifier is. Relies on the
/// SHA-256 implementation named in `digest_hex`.
pub uninterp spec fn sha256_hex_of(s: Seq<char>) -> Seq<char>;

/// Relies on sha2's `Sha256::digest`: the digest is a pure function of
/// the input bytes, 32 bytes long, written here as 64 lowercase hex
/// characters.
#[verifier::external_body]
fn digest_hex(s: &str) -> (r: String)
    ensures
        r@ == sha256_hex_of(s@),
        r@.len() == 64,
{
    format!("{:x}", <sha2::Sha256 as sha2::Digest>::digest(s.as_bytes()))
}

/// The prefix of a hash at a given length; a short hash stays whole.
pub open spec fn spec_prefix(h: Seq<char>, n: int) -> Seq<char> {
    if n >= h.len() {
        h
    } else {
        h.take(n)
    }
}

/// Whether prefixes of the given length tell all hashes apart.
pub open spec fn spec_prefixes_distinct(hs: Seq<Seq<char>>, n: int) -> bool {
    forall|i: int, j: int|
        0 <= i < j < hs.len() ==> spec_prefix(#[trigger] hs[i], n) != spec_prefix(
            #[trigger] hs[j],
            n,
        )
}

/// One recorded pair: an internal identifier and its hash.
#[derive(Debug)]
pub struct IdEntry {
    pub internal_id: String,
    pub hash: String,
}

/// The append-only table behind one account and folder's identifiers.
#[derive(Debug)]
pub struct IdMapper {
    entries: Vec<IdEntry>,
    alias_len: usize,
}

impl IdMapper {
    /// The recorded internal identifiers, in insertion order.
    pub closed spec fn internal_ids(&self) -> Seq<Seq<char>> {
        self.entries@.map_values(|e: IdEntry| e.internal_id@)
    }

    /// The recorded hashes, in insertion order.
    pub closed spec fn hashes(&self) -> Seq<Seq<char>> {
        self.entries@.map_values(|e: IdEntry| e.hash@)
    }

    /// The shared prefix length all external identifiers use.
    pub closed spec fn spec_alias_len(&self) -> int {
        self.alias_len as int
    }

    /// The external identifier of the entry at an index.
    pub open spec fn spec_short_id(&self, k: int) -> Seq<char> {
        spec_prefix(self.hashes()[k], self.spec_alias_len())
    }

    /// Well-formed: internal identifiers are unique, hashes are unique
    /// and never empty, and the shared prefix length is at least one
    /// and tells all hashes apart.
    pub open spec fn wf(&self) -> bool {
        &&& self.internal_ids().no_duplicates()
        &&& self.hashes().no_duplicates()
        &&& (forall|k: int| 0 <= k < self.hashes().len() ==> (#[trigger] self.hashes()[k]).len() > 0)
        &&& self.spec_alias_len() >= 1
        &&& spec_prefixes_distinct(self.hashes(), self.spec_alias_len())
    }

    pub open spec fn len(&self) -> int {
        self.internal_ids().len() as int
    }

    pub fn new() -> (r: IdMapper)
        ensures
            r.wf(),
            r.len() == 0,
            r.spec_alias_len() == 1,
    {
        let r = IdMapper { entries: Vec::new(), alias_len: 1 };
        proof {
            assert(r.internal_ids() =~= Seq::<Seq<char>>::empty());
            assert(r.hashes() =~= Seq::<Seq<char>>::empty());
        }
        r
    }

    /// How many pairs are recorded.
    pub fn count(&self) -> (r: usize)
        ensures
            r == self.len(),
    {
        self.entries.len()
    }

    /// The shared prefix length currently in use.
    pub fn alias_length(&self) -> (r: usize)
        ensures
            r == self.spec_alias_len(),
    {
        self.alias_len
    }

    /// The prefix of a hash at the given length, as the external
    /// identifier is written.
    fn short_of(hash: &String, n: usize) -> (r: String)
        ensures
            r@ == spec_prefix(hash@, n as int),
    {
        let len = hash.as_str().unicode_len();
        let end = if n >= len {
            len
        } else {
            n
        };
        let r = hash.as_str().substring_char(0, end).to_owned();
        proof {
            if n >= len {
                assert(hash@.subrange(0, end as int) =~= hash@);
            } else {
                assert(hash@.subrange(0, end as int) =~= hash@.take(n as int));
            }
        }
        r
    }

    /// The index of the entry recording the given internal identifier.
    fn find_internal(&self, internal_id: &String) -> (res: Option<usize>)
        ensures
            match res {
                Some(i) => i < self.len() && self.internal_ids()[i as int] == internal_id@,
                None => forall|k: int|
                    0 <= k < self.len() ==> #[trigger] self.internal_ids()[k] != internal_id@,
            },
    {
        let n = self.entries.len();
        let mut i: usize = 0;
        while i < n
            invariant
                n == self.entries.len(),
                i <= n,
                forall|k: int| 0 <= k < i ==> #[trigger] self.internal_ids()[k] != internal_id@,
            decreases n - i,
        {
            proof {
                assert(self.internal_ids()[i as int] == self.entries@[i as int].internal_id@);
            }
            if self.entries[i].internal_id.eq(internal_id) {
                return Some(i);
            }
            i = i + 1;
        }
        None
    }

    /// The index of the entry recording the given hash.
    fn find_hash(&self, hash: &String) -> (res: Option<usize>)
        ensures
            match res {
                Some(i) => i < self.len() && self.hashes()[i as int] == hash@,
                None => forall|k: int| 0 <= k < self.len() ==> #[trigger] self.hashes()[k] != hash@,
            },
    {
        let n = self.entries.len();
        let mut i: usize = 0;
        while i < n
            invariant
                n == self.entries.len(),
                i <= n,
                forall|k: int| 0 <= k < i ==> #[trigger] self.hashes()[k] != hash@,
            decreases n - i,
        {
            proof {
                assert(self.hashes()[i as int] == self.entries@[i as int].hash@);
            }
            if self.entries[i].hash.eq(hash) {
                return Some(i);
            }
            i = i + 1;
        }
        None
    }

    /// Whether prefixes of the given length tell all recorded hashes
    /// apart.
    fn prefixes_distinct_at(&self, n: usize) -> (res: bool)
        ensures
            res == spec_prefixes_distinct(self.hashes(), n as int),
    {
        let m = self.entries.len();
        let mut i: usize = 0;
        while i < m
            invariant
                m == self.entries.len(),
                i <= m,
                forall|a: int, b: int|
                    0 <= a < b < m && a < i ==> spec_prefix(#[trigger] self.hashes()[a], n as int)
                        != spec_prefix(#[trigger] self.hashes()[b], n as int),
            decreases m - i,
        {
            let pi = Self::short_of(&self.entries[i].hash, n);
            proof {
                assert(self.hashes()[i as int] == self.entries@[i as int].hash@);
            }
            let mut j: usize = i + 1;
            while j < m
                invariant
                    m == self.entries.len(),
                    i < m,
                    i < j,
                    j <= m,
                    pi@ == spec_prefix(self.hashes()[i as int], n as int),
                    forall|b: int|
                        i < b < j ==> spec_prefix(self.hashes()[i as int], n as int) != spec_prefix(
                            #[trigger] self.hashes()[b],
                            n as int,
                        ),
                decreases m - j,
            {
                let pj = Self::short_of(&self.entries[j].hash, n);
                proof {
                    assert(self.hashes()[j as int] == self.entries@[j as int].hash@);
                }
                if pi.eq(&pj) {
                    return false;
                }
                j = j + 1;
            }
            i = i + 1;
        }
        true
    }

    /// The smallest prefix length, at least the given floor, that
    /// tells all recorded hashes apart. Hashes must be pairwise
    /// distinct for one to exist.
    #[verifier::loop_isolation(false)]
    fn min_alias_len(&self, floor: usize) -> (res: usize)
        requires
            floor >= 1,
            self.hashes().no_duplicates(),
            forall|k: int| 0 <= k < self.hashes().len() ==> (#[trigger] self.hashes()[k]).len() > 0,
        ensures
            res >= floor,
            spec_prefixes_distinct(self.hashes(), res as int),
            forall|n: int| floor <= n < res ==> !spec_prefixes_distinct(self.hashes(), n),
    {
        let mut longest: usize = 1;
        let m = self.entries.len();
        let mut i: usize = 0;
        while i < m
            invariant
                m == self.entries.len(),
                i <= m,
                longest >= 1,
                forall|k: int| 0 <= k < i ==> (#[trigger] self.hashes()[k]).len() <= longest,
            decreases m - i,
        {
            let hl = self.entries[i].hash.as_str().unicode_len();
            proof {
                assert(self.hashes()[i as int] == self.entries@[i as int].hash@);
            }
            if hl > longest {
                longest = hl;
            }
            i = i + 1;
        }
        let bound = if floor > longest {
            floor
        } else {
            longest
        };
        proof {
            assert(spec_prefixes_distinct(self.hashes(), bound as int)) by {
                assert forall|a: int, b: int| 0 <= a < b < self.hashes().len() implies spec_prefix(
                    #[trigger] self.hashes()[a],
                    bound as int,
                ) != spec_prefix(#[trigger] self.hashes()[b], bound as int) by {
                    assert(spec_prefix(self.hashes()[a], bound as int) == self.hashes()[a]);
                    assert(spec_prefix(self.hashes()[b], bound as int) == self.hashes()[b]);
                }
            }
        }
        let mut n: usize = floor;
        while n < bound
            invariant
                floor <= n <= bound,
                forall|k: int| floor <= k < n ==> !spec_prefixes_distinct(self.hashes(), k),
            decreases bound - n,
        {
            if self.prefixes_distinct_at(n) {
                return n;
            }
            n = n + 1;
        }
        bound
    }

    /// Looks up the external identifier of an internal one.
    ///
    /// Returns the shared-length prefix of the entry's hash, or
    /// `NotFound` when no entry records the internal identifier.
    pub fn get_id(&self, internal_id: &String) -> (res: Result<String, IdMapperError>)
        ensures
            match res {
                Ok(id) => exists|k: int|
                    0 <= k < self.len() && #[trigger] self.internal_ids()[k] == internal_id@ && id@
                        == self.spec_short_id(k),
                Err(e) => e is NotFound && forall|k: int|
                    0 <= k < self.len() ==> #[trigger] self.internal_ids()[k] != internal_id@,
            },
    {
        match self.find_internal(internal_id) {
            Some(i) => {
                let id = Self::short_of(&self.entries[i].hash, self.alias_len);
                proof {
                    assert(self.hashes()[i as int] == self.entries@[i as int].hash@);
                }
                Ok(id)
            },
            None => Err(IdMapperError::NotFound(internal_id.clone())),
        }
    }

    /// Looks up the internal identifier behind an external one.
    ///
    /// Returns the internal identifier of the first entry whose
    /// shared-length hash prefix is the given identifier, or
    /// `NotFound`.
    pub fn get_internal_id(&self, id: &String) -> (res: Result<String, IdMapperError>)
        ensures
            match res {
                Ok(iid) => exists|k: int|
                    0 <= k < self.len() && #[trigger] self.spec_short_id(k) == id@ && iid@
                        == self.internal_ids()[k],
                Err(e) => e is NotFound && forall|k: int|
                    0 <= k < self.len() ==> #[trigger] self.spec_short_id(k) != id@,
            },
    {
        let n = self.entries.len();
        let mut i: usize = 0;
        while i < n
            invariant
                n == self.entries.len(),
                i <= n,
                forall|k: int| 0 <= k < i ==> #[trigger] self.spec_short_id(k) != id@,
            decreases n - i,
        {
            let short = Self::short_of(&self.entries[i].hash, self.alias_len);
            proof {
                assert(self.hashes()[i as int] == self.entries@[i as int].hash@);
            }
            if short.eq(id) {
                let iid = self.entries[i].internal_id.clone();
                proof {
                    assert(self.internal_ids()[i as int] == self.entries@[i as int].internal_id@);
                    assert(self.spec_short_id(i as int) == id@);
                }
                return Ok(iid);
            }
            i = i + 1;
        }
        Err(IdMapperError::NotFound(id.clone()))
    }

    /// Records an internal identifier under the given hash and returns
    /// its external identifier, the shortest hash prefix that still
    /// tells every recorded entry apart.
    ///
    /// An internal identifier already recorded keeps its entry and
    /// gets its current external identifier back. A new internal
    /// identifier whose hash equals a recorded one cannot be told
    /// apart by any prefix, and is refused.
    #[verifier::loop_isolation(false)]
    pub fn insert_with_hash(&mut self, internal_id: &String, hash: &String) -> (res: Result<
        String,
        IdMapperError,
    >)
        requires
            old(self).wf(),
            hash@.len() > 0,
        ensures
            final (self).wf(),
            match res {
                Ok(id) => {
                    ||| {
                        &&& old(self).internal_ids().contains(internal_id@)
                        &&& *final (self) == *old(self)
                        &&& exists|k: int|
                            0 <= k < final (self).len() && #[trigger] final (self).internal_ids()[k]
                                == internal_id@ && id@ == final (self).spec_short_id(k)
                    }
                    ||| {
                        &&& !old(self).internal_ids().contains(internal_id@)
                        &&& final (self).internal_ids() == old(self).internal_ids().push(
                            internal_id@,
                        )
                        &&& final (self).hashes() == old(self).hashes().push(hash@)
                        &&& id@ == final (self).spec_short_id(final (self).len() - 1)
                        &&& final (self).spec_alias_len() >= old(self).spec_alias_len()
                    }
                },
                Err(e) => {
                    &&& e is HashCollision
                    &&& *final (self) == *old(self)
                    &&& !old(self).internal_ids().contains(internal_id@)
                    &&& old(self).hashes().contains(hash@)
                },
            },
    {
        match self.find_internal(internal_id) {
            Some(i) => {
                let id = Self::short_of(&self.entries[i].hash, self.alias_len);
                proof {
                    assert(self.hashes()[i as int] == self.entries@[i as int].hash@);
                    assert(self.internal_ids().contains(internal_id@));
                }
                Ok(id)
            },
            None => {
                match self.find_hash(hash) {
                    Some(_) => {
                        proof {
                            assert(self.hashes().contains(hash@));
                        }
                        Err(IdMapperError::HashCollision(hash.clone()))
                    },
                    None => {
                        let ghost old_ids = self.internal_ids();
                        let ghost old_hashes = self.hashes();
                        self.entries.push(
                            IdEntry { internal_id: internal_id.clone(), hash: hash.clone() },
                        );
                        proof {
                            assert(self.internal_ids() =~= old_ids.push(internal_id@));
                            assert(self.hashes() =~= old_hashes.push(hash@));
                            assert forall|k: int|
                                0 <= k < old_ids.len() implies #[trigger] old_ids[k]
                                != internal_id@ by {
                                assert(old_ids.contains(old_ids[k]));
                            }
                            assert forall|k: int|
                                0 <= k < old_hashes.len() implies #[trigger] old_hashes[k]
                                != hash@ by {
                                assert(old_hashes.contains(old_hashes[k]));
                            }
                        }
                        let new_len = self.min_alias_len(self.alias_len);
                        self.alias_len = new_len;
                        let id = Self::short_of(hash, new_len);
                        proof {
                            assert(self.hashes()[self.len() - 1] == hash@);
                        }
                        Ok(id)
                    },
                }
            },
        }
    }

    /// Records an internal identifier, hashing it, and returns its
    /// external identifier, exactly as `insert_with_hash` does with
    /// the identifier's digest.
    pub fn insert(&mut self, internal_id: &String) -> (res: Result<String, IdMapperError>)
        requires
            old(self).wf(),
        ensures
            final (self).wf(),
            match res {
                Ok(id) => {
                    ||| {
                        &&& old(self).internal_ids().contains(internal_id@)
                        &&& *final (self) == *old(self)
                        &&& exists|k: int|
                            0 <= k < final (self).len() && #[trigger] final (self).internal_ids()[k]
                                == internal_id@ && id@ == final (self).spec_short_id(k)
                    }
                    ||| {
                        &&& !old(self).internal_ids().contains(internal_id@)
                        &&& final (self).internal_ids() == old(self).internal_ids().push(
                            internal_id@,
                        )
                        &&& final (self).hashes() == old(self).hashes().push(
                            sha256_hex_of(internal_id@),
                        )
                        &&& id@ == final (self).spec_short_id(final (self).len() - 1)
                        &&& final (self).spec_alias_len() >= old(self).spec_alias_len()
                    }
                },
                Err(e) => {
                    &&& e is HashCollision
                    &&& *final (self) == *old(self)
                    &&& !old(self).internal_ids().contains(internal_id@)
                    &&& old(self).hashes().contains(sha256_hex_of(internal_id@))
                },
            },
    {
        let hash = digest_hex(internal_id.as_str());
        self.insert_with_hash(internal_id, &hash)
    }
}

impl IdMapper {
    /// Rebuilds a mapper from its persisted pairs, in their stored
    /// order. It succeeds exactly on pair lists the mapper itself can
    /// have recorded: internal identifiers pairwise distinct, hashes
    /// pairwise distinct and never empty.
    #[verifier::loop_isolation(false)]
    pub fn from_entries(entries: &Vec<(String, String)>) -> (res: Result<IdMapper, IdMapperError>)
        ensures
            ({
                let iids = entries@.map_values(|p: (String, String)| p.0@);
                let hs = entries@.map_values(|p: (String, String)| p.1@);
                &&& (res matches Ok(m) ==> m.wf() && m.internal_ids() == iids && m.hashes() == hs)
                &&& (res is Ok <==> iids.no_duplicates() && hs.no_duplicates() && (forall|k: int|
                    0 <= k < hs.len() ==> (#[trigger] hs[k]).len() > 0))
                &&& (res matches Err(e) ==> e is InvalidEntry)
            }),
    {
        let ghost iids = entries@.map_values(|p: (String, String)| p.0@);
        let ghost hs = entries@.map_values(|p: (String, String)| p.1@);
        let mut mapper = IdMapper::new();
        let n = entries.len();
        let mut i: usize = 0;
        proof {
            assert(mapper.internal_ids() =~= iids.take(0));
            assert(mapper.hashes() =~= hs.take(0));
        }
        while i < n
            invariant
                n == entries.len(),
                i <= n,
                mapper.wf(),
                mapper.internal_ids() == iids.take(i as int),
                mapper.hashes() == hs.take(i as int),
            decreases n - i,
        {
            let internal_id = &entries[i].0;
            let hash = &entries[i].1;
            proof {
                assert(iids[i as int] == internal_id@);
                assert(hs[i as int] == hash@);
            }
            if hash.as_str().unicode_len() == 0 {
                return Err(IdMapperError::InvalidEntry(internal_id.clone()));
            }
            match mapper.insert_with_hash(internal_id, hash) {
                Ok(_) => {
                    if mapper.count() == i {
                        // The pair was already recorded: the stored
                        // table repeated an internal identifier.
                        proof {
                            let k = choose|k: int|
                                0 <= k < i && #[trigger] iids.take(i as int)[k] == internal_id@;
                            assert(iids[k] == iids[i as int]);
                            assert(!iids.no_duplicates());
                        }
                        return Err(IdMapperError::InvalidEntry(internal_id.clone()));
                    }
                    proof {
                        assert(mapper.internal_ids() =~= iids.take(i + 1));
                        assert(mapper.hashes() =~= hs.take(i + 1));
                    }
                },
                Err(_) => {
                    proof {
                        let k = choose|k: int|
                            0 <= k < i && #[trigger] hs.take(i as int)[k] == hash@;
                        assert(hs[k] == hs[i as int]);
                        assert(!hs.no_duplicates());
                    }
                    return Err(IdMapperError::InvalidEntry(internal_id.clone()));
                },
            }
            i = i + 1;
        }
        proof {
            assert(iids.take(n as int) =~= iids);
            assert(hs.take(n as int) =~= hs);
            assert forall|k: int| 0 <= k < hs.len() implies (#[trigger] hs[k]).len() > 0 by {
                assert(mapper.hashes()[k] == hs[k]);
            }
        }
        Ok(mapper)
    }

    /// The recorded pairs, in insertion order, as they are persisted.
    pub fn entries(&self) -> (r: Vec<(String, String)>)
        ensures
            r@.len() == self.len(),
            forall|k: int|
                0 <= k < r@.len() ==> (#[trigger] r@[k]).0@ == self.internal_ids()[k] && r@[k].1@
                    == self.hashes()[k],
    {
        let mut out: Vec<(String, String)> = Vec::new();
        let n = self.entries.len();
        let mut i: usize = 0;
        while i < n
            invariant
                n == self.entries.len(),
                i <= n,
                out@.len() == i,
                forall|k: int|
                    0 <= k < i ==> (#[trigger] out@[k]).0@ == self.internal_ids()[k] && out@[k].1@
                        == self.hashes()[k],
            decreases n - i,
        {
            out.push((self.entries[i].internal_id.clone(), self.entries[i].hash.clone()));
            proof {
                assert(self.internal_ids()[i as int] == self.entries@[i as int].internal_id@);
                assert(self.hashes()[i as int] == self.entries@[i as int].hash@);
            }
            i = i + 1;
        }
        out
    }
}

/// Law of the identifier round trip: in a well-formed mapper the two
/// lookups invert each other — the external identifier of any
/// recorded internal identifier leads back to it, and the other way
/// around. With it, recorded entries have pairwise distinct external
/// identifiers even where their hashes share a short prefix: the
/// shared length is chosen to tell them all apart.
pub proof fn lemma_id_mapper_round_trip(m: IdMapper, i: int, j: int)
    requires
        m.wf(),
        0 <= i < m.len(),
        0 <= j < m.len(),
    ensures
        m.spec_short_id(i) == m.spec_short_id(j) ==> i == j,
        m.internal_ids()[i] == m.internal_ids()[j] ==> i == j,
{
    if i != j {
        if i < j {
            assert(spec_prefix(m.hashes()[i], m.spec_alias_len()) != spec_prefix(
                m.hashes()[j],
                m.spec_alias_len(),
            ));
        } else {
            assert(spec_prefix(m.hashes()[j], m.spec_alias_len()) != spec_prefix(
                m.hashes()[i],
                m.spec_alias_len(),
            ));
        }
    }
}

} // verus!
