//! Message flags: semantic tags such as Seen or Deleted, plus free-form
//! custom tags, collected into a set with set equality.

use vstd::prelude::*;

verus! {

/// A semantic tag attached to a message.
#[derive(Debug)]
pub enum Flag {
    Seen,
    Answered,
    Flagged,
    Deleted,
    Draft,
    Recent,
    Custom(String),
}

/// The mathematical identity of a flag: custom tags count by their text.
pub enum FlagView {
    Seen,
    Answered,
    Flagged,
    Deleted,
    Draft,
    Recent,
    Custom(Seq<char>),
}

impl View for Flag {
    type V = FlagView;

    open spec fn view(&self) -> FlagView {
        match self {
            Flag::Seen => FlagView::Seen,
            Flag::Answered => FlagView::Answered,
            Flag::Flagged => FlagView::Flagged,
            Flag::Deleted => FlagView::Deleted,
            Flag::Draft => FlagView::Draft,
            Flag::Recent => FlagView::Recent,
            Flag::Custom(s) => FlagView::Custom(s@),
        }
    }
}

impl PartialEq for Flag {
    fn eq(&self, other: &Flag) -> (r: bool) {
        match (self, other) {
            (Flag::Seen, Flag::Seen) => true,
            (Flag::Answered, Flag::Answered) => true,
            (Flag::Flagged, Flag::Flagged) => true,
            (Flag::Deleted, Flag::Deleted) => true,
            (Flag::Draft, Flag::Draft) => true,
            (Flag::Recent, Flag::Recent) => true,
            (Flag::Custom(a), Flag::Custom(b)) => *a == *b,
            _ => false,
        }
    }
}

impl Clone for Flag {
    fn clone(&self) -> (r: Flag)
        ensures
            r@ == self@,
    {
        match self {
            Flag::Seen => Flag::Seen,
            Flag::Answered => Flag::Answered,
            Flag::Flagged => Flag::Flagged,
            Flag::Deleted => Flag::Deleted,
            Flag::Draft => Flag::Draft,
            Flag::Recent => Flag::Recent,
            Flag::Custom(s) => Flag::Custom(s.clone()),
        }
    }
}

impl vstd::std_specs::cmp::PartialEqSpecImpl for Flag {
    open spec fn obeys_eq_spec() -> bool {
        true
    }

    open spec fn eq_spec(&self, other: &Flag) -> bool {
        self@ == other@
    }
}

impl Flag {
    /// The letter a maildir filename uses for this flag, if any.
    pub open spec fn spec_maildir_char(fv: FlagView) -> Option<char> {
        match fv {
            FlagView::Answered => Some('R'),
            FlagView::Seen => Some('S'),
            FlagView::Deleted => Some('T'),
            FlagView::Draft => Some('D'),
            FlagView::Flagged => Some('F'),
            _ => None,
        }
    }

    /// Reads one letter of a maildir filename's flag section.
    pub fn from_maildir_char(c: char) -> (r: Flag)
        ensures
            r@ == spec_flag_of_maildir_char(c),
    {
        match c {
            'r' | 'R' => Flag::Answered,
            's' | 'S' => Flag::Seen,
            't' | 'T' => Flag::Deleted,
            'd' | 'D' => Flag::Draft,
            'f' | 'F' => Flag::Flagged,
            'p' | 'P' => {
                let r = Flag::Custom(passed_string());
                proof {
                    reveal_strlit("Passed");
                }
                r
            },
            _ => Flag::Custom(char_to_string(c)),
        }
    }
}

/// What `Flag::from_maildir_char` yields for each letter.
pub open spec fn spec_flag_of_maildir_char(c: char) -> FlagView {
    if c == 'r' || c == 'R' {
        FlagView::Answered
    } else if c == 's' || c == 'S' {
        FlagView::Seen
    } else if c == 't' || c == 'T' {
        FlagView::Deleted
    } else if c == 'd' || c == 'D' {
        FlagView::Draft
    } else if c == 'f' || c == 'F' {
        FlagView::Flagged
    } else if c == 'p' || c == 'P' {
        FlagView::Custom("Passed"@)
    } else {
        FlagView::Custom(seq![c])
    }
}

fn passed_string() -> (r: String)
    ensures
        r@ == "Passed"@,
{
    let r = String::from_str("Passed");
    r
}

/// Relies on std's `char::to_string`: the resulting string holds exactly
/// the one character.
#[verifier::external_body]
fn char_to_string(c: char) -> (r: String)
    ensures
        r@ == seq![c],
{
    c.to_string()
}

/// A set of flags: unordered, duplicate-free, compared by set equality.
#[derive(Debug)]
pub struct Flags {
    items: Vec<Flag>,
}

impl Clone for Flags {
    #[verifier::loop_isolation(false)]
    fn clone(&self) -> (r: Flags)
        ensures
            r.seq_view() == self.seq_view(),
            r@ == self@,
            r.wf() == self.wf(),
    {
        let n = self.items.len();
        let mut items: Vec<Flag> = Vec::new();
        let mut i: usize = 0;
        while i < n
            invariant
                n == self.items.len(),
                i <= n,
                items@.map_values(|f: Flag| f@) =~= self.seq_view().take(i as int),
            decreases n - i,
        {
            items.push(self.items[i].clone());
            proof {
                assert(items@.map_values(|f: Flag| f@) =~= self.seq_view().take(i + 1));
            }
            i = i + 1;
        }
        let r = Flags { items };
        proof {
            assert(r.seq_view() =~= self.seq_view());
        }
        r
    }
}

impl View for Flags {
    type V = Set<FlagView>;

    open spec fn view(&self) -> Set<FlagView> {
        self.seq_view().to_set()
    }
}

impl Flags {
    /// The stored flags in storage order.
    pub closed spec fn seq_view(&self) -> Seq<FlagView> {
        self.items@.map_values(|f: Flag| f@)
    }

    /// Well-formed: no flag is stored twice.
    pub open spec fn wf(&self) -> bool {
        self.seq_view().no_duplicates()
    }

    pub fn new() -> (r: Flags)
        ensures
            r.wf(),
            r@ == Set::<FlagView>::empty(),
    {
        let r = Flags { items: Vec::new() };
        proof {
            assert(r@ =~= Set::<FlagView>::empty());
        }
        r
    }

    #[verifier::loop_isolation(false)]
    pub fn contains(&self, f: &Flag) -> (r: bool)
        ensures
            r == self@.contains(f@),
    {
        let n = self.items.len();
        let mut i: usize = 0;
        while i < n
            invariant
                n == self.items.len(),
                i <= n,
                forall|k: int| 0 <= k < i ==> self.seq_view()[k] != f@,
            decreases n - i,
        {
            if &self.items[i] == f {
                assert(self.seq_view()[i as int] == f@);
                assert(self.seq_view().contains(f@));
                return true;
            }
            i = i + 1;
        }
        proof {
            assert(!self.seq_view().contains(f@));
        }
        false
    }

    /// Adds a flag; adding one already present leaves the set unchanged.
    pub fn insert(&mut self, f: Flag)
        requires
            old(self).wf(),
        ensures
            final(self).wf(),
            final(self)@ == old(self)@.insert(f@),
    {
        if self.contains(&f) {
            proof {
                assert(self@ =~= old(self)@.insert(f@));
            }
        } else {
            let ghost prior = self.seq_view();
            let ghost fv0 = f@;
            self.items.push(f);
            proof {
                assert(self.seq_view() =~= prior.push(fv0));
                assert forall|k: int| 0 <= k < prior.len() implies #[trigger] prior[k] != fv0 by {
                    assert(prior.contains(prior[k]));
                }
                assert forall|fv: FlagView| self@.contains(fv) implies old(self)@.insert(
                    fv0,
                ).contains(fv) by {
                    let k = choose|k: int|
                        0 <= k < self.seq_view().len() && #[trigger] self.seq_view()[k] == fv;
                    if k < prior.len() {
                        assert(prior.contains(fv));
                    }
                }
                assert forall|fv: FlagView|
                    old(self)@.insert(fv0).contains(fv) implies self@.contains(fv) by {
                    if fv == fv0 {
                        assert(self.seq_view()[prior.len() as int] == fv);
                        assert(self.seq_view().contains(fv));
                    } else {
                        let k = choose|k: int| 0 <= k < prior.len() && #[trigger] prior[k] == fv;
                        assert(self.seq_view()[k] == fv);
                        assert(self.seq_view().contains(fv));
                    }
                }
                assert(self@ =~= old(self)@.insert(fv0));
            }
        }
    }

    /// Drops a flag; dropping one that is absent leaves the set unchanged.
    #[verifier::loop_isolation(false)]
    pub fn remove(&mut self, f: &Flag)
        requires
            old(self).wf(),
        ensures
            final(self).wf(),
            final(self)@ == old(self)@.remove(f@),
    {
        let n = self.items.len();
        let mut i: usize = 0;
        while i < n
            invariant
                n == self.items.len(),
                i <= n,
                *self == *old(self),
                self.wf(),
                forall|k: int| 0 <= k < i ==> self.seq_view()[k] != f@,
            decreases n - i,
        {
            if &self.items[i] == f {
                let ghost prior = self.seq_view();
                self.items.remove(i);
                proof {
                    assert(self.seq_view() =~= prior.remove(i as int));
                    assert(forall|k: int|
                        0 <= k < i ==> #[trigger] self.seq_view()[k] == prior[k]);
                    assert(forall|k: int|
                        i <= k < self.seq_view().len() ==> #[trigger] self.seq_view()[k]
                            == prior[k + 1]);
                    assert(self.wf());
                    assert forall|fv: FlagView| self@.contains(fv) implies old(self)@.remove(
                        f@,
                    ).contains(fv) by {
                        let k = choose|k: int|
                            0 <= k < self.seq_view().len() && #[trigger] self.seq_view()[k] == fv;
                        if k < i {
                            assert(prior[k] == fv);
                            assert(prior.contains(fv));
                            assert(prior[k] != prior[i as int]);
                        } else {
                            assert(prior[k + 1] == fv);
                            assert(prior.contains(fv));
                            assert(prior[k + 1] != prior[i as int]);
                        }
                    }
                    assert forall|fv: FlagView|
                        old(self)@.remove(f@).contains(fv) implies self@.contains(fv) by {
                        let k = choose|k: int| 0 <= k < prior.len() && #[trigger] prior[k] == fv;
                        assert(prior[i as int] == f@);
                        if k < i {
                            assert(self.seq_view()[k] == fv);
                            assert(self.seq_view().contains(fv));
                        } else {
                            assert(k != i);
                            assert(self.seq_view()[k - 1] == fv);
                            assert(self.seq_view().contains(fv));
                        }
                    }
                    assert(self@ =~= old(self)@.remove(f@));
                }
                return ;
            }
            i = i + 1;
        }
        proof {
            assert(!self.seq_view().contains(f@));
            assert(self@ =~= old(self)@.remove(f@));
        }
    }

    /// Builds a flag set from a list, ignoring repeats.
    #[verifier::loop_isolation(false)]
    pub fn from_iter(items: Vec<Flag>) -> (r: Flags)
        ensures
            r.wf(),
            r@ == items@.map_values(|f: Flag| f@).to_set(),
    {
        let ghost all = items@.map_values(|f: Flag| f@);
        let mut r = Flags::new();
        let n = items.len();
        let mut i: usize = 0;
        while i < n
            invariant
                n == items.len(),
                i <= n,
                r.wf(),
                r@ == all.take(i as int).to_set(),
        decreases n - i,
        {
            let ghost before = r@;
            r.insert(items[i].clone());
            proof {
                assert(r@ == before.insert(all[i as int]));
                let ghost next = all.take(i + 1);
                assert(forall|k: int| 0 <= k < i + 1 ==> #[trigger] next[k] == all[k]);
                assert forall|fv: FlagView| next.to_set().contains(fv) implies r@.contains(fv) by {
                    let k = choose|k: int| 0 <= k < next.len() && #[trigger] next[k] == fv;
                    if k < i {
                        assert(all.take(i as int)[k] == fv);
                        assert(all.take(i as int).contains(fv));
                    }
                }
                assert forall|fv: FlagView| r@.contains(fv) implies next.to_set().contains(fv) by {
                    if fv == all[i as int] {
                        assert(next[i as int] == fv);
                        assert(next.contains(fv));
                    } else {
                        let k = choose|k: int|
                            0 <= k < i && #[trigger] all.take(i as int)[k] == fv;
                        assert(next[k] == fv);
                        assert(next.contains(fv));
                    }
                }
                assert(r@ =~= all.take(i + 1).to_set());
            }
            i = i + 1;
        }
        proof {
            assert(all.take(n as int) =~= all);
        }
        r
    }

    /// Adds every flag of another set.
    #[verifier::loop_isolation(false)]
    pub fn insert_all(&mut self, other: &Flags)
        requires
            old(self).wf(),
        ensures
            final(self).wf(),
            final(self)@ == old(self)@.union(other@),
    {
        let v = other.as_vec();
        let n = v.len();
        let mut i: usize = 0;
        while i < n
            invariant
                n == v.len(),
                i <= n,
                self.wf(),
                self@ == old(self)@.union(other.seq_view().take(i as int).to_set()),
            decreases n - i,
        {
            proof {
                crate::seqs::lemma_take_one_more_to_set(other.seq_view(), i as int);
            }
            self.insert(v[i].clone());
            proof {
                assert(self@ =~= old(self)@.union(other.seq_view().take(i + 1).to_set()));
            }
            i = i + 1;
        }
        proof {
            crate::seqs::lemma_take_all_to_set(other.seq_view());
            assert(self@ =~= old(self)@.union(other@));
        }
    }

    /// The same flag set, rebuilt so that it is well-formed whatever
    /// the storage behind it held.
    #[verifier::loop_isolation(false)]
    pub fn normalized(&self) -> (r: Flags)
        ensures
            r.wf(),
            r@ == self@,
    {
        let mut r = Flags::new();
        let n = self.items.len();
        let mut i: usize = 0;
        while i < n
            invariant
                n == self.items.len(),
                i <= n,
                r.wf(),
                r@ == self.seq_view().take(i as int).to_set(),
            decreases n - i,
        {
            proof {
                crate::seqs::lemma_take_one_more_to_set(self.seq_view(), i as int);
            }
            r.insert(self.items[i].clone());
            i = i + 1;
        }
        proof {
            crate::seqs::lemma_take_all_to_set(self.seq_view());
        }
        r
    }

    /// The stored flags, for iteration.
    pub fn as_vec(&self) -> (r: &Vec<Flag>)
        ensures
            r@.map_values(|f: Flag| f@) == self.seq_view(),
    {
        &self.items
    }

    pub fn len(&self) -> (r: usize)
        ensures
            r == self.seq_view().len(),
    {
        self.items.len()
    }

    /// Reads a maildir filename's flag section, one flag per letter.
    #[verifier::loop_isolation(false)]
    pub fn from_maildir_string(s: &str) -> (r: Flags)
        ensures
            r.wf(),
            r@ == Set::new(
                |fv: FlagView| exists|k: int| 0 <= k < s@.len() && spec_flag_of_maildir_char(s@[k]) == fv,
            ),
    {
        let n = s.unicode_len();
        let mut r = Flags::new();
        let mut i: usize = 0;
        while i < n
            invariant
                n == s@.len(),
                i <= n,
                r.wf(),
                r@ == Set::new(
                    |fv: FlagView| exists|k: int| 0 <= k < i && spec_flag_of_maildir_char(s@[k]) == fv,
                ),
            decreases n - i,
        {
            let c = s.get_char(i);
            let f = Flag::from_maildir_char(c);
            let ghost before = r@;
            r.insert(f);
            proof {
                assert forall|fv: FlagView| r@.contains(fv) implies Set::new(
                    |fv2: FlagView| exists|k: int| 0 <= k < i + 1 && spec_flag_of_maildir_char(s@[k]) == fv2,
                ).contains(fv) by {
                    if before.contains(fv) {
                        let k = choose|k: int| 0 <= k < i && spec_flag_of_maildir_char(s@[k]) == fv;
                        assert(0 <= k < i + 1 && spec_flag_of_maildir_char(s@[k]) == fv);
                    } else {
                        assert(0 <= i < i + 1 && spec_flag_of_maildir_char(s@[i as int]) == fv);
                    }
                }
                assert forall|fv: FlagView| Set::new(
                    |fv2: FlagView| exists|k: int| 0 <= k < i + 1 && spec_flag_of_maildir_char(s@[k]) == fv2,
                ).contains(fv) implies r@.contains(fv) by {
                    let k = choose|k: int| 0 <= k < i + 1 && spec_flag_of_maildir_char(s@[k]) == fv;
                    if k < i {
                        assert(before.contains(fv));
                    }
                }
                assert(r@ =~= Set::new(
                    |fv: FlagView| exists|k: int| 0 <= k < i + 1 && spec_flag_of_maildir_char(s@[k]) == fv,
                ));
            }
            i = i + 1;
        }
        r
    }

    /// Writes the flags a maildir filename can carry, as its letters, in
    /// storage order; custom flags are left out.
    #[verifier::loop_isolation(false)]
    pub fn to_normalized_string(&self) -> (r: String)
        ensures
            r@ == spec_normalized_chars(self.seq_view()),
    {
        let n = self.items.len();
        let mut out = String::new();
        let mut i: usize = 0;
        proof {
            reveal_strlit("R");
            reveal_strlit("S");
            reveal_strlit("T");
            reveal_strlit("D");
            reveal_strlit("F");
        }
        while i < n
            invariant
                n == self.items.len(),
                i <= n,
                out@ == spec_normalized_chars(self.seq_view().take(i as int)),
            decreases n - i,
        {
            proof {
                reveal_strlit("R");
                reveal_strlit("S");
                reveal_strlit("T");
                reveal_strlit("D");
                reveal_strlit("F");
                lemma_normalized_chars_push(self.seq_view().take(i as int), self.seq_view()[i as int]);
                assert(self.seq_view().take(i + 1) =~= self.seq_view().take(i as int).push(
                    self.seq_view()[i as int],
                ));
            }
            match &self.items[i] {
                Flag::Answered => out.append("R"),
                Flag::Seen => out.append("S"),
                Flag::Deleted => out.append("T"),
                Flag::Draft => out.append("D"),
                Flag::Flagged => out.append("F"),
                _ => (),
            }
            i = i + 1;
        }
        proof {
            assert(self.seq_view().take(n as int) =~= self.seq_view());
        }
        out
    }
}

/// The word a flag is written as in the sync cache; a custom flag is
/// written as its own text.
pub open spec fn spec_flag_text(fv: FlagView) -> Seq<char> {
    match fv {
        FlagView::Seen => "Seen"@,
        FlagView::Answered => "Answered"@,
        FlagView::Flagged => "Flagged"@,
        FlagView::Deleted => "Deleted"@,
        FlagView::Draft => "Draft"@,
        FlagView::Recent => "Recent"@,
        FlagView::Custom(s) => s,
    }
}

/// The flag a cache word is read back as.
pub open spec fn spec_flag_of_text(s: Seq<char>) -> FlagView {
    if s == "Seen"@ {
        FlagView::Seen
    } else if s == "Answered"@ {
        FlagView::Answered
    } else if s == "Flagged"@ {
        FlagView::Flagged
    } else if s == "Deleted"@ {
        FlagView::Deleted
    } else if s == "Draft"@ {
        FlagView::Draft
    } else if s == "Recent"@ {
        FlagView::Recent
    } else {
        FlagView::Custom(s)
    }
}

impl Flag {
    /// Writes the flag as its cache word.
    pub fn to_text(&self) -> (r: String)
        ensures
            r@ == spec_flag_text(self@),
    {
        proof {
            reveal_strlit("Seen");
            reveal_strlit("Answered");
            reveal_strlit("Flagged");
            reveal_strlit("Deleted");
            reveal_strlit("Draft");
            reveal_strlit("Recent");
        }
        match self {
            Flag::Seen => String::from_str("Seen"),
            Flag::Answered => String::from_str("Answered"),
            Flag::Flagged => String::from_str("Flagged"),
            Flag::Deleted => String::from_str("Deleted"),
            Flag::Draft => String::from_str("Draft"),
            Flag::Recent => String::from_str("Recent"),
            Flag::Custom(s) => s.clone(),
        }
    }

    /// Reads a cache word back as a flag.
    pub fn from_text(s: &str) -> (r: Flag)
        ensures
            r@ == spec_flag_of_text(s@),
    {
        proof {
            reveal_strlit("Seen");
            reveal_strlit("Answered");
            reveal_strlit("Flagged");
            reveal_strlit("Deleted");
            reveal_strlit("Draft");
            reveal_strlit("Recent");
        }
        if str_eq(s, "Seen") {
            Flag::Seen
        } else if str_eq(s, "Answered") {
            Flag::Answered
        } else if str_eq(s, "Flagged") {
            Flag::Flagged
        } else if str_eq(s, "Deleted") {
            Flag::Deleted
        } else if str_eq(s, "Draft") {
            Flag::Draft
        } else if str_eq(s, "Recent") {
            Flag::Recent
        } else {
            Flag::Custom(s.to_owned())
        }
    }
}

/// Whether two strings hold the same characters.
pub fn str_eq(a: &str, b: &str) -> (r: bool)
    ensures
        r == (a@ == b@),
{
    let an = a.unicode_len();
    let bn = b.unicode_len();
    if an != bn {
        proof {
            assert(a@ != b@);
        }
        return false;
    }
    let mut i: usize = 0;
    while i < an
        invariant
            an == a@.len(),
            an == b@.len(),
            i <= an,
            forall|k: int| 0 <= k < i ==> a@[k] == b@[k],
        decreases an - i,
    {
        if a.get_char(i) != b.get_char(i) {
            return false;
        }
        i = i + 1;
    }
    proof {
        assert(a@ =~= b@);
    }
    true
}

/// The maildir letters of a flag sequence, in order, skipping flags that
/// have no letter.
pub open spec fn spec_normalized_chars(s: Seq<FlagView>) -> Seq<char>
    decreases s.len(),
{
    if s.len() == 0 {
        Seq::empty()
    } else {
        spec_normalized_chars(s.drop_last()) + match Flag::spec_maildir_char(s.last()) {
            Some(c) => seq![c],
            None => Seq::empty(),
        }
    }
}

proof fn lemma_normalized_chars_push(s: Seq<FlagView>, fv: FlagView)
    ensures
        spec_normalized_chars(s.push(fv)) == spec_normalized_chars(s) + match Flag::spec_maildir_char(
            fv,
        ) {
            Some(c) => seq![c],
            None => Seq::<char>::empty(),
        },
{
    assert(s.push(fv).drop_last() =~= s);
    assert(s.push(fv).last() == fv);
}

/// The cache writing of a flag sequence: the flags' words separated
/// by single spaces.
pub open spec fn spec_flags_text(s: Seq<FlagView>) -> Seq<char>
    decreases s.len(),
{
    if s.len() == 0 {
        Seq::empty()
    } else if s.len() == 1 {
        spec_flag_text(s[0])
    } else {
        spec_flags_text(s.drop_last()) + seq![' '] + spec_flag_text(s.last())
    }
}

impl Flags {
    /// Writes the flags as their space-separated cache words, in
    /// storage order.
    #[verifier::loop_isolation(false)]
    pub fn to_text(&self) -> (r: String)
        ensures
            r@ == spec_flags_text(self.seq_view()),
    {
        let n = self.items.len();
        let mut out = String::new();
        let mut i: usize = 0;
        while i < n
            invariant
                n == self.items.len(),
                i <= n,
                out@ == spec_flags_text(self.seq_view().take(i as int)),
            decreases n - i,
        {
            proof {
                reveal_strlit(" ");
                assert(self.seq_view().take(i + 1).drop_last() =~= self.seq_view().take(i as int));
                assert(self.seq_view().take(i + 1).last() == self.seq_view()[i as int]);
            }
            if i > 0 {
                out.append(" ");
            } else {
                proof {
                    assert(self.seq_view().take(1) =~= seq![self.seq_view()[0]]);
                }
            }
            out.append(self.items[i].to_text().as_str());
            i = i + 1;
        }
        proof {
            assert(self.seq_view().take(n as int) =~= self.seq_view());
        }
        out
    }

    /// Reads space-separated cache words back as a flag set: exactly
    /// the flags the text's words name; empty stretches between spaces
    /// are passed over.
    pub fn from_text(s: &str) -> (r: Flags)
        ensures
            r.wf(),
            r@ == spec_words(s@).map_values(|w: Seq<char>| spec_flag_of_text(w)).to_set(),
    {
        let mut r = Flags::new();
        Self::from_text_from(s, 0, &mut r);
        proof {
            assert(r@ =~= spec_words(s@).map_values(|w: Seq<char>| spec_flag_of_text(w)).to_set());
        }
        r
    }

    /// Reads the words at or after an index into the set.
    fn from_text_from(s: &str, i: usize, r: &mut Flags)
        requires
            i <= s@.len(),
            old(r).wf(),
        ensures
            final (r).wf(),
            final (r)@ == old(r)@.union(
                spec_words_from(s@, i as int).map_values(|w: Seq<char>| spec_flag_of_text(w)).to_set(),
            ),
        decreases s@.len() - i,
    {
        let n = s.unicode_len();
        if i >= n {
            proof {
                assert(spec_words_from(s@, i as int).map_values(
                    |w: Seq<char>| spec_flag_of_text(w),
                ).to_set() =~= Set::<FlagView>::empty());
                assert(r@ =~= r@.union(Set::<FlagView>::empty()));
            }
            return ;
        }
        if s.get_char(i) == ' ' {
            Self::from_text_from(s, i + 1, r);
            return ;
        }
        proof {
            lemma_word_end_bounds(s@, i as int);
        }
        let end = word_end_at(s, i);
        let word = s.substring_char(i, end);
        let ghost before = r@;
        r.insert(Flag::from_text(word));
        Self::from_text_from(s, end, r);
        proof {
            let mapper = |w: Seq<char>| spec_flag_of_text(w);
            let first = s@.subrange(i as int, spec_word_end(s@, i as int));
            let rest = spec_words_from(s@, spec_word_end(s@, i as int));
            assert(spec_words_from(s@, i as int) == seq![first] + rest);
            assert((seq![first] + rest).map_values(mapper) =~= seq![mapper(first)]
                + rest.map_values(mapper));
            crate::seqs::lemma_cons_to_set(mapper(first), rest.map_values(mapper));
            assert(r@ =~= before.union(
                spec_words_from(s@, i as int).map_values(mapper).to_set(),
            ));
        }
    }
}

/// The index just past the word starting at an index: the first space
/// at or after it, or the end.
pub open spec fn spec_word_end(s: Seq<char>, i: int) -> int
    decreases s.len() - i
    when 0 <= i <= s.len()
{
    if i >= s.len() || s[i] == ' ' {
        i
    } else {
        spec_word_end(s, i + 1)
    }
}

/// A word's end lies between its start and the end of the text.
pub proof fn lemma_word_end_bounds(s: Seq<char>, i: int)
    requires
        0 <= i <= s.len(),
    ensures
        i <= spec_word_end(s, i) <= s.len(),
        i < s.len() && s[i] != ' ' ==> spec_word_end(s, i) > i,
    decreases s.len() - i,
{
    if i < s.len() && s[i] != ' ' {
        lemma_word_end_bounds(s, i + 1);
    }
}

#[via_fn]
proof fn spec_words_from_decreases(s: Seq<char>, i: int) {
    lemma_word_end_bounds(s, i);
}

/// The cache words at or after an index: the maximal space-free
/// stretches, in their written order.
pub open spec fn spec_words_from(s: Seq<char>, i: int) -> Seq<Seq<char>>
    decreases s.len() - i
    when 0 <= i <= s.len()
    via spec_words_from_decreases
{
    if i >= s.len() {
        Seq::empty()
    } else if s[i] == ' ' {
        spec_words_from(s, i + 1)
    } else {
        seq![s.subrange(i, spec_word_end(s, i))] + spec_words_from(s, spec_word_end(s, i))
    }
}

/// The cache words of a text.
pub open spec fn spec_words(s: Seq<char>) -> Seq<Seq<char>> {
    spec_words_from(s, 0)
}

/// The index just past the word starting at an index.
fn word_end_at(s: &str, i: usize) -> (r: usize)
    requires
        i <= s@.len(),
    ensures
        r == spec_word_end(s@, i as int),
        i <= r <= s@.len(),
    decreases s@.len() - i,
{
    let n = s.unicode_len();
    if i >= n {
        return i;
    }
    if s.get_char(i) == ' ' {
        return i;
    }
    word_end_at(s, i + 1)
}

impl Default for Flags {
    fn default() -> (r: Flags)
        ensures
            r.wf(),
            r@ == Set::<FlagView>::empty(),
    {
        Flags::new()
    }
}

impl PartialEq for Flags {
    #[verifier::loop_isolation(false)]
    fn eq(&self, other: &Flags) -> (r: bool) {
        let n = self.items.len();
        let mut i: usize = 0;
        while i < n
            invariant
                n == self.items.len(),
                i <= n,
                forall|k: int| 0 <= k < i ==> other@.contains(self.seq_view()[k]),
            decreases n - i,
        {
            if !other.contains(&self.items[i]) {
                assert(self@.contains(self.seq_view()[i as int]));
                return false;
            }
            i = i + 1;
        }
        let m = other.items.len();
        let mut j: usize = 0;
        while j < m
            invariant
                m == other.items.len(),
                j <= m,
                forall|k: int| 0 <= k < self.seq_view().len() ==> other@.contains(self.seq_view()[k]),
                forall|k: int| 0 <= k < j ==> self@.contains(other.seq_view()[k]),
            decreases m - j,
        {
            if !self.contains(&other.items[j]) {
                assert(other@.contains(other.seq_view()[j as int]));
                return false;
            }
            j = j + 1;
        }
        proof {
            assert forall|fv: FlagView| self@.contains(fv) implies other@.contains(fv) by {
                let k = choose|k: int| 0 <= k < self.seq_view().len() && self.seq_view()[k] == fv;
            }
            assert forall|fv: FlagView| other@.contains(fv) implies self@.contains(fv) by {
                let k = choose|k: int| 0 <= k < other.seq_view().len() && other.seq_view()[k] == fv;
            }
            assert(self@ =~= other@);
        }
        true
    }
}

impl vstd::std_specs::cmp::PartialEqSpecImpl for Flags {
    open spec fn obeys_eq_spec() -> bool {
        true
    }

    open spec fn eq_spec(&self, other: &Flags) -> bool {
        self@ == other@
    }
}

/// Whether a flag's cache word survives the trip through the text:
/// it is nonempty, holds no space, and a custom tag is not spelled
/// like a reserved word.
pub open spec fn spec_flag_text_clean(fv: FlagView) -> bool {
    &&& spec_flag_text(fv).len() > 0
    &&& (forall|k: int| 0 <= k < spec_flag_text(fv).len() ==> spec_flag_text(fv)[k] != ' ')
    &&& spec_flag_of_text(spec_flag_text(fv)) == fv
}

proof fn lemma_word_end_frozen(a: Seq<char>, ext: Seq<char>, i: int)
    requires
        0 <= i <= a.len(),
        ext.len() > a.len(),
        forall|k: int| 0 <= k < a.len() ==> ext[k] == a[k],
        ext[a.len() as int] == ' ',
    ensures
        spec_word_end(ext, i) == spec_word_end(a, i),
        spec_word_end(a, i) <= a.len(),
    decreases a.len() - i,
{
    lemma_word_end_bounds(a, i);
    if i < a.len() && a[i] != ' ' {
        lemma_word_end_frozen(a, ext, i + 1);
    }
}

proof fn lemma_word_end_of_word(w: Seq<char>, i: int)
    requires
        0 <= i <= w.len(),
        forall|k: int| 0 <= k < w.len() ==> w[k] != ' ',
    ensures
        spec_word_end(w, i) == w.len(),
    decreases w.len() - i,
{
    if i < w.len() {
        lemma_word_end_of_word(w, i + 1);
    }
}

proof fn lemma_words_append_from(a: Seq<char>, w: Seq<char>, i: int)
    requires
        0 <= i <= a.len(),
        w.len() > 0,
        forall|k: int| 0 <= k < w.len() ==> w[k] != ' ',
    ensures
        spec_words_from(a + seq![' '] + w, i) == spec_words_from(a, i) + seq![w],
    decreases a.len() - i,
{
    let ext = a + seq![' '] + w;
    assert(ext.len() == a.len() + 1 + w.len());
    assert(ext[a.len() as int] == ' ');
    if i == a.len() {
        assert(ext[i] == ' ');
        let ws = i + 1;
        assert(spec_words_from(ext, i) == spec_words_from(ext, ws));
        assert(forall|k: int| ws <= k < ext.len() ==> ext[k] == w[k - ws]);
        assert(spec_word_end(ext, ws) == ext.len() as int) by {
            lemma_words_append_word_end(ext, ws);
        }
        assert(ext.subrange(ws, ext.len() as int) =~= w);
        assert(spec_words_from(ext, ext.len() as int) =~= Seq::<Seq<char>>::empty());
        assert(spec_words_from(ext, i) =~= seq![w]);
        assert(spec_words_from(a, i) =~= Seq::<Seq<char>>::empty());
        assert(spec_words_from(a, i) + seq![w] =~= seq![w]);
    } else {
        if a[i] == ' ' {
            lemma_words_append_from(a, w, i + 1);
        } else {
            lemma_word_end_frozen(a, ext, i);
            lemma_word_end_bounds(a, i);
            let e = spec_word_end(a, i);
            assert(ext.subrange(i, e) =~= a.subrange(i, e));
            lemma_words_append_from(a, w, e);
        }
    }
}

proof fn lemma_words_append_word_end(ext: Seq<char>, ws: int)
    requires
        0 <= ws <= ext.len(),
        forall|k: int| ws <= k < ext.len() ==> ext[k] != ' ',
    ensures
        spec_word_end(ext, ws) == ext.len(),
    decreases ext.len() - ws,
{
    if ws < ext.len() {
        lemma_words_append_word_end(ext, ws + 1);
    }
}

/// Law of the cache round trip: a flag set whose flags all have clean
/// cache words reads back from its own text as exactly the same set.
pub proof fn lemma_flags_text_round_trip(sv: Seq<FlagView>)
    requires
        forall|k: int| 0 <= k < sv.len() ==> spec_flag_text_clean(#[trigger] sv[k]),
    ensures
        spec_words(spec_flags_text(sv)).map_values(|w: Seq<char>| spec_flag_of_text(w)).to_set()
            == sv.to_set(),
    decreases sv.len(),
{
    let mapper = |w: Seq<char>| spec_flag_of_text(w);
    if sv.len() == 0 {
        assert(spec_words(spec_flags_text(sv)) =~= Seq::<Seq<char>>::empty());
        assert(spec_words(spec_flags_text(sv)).map_values(mapper).to_set() =~= sv.to_set());
    } else if sv.len() == 1 {
        let w = spec_flag_text(sv[0]);
        assert(spec_flags_text(sv) == w);
        lemma_words_append_word_end(w, 0);
        assert(w.subrange(0, w.len() as int) =~= w);
        assert(spec_words_from(w, w.len() as int) =~= Seq::<Seq<char>>::empty());
        assert(spec_words(w) =~= seq![w]);
        assert(spec_words(w).map_values(mapper) =~= seq![sv[0]]);
        assert(spec_words(w).map_values(mapper).to_set() =~= sv.to_set()) by {
            assert(seq![sv[0]][0] == sv[0]);
            assert(seq![sv[0]].contains(sv[0]));
            assert(sv[0] == sv.first());
            assert(sv.contains(sv[0]));
            assert forall|x: FlagView| sv.to_set().contains(x) implies seq![sv[0]].to_set().contains(
                x,
            ) by {
                let k = choose|k: int| 0 <= k < sv.len() && #[trigger] sv[k] == x;
            }
        }
    } else {
        let prefix = sv.drop_last();
        let last = sv.last();
        let a = spec_flags_text(prefix);
        let w = spec_flag_text(last);
        assert(spec_flags_text(sv) == a + seq![' '] + w);
        assert(forall|k: int| 0 <= k < prefix.len() ==> spec_flag_text_clean(#[trigger] prefix[k]))
            by {
            assert(forall|k: int| 0 <= k < prefix.len() ==> prefix[k] == sv[k]);
        }
        lemma_flags_text_round_trip(prefix);
        lemma_words_append_from(a, w, 0);
        let words_prefix = spec_words(a);
        assert(spec_words(spec_flags_text(sv)) == words_prefix + seq![w]);
        assert((words_prefix + seq![w]).map_values(mapper) =~= words_prefix.map_values(mapper)
            + seq![mapper(w)]);
        assert(mapper(w) == last);
        assert forall|x: FlagView|
            (words_prefix.map_values(mapper) + seq![last]).to_set().contains(x) implies sv.to_set().contains(
            x,
        ) by {
            let m = words_prefix.map_values(mapper) + seq![last];
            let k = choose|k: int| 0 <= k < m.len() && #[trigger] m[k] == x;
            if k < m.len() - 1 {
                assert(words_prefix.map_values(mapper)[k] == x);
                assert(words_prefix.map_values(mapper).contains(x));
                assert(prefix.to_set().contains(x));
                let j = choose|j: int| 0 <= j < prefix.len() && #[trigger] prefix[j] == x;
                assert(sv[j] == x);
                assert(sv.contains(x));
            } else {
                assert(x == last);
                assert(sv[sv.len() - 1] == x);
                assert(sv.contains(x));
            }
        }
        assert forall|x: FlagView|
            sv.to_set().contains(x) implies (words_prefix.map_values(mapper)
            + seq![last]).to_set().contains(x) by {
            let m = words_prefix.map_values(mapper) + seq![last];
            let j = choose|j: int| 0 <= j < sv.len() && #[trigger] sv[j] == x;
            if j < sv.len() - 1 {
                assert(prefix[j] == x);
                assert(prefix.contains(x));
                assert(prefix.to_set().contains(x));
                assert(words_prefix.map_values(mapper).to_set().contains(x));
                let k = choose|k: int|
                    0 <= k < words_prefix.map_values(mapper).len()
                        && #[trigger] words_prefix.map_values(mapper)[k] == x;
                assert(m[k] == x);
                assert(m.contains(x));
            } else {
                assert(m[m.len() - 1] == x);
                assert(m.contains(x));
            }
        }
        assert(spec_words(spec_flags_text(sv)).map_values(mapper).to_set() =~= sv.to_set());
    }
}

} // verus!
