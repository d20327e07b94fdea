//! The password store: entries in the order in which they were added, no two
//! of them under the same name.
use vstd::prelude::*;
use crate::entry::{EntryView, PasswordEntry};
use crate::matcher::{score, score_of};

verus! {

/// Why the store refused an operation.
#[derive(Clone, Copy, Debug, PartialEq, Eq, Structural)]
pub enum StoreError {
    /// An entry with that name is already there.
    DuplicateName,
    /// No entry has that name.
    NotFound,
}

/// Some entry of `entries` has exactly the name `name`.
pub open spec fn contains_name(entries: Seq<EntryView>, name: Seq<char>) -> bool {
    exists|i: int| 0 <= i < entries.len() && (#[trigger] entries[i]).name == name
}

/// The place of the entry named `name`, where there is one.
pub open spec fn index_of(entries: Seq<EntryView>, name: Seq<char>) -> int {
    choose|i: int| 0 <= i < entries.len() && (#[trigger] entries[i]).name == name
}

/// No two entries have the same name.
pub open spec fn distinct_names(entries: Seq<EntryView>) -> bool {
    forall|i: int, j: int|
        0 <= i < j < entries.len() ==> (#[trigger] entries[i]).name != (#[trigger] entries[j]).name
}

/// What holds of the entries of every store.
pub open spec fn valid_store(entries: Seq<EntryView>) -> bool {
    &&& distinct_names(entries)
    &&& forall|i: int| 0 <= i < entries.len() ==> (#[trigger] entries[i]).valid()
}

/// The entries after an attempt to add `entry`: unchanged if the name is
/// taken, else with `entry` at the end.
pub open spec fn after_add(entries: Seq<EntryView>, entry: EntryView) -> Seq<EntryView> {
    if contains_name(entries, entry.name) {
        entries
    } else {
        entries.push(entry)
    }
}

/// What an attempt to add `entry` returns.
pub open spec fn add_outcome(entries: Seq<EntryView>, entry: EntryView) -> Result<(), StoreError> {
    if contains_name(entries, entry.name) {
        Err(StoreError::DuplicateName)
    } else {
        Ok(())
    }
}

/// Entry `i` matches `query`.
pub open spec fn is_candidate(entries: Seq<EntryView>, query: Seq<char>, i: int) -> bool {
    0 <= i < entries.len() && score(query, entries[i].name) is Some
}

/// The score of entry `i` against `query`.
pub open spec fn score_at(entries: Seq<EntryView>, query: Seq<char>, i: int) -> nat {
    score(query, entries[i].name).unwrap()
}

/// Entry `a` comes before entry `b` in a ranking: it has the higher score,
/// or the same score and was added earlier.
pub open spec fn ranks_before(entries: Seq<EntryView>, query: Seq<char>, a: int, b: int) -> bool {
    score_at(entries, query, a) > score_at(entries, query, b) || (score_at(entries, query, a)
        == score_at(entries, query, b) && a < b)
}

/// `r` lists the places of exactly the entries that match `query`, by
/// descending score, entries of equal score in the order of insertion.
pub open spec fn is_ranking(entries: Seq<EntryView>, query: Seq<char>, r: Seq<int>) -> bool {
    &&& forall|k: int| 0 <= k < r.len() ==> is_candidate(entries, query, #[trigger] r[k])
    &&& forall|i: int| #[trigger] is_candidate(entries, query, i) ==> r.contains(i)
    &&& forall|k: int, l: int|
        0 <= k < l < r.len() ==> ranks_before(entries, query, #[trigger] r[k], #[trigger] r[l])
}

/// `r` is what a search for `query` finds: the entry of exactly that name
/// alone, where there is one, and else the ranking of the entries that match.
pub open spec fn is_find_result(entries: Seq<EntryView>, query: Seq<char>, r: Seq<int>) -> bool {
    if contains_name(entries, query) {
        r == seq![index_of(entries, query)]
    } else {
        is_ranking(entries, query, r)
    }
}

/// The places that a search for `query` finds, in their order.
pub open spec fn ranking(entries: Seq<EntryView>, query: Seq<char>) -> Seq<int> {
    choose|r: Seq<int>| is_find_result(entries, query, r)
}

/// The entries at the places `r`.
pub open spec fn picked(entries: Seq<EntryView>, r: Seq<int>) -> Seq<EntryView> {
    Seq::new(r.len(), |k: int| entries[r[k]])
}

/// The places of `v` as mathematical integers.
pub open spec fn indices(v: Seq<usize>) -> Seq<int> {
    Seq::new(v.len(), |k: int| v[k] as int)
}

/// The views of the entries that `v` refers to.
pub open spec fn views(v: Seq<&PasswordEntry>) -> Seq<EntryView> {
    Seq::new(v.len(), |k: int| v[k]@)
}

/// `order` ranks the matching entries among the first `upto`, and `marks`
/// holds their scores.
spec fn ranked_upto(
    entries: Seq<EntryView>,
    query: Seq<char>,
    order: Seq<usize>,
    marks: Seq<u32>,
    upto: int,
) -> bool {
    &&& order.len() == marks.len()
    &&& upto <= entries.len()
    &&& forall|k: int|
        0 <= k < order.len() ==> (#[trigger] order[k]) < upto && score(
            query,
            entries[order[k] as int].name,
        ) == Some(marks[k] as nat)
    &&& forall|c: int|
        0 <= c < upto && #[trigger] is_candidate(entries, query, c) ==> indices(order).contains(c)
    &&& forall|k: int, l: int|
        0 <= k < l < order.len() ==> ranks_before(
            entries,
            query,
            (#[trigger] order[k]) as int,
            (#[trigger] order[l]) as int,
        )
}

/// Two rankings of the same entries for the same query agree on their first
/// `k` places.
proof fn lemma_rankings_agree(entries: Seq<EntryView>, query: Seq<char>, a: Seq<int>, b: Seq<int>, k: int)
    requires
        is_ranking(entries, query, a),
        is_ranking(entries, query, b),
        0 <= k <= a.len(),
        k <= b.len(),
    ensures
        forall|m: int| 0 <= m < k ==> a[m] == b[m],
    decreases k,
{
    if k > 0 {
        lemma_rankings_agree(entries, query, a, b, k - 1);
        let x = a[k - 1];
        let y = b[k - 1];
        if x != y {
            assert(is_candidate(entries, query, x));
            assert(is_candidate(entries, query, y));
            let l = choose|l: int| 0 <= l < b.len() && b[l] == x;
            let h = choose|h: int| 0 <= h < a.len() && a[h] == y;
            if l < k - 1 {
                assert(a[l] == b[l]);
                assert(ranks_before(entries, query, a[l], a[k - 1]));
            }
            if h < k - 1 {
                assert(a[h] == b[h]);
                assert(ranks_before(entries, query, b[h], b[k - 1]));
            }
            assert(ranks_before(entries, query, b[k - 1], b[l]));
            assert(ranks_before(entries, query, a[k - 1], a[h]));
        }
    }
}

/// `str`'s `==`: whether the two strings hold the same characters.
#[verifier::external_body]
fn same_text(a: &str, b: &str) -> (r: bool)
    ensures
        r == (a@ == b@),
{
    a == b
}

/// The entries of a credential manager, in the order in which they were
/// added. No two entries have the same name.
pub struct PasswordStore {
    entries: Vec<PasswordEntry>,
}

impl View for PasswordStore {
    type V = Seq<EntryView>;

    closed spec fn view(&self) -> Seq<EntryView> {
        Seq::new(self.entries@.len(), |i: int| self.entries@[i]@)
    }
}

impl PasswordStore {
    #[verifier::type_invariant]
    spec fn well_formed(&self) -> bool {
        valid_store(self@)
    }

    /// A store without entries.
    pub fn new() -> (s: PasswordStore)
        ensures
            s@ == Seq::<EntryView>::empty(),
    {
        let s = PasswordStore { entries: Vec::new() };
        assert(s@ =~= Seq::<EntryView>::empty());
        s
    }

    /// The number of entries.
    pub fn len(&self) -> (n: usize)
        ensures
            n == self@.len(),
            valid_store(self@),
    {
        proof {
            use_type_invariant(self);
        }
        self.entries.len()
    }

    /// The entry at place `i` in the order of insertion.
    pub fn entry_at(&self, i: usize) -> (r: Option<&PasswordEntry>)
        ensures
            i < self@.len() ==> r is Some && r.unwrap()@ == self@[i as int],
            i >= self@.len() ==> r is None,
    {
        if i < self.entries.len() {
            Some(&self.entries[i])
        } else {
            None
        }
    }

    /// The place of the entry named `name`, if there is one.
    pub fn position(&self, name: &str) -> (r: Option<usize>)
        ensures
            valid_store(self@),
            r is Some == contains_name(self@, name@),
            r is Some ==> r.unwrap() == index_of(self@, name@),
            r is Some ==> r.unwrap() < self@.len() && self@[r.unwrap() as int].name == name@,
    {
        proof {
            use_type_invariant(self);
        }
        let mut i: usize = 0;
        while i < self.entries.len()
            invariant
                0 <= i <= self.entries@.len(),
                self@.len() == self.entries@.len(),
                valid_store(self@),
                forall|k: int| 0 <= k < i ==> (#[trigger] self@[k]).name != name@,
            decreases self.entries@.len() - i,
        {
            if same_text(self.entries[i].name(), name) {
                assert(self@[i as int].name == name@);
                return Some(i);
            }
            i += 1;
        }
        None
    }

    /// Whether an entry has exactly the name `name`.
    pub fn has(&self, name: &str) -> (r: bool)
        ensures
            r == contains_name(self@, name@),
    {
        self.position(name).is_some()
    }

    /// The entry named `name`, if there is one.
    pub fn get(&self, name: &str) -> (r: Option<&PasswordEntry>)
        ensures
            r is Some == contains_name(self@, name@),
            r is Some ==> r.unwrap()@ == self@[index_of(self@, name@)],
            r is Some ==> r.unwrap()@.name == name@,
    {
        match self.position(name) {
            Some(i) => Some(&self.entries[i]),
            None => None,
        }
    }

    /// The places of the entries that a search for `query` finds: the entry
    /// of exactly that name alone, where there is one; else every entry that
    /// `query` matches, by descending score, entries of equal score in the
    /// order of insertion.
    pub fn rank(&self, query: &str) -> (r: Vec<usize>)
        ensures
            valid_store(self@),
            is_find_result(self@, query@, indices(r@)),
            indices(r@) == ranking(self@, query@),
    {
        proof {
            use_type_invariant(self);
        }
        let mut order: Vec<usize> = Vec::new();
        match self.position(query) {
            Some(i) => {
                order.push(i);
                assert(indices(order@) =~= seq![index_of(self@, query@)]);
            },
            None => {
                let mut marks: Vec<u32> = Vec::new();
                let n: usize = self.entries.len();
                let mut i: usize = 0;
                while i < n
                    invariant
                        n == self@.len(),
                        n == self.entries@.len(),
                        0 <= i <= n,
                        ranked_upto(self@, query@, order@, marks@, i as int),
                    decreases n - i,
                {
                    match score_of(query, self.entries[i].name()) {
                        Some(mark) => {
                            insert_ranked(Ghost(self@), Ghost(query@), &mut order, &mut marks, i, mark);
                        },
                        None => {
                            assert(!is_candidate(self@, query@, i as int));
                            assert(ranked_upto(self@, query@, order@, marks@, i + 1));
                        },
                    }
                    i += 1;
                }
                proof {
                    let r = indices(order@);
                    assert forall|k: int| 0 <= k < r.len() implies is_candidate(
                        self@,
                        query@,
                        #[trigger] r[k],
                    ) by {
                        assert(order@[k] < n);
                    }
                    assert forall|k: int, l: int| 0 <= k < l < r.len() implies ranks_before(
                        self@,
                        query@,
                        #[trigger] r[k],
                        #[trigger] r[l],
                    ) by {
                        assert(ranks_before(self@, query@, order@[k] as int, order@[l] as int));
                    }
                    assert(is_ranking(self@, query@, r));
                }
            },
        }
        proof {
            assert(is_find_result(self@, query@, indices(order@)));
            lemma_find_result_unique(self@, query@, indices(order@), ranking(self@, query@));
        }
        order
    }

    /// The entries that a search for `query` finds, in their order: see
    /// [`PasswordStore::rank`].
    pub fn find_all(&self, query: &str) -> (r: Vec<&PasswordEntry>)
        ensures
            valid_store(self@),
            is_find_result(self@, query@, ranking(self@, query@)),
            views(r@) == picked(self@, ranking(self@, query@)),
    {
        let order = self.rank(query);
        let mut found: Vec<&PasswordEntry> = Vec::new();
        let mut k: usize = 0;
        proof {
            let r = indices(order@);
            assert forall|m: int| 0 <= m < order@.len() implies (#[trigger] order@[m]) < self@.len() by {
                assert(r[m] == order@[m]);
                if !contains_name(self@, query@) {
                    assert(is_candidate(self@, query@, r[m]));
                }
            }
        }
        while k < order.len()
            invariant
                0 <= k <= order@.len(),
                found@.len() == k,
                self@.len() == self.entries@.len(),
                forall|m: int| 0 <= m < order@.len() ==> (#[trigger] order@[m]) < self@.len(),
                forall|m: int| 0 <= m < k ==> (#[trigger] found@[m])@ == self@[order@[m] as int],
            decreases order@.len() - k,
        {
            found.push(&self.entries[order[k]]);
            k += 1;
        }
        assert(views(found@) =~= picked(self@, indices(order@)));
        found
    }

    /// Adds `entry` at the end, unless an entry of that name is there
    /// already: then nothing changes, and the result is `DuplicateName`.
    pub fn add(&mut self, entry: PasswordEntry) -> (r: Result<(), StoreError>)
        ensures
            r == add_outcome(old(self)@, entry@),
            final(self)@ == after_add(old(self)@, entry@),
            valid_store(final(self)@),
    {
        proof {
            use_type_invariant(&*self);
        }
        if self.has(entry.name()) {
            return Err(StoreError::DuplicateName);
        }
        let ghost before = self@;
        let ghost added = entry@;
        proof {
            use_type_invariant(&entry);
        }
        let mut entries: Vec<PasswordEntry> = Vec::new();
        std::mem::swap(&mut entries, &mut self.entries);
        entries.push(entry);
        proof {
            let after = Seq::new(entries@.len(), |i: int| entries@[i]@);
            assert(after =~= before.push(added));
            assert forall|i: int, j: int| 0 <= i < j < after.len() implies (#[trigger] after[i]).name
                != (#[trigger] after[j]).name by {
                if j < before.len() {
                    assert(before[i].name != before[j].name);
                } else {
                    assert(before[i].name != added.name);
                }
            }
        }
        self.entries = entries;
        assert(self@ =~= before.push(added));
        Ok(())
    }

    /// Replaces the entry named `name` by what `transform` makes of it, and
    /// returns the new entry. The store keeps the name and the time of
    /// creation whatever `transform` returns, and never moves the time of the
    /// last change backwards: see [`EntryView::replaced_by`]. Where no entry
    /// has that name the result is `NotFound` and nothing changes.
    pub fn update<F>(&mut self, name: &str, transform: F) -> (r: Result<PasswordEntry, StoreError>) where
        F: FnOnce(PasswordEntry) -> PasswordEntry,

        requires
            forall|e: PasswordEntry| e@.name == name@ ==> #[trigger] transform.requires((e,)),
        ensures
            valid_store(old(self)@),
            valid_store(final(self)@),
            final(self)@.len() == old(self)@.len(),
            forall|k: int|
                0 <= k < old(self)@.len() ==> (#[trigger] final(self)@[k]).name == old(self)@[k].name
                    && final(self)@[k].created_at == old(self)@[k].created_at && final(self)@[k].updated_at
                    >= old(self)@[k].updated_at,
            !contains_name(old(self)@, name@) ==> r == Err::<PasswordEntry, StoreError>(
                StoreError::NotFound,
            ) && final(self)@ == old(self)@,
            contains_name(old(self)@, name@) ==> r is Ok && final(self)@ == old(self)@.update(
                index_of(old(self)@, name@),
                r.unwrap()@,
            ) && exists|input: PasswordEntry, out: PasswordEntry|
                input@ == old(self)@[index_of(old(self)@, name@)] && #[trigger] transform.ensures(
                    (input,),
                    out,
                ) && r.unwrap()@ == input@.replaced_by(out@),
    {
        proof {
            use_type_invariant(&*self);
        }
        let i: usize = match self.position(name) {
            Some(i) => i,
            None => {
                return Err(StoreError::NotFound);
            },
        };
        let ghost before = self@;
        let input = self.entries[i].clone();
        let ghost fed = input;
        let out = transform(input);
        let ghost made = out;
        let replaced = self.entries[i].replaced_by(out);
        let result = replaced.clone();
        let mut entries: Vec<PasswordEntry> = Vec::new();
        std::mem::swap(&mut entries, &mut self.entries);
        entries.set(i, replaced);
        proof {
            let after = Seq::new(entries@.len(), |k: int| entries@[k]@);
            assert(after =~= before.update(i as int, result@));
            assert forall|a: int, b: int| 0 <= a < b < after.len() implies (#[trigger] after[a]).name
                != (#[trigger] after[b]).name by {
                assert(before[a].name != before[b].name);
            }
            assert forall|a: int| 0 <= a < after.len() implies (#[trigger] after[a]).valid() by {
                if a != i {
                    assert(before[a].valid());
                }
            }
        }
        self.entries = entries;
        proof {
            assert(self@ =~= before.update(i as int, result@));
            assert(fed@ == before[i as int] && transform.ensures((fed,), made) && result@
                == fed@.replaced_by(made@));
        }
        Ok(result)
    }
}

/// Puts place `i`, whose entry has the score `mark`, into the ranking of the
/// entries before it.
fn insert_ranked(
    Ghost(entries): Ghost<Seq<EntryView>>,
    Ghost(query): Ghost<Seq<char>>,
    order: &mut Vec<usize>,
    marks: &mut Vec<u32>,
    i: usize,
    mark: u32,
)
    requires
        i < entries.len(),
        ranked_upto(entries, query, old(order)@, old(marks)@, i as int),
        score(query, entries[i as int].name) == Some(mark as nat),
    ensures
        ranked_upto(entries, query, final(order)@, final(marks)@, i + 1),
{
    let mut p: usize = 0;
    while p < marks.len() && marks[p] >= mark
        invariant
            0 <= p <= marks@.len(),
            forall|k: int| 0 <= k < p ==> (#[trigger] marks@[k]) >= mark,
        decreases marks@.len() - p,
    {
        p += 1;
    }
    let ghost before = order@;
    let ghost scores = marks@;
    proof {
        assert forall|k: int| p <= k < scores.len() implies (#[trigger] scores[k]) < mark by {
            if k > p {
                assert(ranks_before(entries, query, before[p as int] as int, before[k] as int));
            }
        }
    }
    order.insert(p, i);
    marks.insert(p, mark);
    proof {
        let after = order@;
        assert forall|k: int| 0 <= k < after.len() implies (#[trigger] after[k]) < i + 1 && score(
            query,
            entries[after[k] as int].name,
        ) == Some(marks@[k] as nat) by {
            if k < p {
                assert(after[k] == before[k]);
            } else if k > p {
                assert(after[k] == before[k - 1]);
            }
        }
        assert forall|c: int| 0 <= c < i + 1 && #[trigger] is_candidate(entries, query, c) implies indices(
            after,
        ).contains(c) by {
            if c == i {
                assert(indices(after)[p as int] == c);
            } else {
                assert(indices(before).contains(c));
                let k = choose|k: int| 0 <= k < before.len() && indices(before)[k] == c;
                if k < p {
                    assert(indices(after)[k] == c);
                } else {
                    assert(after[k + 1] == before[k]);
                    assert(indices(after)[k + 1] == c);
                }
            }
        }
        assert forall|k: int, l: int| 0 <= k < l < after.len() implies ranks_before(
            entries,
            query,
            (#[trigger] after[k]) as int,
            (#[trigger] after[l]) as int,
        ) by {
            let bk = if k < p { k } else { k - 1 };
            let bl = if l < p { l } else { l - 1 };
            if k != p {
                assert(after[k] == before[bk]);
                assert(before[bk] < i);
                assert(score(query, entries[before[bk] as int].name) == Some(scores[bk] as nat));
            }
            if l != p {
                assert(after[l] == before[bl]);
                assert(before[bl] < i);
                assert(score(query, entries[before[bl] as int].name) == Some(scores[bl] as nat));
            }
            if k != p && l != p {
                assert(ranks_before(entries, query, before[bk] as int, before[bl] as int));
            }
        }
    }
}

/// A search has one result only: what it finds is determined by the entries
/// and the query.
pub proof fn lemma_find_result_unique(entries: Seq<EntryView>, query: Seq<char>, a: Seq<int>, b: Seq<int>)
    requires
        is_find_result(entries, query, a),
        is_find_result(entries, query, b),
    ensures
        a == b,
{
    if !contains_name(entries, query) {
        let k = if a.len() <= b.len() { a.len() as int } else { b.len() as int };
        lemma_rankings_agree(entries, query, a, b, k);
        if a.len() < b.len() {
            let x = b[k];
            assert(is_candidate(entries, query, x));
            let h = choose|h: int| 0 <= h < a.len() && a[h] == x;
            assert(ranks_before(entries, query, b[h], b[k]));
        }
        if b.len() < a.len() {
            let x = a[k];
            assert(is_candidate(entries, query, x));
            let h = choose|h: int| 0 <= h < b.len() && b[h] == x;
            assert(ranks_before(entries, query, a[h], a[k]));
        }
        assert(a =~= b);
    }
}

/// After an attempt to add an entry the store has an entry of its name. A
/// second attempt under the same name is refused with `DuplicateName`, and
/// leaves the entries, and so their number, as they were.
pub proof fn lemma_add_then_has(entries: Seq<EntryView>, entry: EntryView, second: EntryView)
    requires
        second.name == entry.name,
    ensures
        contains_name(after_add(entries, entry), entry.name),
        add_outcome(after_add(entries, entry), second) == Err::<(), StoreError>(StoreError::DuplicateName),
        after_add(after_add(entries, entry), second) == after_add(entries, entry),
        after_add(after_add(entries, entry), second).len() == after_add(entries, entry).len(),
{
    if !contains_name(entries, entry.name) {
        assert(entries.push(entry)[entries.len() as int].name == entry.name);
    }
}

/// An attempt to add a valid entry to valid entries leaves them valid: no
/// name comes to stand twice.
pub proof fn lemma_add_keeps_valid(entries: Seq<EntryView>, entry: EntryView)
    requires
        valid_store(entries),
        entry.valid(),
    ensures
        valid_store(after_add(entries, entry)),
{
    if !contains_name(entries, entry.name) {
        let after = entries.push(entry);
        assert forall|i: int, j: int| 0 <= i < j < after.len() implies (#[trigger] after[i]).name != (
        #[trigger] after[j]).name by {
            if j < entries.len() {
                assert(entries[i].name != entries[j].name);
            } else {
                assert(entries[i].name != entry.name);
            }
        }
        assert forall|i: int| 0 <= i < after.len() implies (#[trigger] after[i]).valid() by {
            if i < entries.len() {
                assert(entries[i].valid());
            }
        }
    }
}

/// Whatever a transformation makes of an entry, the entry that takes its
/// place has the same name and the same time of creation, was last changed no
/// earlier, and is valid. Where the transformation itself keeps the name and
/// the time of creation and does not move the time of the last change
/// backwards, the entry that takes the place is the one it made.
pub proof fn lemma_update_keeps_creation(old: EntryView, out: EntryView)
    requires
        old.valid(),
    ensures
        old.replaced_by(out).name == old.name,
        old.replaced_by(out).created_at == old.created_at,
        old.replaced_by(out).updated_at >= old.updated_at,
        old.replaced_by(out).valid(),
        out.name == old.name && out.created_at == old.created_at && out.updated_at >= old.updated_at
            ==> old.replaced_by(out) == out,
{
}

/// A query that is exactly the name of an entry finds that entry alone,
/// whatever the other entries score.
pub proof fn lemma_exact_name_alone(entries: Seq<EntryView>, query: Seq<char>, i: int, r: Seq<int>)
    requires
        valid_store(entries),
        0 <= i < entries.len(),
        entries[i].name == query,
        is_find_result(entries, query, r),
    ensures
        r == seq![i],
{
    let j = index_of(entries, query);
    if j < i {
        assert(entries[j].name != entries[i].name);
    } else if i < j {
        assert(entries[i].name != entries[j].name);
    }
}

/// The number of places at the front of `r` whose entries score at least
/// `mark`.
spec fn place_for(entries: Seq<EntryView>, query: Seq<char>, r: Seq<int>, mark: nat) -> int
    decreases r.len(),
{
    if r.len() == 0 || score_at(entries, query, r[0]) < mark {
        0
    } else {
        1 + place_for(entries, query, r.drop_first(), mark)
    }
}

/// The ranking of the entries that match among the first `n`, built by
/// putting one entry after the other into its place.
spec fn built(entries: Seq<EntryView>, query: Seq<char>, n: nat) -> Seq<int>
    decreases n,
{
    if n == 0 {
        Seq::<int>::empty()
    } else {
        let r = built(entries, query, (n - 1) as nat);
        if is_candidate(entries, query, n - 1) {
            r.insert(place_for(entries, query, r, score_at(entries, query, n - 1)), n - 1)
        } else {
            r
        }
    }
}

/// `r` ranks the entries that match among the first `n`.
spec fn ranks_below(entries: Seq<EntryView>, query: Seq<char>, r: Seq<int>, n: int) -> bool {
    &&& forall|k: int| 0 <= k < r.len() ==> (#[trigger] r[k]) < n && is_candidate(entries, query, r[k])
    &&& forall|i: int| i < n && #[trigger] is_candidate(entries, query, i) ==> r.contains(i)
    &&& forall|k: int, l: int|
        0 <= k < l < r.len() ==> ranks_before(entries, query, #[trigger] r[k], #[trigger] r[l])
}

/// The place for a score parts a ranking: before it the entries score at
/// least as much, from it on they score less.
proof fn lemma_place_parts(entries: Seq<EntryView>, query: Seq<char>, r: Seq<int>, mark: nat)
    requires
        forall|k: int, l: int|
            0 <= k < l < r.len() ==> ranks_before(entries, query, #[trigger] r[k], #[trigger] r[l]),
    ensures
        0 <= place_for(entries, query, r, mark) <= r.len(),
        forall|k: int|
            0 <= k < place_for(entries, query, r, mark) ==> score_at(entries, query, #[trigger] r[k]) >= mark,
        forall|k: int|
            place_for(entries, query, r, mark) <= k < r.len() ==> score_at(entries, query, #[trigger] r[k])
                < mark,
    decreases r.len(),
{
    if r.len() == 0 {
    } else if score_at(entries, query, r[0]) < mark {
        assert forall|k: int| 0 <= k < r.len() implies score_at(entries, query, #[trigger] r[k]) < mark by {
            if k > 0 {
                assert(ranks_before(entries, query, r[0], r[k]));
            }
        }
    } else {
        let rest = r.drop_first();
        assert forall|k: int, l: int| 0 <= k < l < rest.len() implies ranks_before(
            entries,
            query,
            #[trigger] rest[k],
            #[trigger] rest[l],
        ) by {
            assert(rest[k] == r[k + 1] && rest[l] == r[l + 1]);
        }
        lemma_place_parts(entries, query, rest, mark);
        let p = place_for(entries, query, r, mark);
        assert forall|k: int| 0 <= k < p implies score_at(entries, query, #[trigger] r[k]) >= mark by {
            if k > 0 {
                assert(rest[k - 1] == r[k]);
            }
        }
        assert forall|k: int| p <= k < r.len() implies score_at(entries, query, #[trigger] r[k]) < mark by {
            assert(rest[k - 1] == r[k]);
        }
    }
}

/// What is built ranks the entries that match among the first `n`.
proof fn lemma_built_ranks(entries: Seq<EntryView>, query: Seq<char>, n: nat)
    requires
        n <= entries.len(),
    ensures
        ranks_below(entries, query, built(entries, query, n), n as int),
    decreases n,
{
    if n > 0 {
        let i = n - 1;
        let r = built(entries, query, i as nat);
        lemma_built_ranks(entries, query, i as nat);
        if is_candidate(entries, query, i) {
            let mark = score_at(entries, query, i);
            lemma_place_parts(entries, query, r, mark);
            let p = place_for(entries, query, r, mark);
            let after = r.insert(p, i);
            assert forall|k: int| 0 <= k < after.len() implies (#[trigger] after[k]) < n && is_candidate(
                entries,
                query,
                after[k],
            ) by {
                if k < p {
                    assert(after[k] == r[k]);
                } else if k > p {
                    assert(after[k] == r[k - 1]);
                }
            }
            assert forall|c: int| c < n && #[trigger] is_candidate(entries, query, c) implies after.contains(
                c,
            ) by {
                if c == i {
                    assert(after[p] == c);
                } else {
                    assert(r.contains(c));
                    let k = choose|k: int| 0 <= k < r.len() && r[k] == c;
                    if k < p {
                        assert(after[k] == c);
                    } else {
                        assert(after[k + 1] == r[k]);
                    }
                }
            }
            assert forall|k: int, l: int| 0 <= k < l < after.len() implies ranks_before(
                entries,
                query,
                #[trigger] after[k],
                #[trigger] after[l],
            ) by {
                let bk = if k < p {
                    k
                } else {
                    k - 1
                };
                let bl = if l < p {
                    l
                } else {
                    l - 1
                };
                if k != p {
                    assert(after[k] == r[bk]);
                    assert(r[bk] < i);
                }
                if l != p {
                    assert(after[l] == r[bl]);
                    assert(r[bl] < i);
                }
                if k != p && l != p {
                    assert(ranks_before(entries, query, r[bk], r[bl]));
                }
            }
        } else {
            assert forall|c: int| c < n && #[trigger] is_candidate(entries, query, c) implies r.contains(c) by {
                assert(c < i);
            }
        }
    }
}

/// Every search has a result: whatever the entries and the query are, the
/// places that [`ranking`] names are what the search finds.
pub proof fn lemma_search_has_a_result(entries: Seq<EntryView>, query: Seq<char>)
    ensures
        is_find_result(entries, query, ranking(entries, query)),
{
    if contains_name(entries, query) {
        assert(is_find_result(entries, query, seq![index_of(entries, query)]));
    } else {
        lemma_built_ranks(entries, query, entries.len());
        assert(is_find_result(entries, query, built(entries, query, entries.len())));
    }
}

} // verus!
