//! Fuzzy matching of a query against an entry name.
//!
//! A query matches a name when its characters occur in the name in the same
//! order, not necessarily next to each other, the case of ASCII letters being
//! ignored. A match has a score from 0 to 3000: the share of the name that
//! the query covers, in thousandths, plus 1000 when the query occurs in the
//! name in one piece, plus 1000 more when the name starts with it.
use vstd::prelude::*;

verus! {

/// The bonus for a query that occurs in the name in one piece.
pub const CONTIGUOUS_BONUS: u32 = 1000;

/// The bonus for a query that the name starts with.
pub const PREFIX_BONUS: u32 = 1000;

/// The score of a query that covers the whole name.
pub const FULL_COVERAGE: u32 = 1000;

/// `c` with an ASCII capital letter replaced by its small letter.
pub open spec fn fold(c: char) -> char {
    if 'A' <= c && c <= 'Z' {
        ((c as int) + 32) as char
    } else {
        c
    }
}

/// `s` with every character folded.
pub open spec fn folded(s: Seq<char>) -> Seq<char> {
    Seq::new(s.len(), |i: int| fold(s[i]))
}

/// `idx` gives, for each character of `q`, a place in `n` that holds the same
/// character, and the places go strictly upwards.
pub open spec fn is_embedding(idx: Seq<int>, q: Seq<char>, n: Seq<char>) -> bool {
    &&& idx.len() == q.len()
    &&& forall|i: int| 0 <= i < idx.len() ==> 0 <= #[trigger] idx[i] < n.len() && n[idx[i]] == q[i]
    &&& forall|i: int, j: int| 0 <= i < j < idx.len() ==> #[trigger] idx[i] < #[trigger] idx[j]
}

/// The characters of `q` occur in `n` in the same order.
pub open spec fn is_subsequence(q: Seq<char>, n: Seq<char>) -> bool {
    exists|idx: Seq<int>| is_embedding(idx, q, n)
}

/// `q` stands in `n` in one piece, starting at place `k`.
pub open spec fn occurs_at(q: Seq<char>, n: Seq<char>, k: int) -> bool {
    &&& 0 <= k
    &&& k + q.len() <= n.len()
    &&& forall|i: int| 0 <= i < q.len() ==> n[k + i] == #[trigger] q[i]
}

/// `q` stands somewhere in `n` in one piece.
pub open spec fn is_substring(q: Seq<char>, n: Seq<char>) -> bool {
    exists|k: int| occurs_at(q, n, k)
}

/// The query matches the name: this is the threshold of the matcher.
pub open spec fn matches(query: Seq<char>, name: Seq<char>) -> bool {
    is_subsequence(folded(query), folded(name))
}

/// The share of a name of `name_len` characters that a query of `query_len`
/// characters covers, in thousandths.
pub open spec fn coverage(query_len: nat, name_len: nat) -> nat {
    if name_len == 0 {
        1000
    } else {
        (query_len * 1000 / name_len) as nat
    }
}

/// The score of `query` against `name`, or `None` when it does not match.
pub open spec fn score(query: Seq<char>, name: Seq<char>) -> Option<nat> {
    if matches(query, name) {
        Some(
            coverage(query.len(), name.len()) + (if is_substring(folded(query), folded(name)) {
                1000nat
            } else {
                0nat
            }) + (if occurs_at(folded(query), folded(name), 0) {
                1000nat
            } else {
                0nat
            }),
        )
    } else {
        None
    }
}

/// An embedding into the first `i` characters of `n` is one into `n`.
proof fn lemma_embedding_widens(idx: Seq<int>, q: Seq<char>, n: Seq<char>, i: int)
    requires
        0 <= i <= n.len(),
        is_embedding(idx, q, n.take(i)),
    ensures
        is_embedding(idx, q, n),
{
    assert forall|k: int| 0 <= k < idx.len() implies 0 <= #[trigger] idx[k] < n.len() && n[idx[k]]
        == q[k] by {
        assert(n.take(i)[idx[k]] == n[idx[k]]);
    }
}

/// An embedding into `n` whose places all lie below `i` is one into the first
/// `i` characters of `n`.
proof fn lemma_embedding_narrows(idx: Seq<int>, q: Seq<char>, n: Seq<char>, i: int)
    requires
        0 <= i <= n.len(),
        is_embedding(idx, q, n),
        forall|k: int| 0 <= k < idx.len() ==> #[trigger] idx[k] < i,
    ensures
        is_embedding(idx, q, n.take(i)),
{
    assert forall|k: int| 0 <= k < idx.len() implies 0 <= #[trigger] idx[k] < n.take(i).len()
        && n.take(i)[idx[k]] == q[k] by {
        assert(n.take(i)[idx[k]] == n[idx[k]]);
    }
}

/// The first `j` places of an embedding of `q` embed the first `j` characters
/// of `q`.
proof fn lemma_embedding_prefix(idx: Seq<int>, q: Seq<char>, n: Seq<char>, j: int)
    requires
        0 <= j <= q.len(),
        is_embedding(idx, q, n),
    ensures
        is_embedding(idx.take(j), q.take(j), n),
{
    let short = idx.take(j);
    assert forall|k: int| 0 <= k < short.len() implies 0 <= #[trigger] short[k] < n.len()
        && n[short[k]] == q.take(j)[k] by {
        assert(short[k] == idx[k]);
    }
    assert forall|a: int, b: int| 0 <= a < b < short.len() implies #[trigger] short[a]
        < #[trigger] short[b] by {
        assert(short[a] == idx[a]);
        assert(short[b] == idx[b]);
    }
}

/// If the first `j + 1` characters of `q` do not embed into the first `i`
/// characters of `n`, they embed into the first `i + 1` only by using place
/// `i` for character `j`.
proof fn lemma_greedy_step(q: Seq<char>, n: Seq<char>, i: int, j: int)
    requires
        0 <= j < q.len(),
        0 <= i < n.len(),
        !is_subsequence(q.take(j + 1), n.take(i)),
    ensures
        n[i] != q[j] ==> !is_subsequence(q.take(j + 1), n.take(i + 1)),
        j + 1 < q.len() ==> !is_subsequence(q.take(j + 2), n.take(i + 1)),
{
    if n[i] != q[j] && is_subsequence(q.take(j + 1), n.take(i + 1)) {
        let head = q.take(j + 1);
        let room = n.take(i + 1);
        let idx = choose|idx: Seq<int>| is_embedding(idx, head, room);
        lemma_embedding_widens(idx, q.take(j + 1), n, i + 1);
        assert(n[idx[j]] == q.take(j + 1)[j]);
        assert(idx[j] < i + 1);
        assert forall|k: int| 0 <= k < idx.len() implies #[trigger] idx[k] < i by {
            if k < j {
                assert(idx[k] < idx[j]);
            }
        }
        lemma_embedding_narrows(idx, q.take(j + 1), n, i);
        assert(false);
    }
    if j + 1 < q.len() && is_subsequence(q.take(j + 2), n.take(i + 1)) {
        let head = q.take(j + 2);
        let room = n.take(i + 1);
        let idx = choose|idx: Seq<int>| is_embedding(idx, head, room);
        lemma_embedding_widens(idx, q.take(j + 2), n, i + 1);
        lemma_embedding_prefix(idx, q.take(j + 2), n, j + 1);
        assert(q.take(j + 2).take(j + 1) =~= q.take(j + 1));
        let short = idx.take(j + 1);
        assert(idx[j + 1] < i + 1);
        assert forall|k: int| 0 <= k < short.len() implies #[trigger] short[k] < i by {
            assert(short[k] == idx[k]);
            assert(idx[k] < idx[j + 1]);
        }
        lemma_embedding_narrows(short, q.take(j + 1), n, i);
        assert(false);
    }
}

/// `c` with an ASCII capital letter replaced by its small letter.
pub fn fold_char(c: char) -> (r: char)
    ensures
        r == fold(c),
{
    if 'A' <= c && c <= 'Z' {
        ((c as u8) + 32u8) as char
    } else {
        c
    }
}

/// The characters of `s`, each of them folded.
pub fn folded_chars(s: &str) -> (v: Vec<char>)
    ensures
        v@ == folded(s@),
{
    let n: usize = s.unicode_len();
    let mut v: Vec<char> = Vec::with_capacity(n);
    let mut i: usize = 0;
    while i < n
        invariant
            n == s@.len(),
            0 <= i <= n,
            v@.len() == i,
            forall|k: int| 0 <= k < i ==> v@[k] == fold(s@[k]),
        decreases n - i,
    {
        v.push(fold_char(s.get_char(i)));
        i += 1;
    }
    assert(v@ =~= folded(s@));
    v
}

/// Whether the characters of `q` occur in `n` in the same order.
pub fn is_subsequence_of(q: &Vec<char>, n: &Vec<char>) -> (r: bool)
    ensures
        r == is_subsequence(q@, n@),
{
    let mut i: usize = 0;
    let mut j: usize = 0;
    proof {
        assert(is_embedding(Seq::<int>::empty(), q@.take(0), n@.take(0)));
        if 0 < q@.len() && is_subsequence(q@.take(1), n@.take(0)) {
            let head = q@.take(1);
            let room = n@.take(0);
            let idx = choose|idx: Seq<int>| is_embedding(idx, head, room);
            assert(0 <= idx[0] < n@.take(0).len());
        }
    }
    while i < n.len() && j < q.len()
        invariant
            0 <= i <= n.len(),
            0 <= j <= q.len(),
            is_subsequence(q@.take(j as int), n@.take(i as int)),
            j < q.len() ==> !is_subsequence(q@.take(j + 1), n@.take(i as int)),
        decreases n.len() - i,
    {
        proof {
            lemma_greedy_step(q@, n@, i as int, j as int);
            let head = q@.take(j as int);
            let room = n@.take(i as int);
            let idx = choose|idx: Seq<int>| is_embedding(idx, head, room);
            lemma_embedding_widens(idx, q@.take(j as int), n@, i as int);
            if n@[i as int] == q@[j as int] {
                let longer = idx.push(i as int);
                assert forall|k: int| 0 <= k < longer.len() implies 0 <= #[trigger] longer[k] < n@.len()
                    && n@[longer[k]] == q@.take(j + 1)[k] by {
                    if k < j {
                        assert(longer[k] == idx[k]);
                        assert(q@.take(j as int)[k] == q@[k]);
                    }
                }
                assert forall|k: int| 0 <= k < longer.len() implies #[trigger] longer[k] < i + 1 by {
                    if k < j {
                        assert(longer[k] == idx[k]);
                        assert(0 <= idx[k] < n@.take(i as int).len());
                    }
                }
                assert forall|a: int, b: int| 0 <= a < b < longer.len() implies #[trigger] longer[a]
                    < #[trigger] longer[b] by {
                    assert(longer[a] == idx[a]);
                    assert(0 <= idx[a] < n@.take(i as int).len());
                    if b < j {
                        assert(longer[b] == idx[b]);
                    }
                }
                assert(is_embedding(longer, q@.take(j + 1), n@));
                lemma_embedding_narrows(longer, q@.take(j + 1), n@, i + 1);
            } else {
                assert forall|k: int| 0 <= k < idx.len() implies #[trigger] idx[k] < i + 1 by {
                    assert(0 <= idx[k] < n@.take(i as int).len());
                }
                lemma_embedding_narrows(idx, q@.take(j as int), n@, i + 1);
            }
        }
        if n[i] == q[j] {
            j += 1;
        }
        i += 1;
    }
    proof {
        let head = q@.take(j as int);
        let room = n@.take(i as int);
        let idx = choose|idx: Seq<int>| is_embedding(idx, head, room);
        lemma_embedding_widens(idx, q@.take(j as int), n@, i as int);
        if j == q.len() {
            assert(q@.take(j as int) =~= q@);
        } else {
            assert(n@.take(i as int) =~= n@);
            if is_subsequence(q@, n@) {
                let full = choose|full: Seq<int>| is_embedding(full, q@, n@);
                lemma_embedding_prefix(full, q@, n@, j + 1);
            }
        }
    }
    j == q.len()
}

/// Whether `q` stands in `n` in one piece, starting at place `k`.
pub fn occurs_at_place(q: &Vec<char>, n: &Vec<char>, k: usize) -> (r: bool)
    ensures
        r == occurs_at(q@, n@, k as int),
{
    if q.len() > n.len() || k > n.len() - q.len() {
        return false;
    }
    let mut i: usize = 0;
    while i < q.len()
        invariant
            0 <= i <= q.len(),
            k + q.len() <= n.len(),
            forall|m: int| 0 <= m < i ==> n@[k + m] == #[trigger] q@[m],
        decreases q.len() - i,
    {
        if n[k + i] != q[i] {
            return false;
        }
        i += 1;
    }
    true
}

/// Whether `q` stands somewhere in `n` in one piece.
pub fn is_substring_of(q: &Vec<char>, n: &Vec<char>) -> (r: bool)
    ensures
        r == is_substring(q@, n@),
{
    if q.len() > n.len() {
        assert forall|k: int| !occurs_at(q@, n@, k) by {}
        return false;
    }
    let last: usize = n.len() - q.len();
    let mut k: usize = 0;
    while k <= last
        invariant
            last == n.len() - q.len(),
            0 <= k <= last + 1,
            forall|m: int| 0 <= m < k ==> !occurs_at(q@, n@, m),
        decreases last + 1 - k,
    {
        if occurs_at_place(q, n, k) {
            return true;
        }
        k += 1;
    }
    assert forall|m: int| !occurs_at(q@, n@, m) by {}
    false
}

/// The share of a name of `name_len` characters that a query of `query_len`
/// characters covers, in thousandths.
fn coverage_of(query_len: usize, name_len: usize) -> (r: u32)
    requires
        query_len <= name_len,
    ensures
        r == coverage(query_len as nat, name_len as nat),
        r <= 1000,
{
    if name_len == 0 {
        1000
    } else {
        let scaled: u128 = (query_len as u128) * 1000u128;
        let share: u128 = scaled / (name_len as u128);
        assert(share <= 1000) by (nonlinear_arith)
            requires
                share == (query_len as int) * 1000 / (name_len as int),
                0 <= query_len <= name_len,
                0 < name_len,
        ;
        share as u32
    }
}

/// The score of `query` against `name`, or `None` when it does not match.
pub fn score_of(query: &str, name: &str) -> (r: Option<u32>)
    ensures
        match r {
            Some(points) => score(query@, name@) == Some(points as nat) && points <= 3000,
            None => score(query@, name@) is None,
        },
{
    let q = folded_chars(query);
    let n = folded_chars(name);
    if !is_subsequence_of(&q, &n) {
        return None;
    }
    proof {
        let idx = choose|idx: Seq<int>| is_embedding(idx, q@, n@);
        lemma_embedding_fits(idx, q@, n@);
    }
    let mut total: u32 = coverage_of(q.len(), n.len());
    if is_substring_of(&q, &n) {
        total += CONTIGUOUS_BONUS;
    }
    if occurs_at_place(&q, &n, 0) {
        total += PREFIX_BONUS;
    }
    Some(total)
}

/// What embeds into `n` is no longer than `n`.
pub proof fn lemma_embedding_fits(idx: Seq<int>, q: Seq<char>, n: Seq<char>)
    requires
        is_embedding(idx, q, n),
    ensures
        q.len() <= n.len(),
    decreases q.len(),
{
    if q.len() > 0 {
        lemma_embedding_prefix(idx, q, n, q.len() - 1);
        let last = idx[q.len() - 1];
        let short = idx.take(q.len() - 1);
        assert forall|k: int| 0 <= k < short.len() implies #[trigger] short[k] < last by {
            assert(short[k] == idx[k]);
        }
        lemma_embedding_narrows(short, q.take(q.len() - 1), n, last);
        lemma_embedding_fits(short, q.take(q.len() - 1), n.take(last));
    }
}

/// A name matches itself, with the highest score there is.
pub proof fn lemma_name_scores_highest(name: Seq<char>)
    ensures
        score(name, name) == Some(3000nat),
{
    let f = folded(name);
    let idx = Seq::new(f.len(), |i: int| i);
    assert(is_embedding(idx, f, f));
    assert(occurs_at(f, f, 0));
    if name.len() > 0 {
        let n = name.len() as int;
        assert(n * 1000 / n == 1000) by (nonlinear_arith)
            requires
                n > 0,
        ;
    }
}

/// A query that matches a name is no longer than the name, and its score is
/// at most 3000.
pub proof fn lemma_score_bounds(query: Seq<char>, name: Seq<char>)
    requires
        matches(query, name),
    ensures
        query.len() <= name.len(),
        score(query, name).unwrap() <= 3000,
{
    let q = folded(query);
    let n = folded(name);
    let idx = choose|idx: Seq<int>| is_embedding(idx, q, n);
    lemma_embedding_fits(idx, q, n);
    if name.len() > 0 {
        let a = query.len() as int;
        let b = name.len() as int;
        assert(a * 1000 / b <= 1000) by (nonlinear_arith)
            requires
                0 <= a <= b,
                b > 0,
        ;
    }
}

} // verus!
