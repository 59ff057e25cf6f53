//! Approximate search of a city catalog by name: each entry is scored by
//! edit distance to the query, with a bonus for entries that start with it,
//! and the best entries come first, ties in catalog order.

use vstd::prelude::*;
use crate::city::{lower_of, lowercase, City};
use crate::error::CoreError;

verus! {

/// What a catalog entry gains when its name starts with the query.
pub const PREFIX_BONUS: i128 = 10;

/// How many entries an interactive search lists.
pub const TOP_K: usize = 5;

/// The Levenshtein distance that `edit_distance::edit_distance` computes.
pub uninterp spec fn edit_distance_of(a: Seq<char>, b: Seq<char>) -> nat;

/// Relies on `edit_distance::edit_distance`: the Levenshtein distance between
/// the texts, counted in characters, which is zero exactly for equal texts.
#[verifier::external_body]
fn levenshtein(a: &str, b: &str) -> (r: usize)
    ensures
        r == edit_distance_of(a@, b@),
        (r == 0) == (a@ == b@),
{
    edit_distance::edit_distance(a, b)
}

/// Relies on `str::starts_with`: true exactly when `prefix` begins `s`.
#[verifier::external_body]
fn starts_with(s: &str, prefix: &str) -> (r: bool)
    ensures
        r == prefix@.is_prefix_of(s@),
{
    s.starts_with(prefix)
}

/// The score of an entry at edit distance `distance` from the query: lower
/// is better, and starting with the query earns `PREFIX_BONUS`.
pub open spec fn score_of(distance: int, is_prefix: bool) -> int {
    distance - if is_prefix {
        PREFIX_BONUS as int
    } else {
        0
    }
}

/// The score of the entry whose lower-case name is `lower` for the
/// lower-case query `q`.
pub open spec fn match_score(lower: Seq<char>, q: Seq<char>) -> int {
    score_of(edit_distance_of(lower, q) as int, q.is_prefix_of(lower))
}

/// The score of every catalog entry for the lower-case query `q`.
pub open spec fn catalog_scores(cities: Seq<City>, q: Seq<char>) -> Seq<int> {
    cities.map_values(|c: City| match_score(lower_of(c.name_spec()), q))
}

/// The score of an entry from its edit distance and whether it starts with
/// the query.
pub fn score(distance: usize, is_prefix: bool) -> (r: i128)
    ensures
        r == score_of(distance as int, is_prefix),
{
    let d = distance as i128;
    if is_prefix {
        d - PREFIX_BONUS
    } else {
        d
    }
}

/// Entry `a` (score, position) ranks before entry `b`: a lower score, or an
/// equal one earlier in the catalog.
pub open spec fn ranks_before(a: (int, int), b: (int, int)) -> bool {
    a.0 < b.0 || (a.0 == b.0 && a.1 < b.1)
}

/// The pair of an entry of the result.
pub open spec fn entry(e: (i128, usize)) -> (int, int) {
    (e.0 as int, e.1 as int)
}

/// Position `i` of the catalog is among the result's entries.
pub open spec fn selected(r: Seq<(i128, usize)>, i: int) -> bool {
    exists|j: int| 0 <= j < r.len() && r[j].1 == i
}

/// `r` lists the `k` best entries for `scores` (all of them if there are
/// fewer), best first, ties in catalog order; each as (score, position).
pub open spec fn is_top_k(r: Seq<(i128, usize)>, scores: Seq<int>, k: int) -> bool {
    &&& r.len() == if k < scores.len() {
        k
    } else {
        scores.len() as int
    }
    &&& forall|j: int|
        0 <= j < r.len() ==> (#[trigger] r[j]).1 < scores.len() && r[j].0 == scores[r[j].1 as int]
    &&& forall|j1: int, j2: int|
        0 <= j1 < j2 < r.len() ==> ranks_before(entry(#[trigger] r[j1]), entry(#[trigger] r[j2]))
    &&& forall|i: int|
        0 <= i < scores.len() ==> selected(r, i) || forall|j: int|
            0 <= j < r.len() ==> ranks_before(entry(#[trigger] r[j]), (scores[i], i))
}

/// The `k` best entries for the given scores, best first, ties in order of
/// position; each as (score, position).
pub fn top_k_of_scores(scores: &Vec<i128>, k: usize) -> (r: Vec<(i128, usize)>)
    ensures
        is_top_k(r@, scores@.map_values(|s: i128| s as int), k as int),
{
    let ghost sc = scores@.map_values(|s: i128| s as int);
    let mut r: Vec<(i128, usize)> = Vec::new();
    let mut i: usize = 0;
    while i < scores.len()
        invariant
            i <= scores@.len(),
            sc == scores@.map_values(|s: i128| s as int),
            r@.len() == if (k as int) < i {
                k as int
            } else {
                i as int
            },
            forall|j: int| 0 <= j < r@.len() ==> (#[trigger] r@[j]).1 < i && r@[j].0 == sc[r@[j].1 as int],
            forall|j1: int, j2: int|
                0 <= j1 < j2 < r@.len() ==> ranks_before(entry(#[trigger] r@[j1]), entry(#[trigger] r@[j2])),
            forall|x: int|
                0 <= x < i ==> selected(r@, x) || forall|j: int|
                    0 <= j < r@.len() ==> ranks_before(entry(#[trigger] r@[j]), (sc[x], x)),
            r@.len() < k ==> forall|x: int| 0 <= x < i ==> selected(r@, x),
        decreases scores@.len() - i,
    {
        let s = scores[i];
        let ghost old_r = r@;
        let mut pos: usize = 0;
        while pos < r.len() && r[pos].0 <= s
            invariant
                pos <= r@.len(),
                r@ == old_r,
                forall|j: int| 0 <= j < pos ==> (#[trigger] r@[j]).0 <= s,
            decreases r@.len() - pos,
        {
            pos = pos + 1;
        }
        // everything before `pos` ranks before the new entry, which ranks before the rest
        assert forall|j: int| 0 <= j < old_r.len() implies (j < pos ==> ranks_before(
            entry(#[trigger] old_r[j]),
            (s as int, i as int),
        )) && (j >= pos ==> ranks_before((s as int, i as int), entry(old_r[j]))) by {
            if j >= pos {
                assert(old_r[pos as int].0 > s);
                if j > pos {
                    assert(ranks_before(entry(old_r[pos as int]), entry(old_r[j])));
                }
            }
        }
        r.insert(pos, (s, i));
        let ghost mid = r@;
        assert(mid == old_r.insert(pos as int, (s, i)));
        if r.len() > k {
            r.pop();
        }
        proof {
            let new_r = r@;
            assert(new_r.len() <= mid.len());
            assert forall|j: int| 0 <= j < new_r.len() implies new_r[j] == mid[j] by {}
            // order of the kept entries
            assert forall|j1: int, j2: int| 0 <= j1 < j2 < new_r.len() implies ranks_before(
                entry(#[trigger] new_r[j1]),
                entry(#[trigger] new_r[j2]),
            ) by {
                assert(new_r[j1] == mid[j1] && new_r[j2] == mid[j2]);
                if j2 < pos {
                    assert(mid[j1] == old_r[j1] && mid[j2] == old_r[j2]);
                } else if j2 == pos {
                    assert(mid[j1] == old_r[j1]);
                } else if j1 < pos {
                    assert(mid[j1] == old_r[j1] && mid[j2] == old_r[j2 - 1]);
                } else if j1 == pos {
                    assert(mid[j2] == old_r[j2 - 1]);
                } else {
                    assert(mid[j1] == old_r[j1 - 1] && mid[j2] == old_r[j2 - 1]);
                }
            }
            assert forall|j: int| 0 <= j < new_r.len() implies (#[trigger] new_r[j]).1 < i + 1
                && new_r[j].0 == sc[new_r[j].1 as int] by {
                if j < pos {
                    assert(new_r[j] == old_r[j]);
                } else if j > pos {
                    assert(new_r[j] == old_r[j - 1]);
                }
            }
            // while the result is not full, it holds every entry seen
            if new_r.len() < k {
                assert(new_r == mid);
                assert forall|x: int| 0 <= x < i + 1 implies selected(new_r, x) by {
                    if x == i {
                        assert(new_r[pos as int].1 == i);
                    } else {
                        assert(selected(old_r, x));
                        let jj = choose|jj: int| 0 <= jj < old_r.len() && old_r[jj].1 == x;
                        let mj = if jj < pos { jj } else { jj + 1 };
                        assert(new_r[mj].1 == x);
                    }
                }
            }
            // every entry left out ranks after all kept ones
            assert forall|x: int| 0 <= x < i + 1 implies selected(new_r, x) || forall|j: int|
                0 <= j < new_r.len() ==> ranks_before(entry(#[trigger] new_r[j]), (sc[x], x)) by {
                if !selected(new_r, x) {
                    assert forall|j: int| 0 <= j < new_r.len()
                        implies ranks_before(entry(#[trigger] new_r[j]), (sc[x], x)) by {
                        if x == i {
                            // the new entry was dropped: it was last
                            if pos < mid.len() - 1 || mid.len() == new_r.len() {
                                assert(new_r[pos as int].1 == i);
                            }
                            assert(mid[mid.len() - 1] == (s, i));
                            assert(ranks_before(entry(mid[j]), entry(mid[mid.len() - 1])));
                        } else if selected(old_r, x) {
                            // it was the dropped last entry
                            let jj = choose|jj: int| 0 <= jj < old_r.len() && old_r[jj].1 == x;
                            let mj = if jj < pos { jj } else { jj + 1 };
                            assert(mid[mj].1 == x);
                            if mj < new_r.len() {
                                assert(new_r[mj].1 == x);
                            }
                            assert(mj == mid.len() - 1);
                            assert(ranks_before(entry(mid[j]), entry(mid[mj])));
                            assert(entry(mid[mj]) == (sc[x], x));
                        } else {
                            // it ranked after all of the old entries, and the new one
                            // ranks before some old entry whenever it is kept
                            if j < pos {
                                assert(new_r[j] == old_r[j]);
                            } else if j > pos {
                                assert(new_r[j] == old_r[j - 1]);
                            } else {
                                assert(new_r[j] == (s, i));
                                if old_r.len() > pos {
                                    assert(ranks_before(entry(old_r[pos as int]), (sc[x], x)));
                                } else {
                                    assert(mid.len() <= k);
                                    assert(selected(old_r, x));
                                }
                            }
                        }
                    }
                }
            }
        }
        i = i + 1;
    }
    r
}

/// At equal edit distance, an entry that starts with the query scores
/// strictly lower than one that does not.
pub proof fn lemma_prefix_outranks_fuzzy(a: Seq<char>, b: Seq<char>, q: Seq<char>)
    requires
        edit_distance_of(a, q) == edit_distance_of(b, q),
        q.is_prefix_of(a),
        !q.is_prefix_of(b),
    ensures
        match_score(a, q) < match_score(b, q),
{
}

/// An entry whose lower-case name is the lower-case query itself scores
/// `-PREFIX_BONUS` when its distance is zero, and no entry scores lower.
proof fn lemma_exact_match_scores_minimum(cities: Seq<City>, q: Seq<char>, i: int)
    requires
        0 <= i < cities.len(),
        lower_of(cities[i].name_spec()) == q,
        edit_distance_of(q, q) == 0,
    ensures
        catalog_scores(cities, q)[i] == -PREFIX_BONUS,
        forall|j: int| 0 <= j < cities.len() ==> #[trigger] catalog_scores(cities, q)[j] >= -PREFIX_BONUS,
{
    assert(q.is_prefix_of(q)) by {
        assert(q =~= q.subrange(0, q.len() as int));
    }
}

/// Edit distance zero holds exactly for the entries whose lower-case name is `q`.
pub open spec fn distance_zero_iff_equal(cities: Seq<City>, q: Seq<char>) -> bool {
    forall|i: int|
        0 <= i < cities.len() ==> (edit_distance_of(lower_of((#[trigger] cities[i]).name_spec()), q) == 0)
            == (lower_of(cities[i].name_spec()) == q)
}

/// Some entry's lower-case name is `q`.
pub open spec fn has_exact_match(cities: Seq<City>, q: Seq<char>) -> bool {
    exists|i: int| 0 <= i < cities.len() && lower_of((#[trigger] cities[i]).name_spec()) == q
}

/// Position `i` holds the best entry for `scores`, the first among equals.
pub open spec fn is_best(scores: Seq<int>, i: int) -> bool {
    &&& 0 <= i < scores.len()
    &&& forall|j: int|
        0 <= j < scores.len() ==> scores[i] <= #[trigger] scores[j] && (j < i ==> scores[i]
            < scores[j])
}

/// A catalog of places searched by name; it keeps its order, which breaks ties.
pub struct CityCatalog {
    cities: Vec<City>,
}

impl View for CityCatalog {
    type V = Seq<City>;

    closed spec fn view(&self) -> Seq<City> {
        self.cities@
    }
}

/// The score of one entry for the lower-case query `q`.
fn entry_score(c: &City, q: &str) -> (r: i128)
    ensures
        r == match_score(lower_of(c.name_spec()), q@),
        (edit_distance_of(lower_of(c.name_spec()), q@) == 0) == (lower_of(c.name_spec()) == q@),
{
    let lower = c.lower();
    let d = levenshtein(lower.as_str(), q);
    let p = starts_with(lower.as_str(), q);
    score(d, p)
}

impl CityCatalog {
    /// The catalog of `cities`, in their order.
    pub fn new(cities: Vec<City>) -> (r: CityCatalog)
        ensures
            r@ == cities@,
    {
        CityCatalog { cities }
    }

    /// The number of entries.
    pub fn len(&self) -> (r: usize)
        ensures
            r == self@.len(),
    {
        self.cities.len()
    }

    /// The entry at position `i`.
    pub fn city(&self, i: usize) -> (r: &City)
        requires
            i < self@.len(),
        ensures
            *r == self@[i as int],
    {
        &self.cities[i]
    }

    /// The score of every entry for the lower-case query `q`, in catalog order.
    pub fn scores(&self, q: &str) -> (r: Vec<i128>)
        ensures
            r@.map_values(|s: i128| s as int) == catalog_scores(self@, q@),
            distance_zero_iff_equal(self@, q@),
    {
        let mut r: Vec<i128> = Vec::new();
        let mut i: usize = 0;
        while i < self.cities.len()
            invariant
                i <= self@.len(),
                self@ == self.cities@,
                r@.len() == i,
                forall|j: int| 0 <= j < i ==> #[trigger] r@[j] == catalog_scores(self@, q@)[j],
                forall|j: int|
                    0 <= j < i ==> (edit_distance_of(lower_of((#[trigger] self@[j]).name_spec()), q@) == 0)
                        == (lower_of(self@[j].name_spec()) == q@),
            decreases self@.len() - i,
        {
            r.push(entry_score(&self.cities[i], q));
            i = i + 1;
        }
        assert(r@.map_values(|s: i128| s as int) =~= catalog_scores(self@, q@));
        r
    }

    /// The `k` best entries for `query`, compared in lower case, best first
    /// and ties in catalog order; each as (score, position). When some
    /// entry's name equals the query up to case and `k` is not zero, the
    /// first result is such an entry, with the lowest score there is.
    /// `EmptyQuery` for an empty query.
    pub fn top_k(&self, query: &str, k: usize) -> (r: Result<Vec<(i128, usize)>, CoreError>)
        ensures
            query@.len() == 0 <==> r == Err::<Vec<(i128, usize)>, CoreError>(CoreError::EmptyQuery),
            query@.len() != 0 ==> r is Ok,
            r matches Ok(v) ==> is_top_k(v@, catalog_scores(self@, lower_of(query@)), k as int),
            r matches Ok(v) ==> (k > 0 && has_exact_match(self@, lower_of(query@)) ==> {
                &&& v@.len() > 0
                &&& lower_of(self@[v@[0].1 as int].name_spec()) == lower_of(query@)
                &&& v@[0].0 == -PREFIX_BONUS
                &&& forall|j: int|
                    0 <= j < self@.len() ==> #[trigger] catalog_scores(self@, lower_of(query@))[j]
                        >= v@[0].0
            }),
    {
        if query.unicode_len() == 0 {
            return Err(CoreError::EmptyQuery);
        }
        let q = lowercase(query);
        let scores = self.scores(q.as_str());
        let v = top_k_of_scores(&scores, k);
        proof {
            let ql = lower_of(query@);
            let sc = catalog_scores(self@, ql);
            assert(scores@.map_values(|s: i128| s as int) == sc);
            if k > 0 && has_exact_match(self@, ql) {
                let i = choose|i: int|
                    0 <= i < self@.len() && lower_of((#[trigger] self@[i]).name_spec()) == ql;
                lemma_exact_match_scores_minimum(self@, ql, i);
                assert(v@.len() > 0);
                let b = v@[0].1 as int;
                // the first result ranks no later than the exact entry
                if !selected(v@, i) {
                    assert(ranks_before(entry(v@[0]), (sc[i], i)));
                } else {
                    let j = choose|j: int| 0 <= j < v@.len() && v@[j].1 == i;
                    if j > 0 {
                        assert(ranks_before(entry(v@[0]), entry(v@[j])));
                    }
                }
                assert(sc[b] == -PREFIX_BONUS);
                assert(edit_distance_of(lower_of(self@[b].name_spec()), ql) == 0) by {
                    assert(sc[b] == match_score(lower_of(self@[b].name_spec()), ql));
                }
            }
        }
        Ok(v)
    }

    /// The position of the best entry for `query`, the first among equals.
    /// `EmptyQuery` for an empty query, `EmptyCatalog` for a catalog without
    /// entries.
    pub fn best_match(&self, query: &str) -> (r: Result<usize, CoreError>)
        ensures
            query@.len() == 0 <==> r == Err::<usize, CoreError>(CoreError::EmptyQuery),
            query@.len() != 0 && self@.len() == 0 <==> r == Err::<usize, CoreError>(
                CoreError::EmptyCatalog,
            ),
            query@.len() != 0 && self@.len() != 0 ==> r is Ok,
            r matches Ok(i) ==> is_best(catalog_scores(self@, lower_of(query@)), i as int),
    {
        match self.top_k(query, 1) {
            Err(e) => Err(e),
            Ok(v) => {
                if v.len() == 0 {
                    Err(CoreError::EmptyCatalog)
                } else {
                    let i = v[0].1;
                    proof {
                        let sc = catalog_scores(self@, lower_of(query@));
                        assert forall|j: int| 0 <= j < sc.len() implies sc[i as int]
                            <= #[trigger] sc[j] && (j < i ==> sc[i as int] < sc[j]) by {
                            if j != i {
                                if selected(v@, j) {
                                    assert(v@[0].1 == j);
                                } else {
                                    assert(ranks_before(entry(v@[0]), (sc[j], j)));
                                }
                            }
                        }
                    }
                    Ok(i)
                }
            },
        }
    }
}

} // verus!
