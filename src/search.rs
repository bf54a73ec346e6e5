use vstd::prelude::*;

use fuzzy_matcher::skim::SkimMatcherV2;
use fuzzy_matcher::FuzzyMatcher;

use crate::commands::{category_label, Command};
use crate::text::{lower_of, lowercase};

verus! {

/// Score that a newly made default `SkimMatcherV2` gives `choice` against
/// `pattern`, `None` when `pattern` is no subsequence of `choice`.
pub uninterp spec fn skim_score(choice: Seq<char>, pattern: Seq<char>) -> Option<i64>;

/// Relies on `FuzzyMatcher::fuzzy_match` of a `SkimMatcherV2` that
/// `SkimMatcherV2::default()` makes for this one call: default scoring, smart
/// case, no element limit, and score caches that start empty, so the score
/// depends on the two strings alone. A score is an `i32` widened to `i64`.
#[verifier::external_body]
fn fuzzy_score(choice: &str, pattern: &str) -> (r: Option<i64>)
    ensures
        r == skim_score(choice@, pattern@),
        r is Some ==> i32::MIN <= r->0 <= i32::MAX,
{
    SkimMatcherV2::default().fuzzy_match(choice, pattern)
}

/// Ranks catalog items against a query with a fuzzy matcher. Each score
/// comes from a matcher of its own, so no search leaves state behind for the
/// next.
pub struct SearchEngine {}

/// A field score, multiplied by its weight.
pub open spec fn weighted(score: Option<i64>, weight: int) -> Option<int> {
    match score {
        Some(s) => Some(weight * s),
        None => None,
    }
}

/// The larger of two optional scores; a missing score loses.
pub open spec fn max_score(a: Option<int>, b: Option<int>) -> Option<int> {
    match (a, b) {
        (Some(x), Some(y)) => Some(if x >= y { x } else { y }),
        (Some(x), None) => Some(x),
        (None, Some(y)) => Some(y),
        (None, None) => None,
    }
}

/// Raw fuzzy score of the description against the case-folded query.
pub open spec fn description_score(c: Command, query: Seq<char>) -> Option<i64> {
    skim_score(lower_of(c.description@), lower_of(query))
}

/// Raw fuzzy score of the notation against the case-folded query.
pub open spec fn notation_score(c: Command, query: Seq<char>) -> Option<i64> {
    skim_score(lower_of(c.keys@), lower_of(query))
}

/// Raw fuzzy score of the category label against the case-folded query.
pub open spec fn category_score(c: Command, query: Seq<char>) -> Option<i64> {
    skim_score(lower_of(category_label(c.category)), lower_of(query))
}

/// The best of the description score x3, the notation score x2 and the
/// category score x1; `None` when no field matches.
pub open spec fn aggregate(
    description: Option<i64>,
    notation: Option<i64>,
    category: Option<i64>,
) -> Option<int> {
    max_score(
        max_score(weighted(description, 3), weighted(notation, 2)),
        weighted(category, 1),
    )
}

/// Score of an item against a query.
pub open spec fn command_score(c: Command, query: Seq<char>) -> Option<int> {
    aggregate(description_score(c, query), notation_score(c, query), category_score(c, query))
}

/// A raw field score as the matcher gives it: an `i32` widened.
pub open spec fn in_score_range(s: Option<i64>) -> bool {
    s is Some ==> i32::MIN <= s->0 <= i32::MAX
}

/// Score of an item from its three raw field scores: the best of the
/// description x3, the notation x2 and the category x1; `None` when no field
/// matches.
pub fn aggregate_score(description: Option<i64>, notation: Option<i64>, category: Option<i64>) -> (r:
    Option<i64>)
    requires
        in_score_range(description),
        in_score_range(notation),
        in_score_range(category),
    ensures
        r is Some <==> aggregate(description, notation, category) is Some,
        r is Some ==> r->0 == aggregate(description, notation, category)->0,
{
    let mut best: Option<i64> = match description {
        Some(s) => Some(weigh(s, 3)),
        None => None,
    };
    match notation {
        Some(s) => {
            let w = weigh(s, 2);
            best = match best {
                Some(b) => Some(if b >= w { b } else { w }),
                None => Some(w),
            };
        },
        None => {},
    }
    match category {
        Some(s) => {
            let w = weigh(s, 1);
            best = match best {
                Some(b) => Some(if b >= w { b } else { w }),
                None => Some(w),
            };
        },
        None => {},
    }
    best
}

/// A raw score times its weight.
fn weigh(s: i64, weight: i64) -> (r: i64)
    requires
        i32::MIN <= s <= i32::MAX,
        1 <= weight <= 3,
    ensures
        r == weight * s,
{
    assert(-3 * 0x8000_0000 <= s * weight <= 3 * 0x7fff_ffff) by (nonlinear_arith)
        requires
            i32::MIN <= s <= i32::MAX,
            1 <= weight <= 3,
    ;
    s * weight
}

/// `a` comes before `b`: a higher score, or the same score and an earlier item.
pub open spec fn ranks_before(a: (usize, i64), b: (usize, i64)) -> bool {
    a.1 > b.1 || (a.1 == b.1 && a.0 < b.0)
}

/// `r` lists every matching item once, as (catalog index, score), best first,
/// ties in catalog order; for an empty query, every item with score 0 in
/// catalog order.
pub open spec fn is_ranking(cmds: Seq<Command>, query: Seq<char>, r: Seq<(usize, i64)>) -> bool {
    if query.len() == 0 {
        &&& r.len() == cmds.len()
        &&& forall|k: int| 0 <= k < r.len() ==> #[trigger] r[k] == (k as usize, 0i64)
    } else {
        &&& forall|k: int|
            0 <= k < r.len() ==> (#[trigger] r[k]).0 < cmds.len() && command_score(
                cmds[r[k].0 as int],
                query,
            ) == Some(r[k].1 as int)
        &&& forall|i: int|
            0 <= i < cmds.len() && (#[trigger] command_score(cmds[i], query)) is Some ==> exists|
                k: int,
            |
                0 <= k < r.len() && (#[trigger] r[k]).0 == i
        &&& forall|k1: int, k2: int|
            0 <= k1 < k2 < r.len() ==> ranks_before(#[trigger] r[k1], #[trigger] r[k2])
    }
}

/// An item whose description matches the query with raw score `s >= 0`
/// scores at least as high as an item that matches only on its notation or
/// its category, with raw scores no higher than `s`; it ranks above that item
/// when `s > 0`, or when it comes first in the catalog.
pub proof fn lemma_description_outranks(
    cmds: Seq<Command>,
    query: Seq<char>,
    r: Seq<(usize, i64)>,
    ka: int,
    kb: int,
    s: i64,
)
    requires
        query.len() > 0,
        is_ranking(cmds, query, r),
        0 <= ka < r.len(),
        0 <= kb < r.len(),
        ka != kb,
        s >= 0,
        description_score(cmds[r[ka].0 as int], query) == Some(s),
        description_score(cmds[r[kb].0 as int], query) is None,
        notation_score(cmds[r[kb].0 as int], query) is Some ==> notation_score(
            cmds[r[kb].0 as int],
            query,
        )->0 <= s,
        category_score(cmds[r[kb].0 as int], query) is Some ==> category_score(
            cmds[r[kb].0 as int],
            query,
        )->0 <= s,
    ensures
        r[ka].1 >= r[kb].1,
        s > 0 || r[ka].0 < r[kb].0 ==> ka < kb,
{
    assert(r[ka].1 >= r[kb].1);
    if kb < ka {
        assert(ranks_before(r[kb], r[ka]));
        if s > 0 {
            assert(r[ka].1 >= 3 * s);
            assert(r[kb].1 <= 2 * s);
        }
    }
}

proof fn lemma_rankings_agree_at(
    cmds: Seq<Command>,
    query: Seq<char>,
    r1: Seq<(usize, i64)>,
    r2: Seq<(usize, i64)>,
    k: int,
)
    requires
        query.len() > 0,
        is_ranking(cmds, query, r1),
        is_ranking(cmds, query, r2),
        0 <= k < r1.len(),
        k < r2.len(),
        forall|j: int| 0 <= j < k ==> r1[j] == r2[j],
    ensures
        r1[k] == r2[k],
{
    let x = r1[k];
    let y = r2[k];
    assert(command_score(cmds[x.0 as int], query) is Some);
    let k2 = choose|k2: int| 0 <= k2 < r2.len() && (#[trigger] r2[k2]).0 == x.0;
    assert(r2[k2] == x);
    assert(command_score(cmds[y.0 as int], query) is Some);
    let k1 = choose|k1: int| 0 <= k1 < r1.len() && (#[trigger] r1[k1]).0 == y.0;
    assert(r1[k1] == y);
    if k2 < k {
        assert(ranks_before(r1[k2], r1[k]));
    }
    if k1 < k {
        assert(ranks_before(r2[k1], r2[k]));
    }
    if k2 > k && k1 > k {
        assert(ranks_before(r2[k], r2[k2]));
        assert(ranks_before(r1[k], r1[k1]));
    }
}

proof fn lemma_rankings_agree_upto(
    cmds: Seq<Command>,
    query: Seq<char>,
    r1: Seq<(usize, i64)>,
    r2: Seq<(usize, i64)>,
    n: int,
)
    requires
        query.len() > 0,
        is_ranking(cmds, query, r1),
        is_ranking(cmds, query, r2),
        0 <= n <= r1.len(),
        n <= r2.len(),
    ensures
        forall|j: int| 0 <= j < n ==> r1[j] == r2[j],
    decreases n,
{
    if n > 0 {
        lemma_rankings_agree_upto(cmds, query, r1, r2, n - 1);
        lemma_rankings_agree_at(cmds, query, r1, r2, n - 1);
    }
}

proof fn lemma_ranking_not_longer(
    cmds: Seq<Command>,
    query: Seq<char>,
    r1: Seq<(usize, i64)>,
    r2: Seq<(usize, i64)>,
)
    requires
        query.len() > 0,
        is_ranking(cmds, query, r1),
        is_ranking(cmds, query, r2),
        forall|j: int| 0 <= j < r2.len() && j < r1.len() ==> r1[j] == r2[j],
    ensures
        r1.len() <= r2.len(),
{
    if r1.len() > r2.len() {
        let m = r2.len() as int;
        let x = r1[m];
        assert(command_score(cmds[x.0 as int], query) is Some);
        let k2 = choose|k2: int| 0 <= k2 < r2.len() && (#[trigger] r2[k2]).0 == x.0;
        assert(r1[k2] == r2[k2]);
        assert(ranks_before(r1[k2], r1[m]));
    }
}

/// A catalog has one ranking for a query: ranking is deterministic, and
/// repeated runs on the same catalog and query give the same results.
pub proof fn lemma_ranking_unique(
    cmds: Seq<Command>,
    query: Seq<char>,
    r1: Seq<(usize, i64)>,
    r2: Seq<(usize, i64)>,
)
    requires
        is_ranking(cmds, query, r1),
        is_ranking(cmds, query, r2),
    ensures
        r1 == r2,
{
    if query.len() == 0 {
        assert(r1 =~= r2);
    } else {
        let n = if r1.len() <= r2.len() {
            r1.len() as int
        } else {
            r2.len() as int
        };
        lemma_rankings_agree_upto(cmds, query, r1, r2, n);
        lemma_ranking_not_longer(cmds, query, r1, r2);
        lemma_ranking_not_longer(cmds, query, r2, r1);
        assert(r1 =~= r2);
    }
}

impl Default for SearchEngine {
    fn default() -> Self {
        Self::new()
    }
}

impl SearchEngine {
    pub fn new() -> Self {
        Self {}
    }

    /// Raw score of one field, case-folded, against the case-folded query.
    fn field_score(&self, field: &str, query_lower: &str) -> (r: Option<i64>)
        ensures
            r == skim_score(lower_of(field@), query_lower@),
            in_score_range(r),
    {
        let lower = lowercase(field);
        fuzzy_score(lower.as_str(), query_lower)
    }

    /// Score of one item against the case-folded query.
    fn score_of(&self, cmd: &Command, query: &str, query_lower: &str) -> (r: Option<i64>)
        requires
            query_lower@ == lower_of(query@),
        ensures
            r is Some <==> command_score(*cmd, query@) is Some,
            r is Some ==> r->0 == command_score(*cmd, query@)->0,
    {
        let description = self.field_score(cmd.description.as_str(), query_lower);
        let notation = self.field_score(cmd.keys.as_str(), query_lower);
        let category = self.field_score(cmd.category.as_str(), query_lower);
        aggregate_score(description, notation, category)
    }

    /// Ranks the catalog against the query: (catalog index, score) pairs,
    /// best first, ties in catalog order. An empty query lists every item
    /// with score 0.
    pub fn rank(&self, commands: &[Command], query: &str) -> (r: Vec<(usize, i64)>)
        ensures
            is_ranking(commands@, query@, r@),
    {
        let mut results: Vec<(usize, i64)> = Vec::new();
        if query.is_empty() {
            let mut i: usize = 0;
            while i < commands.len()
                invariant
                    i <= commands@.len(),
                    results@.len() == i,
                    forall|k: int| 0 <= k < i ==> #[trigger] results@[k] == (k as usize, 0i64),
                decreases commands.len() - i,
            {
                results.push((i, 0));
                i = i + 1;
            }
            return results;
        }
        let query_lower = lowercase(query);
        let mut i: usize = 0;
        while i < commands.len()
            invariant
                query@.len() > 0,
                query_lower@ == lower_of(query@),
                i <= commands@.len(),
                forall|k: int|
                    0 <= k < results@.len() ==> (#[trigger] results@[k]).0 < i && command_score(
                        commands@[results@[k].0 as int],
                        query@,
                    ) == Some(results@[k].1 as int),
                forall|j: int|
                    0 <= j < i && (#[trigger] command_score(commands@[j], query@)) is Some ==> exists|
                        k: int,
                    |
                        0 <= k < results@.len() && (#[trigger] results@[k]).0 == j,
                forall|k1: int, k2: int|
                    0 <= k1 < k2 < results@.len() ==> ranks_before(
                        #[trigger] results@[k1],
                        #[trigger] results@[k2],
                    ),
            decreases commands.len() - i,
        {
            match self.score_of(&commands[i], query, query_lower.as_str()) {
                Some(score) => {
                    let ghost old_results = results@;
                    let p = insertion_point(&results, score);
                    results.insert(p, (i, score));
                    assert forall|j: int|
                        0 <= j < i + 1 && (#[trigger] command_score(
                            commands@[j],
                            query@,
                        )) is Some implies exists|k: int|
                        0 <= k < results@.len() && (#[trigger] results@[k]).0 == j by {
                        if j == i {
                            assert(results@[p as int].0 == j);
                        } else {
                            let k = choose|k: int|
                                0 <= k < old_results.len() && (#[trigger] old_results[k]).0 == j;
                            if k < p {
                                assert(results@[k].0 == j);
                            } else {
                                assert(results@[k + 1].0 == j);
                            }
                        }
                    }
                    assert forall|k1: int, k2: int|
                        0 <= k1 < k2 < results@.len() implies ranks_before(
                        #[trigger] results@[k1],
                        #[trigger] results@[k2],
                    ) by {
                        if k2 < p {
                            assert(ranks_before(old_results[k1], old_results[k2]));
                        } else if k2 == p {
                            assert(old_results[k1].1 >= score);
                        } else if k1 == p {
                            assert(old_results[k2 - 1].1 < score) by {
                                if k2 - 1 > p {
                                    assert(ranks_before(old_results[p as int], old_results[k2 - 1]));
                                }
                            }
                        } else if k1 < p {
                            assert(ranks_before(old_results[k1], old_results[k2 - 1]));
                        } else {
                            assert(ranks_before(old_results[k1 - 1], old_results[k2 - 1]));
                        }
                    }
                },
                None => {},
            }
            i = i + 1;
        }
        results
    }

    /// Searches the catalog: the matching items with their scores, best
    /// first, ties in catalog order; every item with score 0 for an empty
    /// query.
    pub fn search<'a>(&self, commands: &'a [Command], query: &str) -> (r: Vec<(&'a Command, i64)>)
        ensures
            exists|ranked: Seq<(usize, i64)>|
                {
                    &&& is_ranking(commands@, query@, ranked)
                    &&& r@.len() == ranked.len()
                    &&& forall|k: int|
                        0 <= k < ranked.len() ==> *(#[trigger] r@[k]).0 == commands@[ranked[k].0 as int]
                            && r@[k].1 == ranked[k].1
                },
    {
        let ranked = self.rank(commands, query);
        let mut out: Vec<(&'a Command, i64)> = Vec::new();
        let mut k: usize = 0;
        while k < ranked.len()
            invariant
                is_ranking(commands@, query@, ranked@),
                k <= ranked@.len(),
                out@.len() == k,
                forall|j: int|
                    0 <= j < k ==> *(#[trigger] out@[j]).0 == commands@[ranked@[j].0 as int]
                        && out@[j].1 == ranked@[j].1,
            decreases ranked.len() - k,
        {
            let (idx, score) = ranked[k];
            proof {
                if query@.len() == 0 {
                    assert(ranked@[k as int] == (k, 0i64));
                } else {
                    assert(ranked@[k as int].0 < commands@.len());
                }
            }
            out.push((&commands[idx], score));
            k = k + 1;
        }
        out
    }
}

/// Position at which an entry of the given score goes into a ranked list
/// so that the list stays ranked: after every entry scoring at least as much.
fn insertion_point(results: &Vec<(usize, i64)>, score: i64) -> (p: usize)
    requires
        forall|k1: int, k2: int|
            0 <= k1 < k2 < results@.len() ==> ranks_before(
                #[trigger] results@[k1],
                #[trigger] results@[k2],
            ),
    ensures
        p <= results@.len(),
        forall|k: int| 0 <= k < p ==> #[trigger] results@[k].1 >= score,
        p < results@.len() ==> results@[p as int].1 < score,
{
    let mut p: usize = 0;
    while p < results.len() && results[p].1 >= score
        invariant
            p <= results@.len(),
            forall|k: int| 0 <= k < p ==> #[trigger] results@[k].1 >= score,
        decreases results.len() - p,
    {
        p = p + 1;
    }
    p
}

} // verus!
