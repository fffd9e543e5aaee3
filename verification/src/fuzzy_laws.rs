//! What the palette's fuzzy score means: which texts match a query, and how high a match can
//! score.

use crate::palette::{fuzzy, lemma_walk_bounds, lower_text, walk};
use crate::text::{contains, starts_with};
use vstd::prelude::*;

verus! {

/// `f` places the characters of `q` in `t` in order: `q[j]` at `t[f[j]]`, at increasing
/// positions.
pub open spec fn embeds(q: Seq<char>, t: Seq<char>, f: Seq<int>) -> bool {
    &&& f.len() == q.len()
    &&& forall|j: int| 0 <= j < f.len() ==> 0 <= #[trigger] f[j] < t.len() && t[f[j]] == q[j]
    &&& forall|i: int, j: int| 0 <= i < j < f.len() ==> #[trigger] f[i] < #[trigger] f[j]
}

/// `q` is a subsequence of `t`: its characters occur in `t` in order.
pub open spec fn is_subsequence(q: Seq<char>, t: Seq<char>) -> bool {
    exists|f: Seq<int>| embeds(q, t, f)
}

proof fn lemma_walk_grows(q: Seq<char>, t: Seq<char>, k: nat)
    requires
        0 < k <= t.len(),
    ensures
        walk(q, t, (k - 1) as nat).0 <= walk(q, t, k).0,
{
}

proof fn lemma_walk_mono(q: Seq<char>, t: Seq<char>, j: nat, k: nat)
    requires
        j <= k <= t.len(),
    ensures
        walk(q, t, j).0 <= walk(q, t, k).0,
    decreases k - j,
{
    if j < k {
        lemma_walk_mono(q, t, j, (k - 1) as nat);
        lemma_walk_grows(q, t, k);
    }
}

/// The matches the walk made: the first `walk(q, t, k).0` characters of `q`, placed in order
/// before `k`.
proof fn lemma_walk_witness(q: Seq<char>, t: Seq<char>, k: nat) -> (f: Seq<int>)
    requires
        k <= t.len(),
    ensures
        embeds(q.take(walk(q, t, k).0 as int), t, f),
        forall|j: int| 0 <= j < f.len() ==> #[trigger] f[j] < k,
    decreases k,
{
    lemma_walk_bounds(q, t, k);
    if k == 0 {
        Seq::<int>::empty()
    } else {
        let f0 = lemma_walk_witness(q, t, (k - 1) as nat);
        lemma_walk_bounds(q, t, (k - 1) as nat);
        let qi = walk(q, t, (k - 1) as nat).0;
        if qi < q.len() && t[k - 1] == q[qi as int] {
            let f = f0.push(k - 1);
            assert forall|j: int| 0 <= j < f.len() implies 0 <= #[trigger] f[j] < t.len() && t[f[j]] == q.take(
                (qi + 1) as int,
            )[j] by {
                if j < f0.len() {
                    assert(f[j] == f0[j]);
                    assert(q.take(qi as int)[j] == q[j]);
                }
            }
            assert forall|i: int, j: int| 0 <= i < j < f.len() implies #[trigger] f[i] < #[trigger] f[j] by {
                if j < f0.len() {
                    assert(f[i] == f0[i] && f[j] == f0[j]);
                } else {
                    assert(f[i] == f0[i]);
                }
            }
            f
        } else {
            f0
        }
    }
}

/// The walk matches at least the first `m` characters of `q` by `k` when some placement of
/// `q` in `t` puts those `m` before `k`.
proof fn lemma_walk_complete(q: Seq<char>, t: Seq<char>, f: Seq<int>, k: nat, m: nat)
    requires
        embeds(q, t, f),
        k <= t.len(),
        m <= q.len(),
        m == 0 || f[m - 1] < k,
    ensures
        walk(q, t, k).0 >= m,
    decreases k,
{
    if m > 0 && k > 0 {
        let k1 = (k - 1) as nat;
        if f[m - 1] < k1 {
            lemma_walk_complete(q, t, f, k1, m);
            lemma_walk_grows(q, t, k);
        } else {
            assert(f[m - 1] == k1);
            if m >= 2 {
                assert(f[m - 2] < f[m - 1]);
            }
            lemma_walk_complete(q, t, f, k1, (m - 1) as nat);
            lemma_walk_grows(q, t, k);
            lemma_walk_bounds(q, t, k1);
            assert(t[k1 as int] == q[m - 1]);
        }
    } else if m > 0 {
        assert(0 <= f[m - 1]);
    }
}

/// A text is listed for a query exactly when the query's characters all occur in the text, in
/// order, ignoring case (or the query is empty): `fuzzy` is `Some` exactly for subsequences of
/// the lower-cased text, so `connect` does not list `Close tab`.
pub proof fn law_fuzzy_subsequence(query: Seq<char>, text: Seq<char>)
    ensures
        fuzzy(query, text) is Some <==> (query.len() == 0 || is_subsequence(lower_text(query), lower_text(text))),
{
    if query.len() > 0 {
        let q = lower_text(query);
        let t = lower_text(text);
        lemma_walk_bounds(q, t, t.len());
        if walk(q, t, t.len()).0 == q.len() {
            let f = lemma_walk_witness(q, t, t.len());
            assert(q.take(q.len() as int) =~= q);
            assert(embeds(q, t, f));
        }
        if is_subsequence(q, t) {
            let f = choose|f: Seq<int>| embeds(q, t, f);
            if q.len() > 0 {
                assert(0 <= f[q.len() - 1] < t.len());
            }
            lemma_walk_complete(q, t, f, t.len(), q.len());
        }
    }
}

proof fn lemma_walk_prefix(q: Seq<char>, t: Seq<char>, k: nat)
    requires
        0 < q.len() <= t.len(),
        t.take(q.len() as int) == q,
        k <= t.len(),
    ensures
        k <= q.len() ==> walk(q, t, k) == (k, k - 1, if k == 0 {
            0int
        } else {
            4 + 5 * (k - 1)
        }),
        k > q.len() ==> walk(q, t, k) == (q.len(), q.len() - 1, 4 + 5 * (q.len() - 1)),
    decreases k,
{
    if k > 0 {
        lemma_walk_prefix(q, t, (k - 1) as nat);
        if k <= q.len() {
            assert(t[k - 1] == t.take(q.len() as int)[k - 1]);
        }
    }
}

/// A text that starts with the query (ignoring case) scores the most a match of that query can
/// score: every character matched in a run from the start (4 for the first, at a word start,
/// then 5 each), plus 20 for containing the query and 30 for starting with it.
pub proof fn law_fuzzy_prefix(query: Seq<char>, text: Seq<char>)
    requires
        lower_text(query).len() > 0,
        query.len() > 0,
        starts_with(lower_text(text), lower_text(query)),
    ensures
        fuzzy(query, text) == Some(4 + 5 * (lower_text(query).len() - 1) + 20 + 30),
{
    let q = lower_text(query);
    let t = lower_text(text);
    assert(t.subrange(0, q.len() as int) =~= t.take(q.len() as int));
    lemma_walk_prefix(q, t, t.len());
    assert(crate::text::matches_at(t, q, 0));
}

/// No match of a query scores more than one that starts the text: the score of any text is at
/// most what a text starting with the query gets.
pub proof fn law_fuzzy_score_bounds(query: Seq<char>, text: Seq<char>)
    requires
        query.len() > 0,
        lower_text(query).len() > 0,
    ensures
        fuzzy(query, text) matches Some(s) ==> lower_text(query).len() <= s - (if contains(
            lower_text(text),
            lower_text(query),
        ) {
            20int
        } else {
            0
        }) - (if starts_with(lower_text(text), lower_text(query)) {
            30int
        } else {
            0
        }) <= 4 + 5 * (lower_text(query).len() - 1),
{
    let q = lower_text(query);
    let t = lower_text(text);
    if walk(q, t, t.len()).0 == q.len() && q.len() > 0 {
        lemma_walk_score(q, t, t.len());
    }
}

/// Each match adds 1 to 5, and the first at most 4.
proof fn lemma_walk_score(q: Seq<char>, t: Seq<char>, k: nat)
    requires
        k <= t.len(),
    ensures
        walk(q, t, k).0 <= walk(q, t, k).2,
        walk(q, t, k).0 > 0 ==> walk(q, t, k).2 <= 4 + 5 * (walk(q, t, k).0 - 1),
        walk(q, t, k).0 == 0 ==> walk(q, t, k).2 == 0 && walk(q, t, k).1 == -1,
        walk(q, t, k).0 > 0 ==> walk(q, t, k).1 >= 0,
    decreases k,
{
    if k > 0 {
        lemma_walk_score(q, t, (k - 1) as nat);
    }
}

} // verus!
