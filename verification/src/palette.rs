//! The command palette: what its query asks for, a fuzzy, case-insensitive subsequence score,
//! the order in which matches are listed, and moving the selection.

use crate::catalog::ObjectRef;
use crate::ids::ProfileId;
use crate::text::{ascii_lower, chars_of, contains, contains_exec, eq_ignore_case, starts_with, starts_with_str, trim, trim_chars};
use vstd::prelude::*;

verus! {

broadcast use vstd::string::group_string_axioms;

/// `str::to_lowercase` (Unicode lower-casing).
pub uninterp spec fn lower_text(s: Seq<char>) -> Seq<char>;

/// `char::is_alphanumeric` (Unicode alphabetic or numeric).
pub uninterp spec fn alnum(c: char) -> bool;

/// `str::to_lowercase`: the text named [`lower_text`].
#[verifier::external_body]
pub(crate) fn to_lowercase_text(s: &str) -> (r: String)
    ensures
        r@ == lower_text(s@),
{
    s.to_lowercase()
}

/// `char::is_alphanumeric`: the answer named [`alnum`].
#[verifier::external_body]
fn is_alnum(c: char) -> (r: bool)
    ensures
        r == alnum(c),
{
    c.is_alphanumeric()
}

/// The walk over the first `k` characters of `t`, matching `q` in order: how much of `q` has
/// matched, where the last match was (-1 for none), and the score so far. A match right after
/// the previous one scores 5, one at a word start 4, any other 1.
pub open spec fn walk(q: Seq<char>, t: Seq<char>, k: nat) -> (nat, int, int)
    decreases k,
{
    if k == 0 || k > t.len() {
        (0, -1, 0)
    } else {
        let (qi, last, score) = walk(q, t, (k - 1) as nat);
        let i = k - 1;
        if qi < q.len() && t[i] == q[qi as int] {
            let inc = if last >= 0 && i == last + 1 {
                5int
            } else if i == 0 || !alnum(t[i - 1]) {
                4
            } else {
                1
            };
            (qi + 1, i, score + inc)
        } else {
            (qi, last, score)
        }
    }
}

/// The score of `text` for `query`: `None` when the query's characters do not all occur in
/// order; a whole-substring match adds 20 and a prefix match 30 more.
pub open spec fn fuzzy(query: Seq<char>, text: Seq<char>) -> Option<int> {
    if query.len() == 0 {
        Some(0)
    } else {
        let q = lower_text(query);
        let t = lower_text(text);
        let (qi, _, score) = walk(q, t, t.len());
        if qi == q.len() {
            Some(score + (if contains(t, q) { 20int } else { 0 }) + (if starts_with(t, q) { 30int } else { 0 }))
        } else {
            None
        }
    }
}

pub proof fn lemma_walk_bounds(q: Seq<char>, t: Seq<char>, k: nat)
    requires
        k <= t.len(),
    ensures
        walk(q, t, k).0 <= q.len(),
        walk(q, t, k).0 <= k,
        -1 <= walk(q, t, k).1 < k,
        0 <= walk(q, t, k).2 <= 5 * k,
    decreases k,
{
    if k > 0 {
        lemma_walk_bounds(q, t, (k - 1) as nat);
    }
}

/// Longest lower-cased text that is scored.
pub const MAX_SCORED: usize = 400_000_000;

/// The palette score of `text` for `query`.
pub fn fuzzy_score(query: &str, text: &str) -> (r: Option<i32>)
    requires
        lower_text(text@).len() <= MAX_SCORED,
    ensures
        match fuzzy(query@, text@) {
            Some(s) => r == Some(s as i32),
            None => r is None,
        },
{
    if query.is_empty() {
        return Some(0);
    }
    let ql = to_lowercase_text(query);
    let tl = to_lowercase_text(text);
    let q = chars_of(ql.as_str());
    let t = chars_of(tl.as_str());
    let mut score: i32 = 0;
    let mut qi: usize = 0;
    let mut last: usize = usize::MAX;
    let mut i: usize = 0;
    while i < t.len()
        invariant
            i <= t.len(),
            t@ == lower_text(text@),
            q@ == lower_text(query@),
            t.len() <= MAX_SCORED,
            walk(q@, t@, i as nat) == (qi as nat, if last == usize::MAX { -1int } else { last as int }, score as int),
            last == usize::MAX || last < i,
        decreases t.len() - i,
    {
        proof {
            lemma_walk_bounds(q@, t@, i as nat);
        }
        if qi < q.len() && t[i] == q[qi] {
            let inc: i32 = if last != usize::MAX && i == last + 1 {
                5
            } else if i == 0 || !is_alnum(t[i - 1]) {
                4
            } else {
                1
            };
            score = score + inc;
            last = i;
            qi = qi + 1;
        }
        i = i + 1;
    }
    proof {
        lemma_walk_bounds(q@, t@, t.len() as nat);
    }
    if qi == q.len() {
        if contains_exec(&t, &q) {
            score = score + 20;
        }
        if crate::text::matches_at_exec(&t, &q, 0) {
            score = score + 30;
        }
        Some(score)
    } else {
        None
    }
}

/// The palette score of `text` for `query`, or `None` when `text` is too long to score.
pub fn fuzzy_rank(query: &str, text: &str) -> (r: Option<Option<i32>>)
    ensures
        match r {
            Some(x) => match fuzzy(query@, text@) {
                Some(s) => x == Some(s as i32),
                None => x is None,
            },
            None => lower_text(text@).len() > MAX_SCORED,
        },
{
    let tl = to_lowercase_text(text);
    if chars_of(tl.as_str()).len() > MAX_SCORED {
        return None;
    }
    Some(fuzzy_score(query, text))
}

// ---------------------------------------------------------------------------------------------
// Listing

/// What the palette offers. `C` is the application's command type.
#[derive(Clone, Debug)]
pub enum PaletteItem<C> {
    Command(C),
    Connect(ProfileId),
    Open(ProfileId, String),
    /// A table/view/procedure known to the catalog cache (Go to Object).
    Object(ProfileId, ObjectRef),
}

/// At most this many matches are listed.
pub const MAX_LISTED: usize = 40;

/// How the palette reads its query: `#name` looks for catalog objects matching `name`
/// (trimmed); anything else looks for commands and connections. Returns whether it is an
/// object search, and the text to match.
pub fn palette_query(query: &str) -> (r: (bool, String))
    ensures
        r.0 == (query@.len() > 0 && query@[0] == '#'),
        r.1@ == if r.0 {
            trim(query@.skip(1))
        } else {
            query@
        },
{
    let v = chars_of(query);
    if v.len() > 0 && v[0] == '#' {
        let rest = crate::text::slice(&v, 1, v.len());
        assert(rest@ =~= query@.skip(1));
        let t = trim_chars(&rest);
        (true, crate::text::string_of(&t))
    } else {
        (false, query.to_string())
    }
}

/// `a` sorts before `b` as strings: by characters, which is the order of their UTF-8 bytes.
pub open spec fn text_lt(a: Seq<char>, b: Seq<char>) -> bool
    decreases a.len(),
{
    if a.len() == 0 {
        b.len() > 0
    } else if b.len() == 0 {
        false
    } else if a[0] != b[0] {
        a[0] < b[0]
    } else {
        text_lt(a.skip(1), b.skip(1))
    }
}

proof fn lemma_text_lt_total(a: Seq<char>, b: Seq<char>)
    ensures
        text_lt(a, b) || text_lt(b, a) || a == b,
    decreases a.len(),
{
    if a.len() == 0 {
        if b.len() == 0 {
            assert(a =~= b);
        }
    } else if b.len() > 0 && a[0] != b[0] {
    } else if b.len() > 0 {
        lemma_text_lt_total(a.skip(1), b.skip(1));
        if a.skip(1) == b.skip(1) {
            assert(a.skip(1).len() == a.len() - 1);
            assert(b.skip(1).len() == b.len() - 1);
            assert(a.len() == b.len());
            assert forall|k: int| 0 <= k < a.len() implies a[k] == b[k] by {
                if k > 0 {
                    assert(a[k] == a.skip(1)[k - 1]);
                    assert(b[k] == b.skip(1)[k - 1]);
                }
            }
            assert(a =~= b);
        }
    }
}

proof fn lemma_text_lt_trans(a: Seq<char>, b: Seq<char>, c: Seq<char>)
    requires
        text_lt(a, b),
        text_lt(b, c),
    ensures
        text_lt(a, c),
    decreases a.len(),
{
    if a.len() > 0 && b.len() > 0 && c.len() > 0 && a[0] == b[0] && b[0] == c[0] {
        lemma_text_lt_trans(a.skip(1), b.skip(1), c.skip(1));
    }
}

/// String order, computed.
fn text_less(a: &str, b: &str) -> (r: bool)
    ensures
        r == text_lt(a@, b@),
{
    let va = chars_of(a);
    let vb = chars_of(b);
    let mut i: usize = 0;
    assert(va@.skip(0) =~= va@);
    assert(vb@.skip(0) =~= vb@);
    while i < va.len() && i < vb.len() && va[i] == vb[i]
        invariant
            i <= va.len(),
            i <= vb.len(),
            text_lt(va@, vb@) == text_lt(va@.skip(i as int), vb@.skip(i as int)),
        decreases va.len() - i,
    {
        assert(va@.skip(i as int).skip(1) =~= va@.skip(i + 1));
        assert(vb@.skip(i as int).skip(1) =~= vb@.skip(i + 1));
        i = i + 1;
    }
    if i == va.len() {
        i < vb.len()
    } else if i == vb.len() {
        false
    } else {
        va[i] < vb[i]
    }
}

/// A listed match: its score, item, text and detail.
pub type PaletteEntry<T> = (i32, T, String, String);

/// `a` ranks above `b`: a higher score, or the same score and a smaller text.
pub open spec fn ranks_before<T>(a: PaletteEntry<T>, b: PaletteEntry<T>) -> bool {
    a.0 > b.0 || (a.0 == b.0 && text_lt(a.2@, b.2@))
}

proof fn lemma_ranks_tie<T>(a: PaletteEntry<T>, b: PaletteEntry<T>)
    requires
        !ranks_before(a, b),
        !ranks_before(b, a),
    ensures
        a.0 == b.0,
        a.2@ == b.2@,
{
    lemma_text_lt_total(a.2@, b.2@);
}

proof fn lemma_ranks_trans<T>(a: PaletteEntry<T>, b: PaletteEntry<T>, c: PaletteEntry<T>)
    requires
        ranks_before(a, b),
        ranks_before(b, c),
    ensures
        ranks_before(a, c),
{
    if a.0 == b.0 && b.0 == c.0 {
        lemma_text_lt_trans(a.2@, b.2@, c.2@);
    }
}

fn ranks_before_exec<T>(a: &PaletteEntry<T>, b: &PaletteEntry<T>) -> (r: bool)
    ensures
        r == ranks_before(*a, *b),
{
    a.0 > b.0 || (a.0 == b.0 && text_less(a.2.as_str(), b.2.as_str()))
}

/// Entry `i` of `s` is listed before entry `j`: it ranks above it, or they tie and `i` came
/// first.
pub open spec fn listed_before<T>(s: Seq<PaletteEntry<T>>, i: int, j: int) -> bool {
    ranks_before(s[i], s[j]) || (!ranks_before(s[j], s[i]) && i < j)
}

/// `p` lists every index of `s` once, in the palette's order.
pub open spec fn is_listing<T>(s: Seq<PaletteEntry<T>>, p: Seq<int>) -> bool {
    &&& p.len() == s.len()
    &&& forall|k: int| 0 <= k < p.len() ==> 0 <= #[trigger] p[k] < s.len()
    &&& forall|k: int, l: int| 0 <= k < l < p.len() ==> #[trigger] p[k] != #[trigger] p[l]
    &&& forall|k: int, l: int|
        0 <= k < l < p.len() ==> listed_before(s, #[trigger] p[k], #[trigger] p[l])
}

/// The matches in the order the palette lists them (by score, highest first, then by text;
/// ties keep their order), and no more than [`MAX_LISTED`] of them.
pub fn rank_entries<T>(entries: Vec<PaletteEntry<T>>) -> (r: Vec<PaletteEntry<T>>)
    ensures
        r.len() == if entries.len() < MAX_LISTED {
            entries.len()
        } else {
            MAX_LISTED
        },
        exists|p: Seq<int>|
            is_listing(entries@, p) && forall|k: int|
                0 <= k < r.len() ==> #[trigger] r@[k] == entries@[p[k]],
{
    let ghost s = entries@;
    let n = entries.len();
    let mut rest = entries;
    let mut out: Vec<PaletteEntry<T>> = Vec::new();
    let ghost mut p: Seq<int> = Seq::empty();
    let mut i: usize = 0;
    assert(s.skip(0) =~= s);
    while i < n
        invariant
            n == s.len(),
            i <= n,
            rest@ == s.skip(i as int),
            out.len() == i,
            p.len() == i,
            forall|k: int| 0 <= k < i ==> 0 <= #[trigger] p[k] < i,
            forall|k: int| 0 <= k < i ==> #[trigger] out@[k] == s[p[k]],
            forall|k: int, l: int| 0 <= k < l < i ==> #[trigger] p[k] != #[trigger] p[l],
            forall|k: int, l: int| 0 <= k < l < i ==> listed_before(s, #[trigger] p[k], #[trigger] p[l]),
        decreases n - i,
    {
        assert(rest@[0] == s[i as int]);
        let x = rest.remove(0);
        assert(rest@ =~= s.skip(i + 1));
        let mut pos: usize = 0;
        while pos < out.len() && !ranks_before_exec(&x, &out[pos])
            invariant
                pos <= out.len(),
                forall|m: int| 0 <= m < pos ==> !ranks_before(x, #[trigger] out@[m]),
            decreases out.len() - pos,
        {
            pos = pos + 1;
        }
        let ghost old_out = out@;
        let ghost old_p = p;
        proof {
            if pos < out.len() {
                assert forall|l: int| pos <= l < old_out.len() implies ranks_before(x, #[trigger] old_out[l]) by {
                    if l > pos {
                        assert(listed_before(s, old_p[pos as int], old_p[l]));
                        if ranks_before(old_out[pos as int], old_out[l]) {
                            lemma_ranks_trans(x, old_out[pos as int], old_out[l]);
                        } else {
                            lemma_ranks_tie(old_out[pos as int], old_out[l]);
                        }
                    }
                }
            }
        }
        out.insert(pos, x);
        proof {
            p = old_p.insert(pos as int, i as int);
            assert forall|k: int| 0 <= k < i + 1 implies 0 <= #[trigger] p[k] < i + 1 by {
                if k < pos {
                    assert(p[k] == old_p[k]);
                } else if k > pos {
                    assert(p[k] == old_p[k - 1]);
                }
            }
            assert forall|k: int| 0 <= k < i + 1 implies #[trigger] out@[k] == s[p[k]] by {
                if k < pos {
                    assert(p[k] == old_p[k]);
                } else if k > pos {
                    assert(p[k] == old_p[k - 1]);
                }
            }
            assert forall|k: int, l: int| 0 <= k < l < i + 1 implies #[trigger] p[k] != #[trigger] p[l] by {
                if k < pos {
                    assert(p[k] == old_p[k]);
                } else if k > pos {
                    assert(p[k] == old_p[k - 1]);
                }
                if l < pos {
                    assert(p[l] == old_p[l]);
                } else if l > pos {
                    assert(p[l] == old_p[l - 1]);
                }
            }
            assert forall|k: int, l: int| 0 <= k < l < i + 1 implies listed_before(s, #[trigger] p[k], #[trigger] p[l]) by {
                if k < pos {
                    assert(p[k] == old_p[k]);
                    assert(!ranks_before(x, old_out[k]));
                } else if k > pos {
                    assert(p[k] == old_p[k - 1]);
                }
                if l < pos {
                    assert(p[l] == old_p[l]);
                } else if l > pos {
                    assert(p[l] == old_p[l - 1]);
                    if k == pos {
                        assert(ranks_before(x, old_out[l - 1]));
                    }
                }
            }
        }
        i = i + 1;
    }
    assert(is_listing(s, p));
    let ghost full = out@;
    out.truncate(MAX_LISTED);
    assert forall|k: int| 0 <= k < out.len() implies #[trigger] out@[k] == s[p[k]] by {
        assert(out@[k] == full[k]);
    }
    out
}

/// The selection after an arrow key: down moves to the next match and wraps to the first, up
/// to the previous and wraps to the last. Nothing moves in an empty list.
pub fn step_selection(selected: usize, len: usize, down: bool) -> (r: usize)
    requires
        len == 0 || selected < len,
    ensures
        len == 0 ==> r == selected,
        len > 0 && down ==> r == (selected + 1) % (len as int),
        len > 0 && !down ==> r == (selected + len - 1) % (len as int),
{
    if len == 0 {
        selected
    } else if down {
        (selected + 1) % len
    } else if selected == 0 {
        assert((len - 1) as int == (selected + len - 1) % (len as int)) by (nonlinear_arith)
            requires
                len > 0,
                selected == 0,
        ;
        len - 1
    } else {
        assert((selected - 1) as int == (selected + len - 1) % (len as int)) by (nonlinear_arith)
            requires
                0 < selected < len,
        ;
        selected - 1
    }
}

/// What tells two known objects apart: the connection, and the database, schema and name
/// without regard to ASCII case.
pub open spec fn object_key(e: (ProfileId, ObjectRef)) -> (u128, Seq<char>, Seq<char>, Seq<char>) {
    (e.0.0, ascii_lower(e.1.database@), ascii_lower(e.1.schema@), ascii_lower(e.1.name@))
}

/// `s` with every object whose key an earlier one already had left out.
pub open spec fn first_seen(s: Seq<(ProfileId, ObjectRef)>) -> Seq<(ProfileId, ObjectRef)>
    decreases s.len(),
{
    if s.len() == 0 {
        Seq::empty()
    } else {
        let prev = first_seen(s.drop_last());
        if exists|j: int| 0 <= j < s.len() - 1 && object_key(#[trigger] s[j]) == object_key(s.last()) {
            prev
        } else {
            prev.push(s.last())
        }
    }
}

proof fn lemma_first_seen_keys(s: Seq<(ProfileId, ObjectRef)>)
    ensures
        forall|k: int|
            0 <= k < first_seen(s).len() ==> exists|j: int|
                0 <= j < s.len() && object_key(#[trigger] s[j]) == object_key(#[trigger] first_seen(s)[k]),
        forall|j: int|
            0 <= j < s.len() ==> exists|k: int|
                0 <= k < first_seen(s).len() && object_key(#[trigger] s[j]) == object_key(#[trigger] first_seen(s)[k]),
    decreases s.len(),
{
    if s.len() > 0 {
        let t = s.drop_last();
        lemma_first_seen_keys(t);
        let prev = first_seen(t);
        assert forall|k: int| 0 <= k < first_seen(s).len() implies exists|j: int|
            0 <= j < s.len() && object_key(#[trigger] s[j]) == object_key(#[trigger] first_seen(s)[k]) by {
            if k < prev.len() {
                assert(first_seen(s)[k] == prev[k]);
                let j = choose|j: int| 0 <= j < t.len() && object_key(#[trigger] t[j]) == object_key(prev[k]);
                assert(s[j] == t[j]);
            } else {
                assert(first_seen(s)[k] == s.last());
                assert(s[s.len() - 1] == s.last());
            }
        }
        assert forall|j: int| 0 <= j < s.len() implies exists|k: int|
            0 <= k < first_seen(s).len() && object_key(#[trigger] s[j]) == object_key(#[trigger] first_seen(s)[k]) by {
            if j < s.len() - 1 {
                assert(s[j] == t[j]);
                let k = choose|k: int| 0 <= k < prev.len() && object_key(#[trigger] t[j]) == object_key(#[trigger] prev[k]);
                assert(first_seen(s)[k] == prev[k]);
            } else if exists|i: int| 0 <= i < s.len() - 1 && object_key(#[trigger] s[i]) == object_key(s.last()) {
                let i = choose|i: int| 0 <= i < s.len() - 1 && object_key(#[trigger] s[i]) == object_key(s.last());
                assert(s[i] == t[i]);
                let k = choose|k: int| 0 <= k < prev.len() && object_key(#[trigger] t[i]) == object_key(#[trigger] prev[k]);
                assert(first_seen(s)[k] == prev[k]);
            } else {
                assert(first_seen(s)[prev.len() as int] == s.last());
            }
        }
    }
}

fn same_object(a: &(ProfileId, ObjectRef), b: &(ProfileId, ObjectRef)) -> (r: bool)
    ensures
        r == (object_key(*a) == object_key(*b)),
{
    if a.0.0 != b.0.0 {
        return false;
    }
    let da = chars_of(a.1.database.as_str());
    let db = chars_of(b.1.database.as_str());
    let sa = chars_of(a.1.schema.as_str());
    let sb = chars_of(b.1.schema.as_str());
    let na = chars_of(a.1.name.as_str());
    let nb = chars_of(b.1.name.as_str());
    eq_ignore_case(&da, &db) && eq_ignore_case(&sa, &sb) && eq_ignore_case(&na, &nb)
}

/// Every object the app knows about, from `candidates` in the order they were gathered (the
/// catalogs of connected tabs, then what the Servers tree has expanded), keeping the first of
/// each (connection, database, schema, object).
pub fn known_objects(candidates: Vec<(ProfileId, ObjectRef)>) -> (r: Vec<(ProfileId, ObjectRef)>)
    ensures
        r@ == first_seen(candidates@),
{
    let ghost s = candidates@;
    let n = candidates.len();
    let mut rest = candidates;
    let mut out: Vec<(ProfileId, ObjectRef)> = Vec::new();
    let mut i: usize = 0;
    assert(s.skip(0) =~= s);
    assert(s.take(0) =~= Seq::<(ProfileId, ObjectRef)>::empty());
    while i < n
        invariant
            n == s.len(),
            i <= n,
            rest@ == s.skip(i as int),
            out@ == first_seen(s.take(i as int)),
        decreases n - i,
    {
        assert(rest@[0] == s[i as int]);
        let x = rest.remove(0);
        assert(rest@ =~= s.skip(i + 1));
        let ghost t = s.take(i + 1);
        assert(t.drop_last() =~= s.take(i as int));
        assert(t.last() == x);
        proof {
            lemma_first_seen_keys(s.take(i as int));
        }
        let mut k: usize = 0;
        let mut dup = false;
        while k < out.len()
            invariant
                k <= out.len(),
                dup == exists|m: int| 0 <= m < k && object_key(#[trigger] out@[m]) == object_key(x),
            decreases out.len() - k,
        {
            if same_object(&out[k], &x) {
                dup = true;
            }
            k = k + 1;
        }
        proof {
            let p = s.take(i as int);
            if dup {
                let m = choose|m: int| 0 <= m < out.len() && object_key(#[trigger] out@[m]) == object_key(x);
                let j = choose|j: int| 0 <= j < p.len() && object_key(#[trigger] p[j]) == object_key(out@[m]);
                assert(t[j] == p[j]);
            } else {
                if exists|j: int| 0 <= j < t.len() - 1 && object_key(#[trigger] t[j]) == object_key(t.last()) {
                    let j = choose|j: int| 0 <= j < t.len() - 1 && object_key(#[trigger] t[j]) == object_key(t.last());
                    assert(p[j] == t[j]);
                    let m = choose|m: int| 0 <= m < out.len() && object_key(#[trigger] p[j]) == object_key(#[trigger] out@[m]);
                    assert(false);
                }
            }
        }
        if !dup {
            out.push(x);
        }
        i = i + 1;
    }
    assert(s.take(n as int) =~= s);
    out
}

} // verus!
