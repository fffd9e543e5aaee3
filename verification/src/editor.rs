//! The SQL editor's text operations: character/byte positions, line and column, comment
//! toggling, find, and replacing the text while keeping the cursor line.
//!
//! Cursor and selection positions count characters; the edits handed to the text widget
//! count bytes of the UTF-8 text, as the widget does.

use crate::connstr::{first_index, last_index, lemma_first_index};
use crate::text::{chars_of, find_char, push_all, push_str, rfind_char, slice, starts_with, string_of, trim, trim_start};
use vstd::prelude::*;

verus! {

broadcast use vstd::string::group_string_axioms;

/// Bytes of `c` in UTF-8.
pub open spec fn utf8_width(c: char) -> nat {
    if (c as u32) < 0x80 {
        1
    } else if (c as u32) < 0x800 {
        2
    } else if (c as u32) < 0x10000 {
        3
    } else {
        4
    }
}

/// Bytes of `s` in UTF-8.
pub open spec fn utf8_len(s: Seq<char>) -> nat
    decreases s.len(),
{
    if s.len() == 0 {
        0
    } else {
        utf8_len(s.drop_last()) + utf8_width(s.last())
    }
}

/// The byte offset of character `k` of `s`; the length in bytes for `k` past the end.
pub open spec fn byte_of(s: Seq<char>, k: nat) -> nat {
    if k < s.len() {
        utf8_len(s.take(k as int))
    } else {
        utf8_len(s)
    }
}

/// Byte `b` (or the end, when `b` is past it) starts a character.
pub open spec fn on_boundary(s: Seq<char>, b: nat) -> bool {
    let t = if b < utf8_len(s) {
        b
    } else {
        utf8_len(s)
    };
    exists|k: nat| k <= s.len() && utf8_len(#[trigger] s.take(k as int)) == t
}

pub proof fn lemma_utf8_len_take_mono(s: Seq<char>, i: int, j: int)
    requires
        0 <= i < j <= s.len(),
    ensures
        utf8_len(s.take(i)) < utf8_len(s.take(j)),
    decreases j - i,
{
    assert(s.take(j).drop_last() =~= s.take(j - 1));
    if i < j - 1 {
        lemma_utf8_len_take_mono(s, i, j - 1);
    }
}

proof fn lemma_utf8_len_full(s: Seq<char>)
    ensures
        utf8_len(s.take(s.len() as int)) == utf8_len(s),
{
    assert(s.take(s.len() as int) =~= s);
}

fn utf8_width_exec(c: char) -> (r: usize)
    ensures
        r == utf8_width(c),
{
    let u = c as u32;
    if u < 0x80 {
        1
    } else if u < 0x800 {
        2
    } else if u < 0x10000 {
        3
    } else {
        4
    }
}

/// Byte lengths of every prefix of `v` fit in a `usize`.
pub open spec fn fits(v: Seq<char>) -> bool {
    utf8_len(v) <= usize::MAX
}

proof fn lemma_take_fits(s: Seq<char>, k: int)
    requires
        0 <= k <= s.len(),
    ensures
        utf8_len(s.take(k)) <= utf8_len(s),
{
    if k < s.len() {
        lemma_utf8_len_take_mono(s, k, s.len() as int);
        lemma_utf8_len_full(s);
    } else {
        lemma_utf8_len_full(s);
    }
}

fn prefix_bytes(v: &Vec<char>, k: usize) -> (r: usize)
    requires
        k <= v.len(),
        fits(v@),
    ensures
        r == utf8_len(v@.take(k as int)),
{
    let mut acc: usize = 0;
    let mut i: usize = 0;
    while i < k
        invariant
            i <= k <= v.len(),
            fits(v@),
            acc == utf8_len(v@.take(i as int)),
        decreases k - i,
    {
        proof {
            assert(v@.take(i + 1).drop_last() =~= v@.take(i as int));
            lemma_take_fits(v@, i + 1);
        }
        acc = acc + utf8_width_exec(v[i]);
        i = i + 1;
    }
    acc
}

/// The byte offset of character `char_idx` of `text`, or the text's length past the end.
pub fn char_to_byte(text: &str, char_idx: usize) -> (r: usize)
    requires
        fits(text@),
    ensures
        r == byte_of(text@, char_idx as nat),
{
    let v = chars_of(text);
    if char_idx < v.len() {
        prefix_bytes(&v, char_idx)
    } else {
        proof {
            lemma_utf8_len_full(v@);
        }
        prefix_bytes(&v, v.len())
    }
}

/// The character index of byte `byte_idx` of `text` (clamped to the end), which must start a
/// character.
pub fn byte_to_char(text: &str, byte_idx: usize) -> (r: usize)
    requires
        fits(text@),
        on_boundary(text@, byte_idx as nat),
    ensures
        r <= text@.len(),
        utf8_len(text@.take(r as int)) == if byte_idx < utf8_len(text@) {
            byte_idx as nat
        } else {
            utf8_len(text@)
        },
{
    let v = chars_of(text);
    let total = prefix_bytes(&v, v.len());
    proof {
        lemma_utf8_len_full(v@);
    }
    let target = if byte_idx < total {
        byte_idx
    } else {
        total
    };
    let ghost kk: nat = choose|k: nat| k <= v@.len() && utf8_len(#[trigger] v@.take(k as int)) == target;
    let mut acc: usize = 0;
    let mut i: usize = 0;
    while acc < target
        invariant
            i <= kk <= v.len(),
            fits(v@),
            utf8_len(v@.take(kk as int)) == target,
            acc == utf8_len(v@.take(i as int)),
            target <= total,
            total == utf8_len(v@),
        decreases target - acc,
    {
        proof {
            if i == kk {
                assert(false);
            }
            assert(v@.take(i + 1).drop_last() =~= v@.take(i as int));
            lemma_take_fits(v@, i + 1);
            if i + 1 < kk {
                lemma_utf8_len_take_mono(v@, i + 1, kk as int);
            }
        }
        acc = acc + utf8_width_exec(v[i]);
        i = i + 1;
    }
    proof {
        if i < kk {
            lemma_utf8_len_take_mono(v@, i as int, kk as int);
        }
    }
    i
}

/// Character and byte positions convert back and forth: the byte offset of character `k` starts
/// a character, and the only character index at that offset is `k`; a byte offset that starts a
/// character is the offset of the character index found there.
pub proof fn law_char_byte_roundtrip(s: Seq<char>, k: nat, r: nat)
    requires
        k <= s.len(),
        r <= s.len(),
    ensures
        on_boundary(s, byte_of(s, k)),
        utf8_len(s.take(r as int)) == byte_of(s, k) ==> r == k,
        byte_of(s, r) == utf8_len(s.take(r as int)),
{
    lemma_utf8_len_full(s);
    assert(utf8_len(s.take(k as int)) == byte_of(s, k));
    lemma_take_fits(s, k as int);
    assert(on_boundary(s, byte_of(s, k)));
    if r < k {
        lemma_utf8_len_take_mono(s, r as int, k as int);
    } else if k < r {
        lemma_utf8_len_take_mono(s, k as int, r as int);
    }
}

/// The 1-based line and column (in characters) of the first `k` characters of `s`.
pub open spec fn line_col_of(s: Seq<char>, k: nat) -> (nat, nat) {
    let upto = s.take(k as int);
    let line = crate::text::count_char(upto, '\n') + 1;
    let col = match last_index(upto, '\n') {
        Some(i) => (upto.len() - (i + 1)) as nat,
        None => upto.len(),
    } + 1;
    (line, col)
}

/// The 1-based line and column of byte `byte_idx` (clamped to the end), which must start a
/// character.
pub fn line_col(text: &str, byte_idx: usize) -> (r: (usize, usize))
    requires
        fits(text@),
        on_boundary(text@, byte_idx as nat),
        text@.len() < usize::MAX,
    ensures
        exists|k: nat| {
            &&& k <= text@.len()
            &&& utf8_len(#[trigger] text@.take(k as int)) == if byte_idx < utf8_len(text@) {
                byte_idx as nat
            } else {
                utf8_len(text@)
            }
            &&& (r.0 as nat, r.1 as nat) == line_col_of(text@, k)
        },
{
    let k = byte_to_char(text, byte_idx);
    let v = chars_of(text);
    let upto = slice(&v, 0, k);
    assert(upto@ =~= v@.take(k as int));
    let mut count: usize = 0;
    let mut i: usize = 0;
    while i < upto.len()
        invariant
            i <= upto.len(),
            count <= i,
            count == crate::text::count_char(upto@.take(i as int), '\n'),
        decreases upto.len() - i,
    {
        proof {
            assert(upto@.take(i + 1).drop_last() =~= upto@.take(i as int));
        }
        if upto[i] == '\n' {
            count = count + 1;
        }
        i = i + 1;
    }
    assert(upto@.take(upto.len() as int) =~= upto@);
    let last = rfind_char(&upto, '\n', upto.len());
    proof {
        crate::connstr::lemma_last_index(
            upto@,
            '\n',
            match last {
                Some(j) => Some(j as int),
                None => None,
            },
        );
    }
    let col = match last {
        Some(j) => upto.len() - (j + 1),
        None => upto.len(),
    };
    (count + 1, col + 1)
}

// ---------------------------------------------------------------------------------------------
// Edits

/// An edit for the text widget to apply on its next frame.
pub enum PendingEdit {
    /// Select characters `start..end`.
    Select(usize, usize),
    /// Put the cursor at a character index.
    SetCursor(usize),
    /// Replace bytes `start..end` with `text`, then put the cursor at a character index.
    Replace { start: usize, end: usize, text: String, cursor_after: Option<usize> },
    /// Replace the whole text and put the cursor at a character index.
    SetText { text: String, cursor: usize },
}

/// The editing state of one editor tab.
pub struct EditorState {
    /// Cursor, in characters.
    pub cursor: usize,
    /// Selection, in characters, sorted.
    pub selection: Option<(usize, usize)>,
    /// 1-based line of the cursor.
    pub line: usize,
    pub find_text: String,
    /// Whether find matches case.
    pub find_case: bool,
    pub pending_edit: Option<PendingEdit>,
}

/// What the editor reports after a frame.
pub struct EditorOutput {
    pub changed: bool,
    /// Byte offset of the cursor.
    pub cursor_byte: usize,
    /// Byte range of the selection, if any (sorted).
    pub selection_bytes: Option<(usize, usize)>,
    pub focused: bool,
}

/// The parts of `s` between occurrences of `c`.
pub open spec fn split_spec(s: Seq<char>, c: char) -> Seq<Seq<char>>
    decreases s.len(),
{
    match first_index(s, c) {
        Some(i) => {
            if 0 <= i < s.len() {
                seq![s.take(i)] + split_spec(s.skip(i + 1), c)
            } else {
                seq![s]
            }
        },
        None => seq![s],
    }
}

/// The parts joined again with `\n`.
pub open spec fn join_nl(parts: Seq<Seq<char>>) -> Seq<char>
    decreases parts.len(),
{
    if parts.len() == 0 {
        seq![]
    } else if parts.len() == 1 {
        parts[0]
    } else {
        join_nl(parts.drop_last()) + seq!['\n'] + parts.last()
    }
}

fn split_on(v: &Vec<char>, c: char) -> (r: Vec<Vec<char>>)
    ensures
        r@.map_values(|x: Vec<char>| x@) == split_spec(v@, c),
{
    let mut r: Vec<Vec<char>> = Vec::new();
    let mut start: usize = 0;
    assert(v@.skip(0) =~= v@);
    loop
        invariant
            start <= v.len(),
            r@.map_values(|x: Vec<char>| x@) + split_spec(v@.skip(start as int), c) == split_spec(v@, c),
        decreases v.len() - start,
    {
        let ghost rest = v@.skip(start as int);
        match find_char(v, c, start) {
            Some(k) => {
                proof {
                    lemma_first_index(rest, c, Some(k - start));
                    assert(rest.take(k - start) =~= v@.subrange(start as int, k as int));
                    assert(rest.skip(k - start + 1) =~= v@.skip(k + 1));
                }
                let piece = slice(v, start, k);
                let ghost before = r@.map_values(|x: Vec<char>| x@);
                r.push(piece);
                assert(r@.map_values(|x: Vec<char>| x@) =~= before.push(piece@));
                assert(before + split_spec(rest, c) =~= before.push(piece@) + split_spec(v@.skip(k + 1), c));
                start = k + 1;
            },
            None => {
                proof {
                    lemma_first_index(rest, c, None);
                }
                let piece = slice(v, start, v.len());
                assert(piece@ =~= rest);
                let ghost before = r@.map_values(|x: Vec<char>| x@);
                r.push(piece);
                assert(r@.map_values(|x: Vec<char>| x@) =~= before.push(piece@));
                assert(before + split_spec(rest, c) =~= before.push(piece@));
                return r;
            },
        }
    }
}

/// Drop one leading space.
pub open spec fn drop_space(s: Seq<char>) -> Seq<char> {
    if s.len() > 0 && s[0] == ' ' {
        s.skip(1)
    } else {
        s
    }
}

/// A line is commented when its first non-blank characters are `--`.
pub open spec fn is_commented(line: Seq<char>) -> bool {
    starts_with(trim_start(line), "--"@)
}

/// Every non-blank line is commented.
pub open spec fn all_commented(lines: Seq<Seq<char>>) -> bool {
    forall|i: int| 0 <= i < lines.len() ==> trim(#[trigger] lines[i]).len() == 0 || is_commented(lines[i])
}

/// One line toggled: when every line is commented, its `--` (and one space after it) is
/// removed; otherwise a non-blank line gets `-- ` in front.
pub open spec fn toggle_line(all: bool, body: Seq<char>) -> Seq<char> {
    if all {
        let t = trim_start(body);
        if starts_with(t, "--"@) {
            body.take(body.len() - t.len()) + drop_space(t.skip(2))
        } else {
            body
        }
    } else if trim(body).len() == 0 {
        body
    } else {
        "-- "@ + body
    }
}

/// The lines of a block, toggled.
pub open spec fn toggled_block(block: Seq<char>) -> Seq<char> {
    let lines = split_spec(block, '\n');
    join_nl(lines.map_values(|l: Seq<char>| toggle_line(all_commented(lines), l)))
}

proof fn lemma_split_no_sep(s: Seq<char>, c: char)
    ensures
        split_spec(s, c).len() >= 1,
        forall|i: int| 0 <= i < split_spec(s, c).len() ==> !(#[trigger] split_spec(s, c)[i]).contains(c),
    decreases s.len(),
{
    lemma_first_index_first(s, c);
    match first_index(s, c) {
        Some(i) => {
            if 0 <= i < s.len() {
                lemma_split_no_sep(s.skip(i + 1), c);
                let rest = split_spec(s.skip(i + 1), c);
                assert forall|k: int| 0 <= k < split_spec(s, c).len() implies !(#[trigger] split_spec(s, c)[k]).contains(c) by {
                    if k == 0 {
                        assert(split_spec(s, c)[0] == s.take(i));
                        assert forall|j: int| 0 <= j < s.take(i).len() implies s.take(i)[j] != c by {
                            assert(s.take(i)[j] == s[j]);
                        }
                        assert(!s.take(i).contains(c));
                    } else {
                        assert(split_spec(s, c)[k] == rest[k - 1]);
                    }
                }
            }
        },
        None => {
            assert(split_spec(s, c)[0] == s);
            assert(!s.contains(c));
        },
    }
}

/// What [`first_index`] finds: the first `c`, or that there is none.
proof fn lemma_first_index_first(s: Seq<char>, c: char)
    ensures
        match first_index(s, c) {
            Some(k) => 0 <= k < s.len() && s[k] == c && forall|j: int| 0 <= j < k ==> s[j] != c,
            None => forall|j: int| 0 <= j < s.len() ==> s[j] != c,
        },
    decreases s.len(),
{
    if s.len() > 0 && s[0] != c {
        lemma_first_index_first(s.drop_first(), c);
        assert forall|j: int| 0 < j < s.len() implies s[j] == s.drop_first()[j - 1] by {}
    }
}

proof fn lemma_join_cons(p: Seq<char>, rest: Seq<Seq<char>>)
    requires
        rest.len() >= 1,
    ensures
        join_nl(seq![p] + rest) == p + seq!['\n'] + join_nl(rest),
    decreases rest.len(),
{
    let all = seq![p] + rest;
    if rest.len() > 1 {
        assert(all.drop_last() =~= seq![p] + rest.drop_last());
        lemma_join_cons(p, rest.drop_last());
        assert(all.last() == rest.last());
        assert(join_nl(all) == join_nl(all.drop_last()) + seq!['\n'] + all.last());
        assert(join_nl(rest) == join_nl(rest.drop_last()) + seq!['\n'] + rest.last());
        assert(join_nl(all) =~= p + seq!['\n'] + join_nl(rest));
    } else {
        assert(all.drop_last() =~= seq![p]);
        assert(join_nl(seq![p]) == p);
        assert(all.last() == rest[0]);
        assert(join_nl(rest) == rest[0]);
        assert(join_nl(all) == join_nl(all.drop_last()) + seq!['\n'] + all.last());
    }
}

proof fn lemma_join_split(s: Seq<char>)
    ensures
        join_nl(split_spec(s, '\n')) == s,
    decreases s.len(),
{
    lemma_first_index_first(s, '\n');
    match first_index(s, '\n') {
        Some(i) => {
            lemma_join_split(s.skip(i + 1));
            lemma_split_no_sep(s.skip(i + 1), '\n');
            lemma_join_cons(s.take(i), split_spec(s.skip(i + 1), '\n'));
            assert(s.take(i) + seq!['\n'] + s.skip(i + 1) =~= s);
        },
        None => {},
    }
}

proof fn lemma_split_join(parts: Seq<Seq<char>>)
    requires
        parts.len() >= 1,
        forall|i: int| 0 <= i < parts.len() ==> !(#[trigger] parts[i]).contains('\n'),
    ensures
        split_spec(join_nl(parts), '\n') == parts,
    decreases parts.len(),
{
    let p0 = parts[0];
    assert(!p0.contains('\n'));
    if parts.len() == 1 {
        lemma_first_index(p0, '\n', None);
        assert(seq![p0] =~= parts);
    } else {
        let rest = parts.skip(1);
        assert(parts =~= seq![p0] + rest);
        assert forall|i: int| 0 <= i < rest.len() implies !(#[trigger] rest[i]).contains('\n') by {
            assert(rest[i] == parts[i + 1]);
        }
        lemma_split_join(rest);
        lemma_join_cons(p0, rest);
        let j = p0 + seq!['\n'] + join_nl(rest);
        assert forall|k: int| 0 <= k < p0.len() implies j[k] != '\n' by {
            assert(j[k] == p0[k]);
        }
        lemma_first_index(j, '\n', Some(p0.len() as int));
        assert(j.take(p0.len() as int) =~= p0);
        assert(j.skip(p0.len() as int + 1) =~= join_nl(rest));
    }
}

proof fn lemma_trim_start_first(s: Seq<char>)
    ensures
        trim_start(s).len() > 0 ==> !crate::text::is_ws(trim_start(s)[0]),
    decreases s.len(),
{
    if s.len() > 0 && crate::text::is_ws(s[0]) {
        lemma_trim_start_first(s.drop_first());
    }
}

proof fn lemma_trim_end_empty(t: Seq<char>)
    requires
        t.len() > 0,
        crate::text::trim_end(t).len() == 0,
    ensures
        crate::text::is_ws(t[0]),
    decreases t.len(),
{
    if t.len() > 1 {
        lemma_trim_end_empty(t.drop_last());
    }
}

proof fn lemma_toggle_line_twice(body: Seq<char>)
    requires
        !body.contains('\n'),
    ensures
        !toggle_line(false, body).contains('\n'),
        trim(toggle_line(false, body)).len() == 0 || is_commented(toggle_line(false, body)),
        toggle_line(true, toggle_line(false, body)) == body,
{
    reveal_strlit("-- ");
    reveal_strlit("--");
    if trim(body).len() == 0 {
        lemma_trim_start_first(body);
        if trim_start(body).len() > 0 {
            lemma_trim_end_empty(trim_start(body));
        }
        assert(!starts_with(trim_start(body), "--"@));
    } else {
        let c = "-- "@ + body;
        assert(c[0] == '-');
        assert(trim_start(c) == c);
        assert(c.subrange(0, 2) =~= "--"@);
        assert(c.take(0) =~= Seq::<char>::empty());
        assert(c.skip(2) =~= seq![' '] + body);
        assert(drop_space(c.skip(2)) =~= body);
        assert(toggle_line(true, c) =~= body);
        assert forall|k: int| 0 <= k < c.len() implies c[k] != '\n' by {
            if k >= 3 {
                assert(c[k] == body[k - 3]);
            }
        }
    }
}

/// Toggling line comments twice on lines that are not all commented gives them back: the
/// first toggle comments every non-blank line, the second removes exactly those comments.
pub proof fn law_toggle_twice(block: Seq<char>)
    requires
        !all_commented(split_spec(block, '\n')),
    ensures
        toggled_block(toggled_block(block)) == block,
{
    let lines = split_spec(block, '\n');
    lemma_split_no_sep(block, '\n');
    let once = lines.map_values(|l: Seq<char>| toggle_line(false, l));
    assert(toggled_block(block) == join_nl(once));
    assert forall|i: int| 0 <= i < once.len() implies !(#[trigger] once[i]).contains('\n') by {
        lemma_toggle_line_twice(lines[i]);
    }
    lemma_split_join(once);
    assert(split_spec(join_nl(once), '\n') == once);
    assert forall|i: int| 0 <= i < once.len() implies trim(#[trigger] once[i]).len() == 0 || is_commented(once[i]) by {
        lemma_toggle_line_twice(lines[i]);
    }
    assert(all_commented(once));
    let twice = once.map_values(|l: Seq<char>| toggle_line(true, l));
    assert forall|i: int| 0 <= i < twice.len() implies #[trigger] twice[i] == lines[i] by {
        lemma_toggle_line_twice(lines[i]);
    }
    assert(twice =~= lines);
    lemma_join_split(block);
}

proof fn lemma_last_index_found(s: Seq<char>, c: char)
    ensures
        last_index(s, c) matches Some(k) ==> 0 <= k < s.len() && s[k] == c,
    decreases s.len(),
{
    if s.len() > 0 && s.last() != c {
        lemma_last_index_found(s.drop_last(), c);
    }
}

proof fn lemma_first_index_found(s: Seq<char>, c: char)
    ensures
        first_index(s, c) matches Some(k) ==> 0 <= k < s.len() && s[k] == c,
    decreases s.len(),
{
    if s.len() > 0 && s[0] != c {
        lemma_first_index_found(s.drop_first(), c);
    }
}

/// The lines touched by `a..b` start after a line break (or at the start) and end at one (or
/// at the end); replacing them by `nb` and selecting `nb` touches exactly `nb` again.
proof fn lemma_line_span_after(t0: Seq<char>, a: nat, b: nat, nb: Seq<char>, t1: Seq<char>)
    requires
        a <= b <= t0.len(),
        t1 == t0.take(line_span(t0, a, b).0) + nb + t0.skip(line_span(t0, a, b).1),
    ensures
        line_span(t1, line_span(t0, a, b).0 as nat, (line_span(t0, a, b).0 + nb.len()) as nat) == (
            line_span(t0, a, b).0,
            line_span(t0, a, b).0 + nb.len(),
        ),
{
    let (ls, le) = line_span(t0, a, b);
    let pre = t0.take(a as int);
    let post = t0.skip(b as int);
    lemma_last_index_found(pre, '\n');
    lemma_first_index_found(post, '\n');
    if let Some(k) = last_index(pre, '\n') {
        assert(pre[k] == t0[k]);
    }
    if let Some(i) = first_index(post, '\n') {
        assert(post[i] == t0[b + i]);
    }
    let n1 = ls + nb.len();
    assert(t1.take(ls) =~= t0.take(ls));
    assert(t1.skip(n1) =~= t0.skip(le));
    if ls > 0 {
        assert(t0.take(ls).last() == '\n');
        assert(last_index(t1.take(ls), '\n') == Some(ls - 1));
    } else {
        assert(t1.take(ls).len() == 0);
    }
    if le < t0.len() {
        assert(t0.skip(le)[0] == '\n');
        assert(first_index(t1.skip(n1), '\n') == Some(0int));
    } else {
        assert(t1.skip(n1).len() == 0);
    }
}

/// Toggling line comments twice, applying each edit, gives the text back: when some line that
/// the selection `a..b` touches is not commented, the first call comments those lines and
/// selects them, and the second, on that selection, removes exactly those comments.
/// `ins1`/`ins2` are the replacement texts of the two `Replace` edits over the byte ranges that
/// [`toggle_line_comment`] states, and `t1`/`t2` the texts after [`apply_pending`].
pub proof fn law_line_comment_call_twice(
    t0: Seq<char>,
    a: nat,
    b: nat,
    ins1: Seq<char>,
    t1: Seq<char>,
    ins2: Seq<char>,
    t2: Seq<char>,
)
    requires
        a <= b <= t0.len(),
        !all_commented(split_spec(t0.subrange(line_span(t0, a, b).0, line_span(t0, a, b).1), '\n')),
        ins1 == toggled_block(t0.subrange(line_span(t0, a, b).0, line_span(t0, a, b).1)),
        replaced(
            t0,
            utf8_len(t0.take(line_span(t0, a, b).0)),
            utf8_len(t0.take(line_span(t0, a, b).1)),
            ins1,
            t1,
        ),
        ins2 == toggled_block(
            t1.subrange(
                line_span(
                    t1,
                    clamp_to(line_span(t0, a, b).0 as nat, t1.len()),
                    clamp_to((line_span(t0, a, b).0 + ins1.len()) as nat, t1.len()),
                ).0,
                line_span(
                    t1,
                    clamp_to(line_span(t0, a, b).0 as nat, t1.len()),
                    clamp_to((line_span(t0, a, b).0 + ins1.len()) as nat, t1.len()),
                ).1,
            ),
        ),
        replaced(
            t1,
            utf8_len(
                t1.take(
                    line_span(
                        t1,
                        clamp_to(line_span(t0, a, b).0 as nat, t1.len()),
                        clamp_to((line_span(t0, a, b).0 + ins1.len()) as nat, t1.len()),
                    ).0,
                ),
            ),
            utf8_len(
                t1.take(
                    line_span(
                        t1,
                        clamp_to(line_span(t0, a, b).0 as nat, t1.len()),
                        clamp_to((line_span(t0, a, b).0 + ins1.len()) as nat, t1.len()),
                    ).1,
                ),
            ),
            ins2,
            t2,
        ),
    ensures
        t2 == t0,
        ins2 == t0.subrange(line_span(t0, a, b).0, line_span(t0, a, b).1),
{
    let (ls, le) = line_span(t0, a, b);
    let block = t0.subrange(ls, le);
    let n1 = ins1.len();
    lemma_line_span_facts(t0, a, b);
    lemma_replaced_at(t0, ls as nat, le as nat, ins1, t1);
    lemma_splice_parts(t0, ls as nat, le as nat, ins1, t1);
    lemma_line_span_after(t0, a, b, ins1, t1);
    assert(ins2 == block) by {
        law_toggle_twice(block);
    }
    lemma_replaced_at(t1, ls as nat, (ls + n1) as nat, ins2, t2);
    assert(t0.take(ls) + block + t0.skip(le) =~= t0);
}

proof fn lemma_line_span_facts(t0: Seq<char>, a: nat, b: nat)
    requires
        a <= b <= t0.len(),
    ensures
        0 <= line_span(t0, a, b).0 <= a,
        b <= line_span(t0, a, b).1 <= t0.len(),
{
    lemma_last_index_found(t0.take(a as int), '\n');
    lemma_first_index_found(t0.skip(b as int), '\n');
}

/// Where the leading blanks of `v` end.
fn indent_end(v: &Vec<char>) -> (r: usize)
    ensures
        r <= v.len(),
        v@.skip(r as int) == trim_start(v@),
{
    let mut i: usize = 0;
    assert(v@.skip(0) =~= v@);
    while i < v.len() && crate::text::is_whitespace(v[i])
        invariant
            i <= v.len(),
            trim_start(v@.skip(i as int)) == trim_start(v@),
        decreases v.len() - i,
    {
        assert(v@.skip(i as int).drop_first() =~= v@.skip(i + 1));
        i = i + 1;
    }
    i
}

fn is_commented_exec(line: &Vec<char>) -> (r: bool)
    ensures
        r == is_commented(line@),
{
    let k = indent_end(line);
    let t = slice(line, k, line.len());
    assert(t@ =~= line@.skip(k as int));
    crate::text::starts_with_str(&t, "--")
}

fn toggle_line_exec(all: bool, body: &Vec<char>) -> (r: Vec<char>)
    ensures
        r@ == toggle_line(all, body@),
{
    if all {
        let k = indent_end(body);
        let t = slice(body, k, body.len());
        assert(t@ =~= body@.skip(k as int));
        proof {
            reveal_strlit("--");
        }
        if crate::text::starts_with_str(&t, "--") {
            let mut out = slice(body, 0, k);
            assert(out@ =~= body@.take(body@.len() - trim_start(body@).len()));
            let rest_start: usize = if t.len() > 2 && t[2] == ' ' {
                3
            } else {
                2
            };
            let rest = slice(&t, rest_start, t.len());
            assert(rest@ =~= drop_space(t@.skip(2)));
            push_all(&mut out, &rest);
            out
        } else {
            slice(body, 0, body.len())
        }
    } else if crate::text::is_blank(body) {
        slice(body, 0, body.len())
    } else {
        let mut out = chars_of("-- ");
        push_all(&mut out, body);
        out
    }
}

/// The lines of `block`, toggled.
pub fn toggle_block_lines(block: &Vec<char>) -> (r: Vec<char>)
    ensures
        r@ == toggled_block(block@),
{
    let lines = split_on(block, '\n');
    let ghost ls = lines@.map_values(|x: Vec<char>| x@);
    let mut all = true;
    let mut i: usize = 0;
    while i < lines.len()
        invariant
            i <= lines.len(),
            ls == lines@.map_values(|x: Vec<char>| x@),
            all == forall|j: int| 0 <= j < i ==> trim(#[trigger] ls[j]).len() == 0 || is_commented(ls[j]),
        decreases lines.len() - i,
    {
        assert(ls[i as int] == lines@[i as int]@);
        if !crate::text::is_blank(&lines[i]) && !is_commented_exec(&lines[i]) {
            all = false;
        }
        i = i + 1;
    }
    assert(all == all_commented(ls));
    let ghost tl = ls.map_values(|l: Seq<char>| toggle_line(all_commented(ls), l));
    let mut out: Vec<char> = Vec::new();
    let mut k: usize = 0;
    while k < lines.len()
        invariant
            k <= lines.len(),
            ls == lines@.map_values(|x: Vec<char>| x@),
            all == all_commented(ls),
            tl == ls.map_values(|l: Seq<char>| toggle_line(all_commented(ls), l)),
            out@ == join_nl(tl.take(k as int)),
        decreases lines.len() - k,
    {
        assert(ls[k as int] == lines@[k as int]@);
        let t = toggle_line_exec(all, &lines[k]);
        if k > 0 {
            out.push('\n');
        }
        push_all(&mut out, &t);
        proof {
            let p = tl.take(k + 1);
            assert(p.drop_last() =~= tl.take(k as int));
            assert(p.last() == t@);
            if k == 0 {
                assert(join_nl(tl.take(0)) =~= Seq::<char>::empty());
                assert(out@ =~= t@);
            } else {
                assert(out@ =~= join_nl(tl.take(k as int)) + seq!['\n'] + t@);
            }
        }
        k = k + 1;
    }
    assert(tl.take(lines.len() as int) =~= tl);
    out
}

/// The characters from the start of `a`'s line to the end of `b`'s line: `(start, end)`.
pub open spec fn line_span(t: Seq<char>, a: nat, b: nat) -> (int, int) {
    let ls = match last_index(t.take(a as int), '\n') {
        Some(i) => i + 1,
        None => 0,
    };
    let le = match first_index(t.skip(b as int), '\n') {
        Some(i) => b + i,
        None => t.len() as int,
    };
    (ls, le)
}

/// The selection an edit works on, clamped to the text: the selection, or the cursor.
pub open spec fn clamped_range(ed: EditorState, n: nat) -> (nat, nat) {
    let (a, b) = match ed.selection {
        Some((a, b)) => (a as nat, b as nat),
        None => (ed.cursor as nat, ed.cursor as nat),
    };
    (if a < n { a } else { n }, if b < n { b } else { n })
}

/// The toggled block of the lines the selection touches.
pub open spec fn line_toggle(t: Seq<char>, ed: EditorState) -> Seq<char> {
    let (a, b) = clamped_range(ed, t.len());
    let (ls, le) = line_span(t, a, b);
    toggled_block(t.subrange(ls, le))
}

/// Toggle `--` on every line touched by the selection (or the cursor line), and select the
/// changed lines.
pub fn toggle_line_comment(text: &str, ed: &mut EditorState)
    requires
        fits(text@),
        old(ed).selection matches Some((a, b)) ==> a <= b,
        line_span(text@, clamped_range(*old(ed), text@.len()).0, clamped_range(*old(ed), text@.len()).1).0
            + line_toggle(text@, *old(ed)).len() <= usize::MAX,
    ensures
        ({
            let t = text@;
            let (a, b) = clamped_range(*old(ed), t.len());
            let (ls, le) = line_span(t, a, b);
            let nb = line_toggle(t, *old(ed));
            &&& final(ed).pending_edit matches Some(PendingEdit::Replace { start, end, text: nt, cursor_after })
                && start == utf8_len(t.take(ls)) && end == utf8_len(t.take(le)) && nt@ == nb
                && cursor_after == Some((ls + nb.len()) as usize)
            &&& final(ed).selection == Some((ls as usize, (ls + nb.len()) as usize))
            &&& final(ed).cursor == old(ed).cursor
            &&& final(ed).line == old(ed).line
            &&& final(ed).find_text == old(ed).find_text
            &&& final(ed).find_case == old(ed).find_case
        }),
{
    let v = chars_of(text);
    let n = v.len();
    let (a0, b0) = match ed.selection {
        Some((a, b)) => (a, b),
        None => (ed.cursor, ed.cursor),
    };
    let a = if a0 < n {
        a0
    } else {
        n
    };
    let b = if b0 < n {
        b0
    } else {
        n
    };
    let last = rfind_char(&v, '\n', a);
    proof {
        let pre = v@.take(a as int);
        crate::connstr::lemma_last_index(
            pre,
            '\n',
            match last {
                Some(i) => Some(i as int),
                None => None,
            },
        );
    }
    let ls = match last {
        Some(i) => i + 1,
        None => 0,
    };
    let next = find_char(&v, '\n', b);
    proof {
        let post = v@.skip(b as int);
        lemma_first_index(
            post,
            '\n',
            match next {
                Some(i) => Some(i - b),
                None => None,
            },
        );
    }
    let le = match next {
        Some(i) => i,
        None => n,
    };
    let block = slice(&v, ls, le);
    let nb = toggle_block_lines(&block);
    proof {
        lemma_take_fits(v@, ls as int);
        lemma_take_fits(v@, le as int);
    }
    let start = prefix_bytes(&v, ls);
    let end = prefix_bytes(&v, le);
    let sel_end = ls + nb.len();
    ed.pending_edit = Some(PendingEdit::Replace { start, end, text: string_of(&nb), cursor_after: Some(sel_end) });
    ed.selection = Some((ls, sel_end));
}

/// Whether a selection is already a block comment.
pub open spec fn is_block_comment(sel: Seq<char>) -> bool {
    starts_with(trim_start(sel), "/*"@) && crate::text::ends_with(crate::text::trim_end(sel), "*/"@)
}

/// The selection with a block comment toggled: a commented selection loses its `/*`, `*/`
/// and the blanks inside them; any other gets `/* … */` around it.
pub open spec fn block_toggle(sel: Seq<char>) -> Seq<char> {
    if is_block_comment(sel) {
        let t = trim(sel);
        trim(t.subrange(2, t.len() - 2))
    } else {
        "/* "@ + sel + " */"@
    }
}

proof fn lemma_trim_end_prefix(t: Seq<char>)
    ensures
        crate::text::trim_end(t) == t.take(crate::text::trim_end(t).len() as int),
        crate::text::trim_end(t).len() <= t.len(),
        crate::text::trim_end(t).len() > 0 ==> !crate::text::is_ws(crate::text::trim_end(t).last()),
    decreases t.len(),
{
    if t.len() > 0 && crate::text::is_ws(t.last()) {
        lemma_trim_end_prefix(t.drop_last());
        let e = crate::text::trim_end(t.drop_last());
        assert(t.drop_last().take(e.len() as int) =~= t.take(e.len() as int));
    } else {
        assert(t.take(t.len() as int) =~= t);
    }
}

proof fn lemma_trimmed_ends(sel: Seq<char>)
    requires
        trim(sel) == sel,
        sel.len() > 0,
    ensures
        !crate::text::is_ws(sel[0]),
        !crate::text::is_ws(sel.last()),
{
    let ts = trim_start(sel);
    lemma_trim_start_first(sel);
    lemma_trim_end_prefix(ts);
    assert(sel[0] == ts[0]);
}

proof fn lemma_trim_padded(sel: Seq<char>)
    requires
        trim(sel) == sel,
    ensures
        trim(seq![' '] + sel + seq![' ']) == sel,
{
    let m = seq![' '] + sel + seq![' '];
    assert(m.drop_first() =~= sel + seq![' ']);
    if sel.len() == 0 {
        let one = seq![' '];
        assert(m.drop_first() =~= one);
        assert(one.drop_first() =~= Seq::<char>::empty());
        assert(trim_start(Seq::<char>::empty()) == Seq::<char>::empty());
        assert(trim_start(one) == trim_start(one.drop_first()));
        assert(trim_start(one) == Seq::<char>::empty());
        assert(trim_start(m) == trim_start(m.drop_first()));
        assert(trim_start(m) == Seq::<char>::empty());
    } else {
        lemma_trimmed_ends(sel);
        let r = sel + seq![' '];
        assert(r[0] == sel[0]);
        assert(trim_start(r) == r);
        assert(r.drop_last() =~= sel);
        assert(crate::text::trim_end(sel) == sel);
    }
}

/// Toggling a block comment twice on a selection that is not a block comment and has no blanks
/// at either end gives it back.
pub proof fn law_block_toggle_twice(sel: Seq<char>)
    requires
        !is_block_comment(sel),
        trim(sel) == sel,
    ensures
        block_toggle(block_toggle(sel)) == sel,
{
    reveal_strlit("/* ");
    reveal_strlit(" */");
    reveal_strlit("/*");
    reveal_strlit("*/");
    let w = "/* "@ + sel + " */"@;
    assert(w[0] == '/');
    assert(w.last() == '/');
    assert(trim_start(w) == w);
    assert(crate::text::trim_end(w) == w);
    assert(w.subrange(0, 2) =~= "/*"@);
    assert(w.subrange(w.len() - 2, w.len() as int) =~= "*/"@);
    assert(is_block_comment(w));
    assert(trim(w) == w);
    assert(w.subrange(2, w.len() - 2) =~= seq![' '] + sel + seq![' ']);
    lemma_trim_padded(sel);
}

/// The smaller of `x` and `n`.
pub open spec fn clamp_to(x: nat, n: nat) -> nat {
    if x < n {
        x
    } else {
        n
    }
}

proof fn lemma_replaced_at(t: Seq<char>, a: nat, b: nat, ins: Seq<char>, t2: Seq<char>)
    requires
        a <= b <= t.len(),
        replaced(t, utf8_len(t.take(a as int)), utf8_len(t.take(b as int)), ins, t2),
    ensures
        t2 == t.take(a as int) + ins + t.skip(b as int),
{
    reveal(replaced);
    let s = utf8_len(t.take(a as int));
    let e = utf8_len(t.take(b as int));
    lemma_take_fits(t, b as int);
    if a < b {
        lemma_utf8_len_take_mono(t, a as int, b as int);
    }
    assert(replace_span(t, s, e) == (s, e));
    let (ks, ke) = choose|ks: nat, ke: nat|
        {
            &&& ks <= ke <= t.len()
            &&& utf8_len(#[trigger] t.take(ks as int)) == s
            &&& utf8_len(#[trigger] t.take(ke as int)) == e
            &&& t2 == t.take(ks as int) + ins + t.skip(ke as int)
        };
    if ks < a {
        lemma_utf8_len_take_mono(t, ks as int, a as int);
    } else if a < ks {
        lemma_utf8_len_take_mono(t, a as int, ks as int);
    }
    if ke < b {
        lemma_utf8_len_take_mono(t, ke as int, b as int);
    } else if b < ke {
        lemma_utf8_len_take_mono(t, b as int, ke as int);
    }
}

/// Toggling a block comment twice, applying each edit, gives the text back: the first call
/// comments the selection (not already a block comment, no blanks at either end) and selects
/// the result; the second, on that selection, removes the comment again. `ins1`/`ins2` are the
/// replacement texts of the two `Replace` edits over the byte ranges that
/// [`toggle_block_comment`] states, and `t1`/`t2` the texts after [`apply_pending`].
pub proof fn law_block_comment_call_twice(
    t0: Seq<char>,
    a: nat,
    b: nat,
    ins1: Seq<char>,
    t1: Seq<char>,
    ins2: Seq<char>,
    t2: Seq<char>,
)
    requires
        a <= b <= t0.len(),
        !is_block_comment(t0.subrange(a as int, b as int)),
        trim(t0.subrange(a as int, b as int)) == t0.subrange(a as int, b as int),
        ins1 == block_toggle(t0.subrange(a as int, b as int)),
        replaced(t0, utf8_len(t0.take(a as int)), utf8_len(t0.take(b as int)), ins1, t1),
        ins2 == block_toggle(t1.subrange(clamp_to(a, t1.len()) as int, clamp_to(a + ins1.len(), t1.len()) as int)),
        replaced(
            t1,
            utf8_len(t1.take(clamp_to(a, t1.len()) as int)),
            utf8_len(t1.take(clamp_to(a + ins1.len(), t1.len()) as int)),
            ins2,
            t2,
        ),
    ensures
        t2 == t0,
        ins2.len() == b - a,
{
    let sel = t0.subrange(a as int, b as int);
    let n1 = ins1.len();
    lemma_replaced_at(t0, a, b, ins1, t1);
    lemma_splice_parts(t0, a, b, ins1, t1);
    assert(ins2 == sel) by {
        law_block_toggle_twice(sel);
    }
    lemma_replaced_at(t1, a, a + n1, ins2, t2);
    assert(t0.take(a as int) + sel + t0.skip(b as int) =~= t0);
}

proof fn lemma_splice_parts(t0: Seq<char>, a: nat, b: nat, ins: Seq<char>, t1: Seq<char>)
    requires
        a <= b <= t0.len(),
        t1 == t0.take(a as int) + ins + t0.skip(b as int),
    ensures
        t1.len() == a + ins.len() + (t0.len() - b),
        clamp_to(a, t1.len()) == a,
        clamp_to(a + ins.len(), t1.len()) == a + ins.len(),
        t1.subrange(a as int, (a + ins.len()) as int) == ins,
        t1.take(a as int) == t0.take(a as int),
        t1.skip((a + ins.len()) as int) == t0.skip(b as int),
{
    assert(t1.subrange(a as int, (a + ins.len()) as int) =~= ins);
    assert(t1.take(a as int) =~= t0.take(a as int));
    assert(t1.skip((a + ins.len()) as int) =~= t0.skip(b as int));
}

/// Toggle a block comment around the selection (nothing happens without one), and select the
/// result.
pub fn toggle_block_comment(text: &str, ed: &mut EditorState)
    requires
        fits(text@),
        old(ed).selection matches Some((a, b)) ==> {
            let (ca, cb) = clamped_range(*old(ed), text@.len());
            &&& ca <= cb
            &&& is_block_comment(text@.subrange(ca as int, cb as int)) ==> trim(text@.subrange(ca as int, cb as int)).len() >= 4
            &&& a + block_toggle(text@.subrange(ca as int, cb as int)).len() <= usize::MAX
        },
    ensures
        match old(ed).selection {
            None => *final(ed) == *old(ed),
            Some((a, b)) => {
                let (ca, cb) = clamped_range(*old(ed), text@.len());
                let nt = block_toggle(text@.subrange(ca as int, cb as int));
                &&& final(ed).pending_edit matches Some(PendingEdit::Replace { start, end, text: t, cursor_after })
                    && start == utf8_len(text@.take(ca as int)) && end == utf8_len(text@.take(cb as int))
                    && t@ == nt && cursor_after == Some((a + nt.len()) as usize)
                &&& final(ed).selection == Some((a, (a + nt.len()) as usize))
                &&& final(ed).cursor == old(ed).cursor
                &&& final(ed).line == old(ed).line
                &&& final(ed).find_text == old(ed).find_text
                &&& final(ed).find_case == old(ed).find_case
            },
        },
{
    let (a, b) = match ed.selection {
        Some(s) => s,
        None => return,
    };
    let v = chars_of(text);
    let n = v.len();
    let ca = if a < n {
        a
    } else {
        n
    };
    let cb = if b < n {
        b
    } else {
        n
    };
    let sel = slice(&v, ca, cb);
    let k = indent_end(&sel);
    let lead = slice(&sel, k, sel.len());
    assert(lead@ =~= trim_start(sel@));
    proof {
        reveal_strlit("/*");
        reveal_strlit("*/");
    }
    let commented = crate::text::starts_with_str(&lead, "/*") && ends_with_trimmed(&sel);
    let nt = if commented {
        let t = crate::text::trim_chars(&sel);
        let inner = slice(&t, 2, t.len() - 2);
        crate::text::trim_chars(&inner)
    } else {
        let mut o = chars_of("/* ");
        push_all(&mut o, &sel);
        push_str(&mut o, " */");
        o
    };
    assert(nt@ == block_toggle(sel@));
    proof {
        lemma_take_fits(v@, ca as int);
        lemma_take_fits(v@, cb as int);
    }
    let start = prefix_bytes(&v, ca);
    let end_b = prefix_bytes(&v, cb);
    let end = a + nt.len();
    ed.pending_edit = Some(PendingEdit::Replace { start, end: end_b, text: string_of(&nt), cursor_after: Some(end) });
    ed.selection = Some((a, end));
}

fn ends_with_trimmed(sel: &Vec<char>) -> (r: bool)
    ensures
        r == crate::text::ends_with(crate::text::trim_end(sel@), "*/"@),
{
    let mut j = sel.len();
    assert(sel@.take(j as int) =~= sel@);
    while j > 0 && crate::text::is_whitespace(sel[j - 1])
        invariant
            j <= sel.len(),
            crate::text::trim_end(sel@.take(j as int)) == crate::text::trim_end(sel@),
        decreases j,
    {
        assert(sel@.take(j as int).drop_last() =~= sel@.take(j - 1));
        j = j - 1;
    }
    let t = slice(sel, 0, j);
    assert(t@ =~= sel@.take(j as int));
    crate::text::ends_with_str(&t, "*/")
}

/// Where line `k` (0-based) of `s` starts: after its `k`-th `\n`, or the end when there are
/// fewer lines.
pub open spec fn line_start(s: Seq<char>, k: nat) -> nat
    decreases k,
{
    if k == 0 {
        0
    } else {
        match first_index(s, '\n') {
            Some(i) => if 0 <= i < s.len() {
                (i + 1 + line_start(s.skip(i + 1), (k - 1) as nat)) as nat
            } else {
                s.len()
            },
            None => s.len(),
        }
    }
}

/// Where line `k` (0-based) of `v` starts, computed.
fn line_start_exec(v: &Vec<char>, k: usize) -> (pos: usize)
    ensures
        pos == line_start(v@, k as nat),
{
    let mut pos: usize = 0;
    let mut j: usize = 0;
    assert(v@.skip(0) =~= v@);
    while j < k && pos < v.len()
        invariant
            j <= k,
            pos <= v.len(),
            pos + line_start(v@.skip(pos as int), (k - j) as nat) == line_start(v@, k as nat),
        decreases k - j,
    {
        let ghost rest = v@.skip(pos as int);
        match find_char(v, '\n', pos) {
            Some(i) => {
                proof {
                    lemma_first_index(rest, '\n', Some(i - pos));
                    assert(rest.skip(i - pos + 1) =~= v@.skip(i + 1));
                }
                pos = i + 1;
            },
            None => {
                proof {
                    lemma_first_index(rest, '\n', None);
                }
                pos = v.len();
            },
        }
        j = j + 1;
    }
    proof {
        if pos == v.len() {
            lemma_line_start_end(v@.skip(pos as int), (k - j) as nat);
        }
    }
    pos
}

/// Replace the whole text keeping the cursor line.
pub fn set_text_keep_line(ed: &mut EditorState, new_text: String)
    ensures
        ({
            let line = if old(ed).line >= 1 {
                old(ed).line as nat
            } else {
                1
            };
            final(ed).pending_edit matches Some(PendingEdit::SetText { text, cursor }) && text@ == new_text@
                && cursor == line_start(new_text@, (line - 1) as nat)
        }),
        final(ed).cursor == old(ed).cursor,
        final(ed).selection == old(ed).selection,
        final(ed).line == old(ed).line,
        final(ed).find_text == old(ed).find_text,
        final(ed).find_case == old(ed).find_case,
{
    let line = if ed.line >= 1 {
        ed.line
    } else {
        1
    };
    let v = chars_of(new_text.as_str());
    let pos = line_start_exec(&v, line - 1);
    ed.pending_edit = Some(PendingEdit::SetText { text: new_text, cursor: pos });
}

proof fn lemma_count_concat(a: Seq<char>, b: Seq<char>, c: char)
    ensures
        crate::text::count_char(a + b, c) == crate::text::count_char(a, c) + crate::text::count_char(b, c),
    decreases b.len(),
{
    if b.len() > 0 {
        lemma_count_concat(a, b.drop_last(), c);
        assert((a + b).drop_last() =~= a + b.drop_last());
        assert((a + b).last() == b.last());
    } else {
        assert(a + b =~= a);
    }
}

proof fn lemma_count_none(s: Seq<char>, c: char)
    requires
        forall|j: int| 0 <= j < s.len() ==> s[j] != c,
    ensures
        crate::text::count_char(s, c) == 0,
    decreases s.len(),
{
    if s.len() > 0 {
        lemma_count_none(s.drop_last(), c);
    }
}

/// Where line `k` starts is on line `k + 1` (counting from 1), or on the last line when the text
/// has fewer lines: the cursor [`set_text_keep_line`] and [`goto_line`] place is on the line
/// they aim for.
pub proof fn law_line_start_line(s: Seq<char>, k: nat)
    ensures
        line_start(s, k) <= s.len(),
        line_col_of(s, line_start(s, k)).0 == if k + 1 < crate::text::count_char(s, '\n') + 1 {
            k + 1
        } else {
            crate::text::count_char(s, '\n') + 1
        },
    decreases k,
{
    lemma_first_index_first(s, '\n');
    if k == 0 {
        assert(s.take(0) =~= Seq::<char>::empty());
    } else {
        match first_index(s, '\n') {
            Some(i) => {
                let rest = s.skip(i + 1);
                law_line_start_line(rest, (k - 1) as nat);
                let x = line_start(rest, (k - 1) as nat);
                assert(s =~= s.take(i + 1) + rest);
                assert(s.take(i + 1) =~= s.take(i).push('\n'));
                assert forall|j: int| 0 <= j < s.take(i).len() implies s.take(i)[j] != '\n' by {
                    assert(s.take(i)[j] == s[j]);
                }
                lemma_count_none(s.take(i), '\n');
                assert(crate::text::count_char(s.take(i + 1), '\n') == 1) by {
                    assert(s.take(i + 1).drop_last() =~= s.take(i));
                }
                assert(s.take(i + 1 + x) =~= s.take(i + 1) + rest.take(x as int));
                lemma_count_concat(s.take(i + 1), rest.take(x as int), '\n');
                lemma_count_concat(s.take(i + 1), rest, '\n');
            },
            None => {
                lemma_count_none(s, '\n');
                assert(s.take(s.len() as int) =~= s);
            },
        }
    }
}

/// Go to line: `line_text` (trimmed) read as a line number puts the cursor at the start of
/// that line of `text` (0 counts as the first line; past the last line, the end). Text that is
/// not a number changes nothing.
pub fn goto_line(text: &str, ed: &mut EditorState, line_text: &str)
    ensures
        match crate::text::parse_uint(trim(line_text@), usize::MAX as nat) {
            Some(n) => final(ed).pending_edit matches Some(PendingEdit::SetCursor(c)) && c == line_start(
                text@,
                if n >= 1 {
                    (n - 1) as nat
                } else {
                    0
                },
            ),
            None => final(ed).pending_edit == old(ed).pending_edit,
        },
        final(ed).cursor == old(ed).cursor,
        final(ed).selection == old(ed).selection,
        final(ed).line == old(ed).line,
        final(ed).find_text == old(ed).find_text,
        final(ed).find_case == old(ed).find_case,
{
    let raw = chars_of(line_text);
    let t = crate::text::trim_chars(&raw);
    match crate::text::parse_uint_exec(&t, usize::MAX as u64) {
        Some(n) => {
            let n = n as usize;
            let k = if n >= 1 {
                n - 1
            } else {
                0
            };
            let v = chars_of(text);
            let c = line_start_exec(&v, k);
            ed.pending_edit = Some(PendingEdit::SetCursor(c));
        },
        None => {},
    }
}

proof fn lemma_line_start_end(s: Seq<char>, k: nat)
    requires
        s.len() == 0,
    ensures
        line_start(s, k) == 0,
{
}

/// The byte range that replacing bytes `start..end` of `t` covers: `start` clamped to the
/// text, then `end` clamped between it and the end.
pub open spec fn replace_span(t: Seq<char>, start: nat, end: nat) -> (nat, nat) {
    let n = utf8_len(t);
    let s = if start < n {
        start
    } else {
        n
    };
    let e = if end < s {
        s
    } else if end > n {
        n
    } else {
        end
    };
    (s, e)
}

/// What applying `edit` to `t` requires: a replacement must cut the text between characters.
pub open spec fn edit_applies(t: Seq<char>, edit: PendingEdit) -> bool {
    match edit {
        PendingEdit::Replace { start, end, text, .. } => {
            let (s, e) = replace_span(t, start as nat, end as nat);
            &&& fits(t)
            &&& on_boundary(t, s)
            &&& on_boundary(t, e)
            &&& t.len() + text@.len() <= usize::MAX
        },
        _ => true,
    }
}

/// `t2` is `t` with the bytes `start..end` (clamped as [`replace_span`] clamps them) replaced by
/// `ins`: what applying a `Replace` edit does.
#[verifier::opaque]
pub open spec fn replaced(t: Seq<char>, start: nat, end: nat, ins: Seq<char>, t2: Seq<char>) -> bool {
    let (s, e) = replace_span(t, start, end);
    exists|ks: nat, ke: nat|
        {
            &&& ks <= ke <= t.len()
            &&& utf8_len(#[trigger] t.take(ks as int)) == s
            &&& utf8_len(#[trigger] t.take(ke as int)) == e
            &&& t2 == t.take(ks as int) + ins + t.skip(ke as int)
        }
}

/// Apply the pending edit, if any, to `text`, and clear it. Returns the character range the
/// cursor is then given (`None` when nothing was pending).
pub fn apply_pending(text: &mut String, ed: &mut EditorState) -> (r: Option<(usize, usize)>)
    requires
        old(ed).pending_edit matches Some(edit) ==> edit_applies(old(text)@, edit),
    ensures
        final(ed).pending_edit is None,
        final(ed).cursor == old(ed).cursor,
        final(ed).selection == old(ed).selection,
        final(ed).line == old(ed).line,
        final(ed).find_text == old(ed).find_text,
        final(ed).find_case == old(ed).find_case,
        old(ed).pending_edit matches Some(PendingEdit::Replace { start, end, text: ins, .. }) ==> replaced(
            old(text)@,
            start as nat,
            end as nat,
            ins@,
            final(text)@,
        ),
        match old(ed).pending_edit {
            None => r is None && final(text)@ == old(text)@,
            Some(PendingEdit::SetCursor(c)) => r == Some((c, c)) && final(text)@ == old(text)@,
            Some(PendingEdit::Select(a, b)) => r == Some((a, b)) && final(text)@ == old(text)@,
            Some(PendingEdit::SetText { text: t, cursor }) => r == Some((cursor, cursor))
                && final(text)@ == t@,
            Some(PendingEdit::Replace { start, end, text: ins, cursor_after }) => {
                let t = old(text)@;
                let (s, e) = replace_span(t, start as nat, end as nat);
                exists|ks: nat, ke: nat|
                    {
                        &&& ks <= ke <= t.len()
                        &&& utf8_len(#[trigger] t.take(ks as int)) == s
                        &&& utf8_len(#[trigger] t.take(ke as int)) == e
                        &&& final(text)@ == t.take(ks as int) + ins@ + t.skip(ke as int)
                        &&& r == Some(
                            match cursor_after {
                                Some(c) => (c, c),
                                None => ((ks + ins@.len()) as usize, (ks + ins@.len()) as usize),
                            },
                        )
                    }
            },
        },
{
    let mut edit: Option<PendingEdit> = None;
    std::mem::swap(&mut edit, &mut ed.pending_edit);
    match edit {
        None => None,
        Some(PendingEdit::SetCursor(c)) => Some((c, c)),
        Some(PendingEdit::Select(a, b)) => Some((a, b)),
        Some(PendingEdit::SetText { text: t, cursor }) => {
            *text = t;
            Some((cursor, cursor))
        },
        Some(PendingEdit::Replace { start, end, text: ins, cursor_after }) => {
            let v = chars_of(text.as_str());
            let total = prefix_bytes(&v, v.len());
            proof {
                lemma_utf8_len_full(v@);
            }
            let s = if start < total {
                start
            } else {
                total
            };
            let e = if end < s {
                s
            } else if end > total {
                total
            } else {
                end
            };
            let ks = byte_to_char(text.as_str(), s);
            let ke = byte_to_char(text.as_str(), e);
            proof {
                if ke < ks {
                    lemma_utf8_len_take_mono(v@, ke as int, ks as int);
                }
            }
            let mut out = slice(&v, 0, ks);
            let w = chars_of(ins.as_str());
            push_all(&mut out, &w);
            let tail = slice(&v, ke, v.len());
            push_all(&mut out, &tail);
            assert(out@ =~= v@.take(ks as int) + ins@ + v@.skip(ke as int));
            *text = string_of(&out);
            proof {
                reveal(replaced);
            }
            let after = match cursor_after {
                Some(c) => c,
                None => ks + w.len(),
            };
            Some((after, after))
        },
    }
}

// ---------------------------------------------------------------------------------------------
// Find

/// The first index at or after `k` where `d` occurs in `h`.
pub open spec fn match_from(h: Seq<char>, d: Seq<char>, k: int) -> Option<int>
    decreases h.len() + 1 - k,
{
    if k < 0 || k > h.len() {
        None
    } else if crate::text::matches_at(h, d, k) {
        Some(k)
    } else {
        match_from(h, d, k + 1)
    }
}

proof fn lemma_match_from(h: Seq<char>, d: Seq<char>, k: int, r: Option<int>)
    requires
        0 <= k,
        match r {
            Some(m) => k <= m && crate::text::matches_at(h, d, m) && forall|j: int|
                k <= j < m ==> !crate::text::matches_at(h, d, j),
            None => forall|j: int| k <= j ==> !crate::text::matches_at(h, d, j),
        },
    ensures
        match_from(h, d, k) == r,
    decreases h.len() + 1 - k,
{
    if k <= h.len() && !crate::text::matches_at(h, d, k) {
        lemma_match_from(h, d, k + 1, r);
    }
    if k > h.len() {
        if let Some(m) = r {
            assert(m + d.len() <= h.len());
        }
    }
}

proof fn lemma_match_from_bounds(h: Seq<char>, d: Seq<char>, k: int)
    ensures
        match_from(h, d, k) matches Some(m) ==> 0 <= k <= m <= h.len(),
    decreases h.len() + 1 - k,
{
    if 0 <= k <= h.len() && !crate::text::matches_at(h, d, k) {
        lemma_match_from_bounds(h, d, k + 1);
    }
}

fn match_from_exec(h: &Vec<char>, d: &Vec<char>, k: usize) -> (r: Option<usize>)
    ensures
        match match_from(h@, d@, k as int) {
            Some(m) => r == Some(m as usize),
            None => r is None,
        },
        r matches Some(m) ==> k <= m && m + d@.len() <= h@.len(),
        match_from(h@, d@, k as int) matches Some(m) ==> k <= m <= h@.len(),
{
    let r = crate::text::find_from(h, d, k);
    proof {
        lemma_match_from_bounds(h@, d@, k as int);
        lemma_match_from(
            h@,
            d@,
            k as int,
            match r {
                Some(m) => Some(m as int),
                None => None,
            },
        );
    }
    r
}

/// The character index at which `s` has exactly `b` bytes before it, if there is one.
pub open spec fn char_at_byte(s: Seq<char>, b: nat) -> Option<nat> {
    if exists|k: nat| k <= s.len() && utf8_len(#[trigger] s.take(k as int)) == b {
        Some(choose|k: nat| k <= s.len() && utf8_len(#[trigger] s.take(k as int)) == b)
    } else {
        None
    }
}

/// What a search of the find bar's text meets.
pub enum FindOutcome {
    NotFound,
    /// The match covers characters `start..end` of the text.
    Found(usize, usize),
}

/// Where find-next lands in `t` from the selection end (or the cursor), wrapping to the start:
/// `None` where the byte offsets of `t` and of the text searched (lower-cased when the search
/// ignores case) do not line up, as the search works on byte offsets of both.
pub open spec fn find_plan(t: Seq<char>, ed: EditorState) -> Option<FindOutcome> {
    let needle = ed.find_text@;
    let start_char = match ed.selection {
        Some((_, b)) => b as nat,
        None => ed.cursor as nat,
    };
    let (h, d) = if ed.find_case {
        (t, needle)
    } else {
        (crate::palette::lower_text(t), crate::palette::lower_text(needle))
    };
    let start = byte_of(t, start_char);
    let m: Option<Option<int>> = if utf8_len(h) == utf8_len(t) {
        match char_at_byte(h, start) {
            Some(ks) => Some(
                match match_from(h, d, ks as int) {
                    Some(m) => Some(m),
                    None => match_from(h.take(ks as int), d, 0),
                },
            ),
            None => None,
        }
    } else {
        Some(match_from(h, d, 0))
    };
    match m {
        None => None,
        Some(None) => Some(FindOutcome::NotFound),
        Some(Some(k)) => {
            let b = utf8_len(h.take(k));
            let bc = if b < utf8_len(t) {
                b
            } else {
                utf8_len(t)
            };
            match char_at_byte(t, bc) {
                Some(a) => if a + needle.len() <= usize::MAX {
                    Some(FindOutcome::Found(a as usize, (a + needle.len()) as usize))
                } else {
                    None
                },
                None => None,
            }
        },
    }
}

proof fn lemma_char_at_byte_unique(s: Seq<char>, b: nat, k: nat)
    requires
        k <= s.len(),
        utf8_len(s.take(k as int)) == b,
    ensures
        char_at_byte(s, b) == Some(k),
{
    let c = choose|k2: nat| k2 <= s.len() && utf8_len(#[trigger] s.take(k2 as int)) == b;
    assert(exists|k2: nat| k2 <= s.len() && utf8_len(#[trigger] s.take(k2 as int)) == b);
    if c < k {
        lemma_utf8_len_take_mono(s, c as int, k as int);
    } else if c > k {
        lemma_utf8_len_take_mono(s, k as int, c as int);
    }
}

/// The character index at which `v` has exactly `b` bytes before it.
fn char_at_byte_exec(v: &Vec<char>, b: usize) -> (r: Option<usize>)
    requires
        fits(v@),
    ensures
        match char_at_byte(v@, b as nat) {
            Some(k) => r == Some(k as usize),
            None => r is None,
        },
{
    let mut acc: usize = 0;
    let mut i: usize = 0;
    while i < v.len() && acc < b
        invariant
            i <= v.len(),
            fits(v@),
            acc == utf8_len(v@.take(i as int)),
            forall|j: int| 0 <= j < i ==> utf8_len(#[trigger] v@.take(j)) < b,
        decreases v.len() - i,
    {
        proof {
            assert(v@.take(i + 1).drop_last() =~= v@.take(i as int));
            lemma_take_fits(v@, i + 1);
        }
        acc = acc + utf8_width_exec(v[i]);
        i = i + 1;
    }
    if acc == b {
        proof {
            lemma_char_at_byte_unique(v@, b as nat, i as nat);
        }
        Some(i)
    } else {
        proof {
            assert forall|k: nat| k <= v@.len() implies utf8_len(#[trigger] v@.take(k as int)) != b by {
                if k < i {
                } else if k > i {
                    lemma_utf8_len_take_mono(v@, i as int, k as int);
                }
            }
        }
        None
    }
}

/// Find-next's outcome, or `None` where the byte offsets do not line up.
#[verifier::rlimit(40)]
#[verifier::spinoff_prover]
fn find_core(text: &str, ed: &EditorState) -> (r: Option<FindOutcome>)
    requires
        fits(text@),
        fits(crate::palette::lower_text(text@)),
        ed.find_text@.len() > 0,
    ensures
        r == find_plan(text@, *ed),
{
    let t = chars_of(text);
    let needle = chars_of(ed.find_text.as_str());
    let start_char = match ed.selection {
        Some((_, b)) => b,
        None => ed.cursor,
    };
    let (h, d) = if ed.find_case {
        (chars_of(text), chars_of(ed.find_text.as_str()))
    } else {
        let lt = crate::palette::to_lowercase_text(text);
        let ln = crate::palette::to_lowercase_text(ed.find_text.as_str());
        (chars_of(lt.as_str()), chars_of(ln.as_str()))
    };
    proof {
        lemma_utf8_len_full(t@);
        lemma_utf8_len_full(h@);
    }
    let start = if start_char < t.len() {
        prefix_bytes(&t, start_char)
    } else {
        prefix_bytes(&t, t.len())
    };
    let tlen = prefix_bytes(&t, t.len());
    let hlen = prefix_bytes(&h, h.len());
    let m: Option<usize> = if hlen == tlen {
        let ks = match char_at_byte_exec(&h, start) {
            Some(k) => k,
            None => return None,
        };
        match match_from_exec(&h, &d, ks) {
            Some(m) => Some(m),
            None => {
                let pre = slice(&h, 0, ks);
                assert(pre@ =~= h@.take(ks as int));
                match match_from_exec(&pre, &d, 0) {
                    Some(m) => Some(m),
                    None => None,
                }
            },
        }
    } else {
        match_from_exec(&h, &d, 0)
    };
    let ghost gm: Option<Option<int>> = if utf8_len(h@) == utf8_len(text@) {
        match char_at_byte(h@, start as nat) {
            Some(ks) => Some(
                match match_from(h@, d@, ks as int) {
                    Some(mm) => Some(mm),
                    None => match_from(h@.take(ks as int), d@, 0),
                },
            ),
            None => None,
        }
    } else {
        Some(match_from(h@, d@, 0))
    };
    assert(gm == Some(match m { Some(k) => Some(k as int), None => None::<int> }));
    match m {
        None => Some(FindOutcome::NotFound),
        Some(k) => {
            proof {
                lemma_take_fits(h@, k as int);
            }
            let b = prefix_bytes(&h, k);
            let bc = if b < tlen {
                b
            } else {
                tlen
            };
            match char_at_byte_exec(&t, bc) {
                Some(a) => if a <= usize::MAX - needle.len() {
                    Some(FindOutcome::Found(a, a + needle.len()))
                } else {
                    None
                },
                None => None,
            }
        },
    }
}

/// Apply a find outcome: select the match and move the cursor to its end.
fn apply_find(ed: &mut EditorState, o: FindOutcome)
    ensures
        match o {
            FindOutcome::NotFound => *final(ed) == *old(ed),
            FindOutcome::Found(a, e) => {
                &&& final(ed).pending_edit == Some(PendingEdit::Select(a, e))
                &&& final(ed).selection == Some((a, e))
                &&& final(ed).cursor == e
                &&& final(ed).line == old(ed).line
                &&& final(ed).find_text == old(ed).find_text
                &&& final(ed).find_case == old(ed).find_case
            },
        },
{
    if let FindOutcome::Found(a, e) = o {
        ed.pending_edit = Some(PendingEdit::Select(a, e));
        ed.selection = Some((a, e));
        ed.cursor = e;
    }
}

/// Select the next match of the find text after the selection (or the cursor), wrapping to
/// the start; nothing happens when the find text is empty or nothing matches.
pub fn find_next(text: &str, ed: &mut EditorState)
    requires
        fits(text@),
        fits(crate::palette::lower_text(text@)),
        old(ed).find_text@.len() > 0 ==> find_plan(text@, *old(ed)) is Some,
    ensures
        old(ed).find_text@.len() == 0 ==> *final(ed) == *old(ed),
        old(ed).find_text@.len() > 0 ==> match find_plan(text@, *old(ed)).unwrap() {
            FindOutcome::NotFound => *final(ed) == *old(ed),
            FindOutcome::Found(a, e) => {
                &&& final(ed).pending_edit == Some(PendingEdit::Select(a, e))
                &&& final(ed).selection == Some((a, e))
                &&& final(ed).cursor == e
                &&& final(ed).line == old(ed).line
                &&& final(ed).find_text == old(ed).find_text
                &&& final(ed).find_case == old(ed).find_case
            },
        },
{
    if ed.find_text.as_str().is_empty() {
        return;
    }
    match find_core(text, ed) {
        Some(o) => apply_find(ed, o),
        None => {},
    }
}

/// Find-next where the byte offsets line up; `false`, with nothing changed, where they do
/// not (or the text is too long to measure in bytes).
pub fn try_find_next(text: &str, ed: &mut EditorState) -> (r: bool)
    ensures
        r ==> (old(ed).find_text@.len() == 0 ==> *final(ed) == *old(ed)),
        r && old(ed).find_text@.len() > 0 ==> (find_plan(text@, *old(ed)) matches Some(o) && match o {
            FindOutcome::NotFound => *final(ed) == *old(ed),
            FindOutcome::Found(a, e) => {
                &&& final(ed).pending_edit == Some(PendingEdit::Select(a, e))
                &&& final(ed).selection == Some((a, e))
                &&& final(ed).cursor == e
                &&& final(ed).line == old(ed).line
                &&& final(ed).find_text == old(ed).find_text
                &&& final(ed).find_case == old(ed).find_case
            },
        }),
        !r ==> *final(ed) == *old(ed) && (!fits(text@) || !fits(crate::palette::lower_text(text@))
            || (old(ed).find_text@.len() > 0 && find_plan(text@, *old(ed)) is None)),
{
    if ed.find_text.as_str().is_empty() {
        return true;
    }
    let t = chars_of(text);
    if !bytes_fit(&t) {
        return false;
    }
    let lt = crate::palette::to_lowercase_text(text);
    let l = chars_of(lt.as_str());
    if !bytes_fit(&l) {
        return false;
    }
    match find_core(text, ed) {
        Some(_) => {
            find_next(text, ed);
            true
        },
        None => false,
    }
}

/// Whether the UTF-8 length of `v` fits in a `usize`.
fn bytes_fit(v: &Vec<char>) -> (r: bool)
    ensures
        r == fits(v@),
{
    let mut acc: usize = 0;
    let mut i: usize = 0;
    while i < v.len()
        invariant
            i <= v.len(),
            acc == utf8_len(v@.take(i as int)),
        decreases v.len() - i,
    {
        assert(v@.take(i + 1).drop_last() =~= v@.take(i as int));
        let w = utf8_width_exec(v[i]);
        if acc > usize::MAX - w {
            proof {
                lemma_take_fits(v@, i + 1);
            }
            return false;
        }
        acc = acc + w;
        i = i + 1;
    }
    assert(v@.take(i as int) =~= v@);
    true
}

// ---------------------------------------------------------------------------------------------
// Replace all

/// `s.replace(from, to)` for a non-empty `from`, from character `k` on: every non-overlapping
/// occurrence, leftmost first, replaced.
pub open spec fn replace_from(s: Seq<char>, from: Seq<char>, to: Seq<char>, k: int) -> Seq<char>
    decreases s.len() + 1 - k,
{
    if from.len() == 0 || k < 0 || k > s.len() {
        seq![]
    } else {
        match match_from(s, from, k) {
            Some(m) => if k <= m && m + from.len() <= s.len() {
                s.subrange(k, m) + to + replace_from(s, from, to, m + from.len())
            } else {
                seq![]
            },
            None => s.skip(k),
        }
    }
}

/// `to` before every character of `s` and at its end: what replacing the empty text gives.
pub open spec fn interleave(s: Seq<char>, to: Seq<char>) -> Seq<char>
    decreases s.len(),
{
    if s.len() == 0 {
        to
    } else {
        interleave(s.drop_last(), to) + seq![s.last()] + to
    }
}

/// `str::replace`.
pub open spec fn replace_spec(s: Seq<char>, from: Seq<char>, to: Seq<char>) -> Seq<char> {
    if from.len() == 0 {
        interleave(s, to)
    } else {
        replace_from(s, from, to, 0)
    }
}

/// Replace every occurrence of `from` in `s` with `to`, as `str::replace` does.
pub fn replace_all(s: &Vec<char>, from: &Vec<char>, to: &Vec<char>) -> (r: Vec<char>)
    ensures
        r@ == replace_spec(s@, from@, to@),
{
    let mut out: Vec<char> = Vec::new();
    if from.len() == 0 {
        push_all(&mut out, to);
        let mut i: usize = 0;
        while i < s.len()
            invariant
                i <= s.len(),
                out@ == interleave(s@.take(i as int), to@),
            decreases s.len() - i,
        {
            out.push(s[i]);
            push_all(&mut out, to);
            proof {
                assert(s@.take(i + 1).drop_last() =~= s@.take(i as int));
            }
            i = i + 1;
        }
        assert(s@.take(i as int) =~= s@);
        return out;
    }
    let mut k: usize = 0;
    loop
        invariant
            from@.len() > 0,
            k <= s.len(),
            replace_spec(s@, from@, to@) == out@ + replace_from(s@, from@, to@, k as int),
        decreases s.len() - k,
    {
        match match_from_exec(s, from, k) {
            Some(m) => {
                let ghost out0 = out@;
                let piece = slice(s, k, m);
                push_all(&mut out, &piece);
                push_all(&mut out, to);
                proof {
                    assert(replace_from(s@, from@, to@, k as int) == s@.subrange(k as int, m as int) + to@
                        + replace_from(s@, from@, to@, m + from@.len()));
                    assert(out0 + replace_from(s@, from@, to@, k as int) =~= out@ + replace_from(
                        s@,
                        from@,
                        to@,
                        m + from@.len(),
                    ));
                }
                k = m + from.len();
            },
            None => {
                let rest = slice(s, k, s.len());
                assert(rest@ =~= s@.skip(k as int));
                push_all(&mut out, &rest);
                return out;
            },
        }
    }
}

/// Case-insensitive replacement over the lower-cased text `l` of `t`, from character `k` of
/// `l`: the parts of `t` between matches of `nl` are kept and each match replaced by `rep`.
/// Positions are carried from `l` to `t` as byte offsets, so where one does not start a
/// character of `t` the result is `None`.
pub open spec fn replace_lower_from(
    t: Seq<char>,
    l: Seq<char>,
    nl: Seq<char>,
    rep: Seq<char>,
    k: int,
) -> Option<Seq<char>>
    decreases l.len() + 1 - k,
{
    if nl.len() == 0 || k < 0 || k > l.len() {
        None
    } else {
        match char_at_byte(t, utf8_len(l.take(k))) {
            None => None,
            Some(kt) => match match_from(l, nl, k) {
                None => Some(t.skip(kt as int)),
                Some(m) => if k <= m && m + nl.len() <= l.len() {
                    match char_at_byte(t, utf8_len(l.take(m))) {
                        None => None,
                        Some(mt) => match replace_lower_from(t, l, nl, rep, m + nl.len()) {
                            None => None,
                            Some(rest) => Some(t.subrange(kt as int, mt as int) + rep + rest),
                        },
                    }
                } else {
                    None
                },
            },
        }
    }
}

/// Replace every match of `needle` in `text`, ignoring case, with `rep`. When lower-casing
/// changes the text's length in bytes, or the needle lower-cases to nothing, this is a plain
/// case-sensitive `str::replace`. `None` where a match position does not fall on a character
/// of `text`.
pub open spec fn replace_ci(text: Seq<char>, needle: Seq<char>, rep: Seq<char>) -> Option<Seq<char>> {
    let l = crate::palette::lower_text(text);
    let nl = crate::palette::lower_text(needle);
    if utf8_len(l) != utf8_len(text) || nl.len() == 0 {
        Some(replace_spec(text, needle, rep))
    } else {
        replace_lower_from(text, l, nl, rep, 0)
    }
}

proof fn lemma_char_at_byte_bound(s: Seq<char>, b: nat)
    ensures
        char_at_byte(s, b) matches Some(k) ==> k <= s.len() && utf8_len(s.take(k as int)) == b,
{
}

/// [`replace_ci`], computed; `None` also when the text is too long to measure in bytes.
#[verifier::rlimit(60)]
#[verifier::spinoff_prover]
fn replace_ci_exec(text: &str, needle: &str, rep: &str) -> (r: Option<String>)
    ensures
        match r {
            Some(out) => replace_ci(text@, needle@, rep@) == Some(out@) && fits(text@) && fits(
                crate::palette::lower_text(text@),
            ),
            None => replace_ci(text@, needle@, rep@) is None || !fits(text@) || !fits(
                crate::palette::lower_text(text@),
            ),
        },
{
    let t = chars_of(text);
    let lt = crate::palette::to_lowercase_text(text);
    let l = chars_of(lt.as_str());
    let ln = crate::palette::to_lowercase_text(needle);
    let nl = chars_of(ln.as_str());
    let n = chars_of(needle);
    let r = chars_of(rep);
    if !bytes_fit(&t) || !bytes_fit(&l) {
        return None;
    }
    proof {
        lemma_utf8_len_full(t@);
        lemma_utf8_len_full(l@);
    }
    let tlen = prefix_bytes(&t, t.len());
    let llen = prefix_bytes(&l, l.len());
    if llen != tlen || nl.len() == 0 {
        let out = replace_all(&t, &n, &r);
        return Some(string_of(&out));
    }
    let mut out: Vec<char> = Vec::new();
    let mut k: usize = 0;
    loop
        invariant
            nl@.len() > 0,
            k <= l.len(),
            fits(t@),
            fits(l@),
            replace_ci(text@, needle@, rep@) == match replace_lower_from(t@, l@, nl@, r@, k as int) {
                Some(rest) => Some(out@ + rest),
                None => None,
            },
            t@ == text@,
            l@ == crate::palette::lower_text(text@),
            nl@ == crate::palette::lower_text(needle@),
            r@ == rep@,
            utf8_len(l@) == utf8_len(t@),
        decreases l.len() - k,
    {
        proof {
            lemma_take_fits(l@, k as int);
            lemma_char_at_byte_bound(t@, utf8_len(l@.take(k as int)));
        }
        let kb = prefix_bytes(&l, k);
        let kt = match char_at_byte_exec(&t, kb) {
            Some(x) => x,
            None => return None,
        };
        match match_from_exec(&l, &nl, k) {
            None => {
                let rest = slice(&t, kt, t.len());
                assert(rest@ =~= t@.skip(kt as int));
                push_all(&mut out, &rest);
                return Some(string_of(&out));
            },
            Some(m) => {
                proof {
                    lemma_take_fits(l@, m as int);
                    lemma_char_at_byte_bound(t@, utf8_len(l@.take(m as int)));
                    if k < m {
                        lemma_utf8_len_take_mono(l@, k as int, m as int);
                    }
                }
                let mb = prefix_bytes(&l, m);
                let mt = match char_at_byte_exec(&t, mb) {
                    Some(x) => x,
                    None => return None,
                };
                proof {
                    if mt < kt {
                        lemma_utf8_len_take_mono(t@, mt as int, kt as int);
                    }
                }
                let ghost out0 = out@;
                let piece = slice(&t, kt, mt);
                push_all(&mut out, &piece);
                push_all(&mut out, &r);
                proof {
                    let next = replace_lower_from(t@, l@, nl@, r@, m + nl@.len());
                    match next {
                        Some(rest) => {
                            assert(out0 + (t@.subrange(kt as int, mt as int) + r@ + rest) =~= out@ + rest);
                        },
                        None => {},
                    }
                }
                k = m + nl.len();
            },
        }
    }
}

/// Replace every match of `needle` in `text`, ignoring case, with `rep`: [`replace_ci`]. The
/// match positions must carry back to characters of the text.
pub fn replace_case_insensitive(text: &str, needle: &str, rep: &str) -> (r: String)
    requires
        replace_ci(text@, needle@, rep@) is Some,
        fits(text@),
        fits(crate::palette::lower_text(text@)),
    ensures
        replace_ci(text@, needle@, rep@) == Some(r@),
{
    match replace_ci_exec(text, needle, rep) {
        Some(out) => out,
        None => {
            proof {
                assert(false);
            }
            String::new()
        },
    }
}

/// Case-insensitive replace-all, or `None` where match positions in the lower-cased text cannot
/// be carried back to the text (see [`replace_ci`]) or the text is too long to measure in bytes.
pub fn try_replace_case_insensitive(text: &str, needle: &str, rep: &str) -> (r: Option<String>)
    ensures
        match r {
            Some(out) => replace_ci(text@, needle@, rep@) == Some(out@),
            None => replace_ci(text@, needle@, rep@) is None || !fits(text@) || !fits(
                crate::palette::lower_text(text@),
            ),
        },
{
    match replace_ci_exec(text, needle, rep) {
        Some(_) => Some(replace_case_insensitive(text, needle, rep)),
        None => None,
    }
}

// ---------------------------------------------------------------------------------------------
// Tabs and the find bar

/// The tab after (`forward`) or before tab `i` of `n`, wrapping around.
pub fn cycle_tab(i: usize, n: usize, forward: bool) -> (r: usize)
    requires
        i < n,
    ensures
        r == if forward {
            (i + 1) % (n as int)
        } else {
            (i + n - 1) % (n as int)
        },
{
    let ghost ni = n as int;
    if forward {
        if i + 1 == n {
            assert((i + 1) % ni == 0) by {
                vstd::arithmetic::div_mod::lemma_mod_self_0(ni);
            }
            0
        } else {
            assert((i + 1) % ni == i + 1) by {
                vstd::arithmetic::div_mod::lemma_small_mod((i + 1) as nat, n as nat);
            }
            i + 1
        }
    } else if i == 0 {
        assert((i + n - 1) % ni == n - 1) by {
            vstd::arithmetic::div_mod::lemma_small_mod((n - 1) as nat, n as nat);
        }
        n - 1
    } else {
        assert((i + n - 1) % ni == i - 1) by {
            vstd::arithmetic::div_mod::lemma_mod_add_multiples_vanish(i - 1, ni);
            vstd::arithmetic::div_mod::lemma_small_mod((i - 1) as nat, n as nat);
        }
        i - 1
    }
}

/// The text the find bar opens with: the selected characters (clamped to the text) when the
/// selection is not empty and stays on one line; otherwise nothing.
pub open spec fn find_prefill_of(t: Seq<char>, selection: Option<(usize, usize)>) -> Option<Seq<char>> {
    match selection {
        Some((a, b)) => {
            let ca = if a < t.len() { a as int } else { t.len() as int };
            let cb = if b < t.len() { b as int } else { t.len() as int };
            if ca < cb && !t.subrange(ca, cb).contains('\n') {
                Some(t.subrange(ca, cb))
            } else {
                None
            }
        },
        None => None,
    }
}

/// The text the find bar opens with for `selection` in `text`: [`find_prefill_of`].
pub fn find_prefill(text: &str, selection: Option<(usize, usize)>) -> (r: Option<String>)
    ensures
        match r {
            Some(s) => find_prefill_of(text@, selection) == Some(s@),
            None => find_prefill_of(text@, selection) is None,
        },
{
    let (a, b) = match selection {
        Some(x) => x,
        None => return None,
    };
    let v = chars_of(text);
    let n = v.len();
    let ca = if a < n {
        a
    } else {
        n
    };
    let cb = if b < n {
        b
    } else {
        n
    };
    if ca >= cb {
        return None;
    }
    let sel = slice(&v, ca, cb);
    match find_char(&sel, '\n', 0) {
        Some(k) => {
            assert(sel@[k as int] == '\n');
            None
        },
        None => {
            assert(!sel@.contains('\n'));
            Some(string_of(&sel))
        },
    }
}

} // verus!
