//! The cell viewer's text renderings: a hex dump of binary values and an indented rendering
//! of XML.

use crate::text::{chars_of, find_char, hex_fixed, hex_u64, push_all, push_str, string_of, trim, trimmed_of};
use vstd::prelude::*;

verus! {

broadcast use vstd::string::group_string_axioms;

/// What the viewer window wants after a frame.
pub enum ViewerOutcome {
    Open,
    Close,
    /// Move to another cell (row navigation in record mode, or a value picked from the record).
    Goto { row: usize, col: usize, record: bool },
}

#[derive(Clone, Copy, PartialEq, Eq, Debug, Structural)]
pub enum ViewMode {
    Auto,
    Text,
    Json,
    Xml,
    Hex,
}

// ---------------------------------------------------------------------------------------------
// Hex dump

/// `count` copies of `s`.
pub open spec fn repeat(s: Seq<char>, count: nat) -> Seq<char>
    decreases count,
{
    if count == 0 {
        seq![]
    } else {
        repeat(s, (count - 1) as nat) + s
    }
}

/// The hexadecimal column of a line: each byte as two upper-case digits and a space, with an
/// extra space after the eighth.
pub open spec fn hex_bytes(chunk: Seq<u8>) -> Seq<char>
    decreases chunk.len(),
{
    if chunk.len() == 0 {
        seq![]
    } else {
        hex_bytes(chunk.drop_last()) + hex_fixed(chunk.last() as nat, 2) + seq![' '] + if chunk.len() == 8 {
            seq![' ']
        } else {
            seq![]
        }
    }
}

/// A byte as shown in the text column: printable ASCII as itself, anything else as `.`.
pub open spec fn shown_byte(b: u8) -> char {
    if 0x20 <= b < 0x7f {
        b as char
    } else {
        '.'
    }
}

/// The text column of a line.
pub open spec fn ascii_bytes(chunk: Seq<u8>) -> Seq<char>
    decreases chunk.len(),
{
    if chunk.len() == 0 {
        seq![]
    } else {
        ascii_bytes(chunk.drop_last()).push(shown_byte(chunk.last()))
    }
}

/// Line `i` of a dump, showing `chunk`.
pub open spec fn hex_line(chunk: Seq<u8>, i: nat) -> Seq<char> {
    hex_fixed(i * 16, 8) + "  "@ + hex_bytes(chunk) + repeat("   "@, (16 - chunk.len()) as nat) + (if chunk.len()
        <= 8 {
        seq![' ']
    } else {
        seq![]
    }) + " |"@ + ascii_bytes(chunk) + "|\n"@
}

/// Chunk `i` of 16 bytes.
pub open spec fn chunk(bytes: Seq<u8>, i: nat) -> Seq<u8> {
    bytes.subrange(
        16 * i as int,
        if 16 * i + 16 < bytes.len() { (16 * i + 16) as int } else { bytes.len() as int },
    )
}

/// The first `k` lines of a dump.
pub open spec fn dump_lines(bytes: Seq<u8>, k: nat) -> Seq<char>
    decreases k,
{
    if k == 0 {
        seq![]
    } else {
        dump_lines(bytes, (k - 1) as nat) + hex_line(chunk(bytes, (k - 1) as nat), (k - 1) as nat)
    }
}

/// Number of 16-byte chunks.
pub open spec fn chunk_count(n: nat) -> nat {
    (n + 15) / 16
}

/// The most lines a dump shows.
pub open spec fn max_lines() -> nat {
    65538
}

/// A hex dump: 16 bytes per line, offset, hexadecimal and text columns; after line 65538 the
/// dump stops with a `… (truncated)` line.
pub open spec fn hex_dump_spec(bytes: Seq<u8>) -> Seq<char> {
    let n = chunk_count(bytes.len());
    if n <= 65537 {
        dump_lines(bytes, n)
    } else {
        dump_lines(bytes, max_lines()) + "… (truncated)\n"@
    }
}

fn hex_line_exec(bytes: &[u8], start: usize, end: usize, i: usize) -> (r: Vec<char>)
    requires
        start == 16 * i,
        start <= end <= bytes@.len(),
        end - start <= 16,
        i <= 65537,
    ensures
        r@ == hex_line(bytes@.subrange(start as int, end as int), i as nat),
{
    let ghost c = bytes@.subrange(start as int, end as int);
    let mut out = hex_u64((i * 16) as u64, 8);
    push_str(&mut out, "  ");
    let ghost pre = out@;
    let mut j: usize = start;
    while j < end
        invariant
            start <= j <= end,
            end <= bytes@.len(),
            c == bytes@.subrange(start as int, end as int),
            end - start <= 16,
            out@ == pre + hex_bytes(c.take(j - start)),
        decreases end - j,
    {
        let h = hex_u64(bytes[j] as u64, 2);
        push_all(&mut out, &h);
        out.push(' ');
        if j - start == 7 {
            out.push(' ');
        }
        proof {
            let t = c.take(j + 1 - start);
            assert(t.drop_last() =~= c.take(j - start));
            assert(t.last() == bytes@[j as int]);
        }
        j = j + 1;
    }
    assert(c.take(end - start) =~= c);
    let mut k: usize = end - start;
    let ghost mid = out@;
    while k < 16
        invariant
            end - start <= k <= 16,
            out@ == mid + repeat("   "@, (k - (end - start)) as nat),
        decreases 16 - k,
    {
        push_str(&mut out, "   ");
        k = k + 1;
    }
    if end - start <= 8 {
        out.push(' ');
    }
    push_str(&mut out, " |");
    let ghost mid2 = out@;
    let mut j: usize = start;
    while j < end
        invariant
            start <= j <= end,
            end <= bytes@.len(),
            c == bytes@.subrange(start as int, end as int),
            out@ == mid2 + ascii_bytes(c.take(j - start)),
        decreases end - j,
    {
        let b = bytes[j];
        let ch = if 0x20 <= b && b < 0x7f {
            b as char
        } else {
            '.'
        };
        out.push(ch);
        proof {
            let t = c.take(j + 1 - start);
            assert(t.drop_last() =~= c.take(j - start));
            assert(t.last() == b);
        }
        j = j + 1;
    }
    push_str(&mut out, "|\n");
    out
}

/// A hex dump of `bytes`.
pub fn hex_dump(bytes: &[u8]) -> (r: String)
    ensures
        r@ == hex_dump_spec(bytes@),
{
    let n = bytes.len();
    let mut out: Vec<char> = Vec::new();
    let mut i: usize = 0;
    let mut start: usize = 0;
    if n == 0 {
        assert(chunk_count(0) == 0);
    } else {
        assert((n + 15) / 16 > 0) by (nonlinear_arith)
            requires
                n > 0,
        ;
    }
    while start < n
        invariant
            n == bytes@.len(),
            start <= n,
            start < n ==> start == 16 * i && i < chunk_count(n as nat),
            start == n ==> i == chunk_count(n as nat),
            i <= 65537,
            out@ == dump_lines(bytes@, i as nat),
        decreases n - start,
    {
        let end = if n - start > 16 {
            start + 16
        } else {
            n
        };
        let line = hex_line_exec(bytes, start, end, i);
        assert(bytes@.subrange(start as int, end as int) == chunk(bytes@, i as nat));
        push_all(&mut out, &line);
        if i > 65536 {
            push_str(&mut out, "… (truncated)\n");
            proof {
                assert(i == 65537);
                assert(chunk_count(n as nat) > 65537);
            }
            return string_of(&out);
        }
        proof {
            if end < n {
                assert((n + 15) / 16 > i + 1) by (nonlinear_arith)
                    requires
                        16 * i + 16 < n,
                ;
            } else {
                assert((n + 15) / 16 == i + 1) by (nonlinear_arith)
                    requires
                        16 * i < n,
                        n <= 16 * i + 16,
                ;
            }
        }
        i = i + 1;
        start = end;
    }
    string_of(&out)
}

// ---------------------------------------------------------------------------------------------
// XML

/// The first index at or after `i` holding `c`.
pub open spec fn find_from(s: Seq<char>, c: char, i: int) -> Option<int>
    decreases s.len() - i,
{
    if i < 0 || i >= s.len() {
        None
    } else if s[i] == c {
        Some(i)
    } else {
        find_from(s, c, i + 1)
    }
}

proof fn lemma_find_from(s: Seq<char>, c: char, i: int, r: Option<int>)
    requires
        0 <= i,
        match r {
            Some(k) => i <= k < s.len() && s[k] == c && forall|j: int| i <= j < k ==> s[j] != c,
            None => forall|j: int| i <= j < s.len() ==> s[j] != c,
        },
    ensures
        find_from(s, c, i) == r,
    decreases s.len() - i,
{
    if i < s.len() && s[i] != c {
        lemma_find_from(s, c, i + 1, r);
    }
}

pub proof fn lemma_find_from_bounds(s: Seq<char>, c: char, i: int)
    ensures
        match find_from(s, c, i) {
            Some(k) => 0 <= i <= k < s.len() && s[k] == c,
            None => true,
        },
    decreases s.len() - i,
{
    if 0 <= i < s.len() && s[i] != c {
        lemma_find_from_bounds(s, c, i + 1);
    }
}

fn find_from_exec(v: &Vec<char>, c: char, i: usize) -> (r: Option<usize>)
    ensures
        match find_from(v@, c, i as int) {
            Some(k) => r == Some(k as usize),
            None => r is None,
        },
        r matches Some(k) ==> i <= k < v.len() && v@[k as int] == c,
{
    let r = find_char(v, c, i);
    proof {
        lemma_find_from(
            v@,
            c,
            i as int,
            match r {
                Some(k) => Some(k as int),
                None => None,
            },
        );
    }
    r
}

/// One less, but not below zero.
pub open spec fn sat_dec(d: nat) -> nat {
    if d > 0 {
        (d - 1) as nat
    } else {
        0
    }
}

/// Start a new line unless the output is empty or already ends a line.
pub open spec fn line_break(out: Seq<char>) -> Seq<char> {
    if out.len() > 0 && out.last() != '\n' {
        out.push('\n')
    } else {
        out
    }
}

/// Indent XML, one tag per line, two spaces per level, continuing from position `i` with the
/// current nesting `depth` and output `out`. Text between tags is trimmed and kept on the
/// tag's line, as is a closing tag that follows it. Outside tags the input is read one byte at
/// a time, so a character there that is not ASCII would split a UTF-8 sequence: the result is
/// `None` then.
pub open spec fn xml_from(s: Seq<char>, i: int, depth: nat, out: Seq<char>) -> Option<Seq<char>>
    decreases s.len() - i,
{
    if i < 0 || i >= s.len() {
        Some(out)
    } else if s[i] == '<' {
        proof {
            lemma_find_from_bounds(s, '>', i);
        }
        let end = match find_from(s, '>', i) {
            Some(e) => e + 1,
            None => s.len() as int,
        };
        let tag = s.subrange(i, end);
        let is_close = crate::text::starts_with(tag, "</"@);
        let is_self = crate::text::ends_with(tag, "/>"@) || crate::text::starts_with(tag, "<?"@)
            || crate::text::starts_with(tag, "<!"@);
        let d1 = if is_close {
            sat_dec(depth)
        } else {
            depth
        };
        let out1 = line_break(out) + repeat("  "@, d1) + tag;
        let d2 = if !is_close && !is_self {
            d1 + 1
        } else {
            d1
        };
        proof {
            lemma_find_from_bounds(s, '<', end);
        }
        let next = match find_from(s, '<', end) {
            Some(n) => n,
            None => s.len() as int,
        };
        proof {
            lemma_find_from_bounds(s, '>', next);
        }
        let text = trim(s.subrange(end, next));
        if text.len() > 0 {
            if crate::text::starts_with(s.skip(next), "</"@) {
                let cend = match find_from(s, '>', next) {
                    Some(e) => e + 1,
                    None => s.len() as int,
                };
                xml_from(s, cend, sat_dec(d2), out1 + text + s.subrange(next, cend))
            } else {
                xml_from(s, next, d2, out1 + text)
            }
        } else {
            xml_from(s, next, d2, out1)
        }
    } else if (s[i] as u32) < 0x80 {
        xml_from(s, i + 1, depth, out)
    } else {
        None
    }
}

/// The indented rendering of an XML text (trimmed first).
pub open spec fn pretty_xml_spec(src: Seq<char>) -> Option<Seq<char>> {
    xml_from(trim(src), 0, 0, seq![])
}

fn ends_line(out: &Vec<char>) -> (r: bool)
    ensures
        r == (out@.len() > 0 && out@.last() != '\n'),
{
    out.len() > 0 && out[out.len() - 1] != '\n'
}

fn push_repeat(out: &mut Vec<char>, s: &str, count: usize)
    ensures
        final(out)@ == old(out)@ + repeat(s@, count as nat),
{
    let mut k: usize = 0;
    while k < count
        invariant
            k <= count,
            out@ == old(out)@ + repeat(s@, k as nat),
        decreases count - k,
    {
        push_str(out, s);
        k = k + 1;
        assert(old(out)@ + repeat(s@, k as nat) =~= old(out)@ + repeat(s@, (k - 1) as nat) + s@);
    }
}

fn push_range(out: &mut Vec<char>, v: &Vec<char>, lo: usize, hi: usize)
    requires
        lo <= hi <= v.len(),
    ensures
        final(out)@ == old(out)@ + v@.subrange(lo as int, hi as int),
{
    let piece = crate::text::slice(v, lo, hi);
    push_all(out, &piece);
}

/// Indent XML for display, or `None` where a character outside the tags is not ASCII (see
/// [`xml_from`]).
pub fn try_pretty_xml(src: &str) -> (r: Option<String>)
    ensures
        match pretty_xml_spec(src@) {
            Some(x) => r matches Some(o) && o@ == x,
            None => r is None,
        },
{
    let s = trimmed_of(src);
    let n = s.len();
    let mut out: Vec<char> = Vec::new();
    let mut depth: usize = 0;
    let mut i: usize = 0;
    while i < n
        invariant
            n == s@.len(),
            i <= n,
            depth <= i,
            xml_from(s@, i as int, depth as nat, out@) == pretty_xml_spec(src@),
        decreases n - i,
    {
        if s[i] == '<' {
            let ghost i0 = i as int;
            let ghost out0 = out@;
            let ghost depth0 = depth as nat;
            let end = match find_from_exec(&s, '>', i) {
                Some(e) => e + 1,
                None => n,
            };
            let tag = crate::text::slice(&s, i, end);
            let is_close = crate::text::starts_with_str(&tag, "</");
            let is_self = crate::text::ends_with_str(&tag, "/>") || crate::text::starts_with_str(&tag, "<?")
                || crate::text::starts_with_str(&tag, "<!");
            if is_close {
                depth = if depth > 0 {
                    depth - 1
                } else {
                    0
                };
            }
            let ghost d1 = depth as nat;
            if ends_line(&out) {
                out.push('\n');
            }
            assert(out@ == line_break(out0));
            push_repeat(&mut out, "  ", depth);
            push_all(&mut out, &tag);
            let ghost out1 = out@;
            assert(out1 == line_break(out0) + repeat("  "@, d1) + s@.subrange(i0, end as int));
            if !is_close && !is_self {
                depth = depth + 1;
            }
            let ghost d2 = depth as nat;
            i = end;
            let next = match find_from_exec(&s, '<', i) {
                Some(k) => k,
                None => n,
            };
            let between = crate::text::slice(&s, i, next);
            let text = crate::text::trim_chars(&between);
            proof {
                lemma_find_from_bounds(s@, '>', next as int);
                lemma_find_from_bounds(s@, '>', i0);
                lemma_find_from_bounds(s@, '<', end as int);
                let t = s@.subrange(i0, end as int);
                assert(s@[i0] == '<');
                assert(end as int == match find_from(s@, '>', i0) {
                    Some(e) => e + 1,
                    None => s@.len() as int,
                });
                assert(next as int == match find_from(s@, '<', end as int) {
                    Some(k) => k,
                    None => s@.len() as int,
                });
                assert(tag@ == t);
                assert(is_close == crate::text::starts_with(t, "</"@));
                assert(is_self == (crate::text::ends_with(t, "/>"@) || crate::text::starts_with(t, "<?"@)
                    || crate::text::starts_with(t, "<!"@)));
                assert(d1 == if is_close { sat_dec(depth0) } else { depth0 });
                assert(d2 == if !is_close && !is_self { d1 + 1 } else { d1 });
                assert(text@ == trim(s@.subrange(end as int, next as int)));
                assert(xml_from(s@, i0, depth0, out0) == if text@.len() > 0 {
                    if crate::text::starts_with(s@.skip(next as int), "</"@) {
                        let cend = match find_from(s@, '>', next as int) {
                            Some(e) => e + 1,
                            None => s@.len() as int,
                        };
                        xml_from(s@, cend, sat_dec(d2), out1 + text@ + s@.subrange(next as int, cend))
                    } else {
                        xml_from(s@, next as int, d2, out1 + text@)
                    }
                } else {
                    xml_from(s@, next as int, d2, out1)
                });
            }
            if text.len() > 0 {
                push_all(&mut out, &text);
                let rest = crate::text::slice(&s, next, n);
                assert(rest@ =~= s@.skip(next as int));
                if crate::text::starts_with_str(&rest, "</") {
                    let cend = match find_from_exec(&s, '>', next) {
                        Some(e) => e + 1,
                        None => n,
                    };
                    push_range(&mut out, &s, next, cend);
                    depth = if depth > 0 {
                        depth - 1
                    } else {
                        0
                    };
                    i = cend;
                    continue;
                }
            }
            i = next;
        } else if (s[i] as u32) < 0x80 {
            i = i + 1;
        } else {
            return None;
        }
    }
    Some(string_of(&out))
}

/// Indent XML for display: one tag per line, two spaces per level.
pub fn pretty_xml(src: &str) -> (r: String)
    requires
        pretty_xml_spec(src@) is Some,
    ensures
        r@ == pretty_xml_spec(src@).unwrap(),
{
    match try_pretty_xml(src) {
        Some(o) => o,
        None => {
            proof {
                assert(false);
            }
            String::new()
        },
    }
}

} // verus!
