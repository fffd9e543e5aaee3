//! Secret storage: the OS credential store, an in-memory store, and the entry format of the
//! plain-file fallback.

use crate::error::AuthError;
use crate::secret::{Secret, SecretRef};
use crate::text::{chars_of, dec, dec_u64, parse_uint, parse_uint_exec, push_all, push_str, slice, starts_with, starts_with_str, string_of};
use crate::KEYRING_SERVICE;
use vstd::hash_map::StringHashMap;
use vstd::prelude::*;

verus! {

broadcast use vstd::string::group_string_axioms;

/// What a lookup in a store with contents `m` answers for `key`.
pub open spec fn lookup(m: Map<Seq<char>, Seq<char>>, key: Seq<char>) -> Option<Seq<char>> {
    if m.contains_key(key) {
        Some(m[key])
    } else {
        None
    }
}

/// The value a `get` returned, as text.
pub open spec fn got(r: Result<Option<Secret>, AuthError>) -> Option<Seq<char>> {
    match r {
        Ok(Some(s)) => Some(s.value()),
        _ => None,
    }
}

/// `after` is the store `before` once `value` is written under `key`, as `set` ensures: a store
/// that keeps what it is given then holds it there.
pub open spec fn wrote<S: SecretStore>(before: S, after: S, key: Seq<char>, value: Seq<char>) -> bool {
    &&& after.keeps() == before.keeps()
    &&& before.keeps() ==> after.contents() == before.contents().insert(key, value)
}

/// `after` is the store `before` once `key` is deleted, as `delete` ensures: a store that keeps
/// what it is given then holds nothing there.
pub open spec fn deleted<S: SecretStore>(before: S, after: S, key: Seq<char>) -> bool {
    &&& after.keeps() == before.keeps()
    &&& before.keeps() ==> after.contents() == before.contents().remove(key)
}

/// Key/value storage for secrets referenced by [`SecretRef`].
///
/// A store that `keeps()` what it is given answers every call from `contents()`, a map from
/// reference keys to secret texts. The OS credential store does not: its state lives outside
/// this process, so nothing is claimed of it.
pub trait SecretStore {
    /// Whether the store keeps what it is given; a store says so only where it is proved.
    open spec fn keeps(&self) -> bool {
        false
    }

    open spec fn contents(&self) -> Map<Seq<char>, Seq<char>> {
        Map::empty()
    }

    fn get(&self, r: &SecretRef) -> (res: Result<Option<Secret>, AuthError>)
        ensures
            self.keeps() ==> res is Ok && got(res) == lookup(self.contents(), r.key@),
    ;

    /// Write `s` under `r`: [`wrote`].
    fn set(&mut self, r: &SecretRef, s: &Secret) -> (res: Result<(), AuthError>)
        ensures
            final(self).keeps() == old(self).keeps(),
            old(self).keeps() ==> res is Ok && final(self).contents() == old(self).contents().insert(
                r.key@,
                s.value(),
            ),
    ;

    /// Delete what is stored under `r`: [`deleted`].
    fn delete(&mut self, r: &SecretRef) -> (res: Result<(), AuthError>)
        ensures
            final(self).keeps() == old(self).keeps(),
            old(self).keeps() ==> res is Ok && final(self).contents() == old(self).contents().remove(
                r.key@,
            ),
    ;
}

// ---------------------------------------------------------------------------------------------
// In-memory store

/// A store that keeps its secrets in this process (tests, and a "remember nothing" mode).
pub struct MemoryStore {
    map: StringHashMap<Secret>,
}

impl MemoryStore {
    /// Reference key to secret text.
    pub closed spec fn entries(&self) -> Map<Seq<char>, Seq<char>> {
        self.map@.map_values(|s: Secret| s.value())
    }

    pub fn new() -> (r: Self)
        ensures
            r.entries() == Map::<Seq<char>, Seq<char>>::empty(),
    {
        let r = MemoryStore { map: StringHashMap::new() };
        assert(r.entries() =~= Map::<Seq<char>, Seq<char>>::empty());
        r
    }

    /// Number of stored secrets.
    pub fn len(&self) -> (r: usize)
        ensures
            r == self.entries().len(),
    {
        proof {
            assert(self.entries().dom() =~= self.map@.dom());
        }
        self.map.len()
    }

    pub fn is_empty(&self) -> (r: bool)
        ensures
            r == (self.entries().len() == 0),
    {
        self.len() == 0
    }

    /// Whether a secret is stored under `r`.
    pub fn contains(&self, r: &SecretRef) -> (b: bool)
        ensures
            b == self.entries().contains_key(r.key@),
    {
        self.map.contains_key(r.key.as_str())
    }

    /// The secret stored under `r`, if any.
    pub fn lookup(&self, r: &SecretRef) -> (res: Option<Secret>)
        ensures
            match res {
                Some(s) => lookup(self.entries(), r.key@) == Some(s.value()),
                None => lookup(self.entries(), r.key@) is None,
            },
    {
        match self.map.get(r.key.as_str()) {
            Some(s) => Some(s.duplicate()),
            None => None,
        }
    }

    /// Store `s` under `r`, replacing what was there.
    pub fn store(&mut self, r: &SecretRef, s: &Secret)
        ensures
            final(self).entries() == old(self).entries().insert(r.key@, s.value()),
    {
        self.map.insert(r.key.clone(), s.duplicate());
        proof {
            assert(final(self).entries() =~= old(self).entries().insert(r.key@, s.value()));
        }
    }

    /// Remove what is stored under `r`; nothing happens when nothing is.
    pub fn remove(&mut self, r: &SecretRef)
        ensures
            final(self).entries() == old(self).entries().remove(r.key@),
    {
        self.map.remove(r.key.as_str());
        proof {
            assert(final(self).entries() =~= old(self).entries().remove(r.key@));
        }
    }
}

impl SecretStore for MemoryStore {
    open spec fn keeps(&self) -> bool {
        true
    }

    open spec fn contents(&self) -> Map<Seq<char>, Seq<char>> {
        self.entries()
    }

    fn get(&self, r: &SecretRef) -> (res: Result<Option<Secret>, AuthError>) {
        Ok(self.lookup(r))
    }

    fn set(&mut self, r: &SecretRef, s: &Secret) -> (res: Result<(), AuthError>) {
        self.store(r, s);
        Ok(())
    }

    fn delete(&mut self, r: &SecretRef) -> (res: Result<(), AuthError>) {
        self.remove(r);
        Ok(())
    }
}

/// A store that keeps what it is given answers a `get` of a key with what `set` last wrote
/// under it.
pub proof fn law_read_after_write<S: SecretStore>(before: S, after: S, key: Seq<char>, value: Seq<char>)
    requires
        before.keeps(),
        wrote(before, after, key, value),
    ensures
        after.keeps(),
        lookup(after.contents(), key) == Some(value),
{
}

/// Writing or deleting one key leaves every other key of a store that keeps what it is given as
/// it was.
pub proof fn law_write_isolated<S: SecretStore>(
    before: S,
    written: S,
    removed: S,
    key: Seq<char>,
    value: Seq<char>,
    other: Seq<char>,
)
    requires
        before.keeps(),
        wrote(before, written, key, value),
        deleted(before, removed, key),
        other != key,
    ensures
        lookup(written.contents(), other) == lookup(before.contents(), other),
        lookup(removed.contents(), other) == lookup(before.contents(), other),
{
}

/// After a delete a store that keeps what it is given finds nothing under the key, and deleting
/// again changes nothing.
pub proof fn law_delete<S: SecretStore>(before: S, once: S, twice: S, key: Seq<char>)
    requires
        before.keeps(),
        deleted(before, once, key),
        deleted(once, twice, key),
    ensures
        lookup(once.contents(), key) is None,
        twice.contents() == once.contents(),
{
    assert(once.contents().remove(key) =~= once.contents());
}

/// The contents after the writes and deletes `ops` on an empty store, in order: `(key,
/// Some(value))` writes `value` under `key`, `(key, None)` deletes `key`.
pub open spec fn replay(ops: Seq<(Seq<char>, Option<Seq<char>>)>) -> Map<Seq<char>, Seq<char>>
    decreases ops.len(),
{
    if ops.len() == 0 {
        Map::empty()
    } else {
        let (key, value) = ops.last();
        match value {
            Some(v) => replay(ops.drop_last()).insert(key, v),
            None => replay(ops.drop_last()).remove(key),
        }
    }
}

/// One operation of [`replay`] took `before` to `after`, as `set` and `delete` state it.
pub open spec fn applied<S: SecretStore>(before: S, after: S, op: (Seq<char>, Option<Seq<char>>)) -> bool {
    match op.1 {
        Some(v) => wrote(before, after, op.0, v),
        None => deleted(before, after, op.0),
    }
}

/// A store that keeps what it is given, starting empty, holds after any run of writes and
/// deletes exactly what [`replay`] says: under each key the value last written, unless it was
/// deleted since; so it holds as many secrets as there are such keys, and a `get` finds a
/// value exactly under those keys.
pub proof fn law_store_replay<S: SecretStore>(states: Seq<S>, ops: Seq<(Seq<char>, Option<Seq<char>>)>)
    requires
        states.len() == ops.len() + 1,
        states[0].keeps(),
        states[0].contents() == Map::<Seq<char>, Seq<char>>::empty(),
        forall|i: int| 0 <= i < ops.len() ==> applied(#[trigger] states[i], states[i + 1], ops[i]),
    ensures
        forall|i: int|
            0 <= i < states.len() ==> (#[trigger] states[i]).keeps() && states[i].contents() == replay(
                ops.take(i),
            ),
    decreases ops.len(),
{
    if ops.len() > 0 {
        let n = ops.len() - 1;
        let front = states.drop_last();
        let fops = ops.drop_last();
        assert forall|i: int| 0 <= i < fops.len() implies applied(#[trigger] front[i], front[i + 1], fops[i]) by {
            assert(applied(states[i], states[i + 1], ops[i]));
        }
        law_store_replay(front, fops);
        assert forall|i: int| 0 <= i < states.len() implies (#[trigger] states[i]).keeps() && states[i].contents()
            == replay(ops.take(i)) by {
            if i <= n {
                assert(front[i] == states[i]);
                assert(fops.take(i) =~= ops.take(i));
            } else {
                assert(front[n] == states[n]);
                assert(fops.take(n) =~= ops.take(n));
                assert(ops.take(i).drop_last() =~= ops.take(n));
                assert(applied(states[n], states[i], ops[n]));
            }
        }
    }
}

// ---------------------------------------------------------------------------------------------
// Chunked values in the OS credential store

/// Windows Credential Manager caps a secret blob at 2560 bytes (1280 UTF-16 chars); Entra
/// refresh tokens are longer. Values above this many characters are split into `key#0`,
/// `key#1`, … with a header in `key`.
pub const CHUNK_CHARS: usize = 1000;

pub const CHUNK_HEADER: &'static str = "__cobalt_chunks:";

/// The key of chunk `i` of the value stored under `key`.
pub open spec fn chunk_key(key: Seq<char>, i: nat) -> Seq<char> {
    key + seq!['#'] + dec(i)
}

/// The header that records `n` chunks.
pub open spec fn chunk_header(n: nat) -> Seq<char> {
    CHUNK_HEADER@ + dec(n)
}

/// The chunk count a stored head names, if it is a chunk header.
pub open spec fn chunk_count(head: Seq<char>) -> Option<nat> {
    if starts_with(head, CHUNK_HEADER@) {
        parse_uint(head.skip(CHUNK_HEADER@.len() as int), usize::MAX as nat)
    } else {
        None
    }
}

/// The reference of chunk `i` of `r`.
pub fn chunk_ref(r: &SecretRef, i: usize) -> (c: SecretRef)
    ensures
        c.key@ == chunk_key(r.key@, i as nat),
{
    let mut v = chars_of(r.key.as_str());
    v.push('#');
    let d = dec_u64(i as u64);
    push_all(&mut v, &d);
    SecretRef { key: string_of(&v) }
}

/// The references of the first `n` chunks of `r`, in order: `r#0`, `r#1`, ….
pub fn chunk_refs(r: &SecretRef, n: usize) -> (v: Vec<SecretRef>)
    ensures
        v.len() == n,
        forall|i: int| 0 <= i < n ==> (#[trigger] v@[i]).key@ == chunk_key(r.key@, i as nat),
{
    let mut v: Vec<SecretRef> = Vec::new();
    let mut i: usize = 0;
    while i < n
        invariant
            i <= n,
            v.len() == i,
            forall|k: int| 0 <= k < i ==> (#[trigger] v@[k]).key@ == chunk_key(r.key@, k as nat),
        decreases n - i,
    {
        v.push(chunk_ref(r, i));
        i = i + 1;
    }
    v
}

/// The header text for `n` chunks.
pub fn chunk_header_text(n: usize) -> (h: String)
    ensures
        h@ == chunk_header(n as nat),
{
    let mut v = chars_of(CHUNK_HEADER);
    let d = dec_u64(n as u64);
    push_all(&mut v, &d);
    string_of(&v)
}

/// The chunk count named by a stored head: `__cobalt_chunks:` and a decimal count.
pub fn parse_chunk_header(head: &str) -> (r: Option<usize>)
    ensures
        match chunk_count(head@) {
            Some(n) => r == Some(n as usize),
            None => r is None,
        },
{
    proof {
        reveal_strlit("__cobalt_chunks:");
    }
    let v = chars_of(head);
    if !starts_with_str(&v, CHUNK_HEADER) {
        return None;
    }
    let rest = slice(&v, 16, v.len());
    assert(rest@ =~= head@.skip(16));
    match parse_uint_exec(&rest, usize::MAX as u64) {
        Some(n) => Some(n as usize),
        None => None,
    }
}

/// A header written for `n` chunks is read back as `n`.
pub proof fn law_chunk_header_roundtrip(n: nat)
    requires
        n <= usize::MAX,
    ensures
        chunk_count(chunk_header(n)) == Some(n),
{
    reveal_strlit("__cobalt_chunks:");
    let h = chunk_header(n);
    assert(h.take(16) =~= CHUNK_HEADER@);
    assert(h.skip(16) =~= dec(n));
    crate::text::lemma_parse_dec(n, usize::MAX as nat);
}

/// The concatenation of a list of texts.
pub open spec fn concat_all(parts: Seq<Seq<char>>) -> Seq<char>
    decreases parts.len(),
{
    if parts.len() == 0 {
        seq![]
    } else {
        concat_all(parts.drop_last()) + parts.last()
    }
}

/// `parts` cut `value` into pieces of `size` characters, the last one possibly shorter.
pub open spec fn chunked(value: Seq<char>, parts: Seq<Seq<char>>, size: nat) -> bool {
    &&& concat_all(parts) == value
    &&& parts.len() == (value.len() + size - 1) / size as int
    &&& forall|i: int| 0 <= i < parts.len() ==> #[trigger] parts[i] == value.subrange(
        i * size,
        if (i + 1) * size < value.len() { (i + 1) * size } else { value.len() as int },
    )
}

proof fn lemma_concat_prefix(value: Seq<char>, parts: Seq<Seq<char>>, size: nat, k: int)
    requires
        size > 0,
        0 <= k <= parts.len(),
        k * size <= value.len(),
        forall|i: int| 0 <= i < k ==> #[trigger] parts[i] == value.subrange(i * size, (i + 1) * size),
    ensures
        concat_all(parts.take(k)) == value.take(k * size),
    decreases k,
{
    if k > 0 {
        assert((k - 1) * size + size == k * size) by (nonlinear_arith);
        lemma_concat_prefix(value, parts, size, k - 1);
        assert(parts.take(k).drop_last() =~= parts.take(k - 1));
        assert(parts.take(k).last() == parts[k - 1]);
        assert(parts[k - 1] == value.subrange((k - 1) * size, k * size));
        assert(concat_all(parts.take(k)) == concat_all(parts.take(k).drop_last()) + parts.take(k).last());
        assert(value.take(k * size) =~= value.take((k - 1) * size) + value.subrange(
            (k - 1) * size,
            k * size,
        ));
    } else {
        assert(k * size == 0) by (nonlinear_arith)
            requires
                k == 0,
        ;
        assert(value.take(0) =~= Seq::<char>::empty());
        assert(concat_all(parts.take(0)) == Seq::<char>::empty());
    }
}

/// Split `value` into chunks of [`CHUNK_CHARS`] characters.
pub fn split_chunks(value: &str) -> (parts: Vec<String>)
    ensures
        chunked(value@, parts@.map_values(|p: String| p@), CHUNK_CHARS as nat),
{
    let v = chars_of(value);
    let n = v.len();
    let mut parts: Vec<String> = Vec::new();
    let mut start: usize = 0;
    let ghost size: nat = CHUNK_CHARS as nat;
    while start < n
        invariant
            n == v@.len(),
            v@ == value@,
            start <= n,
            start <= parts.len() * 1000,
            start < n ==> start == parts.len() * 1000,
            parts.len() > 0 ==> (parts.len() - 1) * 1000 < n,
            forall|i: int| 0 <= i < parts.len() ==> #[trigger] parts@[i]@ == v@.subrange(
                i * 1000,
                if (i + 1) * 1000 < n { (i + 1) * 1000 } else { n as int },
            ),
        decreases n - start,
    {
        let end: usize = if n - start > 1000 {
            start + 1000
        } else {
            n
        };
        let piece = slice(&v, start, end);
        proof {
            assert(parts.len() * 1000 + 1000 == (parts.len() + 1) * 1000) by (nonlinear_arith);
        }
        parts.push(string_of(&piece));
        start = end;
    }
    proof {
        let ps = parts@.map_values(|p: String| p@);
        let k = parts.len() as int;
        assert forall|i: int| 0 <= i < ps.len() implies #[trigger] ps[i] == v@.subrange(
            i * 1000,
            if (i + 1) * 1000 < n { (i + 1) * 1000 } else { n as int },
        ) by {
            assert(ps[i] == parts@[i]@);
        }
        if k == 0 {
            assert(n == 0);
            assert(concat_all(ps) =~= v@);
            assert((n + 999) / 1000 == 0);
        } else {
            assert((k - 1) * 1000 < n);
            assert(start == n);
            assert(n <= k * 1000);
            assert forall|i: int| 0 <= i < k - 1 implies #[trigger] ps[i] == v@.subrange(
                i * 1000,
                (i + 1) * 1000,
            ) by {
                assert((i + 1) * 1000 <= (k - 1) * 1000) by (nonlinear_arith)
                    requires
                        i + 1 <= k - 1,
                ;
            }
            lemma_concat_prefix(v@, ps, 1000, k - 1);
            assert(ps.drop_last() =~= ps.take(k - 1));
            let last_end = if k * 1000 < n { k * 1000 } else { n as int };
            assert(last_end == n);
            assert(v@ =~= v@.take((k - 1) * 1000) + v@.subrange((k - 1) * 1000, n as int));
            assert((n + 999) / 1000 == k) by (nonlinear_arith)
                requires
                    (k - 1) * 1000 < n,
                    n <= k * 1000,
            ;
        }
    }
    parts
}

/// The texts of a list of strings.
pub open spec fn texts(v: Seq<String>) -> Seq<Seq<char>> {
    v.map_values(|p: String| p@)
}

/// What `set` writes for `value`: `head` under the value's own key and `chunks` under `key#0`,
/// `key#1`, … in order. A value of at most [`CHUNK_CHARS`] characters is written as it is, with
/// no chunks; a longer one as a chunk header and the value cut into chunks.
pub open spec fn write_plan_of(value: Seq<char>, head: Seq<char>, chunks: Seq<Seq<char>>) -> bool {
    if value.len() <= CHUNK_CHARS {
        head == value && chunks.len() == 0
    } else {
        head == chunk_header(chunks.len()) && chunked(value, chunks, CHUNK_CHARS as nat)
    }
}

/// The head text and the chunk texts `set` writes for `value`.
pub fn write_plan(value: &str) -> (r: (String, Vec<String>))
    ensures
        write_plan_of(value@, r.0@, texts(r.1@)),
{
    let n = chars_of(value).len();
    if n <= CHUNK_CHARS {
        let none: Vec<String> = Vec::new();
        assert(texts(none@) =~= Seq::<Seq<char>>::empty());
        (value.to_string(), none)
    } else {
        let chunks = split_chunks(value);
        let head = chunk_header_text(chunks.len());
        (head, chunks)
    }
}

/// The chunk texts of a list of writes: the values of all but the last.
pub open spec fn entry_chunks(w: Seq<(SecretRef, String)>) -> Seq<Seq<char>> {
    Seq::new((w.len() - 1) as nat, |i: int| w[i].1@)
}

/// The writes `set` makes for `value` under `r`, in order: for a value cut into chunks, chunk
/// `i` under `r#i` for each `i`, then the chunk header under `r`; for a short value, the value
/// under `r` alone. The head and chunks are the [`write_plan`] of the value.
pub fn write_entries(r: &SecretRef, value: &str) -> (w: Vec<(SecretRef, String)>)
    ensures
        w.len() >= 1,
        w@.last().0.key@ == r.key@,
        forall|i: int| 0 <= i < w.len() - 1 ==> (#[trigger] w@[i]).0.key@ == chunk_key(r.key@, i as nat),
        write_plan_of(value@, w@.last().1@, entry_chunks(w@)),
{
    let (head, chunks) = write_plan(value);
    let keys = chunk_refs(r, chunks.len());
    let mut w: Vec<(SecretRef, String)> = Vec::new();
    let mut i: usize = 0;
    while i < chunks.len()
        invariant
            i <= chunks.len(),
            keys.len() == chunks.len(),
            forall|k: int| 0 <= k < chunks.len() ==> (#[trigger] keys@[k]).key@ == chunk_key(r.key@, k as nat),
            w.len() == i,
            forall|k: int| 0 <= k < i ==> (#[trigger] w@[k]).0.key@ == chunk_key(r.key@, k as nat) && w@[k].1@
                == chunks@[k]@,
        decreases chunks.len() - i,
    {
        w.push((SecretRef { key: keys[i].key.clone() }, chunks[i].clone()));
        i = i + 1;
    }
    w.push((SecretRef { key: r.key.clone() }, head));
    assert(entry_chunks(w@) =~= texts(chunks@));
    w
}

/// The writes of `entries` applied to the map `m` of an OS store, in order.
pub open spec fn apply_writes(m: Map<Seq<char>, Seq<char>>, entries: Seq<(Seq<char>, Seq<char>)>) -> Map<
    Seq<char>,
    Seq<char>,
>
    decreases entries.len(),
{
    if entries.len() == 0 {
        m
    } else {
        apply_writes(m, entries.drop_last()).insert(entries.last().0, entries.last().1)
    }
}

/// The writes of [`write_entries`], as key and value texts.
pub open spec fn entry_views(w: Seq<(SecretRef, String)>) -> Seq<(Seq<char>, Seq<char>)> {
    w.map_values(|e: (SecretRef, String)| (e.0.key@, e.1@))
}

proof fn lemma_chunk_keys_differ(key: Seq<char>, i: nat, j: nat)
    ensures
        chunk_key(key, i) != key,
        i != j ==> chunk_key(key, i) != chunk_key(key, j),
{
    assert(chunk_key(key, i).len() > key.len());
    if i != j && chunk_key(key, i) == chunk_key(key, j) {
        let k = key.len() + 1;
        assert(chunk_key(key, i).skip(k as int) =~= dec(i));
        assert(chunk_key(key, j).skip(k as int) =~= dec(j));
        crate::text::lemma_parse_dec(i, i + j);
        crate::text::lemma_parse_dec(j, i + j);
    }
}

/// What `set` writes, `get` reads back, through an OS store that keeps what it is written:
/// starting from any contents `m0`, after the writes of [`write_entries`] for `value` under
/// `key` the store holds the head under `key` and chunk `i` under `key#i`, and reading the head
/// and then the chunks it names gives `value` back. A short value that is itself in the form
/// of a chunk header is left out: it reads back as a header.
pub proof fn law_keyring_roundtrip(
    key: Seq<char>,
    value: Seq<char>,
    w: Seq<(SecretRef, String)>,
    m0: Map<Seq<char>, Seq<char>>,
)
    requires
        value.len() <= usize::MAX,
        !(value.len() <= CHUNK_CHARS && chunk_count(value) is Some),
        w.len() >= 1,
        w.last().0.key@ == key,
        forall|i: int| 0 <= i < w.len() - 1 ==> (#[trigger] w[i]).0.key@ == chunk_key(key, i as nat),
        write_plan_of(value, w.last().1@, entry_chunks(w)),
    ensures
        ({
            let m = apply_writes(m0, entry_views(w));
            let n = (w.len() - 1) as nat;
            &&& m.contains_key(key) && m[key] == w.last().1@
            &&& forall|i: nat| i < n ==> m.contains_key(#[trigger] chunk_key(key, i)) && m[chunk_key(key, i)]
                == w[i as int].1@
            &&& read_answer(
                Ok(m[key]),
                Seq::new(n, |i: int| Ok::<Seq<char>, (KeyringFault, Seq<char>)>(m[chunk_key(key, i as nat)])),
            ) == Ok::<Option<Seq<char>>, (KeyringFault, Seq<char>)>(Some(value))
        }),
{
    let es = entry_views(w);
    let n = (w.len() - 1) as nat;
    let head = w.last().1@;
    let chunks = entry_chunks(w);
    let m = apply_writes(m0, es);
    lemma_writes_hold(m0, key, w, n);
    law_plan_roundtrip(value, head, chunks);
    let reads = Seq::new(n, |i: int| Ok::<Seq<char>, (KeyringFault, Seq<char>)>(m[chunk_key(key, i as nat)]));
    if value.len() > CHUNK_CHARS {
        assert(n <= value.len()) by (nonlinear_arith)
            requires
                n == (value.len() + 1000 - 1) / 1000 as int,
                value.len() > 1000,
        ;
        law_chunk_header_roundtrip(n);
        assert(chunk_count(head) == Some(n));
        lemma_chunks_answer_all(reads, chunks, n, 0);
        assert(chunks.take(0) =~= Seq::<Seq<char>>::empty());
        assert(chunks.take(n as int) =~= chunks);
    }
}

proof fn lemma_chunks_answer_all(
    reads: Seq<Result<Seq<char>, (KeyringFault, Seq<char>)>>,
    chunks: Seq<Seq<char>>,
    n: nat,
    i: nat,
)
    requires
        i <= n,
        reads.len() == n,
        chunks.len() == n,
        forall|k: int| 0 <= k < n ==> #[trigger] reads[k] == Ok::<Seq<char>, (KeyringFault, Seq<char>)>(chunks[k]),
    ensures
        chunks_answer(reads, n, i, concat_all(chunks.take(i as int))) == Ok::<
            Option<Seq<char>>,
            (KeyringFault, Seq<char>),
        >(Some(concat_all(chunks))),
    decreases n - i,
{
    if i < n {
        assert(reads[i as int] == Ok::<Seq<char>, (KeyringFault, Seq<char>)>(chunks[i as int]));
        assert(chunks.take((i + 1) as int).drop_last() =~= chunks.take(i as int));
        assert(chunks.take((i + 1) as int).last() == chunks[i as int]);
        lemma_chunks_answer_all(reads, chunks, n, i + 1);
    } else {
        assert(chunks.take(i as int) =~= chunks);
    }
}

proof fn lemma_writes_hold(m0: Map<Seq<char>, Seq<char>>, key: Seq<char>, w: Seq<(SecretRef, String)>, n: nat)
    requires
        w.len() == n + 1,
        w.last().0.key@ == key,
        forall|i: int| 0 <= i < w.len() - 1 ==> (#[trigger] w[i]).0.key@ == chunk_key(key, i as nat),
    ensures
        apply_writes(m0, entry_views(w)).contains_key(key),
        apply_writes(m0, entry_views(w))[key] == w.last().1@,
        forall|i: nat| i < n ==> apply_writes(m0, entry_views(w)).contains_key(#[trigger] chunk_key(key, i))
            && apply_writes(m0, entry_views(w))[chunk_key(key, i)] == w[i as int].1@,
{
    let es = entry_views(w);
    assert(es.drop_last() =~= entry_views(w.drop_last()));
    lemma_prefix_writes(m0, key, w.drop_last(), n);
    assert forall|i: nat| i < n implies apply_writes(m0, es).contains_key(#[trigger] chunk_key(key, i))
        && apply_writes(m0, es)[chunk_key(key, i)] == w[i as int].1@ by {
        lemma_chunk_keys_differ(key, i, 0);
        assert(w.drop_last()[i as int] == w[i as int]);
    }
}

proof fn lemma_prefix_writes(m0: Map<Seq<char>, Seq<char>>, key: Seq<char>, w: Seq<(SecretRef, String)>, n: nat)
    requires
        w.len() == n,
        forall|i: int| 0 <= i < w.len() ==> (#[trigger] w[i]).0.key@ == chunk_key(key, i as nat),
    ensures
        forall|i: nat| i < n ==> apply_writes(m0, entry_views(w)).contains_key(#[trigger] chunk_key(key, i))
            && apply_writes(m0, entry_views(w))[chunk_key(key, i)] == w[i as int].1@,
    decreases n,
{
    if n > 0 {
        let front = w.drop_last();
        assert forall|i: int| 0 <= i < front.len() implies (#[trigger] front[i]).0.key@ == chunk_key(key, i as nat) by {
            assert(front[i] == w[i]);
        }
        lemma_prefix_writes(m0, key, front, (n - 1) as nat);
        assert(entry_views(w).drop_last() =~= entry_views(front));
        assert forall|i: nat| i < n implies apply_writes(m0, entry_views(w)).contains_key(#[trigger] chunk_key(key, i))
            && apply_writes(m0, entry_views(w))[chunk_key(key, i)] == w[i as int].1@ by {
            lemma_chunk_keys_differ(key, i, (n - 1) as nat);
            if i < n - 1 {
                assert(front[i as int] == w[i as int]);
            }
        }
    }
}

/// What `get` returns from what it read: `head` under the key and, when that is a header for
/// `n` chunks, the chunk texts read in order up to the first that was missing. All `n` chunks
/// give their concatenation; a missing chunk gives nothing; any other head is the value.
pub open spec fn assembled(head: Seq<char>, parts: Seq<Seq<char>>) -> Option<Seq<char>> {
    match chunk_count(head) {
        Some(n) => if parts.len() == n {
            Some(concat_all(parts))
        } else {
            None
        },
        None => Some(head),
    }
}

/// The value `get` returns from the head and the chunks it read: [`assembled`].
pub fn assemble(head: &str, parts: &Vec<String>) -> (r: Option<String>)
    ensures
        match r {
            Some(v) => assembled(head@, texts(parts@)) == Some(v@),
            None => assembled(head@, texts(parts@)) is None,
        },
{
    match parse_chunk_header(head) {
        Some(n) => {
            if parts.len() != n {
                return None;
            }
            let mut out: Vec<char> = Vec::new();
            let mut i: usize = 0;
            while i < parts.len()
                invariant
                    i <= parts.len(),
                    out@ == concat_all(texts(parts@).take(i as int)),
                decreases parts.len() - i,
            {
                proof {
                    assert(texts(parts@).take(i + 1).drop_last() =~= texts(parts@).take(i as int));
                    assert(texts(parts@).take(i + 1).last() == parts@[i as int]@);
                }
                push_str(&mut out, parts[i].as_str());
                i = i + 1;
            }
            assert(texts(parts@).take(parts.len() as int) =~= texts(parts@));
            Some(string_of(&out))
        },
        None => Some(head.to_string()),
    }
}

/// What `set` writes, `get` reads back: a value that is not itself a short text in the form of
/// a chunk header is assembled again from its head and chunks.
pub proof fn law_plan_roundtrip(value: Seq<char>, head: Seq<char>, chunks: Seq<Seq<char>>)
    requires
        value.len() <= usize::MAX,
        !(value.len() <= CHUNK_CHARS && chunk_count(value) is Some),
        write_plan_of(value, head, chunks),
    ensures
        assembled(head, chunks) == Some(value),
{
    if value.len() > CHUNK_CHARS {
        let k = chunks.len();
        assert(k <= value.len()) by (nonlinear_arith)
            requires
                k == (value.len() + 1000 - 1) / 1000 as int,
                value.len() > 1000,
        ;
        law_chunk_header_roundtrip(k);
    }
}

// ---------------------------------------------------------------------------------------------
// OS credential store

#[verifier::external_type_specification]
#[verifier::external_body]
pub struct ExKeyringEntry(keyring::Entry);

#[verifier::external_type_specification]
#[verifier::external_body]
pub struct ExKeyringError(keyring::Error);

/// `keyring::Entry::new(service, user)`. Whether it succeeds depends on the platform store.
#[verifier::external_body]
fn keyring_entry(service: &str, user: &str) -> Result<keyring::Entry, keyring::Error> {
    keyring::Entry::new(service, user)
}

/// `keyring::Entry::get_password`: what the platform store holds for the entry. The store's
/// state lives outside this process, so nothing is claimed of the result.
#[verifier::external_body]
fn entry_get_password(e: &keyring::Entry) -> Result<String, keyring::Error> {
    e.get_password()
}

/// `keyring::Entry::set_password`. Nothing is claimed of the outcome.
#[verifier::external_body]
fn entry_set_password(e: &keyring::Entry, password: &str) -> Result<(), keyring::Error> {
    e.set_password(password)
}

/// `keyring::Entry::delete_credential`. Nothing is claimed of the outcome.
#[verifier::external_body]
fn entry_delete_credential(e: &keyring::Entry) -> Result<(), keyring::Error> {
    e.delete_credential()
}

/// The kinds of credential-store failure the library tells apart.
#[derive(Clone, Copy, Debug, PartialEq, Eq, Structural)]
pub enum KeyringFault {
    /// `NoEntry`: nothing is stored under the key.
    Missing,
    /// `NoStorageAccess`: the platform store cannot be reached.
    NoAccess,
    Other,
}

/// Which `keyring::Error` variant `e` is (`NoEntry`, `NoStorageAccess`, or another). The
/// variant is not visible to the library, so nothing is claimed of the answer.
#[verifier::external_body]
fn keyring_fault(e: &keyring::Error) -> KeyringFault {
    match e {
        keyring::Error::NoEntry => KeyringFault::Missing,
        keyring::Error::NoStorageAccess(_) => KeyringFault::NoAccess,
        _ => KeyringFault::Other,
    }
}

/// The `Display` text of a `keyring::Error`; nothing is claimed of it.
#[verifier::external_body]
fn keyring_message(e: &keyring::Error) -> String {
    e.to_string()
}

/// The error for a failed store call: [`AuthError::SecretStoreUnavailable`] when the platform
/// store cannot be reached, [`AuthError::Secret`] otherwise, with the failure's text.
pub open spec fn failure_error(e: AuthError, fault: KeyringFault, message: Seq<char>) -> bool {
    match fault {
        KeyringFault::NoAccess => e matches AuthError::SecretStoreUnavailable(m) && m@ == message,
        _ => e matches AuthError::Secret(m) && m@ == message,
    }
}

/// The error [`failure_error`] describes.
pub fn store_failure(fault: KeyringFault, message: String) -> (r: AuthError)
    ensures
        failure_error(r, fault, message@),
{
    match fault {
        KeyringFault::NoAccess => AuthError::SecretStoreUnavailable(message),
        _ => AuthError::Secret(message),
    }
}

/// What a failed read answers: nothing stored when the entry is missing, else the error.
pub fn read_failure(fault: KeyringFault, message: String) -> (r: Result<Option<Secret>, AuthError>)
    ensures
        fault is Missing ==> r matches Ok(None),
        !(fault is Missing) ==> (r matches Err(e) && failure_error(e, fault, message@)),
{
    match fault {
        KeyringFault::Missing => Ok(None),
        _ => Err(store_failure(fault, message)),
    }
}

/// What a failed delete answers: a missing entry counts as deleted, else the error.
pub fn delete_failure(fault: KeyringFault, message: String) -> (r: Result<(), AuthError>)
    ensures
        fault is Missing ==> r is Ok,
        !(fault is Missing) ==> (r matches Err(e) && failure_error(e, fault, message@)),
{
    match fault {
        KeyringFault::Missing => Ok(()),
        _ => Err(store_failure(fault, message)),
    }
}

/// A read of one entry, as plain text: the value, or the fault and its message.
pub open spec fn outcome_view(o: Result<String, (KeyringFault, String)>) -> Result<
    Seq<char>,
    (KeyringFault, Seq<char>),
> {
    match o {
        Ok(v) => Ok(v@),
        Err((f, m)) => Err((f, m@)),
    }
}

/// A list of reads, as plain text.
pub open spec fn outcome_views(v: Seq<Result<String, (KeyringFault, String)>>) -> Seq<
    Result<Seq<char>, (KeyringFault, Seq<char>)>,
> {
    v.map_values(|o: Result<String, (KeyringFault, String)>| outcome_view(o))
}

/// What a failed read of one entry answers: nothing stored when it is missing, else the fault.
pub open spec fn fault_answer(f: KeyringFault, m: Seq<char>) -> Result<Option<Seq<char>>, (KeyringFault, Seq<char>)> {
    if f is Missing {
        Ok(None)
    } else {
        Err((f, m))
    }
}

/// The chunk reads from `i` on, for a header of `n` chunks, with `acc` read so far: all `n`
/// present give their concatenation; the first that failed decides ([`fault_answer`]); a read
/// past the end of `chunks` counts as a missing entry.
pub open spec fn chunks_answer(
    chunks: Seq<Result<Seq<char>, (KeyringFault, Seq<char>)>>,
    n: nat,
    i: nat,
    acc: Seq<char>,
) -> Result<Option<Seq<char>>, (KeyringFault, Seq<char>)>
    decreases n - i,
{
    if i >= n {
        Ok(Some(acc))
    } else if i >= chunks.len() {
        Ok(None)
    } else {
        match chunks[i as int] {
            Ok(p) => chunks_answer(chunks, n, i + 1, acc + p),
            Err((f, m)) => fault_answer(f, m),
        }
    }
}

/// What `get` answers from the read of the head entry and the reads of the chunk entries
/// `key#0`, `key#1`, … in order: a missing head is nothing stored and another fault is an
/// error; a head that is a header for `n` chunks gives [`chunks_answer`] of the first `n`
/// reads; any other head is the value itself.
pub open spec fn read_answer(
    head: Result<Seq<char>, (KeyringFault, Seq<char>)>,
    chunks: Seq<Result<Seq<char>, (KeyringFault, Seq<char>)>>,
) -> Result<Option<Seq<char>>, (KeyringFault, Seq<char>)> {
    match head {
        Err((f, m)) => fault_answer(f, m),
        Ok(h) => match chunk_count(h) {
            Some(n) => chunks_answer(chunks, n, 0, seq![]),
            None => Ok(Some(h)),
        },
    }
}

/// `r` is the answer `a` as the store returns it: the value as a [`Secret`], a fault as the
/// error [`failure_error`] describes.
pub open spec fn answers(a: Result<Option<Seq<char>>, (KeyringFault, Seq<char>)>, r: Result<Option<Secret>, AuthError>) -> bool {
    match a {
        Ok(None) => r matches Ok(None),
        Ok(Some(v)) => r matches Ok(Some(s)) && s.value() == v,
        Err((f, m)) => r matches Err(e) && failure_error(e, f, m),
    }
}

/// The answer of `get` from the reads it made: [`read_answer`] of the head read and the chunk
/// reads, in order.
pub fn read_result(head: Result<String, (KeyringFault, String)>, chunks: &Vec<Result<String, (KeyringFault, String)>>) -> (r: Result<
    Option<Secret>,
    AuthError,
>)
    ensures
        answers(read_answer(outcome_view(head), outcome_views(chunks@)), r),
{
    let ghost cs = outcome_views(chunks@);
    let ghost hv = outcome_view(head);
    match head {
        Err((f, m)) => read_failure(f, m),
        Ok(h) => match parse_chunk_header(h.as_str()) {
            None => Ok(Some(Secret::from_string(h))),
            Some(n) => {
                let mut out: Vec<char> = Vec::new();
                let mut i: usize = 0;
                while i < n
                    invariant
                        i <= n,
                        chunk_count(h@) == Some(n as nat),
                        cs == outcome_views(chunks@),
                        hv == outcome_view(head),
                        read_answer(hv, cs) == chunks_answer(cs, n as nat, i as nat, out@),
                    decreases n - i,
                {
                    if i >= chunks.len() {
                        return Ok(None);
                    }
                    assert(cs[i as int] == outcome_view(chunks@[i as int]));
                    match &chunks[i] {
                        Ok(p) => push_str(&mut out, p.as_str()),
                        Err((f, m)) => return read_failure(*f, m.clone()),
                    }
                    i = i + 1;
                }
                Ok(Some(Secret::from_string(string_of(&out))))
            },
        },
    }
}

/// Read the entry under `r`: its value, or the fault. An entry that cannot even be opened gives
/// a fault that is not [`KeyringFault::Missing`], so the error it ends in is the one opening it
/// gave.
fn read_key(r: &SecretRef) -> (res: Result<String, (KeyringFault, String)>) {
    if let Some(reason) = KeyringStore::unavailable_reason() {
        return Err((KeyringFault::NoAccess, reason));
    }
    let e = match keyring_entry(KEYRING_SERVICE, r.key.as_str()) {
        Ok(x) => x,
        Err(err) => {
            let m = keyring_message(&err);
            let f = match keyring_fault(&err) {
                KeyringFault::Missing => KeyringFault::Other,
                other => other,
            };
            return Err((f, m));
        },
    };
    match entry_get_password(&e) {
        Ok(p) => Ok(p),
        Err(err) => {
            let m = keyring_message(&err);
            Err((keyring_fault(&err), m))
        },
    }
}

/// An error that reports a failure of the credential store itself.
pub open spec fn store_error(e: AuthError) -> bool {
    e is SecretStoreUnavailable || e is Secret
}

proof fn lemma_answers_store_error(a: Result<Option<Seq<char>>, (KeyringFault, Seq<char>)>, r: Result<Option<Secret>, AuthError>)
    requires
        answers(a, r),
    ensures
        r matches Err(e) ==> store_error(e),
{
}

/// The library's error for a credential-store failure: [`AuthError::SecretStoreUnavailable`]
/// when the platform store cannot be reached, [`AuthError::Secret`] otherwise, each with the
/// error's text.
fn map_keyring(e: keyring::Error) -> (r: AuthError)
    ensures
        store_error(r),
{
    let m = keyring_message(&e);
    store_failure(keyring_fault(&e), m)
}

/// The user name of the entry used to check that the platform store works.
pub const PROBE_USER: &'static str = "__cobalt_probe";

/// Windows Credential Manager / macOS Keychain / the Linux kernel keyring, via `keyring`.
///
/// Entries live under service [`KEYRING_SERVICE`] with the `SecretRef::key` as the user field.
#[derive(Debug, Default, Clone, Copy)]
pub struct KeyringStore;

impl KeyringStore {
    pub fn new() -> (r: Self) {
        KeyringStore
    }

    /// Whether the platform credential store can open an entry.
    pub fn available() -> (r: bool) {
        Self::unavailable_reason().is_none()
    }

    /// Why the platform credential store is unavailable, if it is.
    pub fn unavailable_reason() -> (r: Option<String>) {
        match keyring_entry(KEYRING_SERVICE, PROBE_USER) {
            Ok(_) => None,
            Err(e) => Some(keyring_message(&e)),
        }
    }

    fn entry(r: &SecretRef) -> (res: Result<keyring::Entry, AuthError>)
        ensures
            res matches Err(e) ==> store_error(e),
    {
        if let Some(reason) = Self::unavailable_reason() {
            return Err(AuthError::SecretStoreUnavailable(reason));
        }
        match keyring_entry(KEYRING_SERVICE, r.key.as_str()) {
            Ok(e) => Ok(e),
            Err(e) => Err(map_keyring(e)),
        }
    }

    /// Remove the chunk entries of a chunked value, if `r` holds a chunk header.
    fn delete_chunks(&self, r: &SecretRef) -> (res: Result<(), AuthError>)
        ensures
            res matches Err(e) ==> store_error(e),
    {
        let head_entry = match Self::entry(r) {
            Ok(x) => x,
            Err(e) => return Err(e),
        };
        if let Ok(head) = entry_get_password(&head_entry) {
            if let Some(n) = parse_chunk_header(head.as_str()) {
                let mut i: usize = 0;
                while i < n
                    invariant
                        i <= n,
                    decreases n - i,
                {
                    let e = match Self::entry(&chunk_ref(r, i)) {
                        Ok(x) => x,
                        Err(err) => return Err(err),
                    };
                    let _ = entry_delete_credential(&e);
                    i = i + 1;
                }
            }
        }
        Ok(())
    }
}

impl SecretStore for KeyringStore {
    /// Reads the head under `r` and, when it is a header for `n` chunks, the chunks `r#0`,
    /// `r#1`, … in order until one fails or all `n` are read, then answers what [`read_result`]
    /// makes of those reads.
    fn get(&self, r: &SecretRef) -> (res: Result<Option<Secret>, AuthError>)
        ensures
            res matches Err(e) ==> store_error(e),
    {
        let head = read_key(r);
        let mut chunks: Vec<Result<String, (KeyringFault, String)>> = Vec::new();
        if let Ok(h) = &head {
            if let Some(n) = parse_chunk_header(h.as_str()) {
                let keys = chunk_refs(r, n);
                let mut i: usize = 0;
                while i < n
                    invariant
                        i <= n,
                        keys.len() == n,
                    decreases n - i,
                {
                    let o = read_key(&keys[i]);
                    let failed = o.is_err();
                    chunks.push(o);
                    if failed {
                        break;
                    }
                    i = i + 1;
                }
            }
        }
        let res = read_result(head, &chunks);
        proof {
            lemma_answers_store_error(read_answer(outcome_view(head), outcome_views(chunks@)), res);
        }
        res
    }

    /// Makes the writes of [`write_entries`] in order (for a short value after removing any old
    /// chunks): a long value's chunks under `r#0`, `r#1`, … and then its header under `r`.
    fn set(&mut self, r: &SecretRef, s: &Secret) -> (res: Result<(), AuthError>)
        ensures
            res matches Err(e) ==> store_error(e),
    {
        let entries = write_entries(r, s.expose());
        if entries.len() == 1 {
            let _ = self.delete_chunks(r);
        }
        let mut i: usize = 0;
        while i < entries.len()
            invariant
                i <= entries.len(),
            decreases entries.len() - i,
        {
            let e = match Self::entry(&entries[i].0) {
                Ok(x) => x,
                Err(err) => return Err(err),
            };
            if let Err(err) = entry_set_password(&e, entries[i].1.as_str()) {
                return Err(map_keyring(err));
            }
            i = i + 1;
        }
        Ok(())
    }

    /// Removes the chunks of `r`, then `r` itself; a missing entry counts as deleted
    /// ([`delete_failure`]).
    fn delete(&mut self, r: &SecretRef) -> (res: Result<(), AuthError>)
        ensures
            res matches Err(e) ==> store_error(e),
    {
        let _ = self.delete_chunks(r);
        let e = match Self::entry(r) {
            Ok(x) => x,
            Err(err) => return Err(err),
        };
        match entry_delete_credential(&e) {
            Ok(()) => Ok(()),
            Err(err) => {
                let m = keyring_message(&err);
                delete_failure(keyring_fault(&err), m)
            },
        }
    }
}

// ---------------------------------------------------------------------------------------------
// Entries of the plain-file fallback store

/// Standard (padded) base64 text of `bytes` (`base64::engine::general_purpose::STANDARD`).
pub uninterp spec fn b64_std_encode(bytes: Seq<u8>) -> Seq<char>;

/// The bytes a standard base64 text stands for, when it is valid.
pub uninterp spec fn b64_std_decode(text: Seq<char>) -> Option<Seq<u8>>;

#[verifier::external_type_specification]
#[verifier::external_body]
pub struct ExDecodeError(base64::DecodeError);

/// `STANDARD.encode`: the text named [`b64_std_encode`] of the bytes; decoding that text
/// with `STANDARD.decode` gives the bytes back. The crate panics when the encoded length
/// overflows a `usize`, which these inputs rule out.
#[verifier::external_body]
fn b64_std_encode_exec(bytes: &[u8]) -> (r: String)
    requires
        bytes@.len() <= usize::MAX / 2,
    ensures
        r@ == b64_std_encode(bytes@),
        b64_std_decode(r@) == Some(bytes@),
{
    base64::Engine::encode(&base64::engine::general_purpose::STANDARD, bytes)
}

/// `STANDARD.decode`: the bytes named [`b64_std_decode`] of the text, and an error exactly
/// when that name says the text does not decode.
#[verifier::external_body]
fn b64_std_decode_exec(text: &str) -> (r: Result<Vec<u8>, base64::DecodeError>)
    ensures
        match r {
            Ok(b) => b64_std_decode(text@) == Some(b@),
            Err(_) => b64_std_decode(text@) is None,
        },
{
    base64::Engine::decode(&base64::engine::general_purpose::STANDARD, text)
}

/// The `Display` text of a `base64::DecodeError`; nothing is claimed of it.
#[verifier::external_body]
fn decode_error_text(e: &base64::DecodeError) -> String {
    e.to_string()
}

/// `String::from_utf8`: the text the bytes encode when they are valid UTF-8, and `None`
/// exactly when they are not.
#[verifier::external_body]
fn utf8_text(bytes: Vec<u8>) -> (r: Option<String>)
    ensures
        match r {
            Some(s) => vstd::utf8::valid_utf8(bytes@) && s@ == vstd::utf8::decode_utf8(bytes@),
            None => !vstd::utf8::valid_utf8(bytes@),
        },
{
    String::from_utf8(bytes).ok()
}

/// How a secret is written in the fallback file: base64 of its UTF-8 bytes. This is
/// obfuscation only, not encryption.
pub fn encode_entry(s: &Secret) -> (r: String)
    requires
        vstd::utf8::encode_utf8(s.value()).len() <= usize::MAX / 2,
    ensures
        r@ == b64_std_encode(vstd::utf8::encode_utf8(s.value())),
        b64_std_decode(r@) == Some(vstd::utf8::encode_utf8(s.value())),
{
    b64_std_encode_exec(s.expose().as_bytes())
}

/// The prefix of the message for an unreadable entry.
pub open spec fn corrupt_prefix(key: Seq<char>) -> Seq<char> {
    "corrupt entry "@ + key + ": "@
}

/// Read back an entry of the fallback file stored under `key`.
pub fn decode_entry(key: &str, text: &str) -> (r: Result<Secret, AuthError>)
    ensures
        match b64_std_decode(text@) {
            None => r matches Err(AuthError::Secret(m)) && m@.len() >= corrupt_prefix(key@).len()
                && m@.take(corrupt_prefix(key@).len() as int) == corrupt_prefix(key@),
            Some(b) => if vstd::utf8::valid_utf8(b) {
                r matches Ok(s) && s.value() == vstd::utf8::decode_utf8(b)
            } else {
                r matches Err(AuthError::Secret(m)) && m@ == corrupt_prefix(key@) + "not UTF-8"@
            },
        },
{
    let mut msg = chars_of("corrupt entry ");
    push_str(&mut msg, key);
    push_str(&mut msg, ": ");
    match b64_std_decode_exec(text) {
        Err(e) => {
            let ghost pre = msg@;
            let t = decode_error_text(&e);
            push_str(&mut msg, t.as_str());
            assert(msg@.take(pre.len() as int) =~= pre);
            Err(AuthError::Secret(string_of(&msg)))
        },
        Ok(bytes) => match utf8_text(bytes) {
            Some(s) => Ok(Secret::from_string(s)),
            None => {
                push_str(&mut msg, "not UTF-8");
                Err(AuthError::Secret(string_of(&msg)))
            },
        },
    }
}

/// An entry whose text decodes to the UTF-8 bytes of a secret, as every entry that
/// [`encode_entry`] writes does, reads back as that secret.
pub proof fn law_entry_roundtrip(text: Seq<char>, value: Seq<char>)
    requires
        b64_std_decode(text) == Some(vstd::utf8::encode_utf8(value)),
    ensures
        vstd::utf8::valid_utf8(vstd::utf8::encode_utf8(value)),
        vstd::utf8::decode_utf8(vstd::utf8::encode_utf8(value)) == value,
{
    vstd::utf8::encode_utf8_valid_utf8(value);
    vstd::utf8::encode_utf8_decode_utf8(value);
}

} // verus!
