//! Reading ADO.NET / SqlClient connection strings
//! (`Server=…;Database=…;User ID=…;Password=…;Encrypt=…`) into a profile.

use crate::profile::{
    opt_view, strs, ApplicationIntent, AuthMethod, AuthView, ConnStringSecrets,
    ConnectionProfile, Encrypt, OptionsView, ProfileView, SecretsView,
};
use crate::text::{
    ascii_lower, chars_of, contains, contains_str, eq_str, find_char, is_blank, lower_chars,
    matches_at, matches_at_exec, parse_uint, parse_uint_exec, rfind_char, slice, string_of,
    trim, trim_chars,
};
use vstd::prelude::*;

verus! {

broadcast use vstd::string::group_string_axioms;

pub open spec fn cviews(v: Seq<Vec<char>>) -> Seq<Seq<char>> {
    v.map_values(|x: Vec<char>| x@)
}

// ---------------------------------------------------------------------------------------------
// Splitting on `;` outside quotes and braces

pub struct SplitState {
    pub parts: Seq<Seq<char>>,
    pub cur: Seq<char>,
    pub quote: Option<char>,
    pub brace: nat,
}

/// One character of the splitter: quotes toggle (outside braces), braces nest (outside quotes),
/// and `;` ends a part only outside both.
pub open spec fn split_step(st: SplitState, c: char) -> SplitState {
    if (c == '"' || c == '\'') && st.brace == 0 {
        SplitState {
            parts: st.parts,
            cur: st.cur.push(c),
            quote: match st.quote {
                Some(q) => if q == c {
                    None
                } else {
                    Some(q)
                },
                None => Some(c),
            },
            brace: st.brace,
        }
    } else if c == '{' && st.quote is None {
        SplitState { parts: st.parts, cur: st.cur.push(c), quote: st.quote, brace: st.brace + 1 }
    } else if c == '}' && st.quote is None && st.brace > 0 {
        SplitState {
            parts: st.parts,
            cur: st.cur.push(c),
            quote: st.quote,
            brace: (st.brace - 1) as nat,
        }
    } else if c == ';' && st.quote is None && st.brace == 0 {
        SplitState { parts: st.parts.push(st.cur), cur: seq![], quote: st.quote, brace: st.brace }
    } else {
        SplitState { parts: st.parts, cur: st.cur.push(c), quote: st.quote, brace: st.brace }
    }
}

pub open spec fn split_scan(s: Seq<char>) -> SplitState
    decreases s.len(),
{
    if s.len() == 0 {
        SplitState { parts: seq![], cur: seq![], quote: None, brace: 0 }
    } else {
        split_step(split_scan(s.drop_last()), s.last())
    }
}

/// The parts of a connection string; a last part that is only whitespace is dropped.
pub open spec fn split_conn(s: Seq<char>) -> Seq<Seq<char>> {
    let st = split_scan(s);
    if trim(st.cur).len() > 0 {
        st.parts.push(st.cur)
    } else {
        st.parts
    }
}

fn split_chars(v: &Vec<char>) -> (r: Vec<Vec<char>>)
    ensures
        cviews(r@) == split_conn(v@),
{
    let mut parts: Vec<Vec<char>> = Vec::new();
    let mut cur: Vec<char> = Vec::new();
    let mut quote: Option<char> = None;
    let mut brace: usize = 0;
    let mut i: usize = 0;
    assert(v@.take(0) =~= Seq::<char>::empty());
    assert(cviews(parts@) =~= Seq::<Seq<char>>::empty());
    assert(cur@ =~= Seq::<char>::empty());
    while i < v.len()
        invariant
            i <= v.len(),
            brace <= i,
            split_scan(v@.take(i as int)) == (SplitState {
                parts: cviews(parts@),
                cur: cur@,
                quote: quote,
                brace: brace as nat,
            }),
        decreases v.len() - i,
    {
        let c = v[i];
        let ghost pre = v@.take(i as int);
        assert(v@.take(i + 1).drop_last() =~= pre);
        assert(v@.take(i + 1).last() == c);
        if (c == '"' || c == '\'') && brace == 0 {
            quote = match quote {
                Some(q) => if q == c {
                    None
                } else {
                    Some(q)
                },
                None => Some(c),
            };
            cur.push(c);
        } else if c == '{' && quote.is_none() {
            brace = brace + 1;
            cur.push(c);
        } else if c == '}' && quote.is_none() && brace > 0 {
            brace = brace - 1;
            cur.push(c);
        } else if c == ';' && quote.is_none() && brace == 0 {
            let ghost old_parts = parts@;
            let ghost done_view = cur@;
            parts.push(cur);
            cur = Vec::new();
            assert(cviews(parts@) =~= cviews(old_parts).push(done_view));
        } else {
            cur.push(c);
        }
        i = i + 1;
    }
    assert(v@.take(v.len() as int) =~= v@);
    if !is_blank(&cur) {
        let ghost old_parts = parts@;
        let ghost cur_view = cur@;
        parts.push(cur);
        assert(cviews(parts@) =~= cviews(old_parts).push(cur_view));
    }
    parts
}

/// Split on `;` outside quotes and `{}` braces.
pub fn split_conn_string(s: &str) -> (r: Vec<String>)
    ensures
        strs(r@) == split_conn(s@),
{
    let v = chars_of(s);
    let parts = split_chars(&v);
    let mut out: Vec<String> = Vec::new();
    let mut i: usize = 0;
    while i < parts.len()
        invariant
            i <= parts.len(),
            strs(out@) == cviews(parts@).take(i as int),
        decreases parts.len() - i,
    {
        let ghost before = out@;
        out.push(string_of(&parts[i]));
        i = i + 1;
        assert(strs(out@) =~= strs(before).push(parts@[i - 1]@));
        assert(cviews(parts@).take(i as int) =~= cviews(parts@).take(i - 1).push(parts@[i - 1]@));
    }
    assert(cviews(parts@).take(parts.len() as int) =~= cviews(parts@));
    out
}

// ---------------------------------------------------------------------------------------------
// Values

/// A value with surrounding whitespace removed and one pair of `"…"`, `'…'` or `{…}` stripped.
pub open spec fn unquote(v: Seq<char>) -> Seq<char> {
    let t = trim(v);
    if t.len() >= 2 && ((t[0] == '"' && t.last() == '"') || (t[0] == '\'' && t.last() == '\'') || (
    t[0] == '{' && t.last() == '}')) {
        t.subrange(1, t.len() - 1)
    } else {
        t
    }
}

fn unquote_exec(v: &Vec<char>) -> (r: Vec<char>)
    ensures
        r@ == unquote(v@),
{
    let t = trim_chars(v);
    let n = t.len();
    if n >= 2 && ((t[0] == '"' && t[n - 1] == '"') || (t[0] == '\'' && t[n - 1] == '\'') || (t[0]
        == '{' && t[n - 1] == '}')) {
        slice(&t, 1, n - 1)
    } else {
        t
    }
}

/// The first index of `c` in `s`.
pub open spec fn first_index(s: Seq<char>, c: char) -> Option<int>
    decreases s.len(),
{
    if s.len() == 0 {
        None
    } else if s[0] == c {
        Some(0)
    } else {
        match first_index(s.drop_first(), c) {
            Some(j) => Some(j + 1),
            None => None,
        }
    }
}

/// The last index of `c` in `s`.
pub open spec fn last_index(s: Seq<char>, c: char) -> Option<int>
    decreases s.len(),
{
    if s.len() == 0 {
        None
    } else if s.last() == c {
        Some(s.len() - 1)
    } else {
        last_index(s.drop_last(), c)
    }
}

pub proof fn lemma_first_index(s: Seq<char>, c: char, i: Option<int>)
    requires
        match i {
            Some(k) => 0 <= k < s.len() && s[k] == c && forall|j: int| 0 <= j < k ==> s[j] != c,
            None => forall|j: int| 0 <= j < s.len() ==> s[j] != c,
        },
    ensures
        first_index(s, c) == i,
    decreases s.len(),
{
    if s.len() > 0 && s[0] != c {
        let t = s.drop_first();
        let i2 = match i {
            Some(k) => Some(k - 1),
            None => None,
        };
        assert forall|j: int| 0 <= j < t.len() && (i2 is None || j < i2.unwrap()) implies t[j]
            != c by {
            assert(t[j] == s[j + 1]);
        }
        if let Some(k) = i {
            assert(t[k - 1] == s[k]);
        }
        lemma_first_index(t, c, i2);
    }
}

pub proof fn lemma_last_index(s: Seq<char>, c: char, i: Option<int>)
    requires
        match i {
            Some(k) => 0 <= k < s.len() && s[k] == c && forall|j: int| k < j < s.len() ==> s[j]
                != c,
            None => forall|j: int| 0 <= j < s.len() ==> s[j] != c,
        },
    ensures
        last_index(s, c) == i,
    decreases s.len(),
{
    if s.len() > 0 && s.last() != c {
        let t = s.drop_last();
        if let Some(k) = i {
            assert(k < s.len() - 1);
        }
        lemma_last_index(t, c, i);
    }
}

/// `s.trim_start_matches(p)` for a non-empty `p`.
pub open spec fn strip_prefix_all(s: Seq<char>, p: Seq<char>) -> Seq<char>
    decreases s.len(),
{
    if p.len() > 0 && matches_at(s, p, 0) {
        strip_prefix_all(s.skip(p.len() as int), p)
    } else {
        s
    }
}

fn strip_prefix_all_exec(v: &Vec<char>, p: &Vec<char>) -> (r: Vec<char>)
    ensures
        r@ == strip_prefix_all(v@, p@),
{
    let mut i: usize = 0;
    assert(v@.skip(0) =~= v@);
    while p.len() > 0 && matches_at_exec(v, p, i)
        invariant
            i <= v.len(),
            strip_prefix_all(v@.skip(i as int), p@) == strip_prefix_all(v@, p@),
        decreases v.len() - i,
    {
        proof {
            let t = v@.skip(i as int);
            assert(t.subrange(0, p@.len() as int) =~= v@.subrange(i as int, i + p@.len()));
            assert(t.skip(p@.len() as int) =~= v@.skip(i + p@.len()));
        }
        i = i + p.len();
    }
    proof {
        let t = v@.skip(i as int);
        if p@.len() > 0 && matches_at(t, p@, 0) {
            assert(t.subrange(0, p@.len() as int) =~= v@.subrange(i as int, i + p@.len()));
        }
    }
    slice(v, i, v.len())
}

/// The host (and port, when a `,port` suffix parses) of a `Server=` value: `tcp:` prefixes are
/// dropped, then the part after the last comma is tried as a port.
pub open spec fn server_host_port(val: Seq<char>) -> (Seq<char>, Option<u16>) {
    let host = trim(strip_prefix_all(val, "tcp:"@));
    match last_index(host, ',') {
        Some(i) => match parse_uint(trim(host.skip(i + 1)), 65535) {
            Some(n) => (trim(host.take(i)), Some(n as u16)),
            None => (host, None),
        },
        None => (host, None),
    }
}

fn server_host_port_exec(val: &Vec<char>) -> (r: (Vec<char>, Option<u16>))
    ensures
        (r.0@, r.1) == server_host_port(val@),
{
    let tcp = chars_of("tcp:");
    let stripped = strip_prefix_all_exec(val, &tcp);
    let host = trim_chars(&stripped);
    let comma = rfind_char(&host, ',', host.len());
    proof {
        lemma_last_index(
            host@,
            ',',
            match comma {
                Some(k) => Some(k as int),
                None => None,
            },
        );
    }
    match comma {
        Some(i) => {
            let p = slice(&host, i + 1, host.len());
            let pt = trim_chars(&p);
            assert(p@ =~= host@.skip(i + 1));
            match parse_uint_exec(&pt, 65535) {
                Some(n) => {
                    let h = slice(&host, 0, i);
                    assert(h@ =~= host@.take(i as int));
                    (trim_chars(&h), Some(n as u16))
                },
                None => (host, None),
            }
        },
        None => (host, None),
    }
}

// ---------------------------------------------------------------------------------------------
// Keys

/// State while reading the parts of a connection string.
pub struct ConnScan {
    pub profile: ProfileView,
    pub password: Option<Seq<char>>,
    pub ignored: Seq<Seq<char>>,
    pub user: Option<Seq<char>>,
    pub auth: Option<Seq<char>>,
    pub integrated: bool,
    pub seen: bool,
}

pub open spec fn is_true_yes(lv: Seq<char>) -> bool {
    lv == "true"@ || lv == "yes"@
}

/// Keys that are understood but have no effect here.
pub open spec fn is_inert_key(key: Seq<char>) -> bool {
    ||| key == "persist security info"@
    ||| key == "pooling"@
    ||| key == "min pool size"@
    ||| key == "max pool size"@
    ||| key == "connection lifetime"@
    ||| key == "load balance timeout"@
    ||| key == "workstation id"@
    ||| key == "failover partner"@
    ||| key == "attachdbfilename"@
    ||| key == "type system version"@
    ||| key == "multisubnetfailover"@
    ||| key == "column encryption setting"@
    ||| key == "enlist"@
    ||| key == "current language"@
    ||| key == "language"@
    ||| key == "replication"@
    ||| key == "transaction binding"@
    ||| key == "user instance"@
    ||| key == "context connection"@
    ||| key == "network library"@
    ||| key == "net"@
}

/// The effect of one `key=value` pair (key lower-cased and trimmed, value unquoted).
pub open spec fn apply_key(st: ConnScan, key: Seq<char>, val: Seq<char>) -> ConnScan {
    let lv = ascii_lower(val);
    let p = st.profile;
    let o = p.options;
    if key == "server"@ || key == "data source"@ || key == "address"@ || key == "addr"@ || key
        == "network address"@ {
        let hp = server_host_port(val);
        ConnScan {
            profile: ProfileView {
                server: hp.0,
                port: match hp.1 {
                    Some(n) => Some(n),
                    None => p.port,
                },
                ..p
            },
            ..st
        }
    } else if key == "initial catalog"@ || key == "database"@ {
        ConnScan {
            profile: ProfileView {
                database: if val.len() == 0 {
                    None
                } else {
                    Some(val)
                },
                ..p
            },
            ..st
        }
    } else if key == "user id"@ || key == "uid"@ || key == "user"@ || key == "user name"@ {
        ConnScan { user: Some(val), ..st }
    } else if key == "password"@ || key == "pwd"@ {
        ConnScan { password: Some(val), ..st }
    } else if key == "integrated security"@ || key == "trusted_connection"@ {
        ConnScan { integrated: lv == "true"@ || lv == "yes"@ || lv == "sspi"@, ..st }
    } else if key == "authentication"@ {
        ConnScan { auth: Some(lv), ..st }
    } else {
        ConnScan { profile: ProfileView { options: apply_option_key(o, key, val), ..p }, ..st }
    }
}

/// Option keys; anything not understood is left alone here (see `scan_key`).
pub open spec fn apply_option_key(o: OptionsView, key: Seq<char>, val: Seq<char>) -> OptionsView {
    let lv = ascii_lower(val);
    if key == "encrypt"@ {
        OptionsView {
            encrypt: if lv == "strict"@ {
                Encrypt::Strict
            } else if lv == "false"@ || lv == "no"@ || lv == "optional"@ {
                Encrypt::Optional
            } else {
                Encrypt::Mandatory
            },
            ..o
        }
    } else if key == "trustservercertificate"@ || key == "trust server certificate"@ {
        OptionsView { trust_server_certificate: is_true_yes(lv), ..o }
    } else if key == "hostnameincertificate"@ || key == "host name in certificate"@ {
        OptionsView {
            host_name_in_certificate: if val.len() == 0 {
                None
            } else {
                Some(val)
            },
            ..o
        }
    } else if key == "application name"@ || key == "app"@ {
        OptionsView { application_name: val, ..o }
    } else if key == "connect timeout"@ || key == "connection timeout"@ || key == "timeout"@ {
        match parse_uint(val, 0xffff_ffff) {
            Some(n) => OptionsView { connect_timeout_secs: n as u32, ..o },
            None => o,
        }
    } else if key == "command timeout"@ {
        match parse_uint(val, 0xffff_ffff) {
            Some(n) => OptionsView { command_timeout_secs: n as u32, ..o },
            None => o,
        }
    } else if key == "applicationintent"@ || key == "application intent"@ {
        OptionsView {
            application_intent: if lv == "readonly"@ {
                ApplicationIntent::ReadOnly
            } else {
                ApplicationIntent::ReadWrite
            },
            ..o
        }
    } else if key == "multipleactiveresultsets"@ || key == "multiple active result sets"@ {
        OptionsView { mars: is_true_yes(lv), ..o }
    } else if key == "packet size"@ {
        OptionsView {
            packet_size: match parse_uint(val, 0xffff_ffff) {
                Some(n) => Some(n as u32),
                None => None,
            },
            ..o
        }
    } else {
        o
    }
}

/// Whether a (lower-cased) key is one this reader knows.
pub open spec fn is_known_key(key: Seq<char>) -> bool {
    ||| key == "server"@ || key == "data source"@ || key == "address"@ || key == "addr"@ || key
        == "network address"@
    ||| key == "initial catalog"@ || key == "database"@
    ||| key == "user id"@ || key == "uid"@ || key == "user"@ || key == "user name"@
    ||| key == "password"@ || key == "pwd"@
    ||| key == "integrated security"@ || key == "trusted_connection"@
    ||| key == "authentication"@
    ||| key == "encrypt"@
    ||| key == "trustservercertificate"@ || key == "trust server certificate"@
    ||| key == "hostnameincertificate"@ || key == "host name in certificate"@
    ||| key == "application name"@ || key == "app"@
    ||| key == "connect timeout"@ || key == "connection timeout"@ || key == "timeout"@
    ||| key == "command timeout"@
    ||| key == "applicationintent"@ || key == "application intent"@
    ||| key == "multipleactiveresultsets"@ || key == "multiple active result sets"@
    ||| key == "packet size"@
    ||| is_inert_key(key)
}

proof fn lemma_option_keys()
    ensures
        "encrypt"@.len() == 7 && "encrypt"@[0] == 'e' && "encrypt"@[1] == 'n' && "encrypt"@[2] == 'c',
        "trustservercertificate"@.len() == 22 && "trustservercertificate"@[0] == 't' && "trustservercertificate"@[1] == 'r' && "trustservercertificate"@[2] == 'u',
        "trust server certificate"@.len() == 24 && "trust server certificate"@[0] == 't' && "trust server certificate"@[1] == 'r' && "trust server certificate"@[2] == 'u',
        "hostnameincertificate"@.len() == 21 && "hostnameincertificate"@[0] == 'h' && "hostnameincertificate"@[1] == 'o' && "hostnameincertificate"@[2] == 's',
        "host name in certificate"@.len() == 24 && "host name in certificate"@[0] == 'h' && "host name in certificate"@[1] == 'o' && "host name in certificate"@[2] == 's',
        "application name"@.len() == 16 && "application name"@[0] == 'a' && "application name"@[1] == 'p' && "application name"@[2] == 'p',
        "app"@.len() == 3 && "app"@[0] == 'a' && "app"@[1] == 'p' && "app"@[2] == 'p',
        "connect timeout"@.len() == 15 && "connect timeout"@[0] == 'c' && "connect timeout"@[1] == 'o' && "connect timeout"@[2] == 'n',
        "connection timeout"@.len() == 18 && "connection timeout"@[0] == 'c' && "connection timeout"@[1] == 'o' && "connection timeout"@[2] == 'n',
        "timeout"@.len() == 7 && "timeout"@[0] == 't' && "timeout"@[1] == 'i' && "timeout"@[2] == 'm',
        "command timeout"@.len() == 15 && "command timeout"@[0] == 'c' && "command timeout"@[1] == 'o' && "command timeout"@[2] == 'm',
        "applicationintent"@.len() == 17 && "applicationintent"@[0] == 'a' && "applicationintent"@[1] == 'p' && "applicationintent"@[2] == 'p',
        "application intent"@.len() == 18 && "application intent"@[0] == 'a' && "application intent"@[1] == 'p' && "application intent"@[2] == 'p',
        "multipleactiveresultsets"@.len() == 24 && "multipleactiveresultsets"@[0] == 'm' && "multipleactiveresultsets"@[1] == 'u' && "multipleactiveresultsets"@[2] == 'l',
        "multiple active result sets"@.len() == 27 && "multiple active result sets"@[0] == 'm' && "multiple active result sets"@[1] == 'u' && "multiple active result sets"@[2] == 'l',
        "packet size"@.len() == 11 && "packet size"@[0] == 'p' && "packet size"@[1] == 'a' && "packet size"@[2] == 'c',
{
    reveal_strlit("encrypt");
    reveal_strlit("trustservercertificate");
    reveal_strlit("trust server certificate");
    reveal_strlit("hostnameincertificate");
    reveal_strlit("host name in certificate");
    reveal_strlit("application name");
    reveal_strlit("app");
    reveal_strlit("connect timeout");
    reveal_strlit("connection timeout");
    reveal_strlit("timeout");
    reveal_strlit("command timeout");
    reveal_strlit("applicationintent");
    reveal_strlit("application intent");
    reveal_strlit("multipleactiveresultsets");
    reveal_strlit("multiple active result sets");
    reveal_strlit("packet size");
}

/// What the other option values ask for, in any case: `TrustServerCertificate` and
/// `MultipleActiveResultSets` (either spelling) are on exactly for `true` or `yes`;
/// `ApplicationIntent` is read-only exactly for `readonly`; `Application Name` (or `App`) is
/// taken as written; `Connect Timeout` (or `Connection Timeout`, `Timeout`) takes a decimal
/// number of seconds that fits in 32 bits and ignores anything else. Each touches only its own
/// option.
pub proof fn law_option_values(o: OptionsView, val: Seq<char>)
    ensures
        ({
            let lv = ascii_lower(val);
            let on = lv == "true"@ || lv == "yes"@;
            &&& apply_option_key(o, "trustservercertificate"@, val) == OptionsView { trust_server_certificate: on, ..o }
            &&& apply_option_key(o, "trust server certificate"@, val) == OptionsView {
                trust_server_certificate: on,
                ..o
            }
            &&& apply_option_key(o, "multipleactiveresultsets"@, val) == OptionsView { mars: on, ..o }
            &&& apply_option_key(o, "multiple active result sets"@, val) == OptionsView { mars: on, ..o }
            &&& apply_option_key(o, "applicationintent"@, val).application_intent == (if lv == "readonly"@ {
                ApplicationIntent::ReadOnly
            } else {
                ApplicationIntent::ReadWrite
            })
            &&& apply_option_key(o, "application name"@, val) == OptionsView { application_name: val, ..o }
            &&& apply_option_key(o, "app"@, val) == OptionsView { application_name: val, ..o }
            &&& apply_option_key(o, "connect timeout"@, val) == match parse_uint(val, 0xffff_ffff) {
                Some(n) => OptionsView { connect_timeout_secs: n as u32, ..o },
                None => o,
            }
            &&& apply_option_key(o, "timeout"@, val) == apply_option_key(o, "connect timeout"@, val)
        }),
{
    lemma_option_keys();
    reveal_strlit("true");
    reveal_strlit("yes");
}

/// What an `Encrypt` value asks for, in any case: `false`, `no` and `optional` leave
/// encryption optional; `strict` asks for strict (TDS 8) encryption; anything else, `true` and
/// `yes` and `mandatory` among them, makes it mandatory. The other options are left as they were.
pub proof fn law_encrypt_values(o: OptionsView, val: Seq<char>)
    ensures
        ({
            let r = apply_option_key(o, "encrypt"@, val);
            let lv = ascii_lower(val);
            &&& r.encrypt == Encrypt::Optional <==> (lv == "false"@ || lv == "no"@ || lv == "optional"@)
            &&& r.encrypt == Encrypt::Strict <==> lv == "strict"@
            &&& r.encrypt == Encrypt::Mandatory <==> !(lv == "false"@ || lv == "no"@ || lv == "optional"@
                || lv == "strict"@)
            &&& r == OptionsView { encrypt: r.encrypt, ..o }
        }),
{
    reveal_strlit("false");
    reveal_strlit("no");
    reveal_strlit("optional");
    reveal_strlit("strict");
    assert("strict"@.len() == 6 && "strict"@[0] == 's');
    assert("false"@.len() == 5 && "false"@[0] == 'f');
    assert("no"@.len() == 2);
    assert("optional"@.len() == 8);
}

/// One part of the connection string.
pub open spec fn scan_part(st: ConnScan, part: Seq<char>) -> ConnScan {
    match first_index(part, '=') {
        None => if trim(part).len() > 0 {
            ConnScan { ignored: st.ignored.push(trim(part)), ..st }
        } else {
            st
        },
        Some(i) => {
            let key = ascii_lower(trim(part.take(i)));
            let val = unquote(trim(part.skip(i + 1)));
            let st2 = ConnScan { seen: true, ..st };
            if is_known_key(key) {
                apply_key(st2, key, val)
            } else {
                ConnScan { ignored: st2.ignored.push(key), ..st2 }
            }
        },
    }
}

pub open spec fn scan_parts(st: ConnScan, parts: Seq<Seq<char>>) -> ConnScan
    decreases parts.len(),
{
    if parts.len() == 0 {
        st
    } else {
        scan_part(scan_parts(st, parts.drop_last()), parts.last())
    }
}

pub open spec fn scan_start(p: ProfileView) -> ConnScan {
    ConnScan {
        profile: p,
        password: None,
        ignored: seq![],
        user: None,
        auth: None,
        integrated: false,
        seen: false,
    }
}

pub open spec fn no_pairs_message() -> Seq<char> {
    "That does not look like a connection string (expected key=value pairs separated by semicolons)."@
}

pub open spec fn no_server_message() -> Seq<char> {
    "The connection string has no Server / Data Source."@
}

/// The authentication method a scanned connection string asks for, and the secrets it carried.
pub open spec fn conn_auth(st: ConnScan) -> (AuthView, SecretsView) {
    let user = match st.user {
        Some(u) => u,
        None => seq![],
    };
    match st.auth {
        Some(a) if contains(a, "service principal"@) => (
            AuthView::EntraServicePrincipal { tenant: seq![], client_id: user, secret: None },
            SecretsView { password: None, client_secret: st.password, ignored: st.ignored },
        ),
        Some(a) if contains(a, "device code"@) => (
            AuthView::EntraDeviceCode { tenant: None },
            SecretsView { password: st.password, client_secret: None, ignored: st.ignored },
        ),
        Some(a) if contains(a, "active directory"@) || contains(a, "activedirectory"@) => (
            AuthView::EntraInteractive {
                tenant: None,
                account_hint: match st.user {
                    Some(u) if u.len() > 0 => Some(u),
                    _ => None,
                },
            },
            SecretsView { password: None, client_secret: None, ignored: st.ignored },
        ),
        _ => (
            if st.integrated {
                AuthView::WindowsIntegrated
            } else {
                AuthView::SqlLogin { user: user, password: None }
            },
            SecretsView { password: st.password, client_secret: None, ignored: st.ignored },
        ),
    }
}

/// The profile after reading `s` into `p`, and either the secrets found or the error text.
pub open spec fn conn_string_result(p: ProfileView, s: Seq<char>) -> (
    ProfileView,
    Result<SecretsView, Seq<char>>,
) {
    let st = scan_parts(scan_start(p), split_conn(s));
    if !st.seen {
        (st.profile, Err(no_pairs_message()))
    } else if trim(st.profile.server).len() == 0 {
        (st.profile, Err(no_server_message()))
    } else {
        let (auth, secrets) = conn_auth(st);
        (ProfileView { auth: auth, ..st.profile }, Ok(secrets))
    }
}

// ---------------------------------------------------------------------------------------------
// The reader

struct Scan {
    password: Option<Vec<char>>,
    ignored: Vec<String>,
    user: Option<Vec<char>>,
    auth: Option<Vec<char>>,
    integrated: bool,
    seen: bool,
}

spec fn ov(o: Option<Vec<char>>) -> Option<Seq<char>> {
    match o {
        Some(v) => Some(v@),
        None => None,
    }
}

spec fn scan_view(p: ConnectionProfile, sc: Scan) -> ConnScan {
    ConnScan {
        profile: p@,
        password: ov(sc.password),
        ignored: strs(sc.ignored@),
        user: ov(sc.user),
        auth: ov(sc.auth),
        integrated: sc.integrated,
        seen: sc.seen,
    }
}

fn is_true_yes_exec(lv: &Vec<char>) -> (r: bool)
    ensures
        r == is_true_yes(lv@),
{
    eq_str(lv, "true") || eq_str(lv, "yes")
}

fn is_inert_key_exec(k: &Vec<char>) -> (r: bool)
    ensures
        r == is_inert_key(k@),
{
    eq_str(k, "persist security info") || eq_str(k, "pooling") || eq_str(k, "min pool size")
        || eq_str(k, "max pool size") || eq_str(k, "connection lifetime") || eq_str(
        k,
        "load balance timeout",
    ) || eq_str(k, "workstation id") || eq_str(k, "failover partner") || eq_str(
        k,
        "attachdbfilename",
    ) || eq_str(k, "type system version") || eq_str(k, "multisubnetfailover") || eq_str(
        k,
        "column encryption setting",
    ) || eq_str(k, "enlist") || eq_str(k, "current language") || eq_str(k, "language")
        || eq_str(k, "replication") || eq_str(k, "transaction binding") || eq_str(
        k,
        "user instance",
    ) || eq_str(k, "context connection") || eq_str(k, "network library") || eq_str(k, "net")
}

fn is_known_key_exec(k: &Vec<char>) -> (r: bool)
    ensures
        r == is_known_key(k@),
{
    eq_str(k, "server") || eq_str(k, "data source") || eq_str(k, "address") || eq_str(k, "addr")
        || eq_str(k, "network address") || eq_str(k, "initial catalog") || eq_str(k, "database")
        || eq_str(k, "user id") || eq_str(k, "uid") || eq_str(k, "user") || eq_str(k, "user name")
        || eq_str(k, "password") || eq_str(k, "pwd") || eq_str(k, "integrated security")
        || eq_str(k, "trusted_connection") || eq_str(k, "authentication") || eq_str(k, "encrypt")
        || eq_str(k, "trustservercertificate") || eq_str(k, "trust server certificate") || eq_str(
        k,
        "hostnameincertificate",
    ) || eq_str(k, "host name in certificate") || eq_str(k, "application name") || eq_str(
        k,
        "app",
    ) || eq_str(k, "connect timeout") || eq_str(k, "connection timeout") || eq_str(k, "timeout")
        || eq_str(k, "command timeout") || eq_str(k, "applicationintent") || eq_str(
        k,
        "application intent",
    ) || eq_str(k, "multipleactiveresultsets") || eq_str(k, "multiple active result sets")
        || eq_str(k, "packet size") || is_inert_key_exec(k)
}

fn opt_chars(v: &Vec<char>) -> (r: Option<String>)
    ensures
        opt_view(r) == if v@.len() == 0 {
            None::<Seq<char>>
        } else {
            Some(v@)
        },
{
    if v.len() == 0 {
        None
    } else {
        Some(string_of(v))
    }
}

fn apply_option_key_exec(o: &mut crate::profile::ConnectionOptions, key: &Vec<char>, val: &Vec<char>)
    ensures
        final(o)@ == apply_option_key(old(o)@, key@, val@),
{
    let lv = lower_chars(val);
    if eq_str(key, "encrypt") {
        o.encrypt = if eq_str(&lv, "strict") {
            Encrypt::Strict
        } else if eq_str(&lv, "false") || eq_str(&lv, "no") || eq_str(&lv, "optional") {
            Encrypt::Optional
        } else {
            Encrypt::Mandatory
        };
    } else if eq_str(key, "trustservercertificate") || eq_str(key, "trust server certificate") {
        o.trust_server_certificate = is_true_yes_exec(&lv);
    } else if eq_str(key, "hostnameincertificate") || eq_str(key, "host name in certificate") {
        o.host_name_in_certificate = opt_chars(val);
    } else if eq_str(key, "application name") || eq_str(key, "app") {
        o.application_name = string_of(val);
    } else if eq_str(key, "connect timeout") || eq_str(key, "connection timeout") || eq_str(
        key,
        "timeout",
    ) {
        if let Some(n) = parse_uint_exec(val, 0xffff_ffff) {
            o.connect_timeout_secs = n as u32;
        }
    } else if eq_str(key, "command timeout") {
        if let Some(n) = parse_uint_exec(val, 0xffff_ffff) {
            o.command_timeout_secs = n as u32;
        }
    } else if eq_str(key, "applicationintent") || eq_str(key, "application intent") {
        o.application_intent = if eq_str(&lv, "readonly") {
            ApplicationIntent::ReadOnly
        } else {
            ApplicationIntent::ReadWrite
        };
    } else if eq_str(key, "multipleactiveresultsets") || eq_str(key, "multiple active result sets") {
        o.mars = is_true_yes_exec(&lv);
    } else if eq_str(key, "packet size") {
        o.packet_size = match parse_uint_exec(val, 0xffff_ffff) {
            Some(n) => Some(n as u32),
            None => None,
        };
    }
}

fn apply_key_exec(p: &mut ConnectionProfile, sc: &mut Scan, key: &Vec<char>, val: &Vec<char>)
    ensures
        scan_view(*final(p), *final(sc)) == apply_key(scan_view(*old(p), *old(sc)), key@, val@),
{
    let lv = lower_chars(val);
    if eq_str(key, "server") || eq_str(key, "data source") || eq_str(key, "address") || eq_str(
        key,
        "addr",
    ) || eq_str(key, "network address") {
        let (h, port) = server_host_port_exec(val);
        p.server = string_of(&h);
        if let Some(n) = port {
            p.port = Some(n);
        }
    } else if eq_str(key, "initial catalog") || eq_str(key, "database") {
        p.database = opt_chars(val);
    } else if eq_str(key, "user id") || eq_str(key, "uid") || eq_str(key, "user") || eq_str(
        key,
        "user name",
    ) {
        sc.user = Some(val.clone());
    } else if eq_str(key, "password") || eq_str(key, "pwd") {
        sc.password = Some(val.clone());
    } else if eq_str(key, "integrated security") || eq_str(key, "trusted_connection") {
        sc.integrated = eq_str(&lv, "true") || eq_str(&lv, "yes") || eq_str(&lv, "sspi");
    } else if eq_str(key, "authentication") {
        sc.auth = Some(lv);
    } else {
        apply_option_key_exec(&mut p.options, key, val);
    }
}

fn scan_part_exec(p: &mut ConnectionProfile, sc: &mut Scan, part: &Vec<char>)
    ensures
        scan_view(*final(p), *final(sc)) == scan_part(scan_view(*old(p), *old(sc)), part@),
{
    let eq = find_char(part, '=', 0);
    proof {
        lemma_first_index(
            part@,
            '=',
            match eq {
                Some(k) => Some(k as int),
                None => None,
            },
        );
    }
    match eq {
        None => {
            let t = trim_chars(part);
            if t.len() > 0 {
                let ghost before = sc.ignored@;
                sc.ignored.push(string_of(&t));
                assert(strs(sc.ignored@) =~= strs(before).push(t@));
            }
        },
        Some(i) => {
            let k = slice(part, 0, i);
            assert(k@ =~= part@.take(i as int));
            let kt = trim_chars(&k);
            let key = lower_chars(&kt);
            let v = slice(part, i + 1, part.len());
            assert(v@ =~= part@.skip(i + 1));
            let vt = trim_chars(&v);
            let val = unquote_exec(&vt);
            sc.seen = true;
            if is_known_key_exec(&key) {
                apply_key_exec(p, sc, &key, &val);
            } else {
                let ghost before = sc.ignored@;
                sc.ignored.push(string_of(&key));
                assert(strs(sc.ignored@) =~= strs(before).push(key@));
            }
        },
    }
}

fn contains_any2(a: &Vec<char>, x: &str, y: &str) -> (r: bool)
    ensures
        r == (contains(a@, x@) || contains(a@, y@)),
{
    contains_str(a, x) || contains_str(a, y)
}

impl ConnectionProfile {
    /// Fill this profile from an ADO.NET / SqlClient connection string. Unknown keys are
    /// reported, not fatal. Returns the secrets found so the caller can put them in the
    /// credential store.
    pub fn apply_connection_string(&mut self, s: &str) -> (r: Result<ConnStringSecrets, String>)
        ensures
            final(self)@ == conn_string_result(old(self)@, s@).0,
            match r {
                Ok(o) => conn_string_result(old(self)@, s@).1 == Ok::<SecretsView, Seq<char>>(o@),
                Err(e) => conn_string_result(old(self)@, s@).1 == Err::<SecretsView, Seq<char>>(
                    e@,
                ),
            },
    {
        let chars = chars_of(s);
        let parts = split_chars(&chars);
        let mut sc = Scan {
            password: None,
            ignored: Vec::new(),
            user: None,
            auth: None,
            integrated: false,
            seen: false,
        };
        assert(strs(sc.ignored@) =~= Seq::<Seq<char>>::empty());
        let ghost start = scan_start(self@);
        let ghost ps = cviews(parts@);
        let mut i: usize = 0;
        assert(ps.take(0) =~= Seq::<Seq<char>>::empty());
        while i < parts.len()
            invariant
                i <= parts.len(),
                ps == cviews(parts@),
                scan_view(*self, sc) == scan_parts(start, ps.take(i as int)),
            decreases parts.len() - i,
        {
            scan_part_exec(self, &mut sc, &parts[i]);
            i = i + 1;
            assert(ps.take(i as int).drop_last() =~= ps.take(i - 1));
        }
        assert(ps.take(parts.len() as int) =~= ps);
        if !sc.seen {
            return Err(
                string_of(
                    &chars_of(
                        "That does not look like a connection string (expected key=value pairs separated by semicolons).",
                    ),
                ),
            );
        }
        let server = chars_of(self.server.as_str());
        if is_blank(&server) {
            return Err(string_of(&chars_of("The connection string has no Server / Data Source.")));
        }
        let user_text: Vec<char> = match &sc.user {
            Some(u) => u.clone(),
            None => Vec::new(),
        };
        let mut out = ConnStringSecrets {
            password: match &sc.password {
                Some(p) => Some(string_of(p)),
                None => None,
            },
            client_secret: None,
            ignored: sc.ignored,
        };
        let auth: Option<Vec<char>> = sc.auth;
        let sp = match &auth {
            Some(a) => contains_str(a, "service principal"),
            None => false,
        };
        let dc = match &auth {
            Some(a) => contains_str(a, "device code"),
            None => false,
        };
        let ad = match &auth {
            Some(a) => contains_any2(a, "active directory", "activedirectory"),
            None => false,
        };
        if sp {
            out.client_secret = out.password.take();
            self.auth = AuthMethod::EntraServicePrincipal {
                tenant: String::new(),
                client_id: string_of(&user_text),
                secret: None,
            };
        } else if dc {
            self.auth = AuthMethod::EntraDeviceCode { tenant: None };
        } else if ad {
            out.password = None;
            let hint = match &sc.user {
                Some(u) => if u.len() > 0 {
                    Some(string_of(u))
                } else {
                    None
                },
                None => None,
            };
            self.auth = AuthMethod::EntraInteractive { tenant: None, account_hint: hint };
        } else if sc.integrated {
            self.auth = AuthMethod::WindowsIntegrated;
        } else {
            self.auth = AuthMethod::SqlLogin { user: string_of(&user_text), password: None };
        }
        Ok(out)
    }
}

} // verus!
