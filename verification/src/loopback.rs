//! What the loopback redirect's query string means, and the two self-contained HTML pages the
//! listener serves back to the browser.

use crate::error::AuthError;
use crate::text::{chars_of, push_all, push_str, string_of};
use vstd::prelude::*;

verus! {

broadcast use vstd::string::group_string_axioms;

/// What the browser delivered to the redirect URI.
#[derive(Debug, Clone, PartialEq, Eq)]
pub struct Redirect {
    pub code: String,
}

/// The page style.
pub const STYLE: &'static str = r##"
:root{color-scheme:light dark}
body{margin:0;font:15px/1.5 system-ui,-apple-system,"Segoe UI",Roboto,sans-serif;background:#F6F8FA;color:#1F2328;display:flex;min-height:100vh;align-items:center;justify-content:center}
@media(prefers-color-scheme:dark){body{background:#0D1117;color:#E6EDF3}}
.card{max-width:26rem;padding:2.5rem 2.75rem;border-radius:12px;background:#fff;box-shadow:0 8px 32px rgba(31,111,235,.12);border-top:6px solid #1F6FEB;text-align:center}
@media(prefers-color-scheme:dark){.card{background:#161B22;box-shadow:0 8px 32px rgba(0,0,0,.5)}}
.card.err{border-top-color:#D13B3B}
h1{font-size:1.25rem;margin:.25rem 0 .5rem}
p{margin:.25rem 0;opacity:.85}
.mark{width:44px;height:44px;border-radius:50%;background:#1F6FEB;margin:0 auto 1rem;display:flex;align-items:center;justify-content:center}
.err .mark{background:#D13B3B}
code{font-size:.85em;opacity:.8;word-break:break-word}
"##;

/// The signed-in page up to its style.
pub const SUCCESS_HEAD: &'static str = r##"<!doctype html><html lang="en"><head><meta charset="utf-8"><title>Signed in - Cobalt SQL Works</title><meta name="viewport" content="width=device-width,initial-scale=1"><style>"##;

/// The signed-in page after its style.
pub const SUCCESS_TAIL: &'static str = r##"</style></head>
<body><div class="card"><div class="mark"><svg width="24" height="24" viewBox="0 0 24 24" fill="none" stroke="#fff" stroke-width="3" stroke-linecap="round" stroke-linejoin="round"><path d="M5 12.5l4.5 4.5L19 7.5"/></svg></div>
<h1>You're signed in to Cobalt SQL Works</h1><p>You can close this tab and return to the app.</p></div>
<script>setTimeout(function(){try{window.close()}catch(e){}},1500)</script></body></html>"##;

/// The failure page up to its style.
pub const ERROR_HEAD: &'static str = r##"<!doctype html><html lang="en"><head><meta charset="utf-8"><title>Sign-in failed - Cobalt SQL Works</title><meta name="viewport" content="width=device-width,initial-scale=1"><style>"##;

/// The failure page between its style and the message.
pub const ERROR_MID: &'static str = r##"</style></head>
<body><div class="card err"><div class="mark"><svg width="24" height="24" viewBox="0 0 24 24" fill="none" stroke="#fff" stroke-width="3" stroke-linecap="round"><path d="M6 6l12 12M18 6L6 18"/></svg></div>
<h1>Sign-in didn't complete</h1><p>Cobalt SQL Works could not finish signing you in.</p><p><code>"##;

/// The failure page after the message.
pub const ERROR_TAIL: &'static str = r##"</code></p><p>Close this tab and try again from the app.</p></div></body></html>"##;

pub const STATE_MISMATCH_TEXT: &'static str = "sign-in response did not match this request (state mismatch); please try again";
pub const NO_CODE_TEXT: &'static str = "sign-in response carried no authorization code";

/// Name/value pairs as text.
pub open spec fn pairs_view(ps: Seq<(String, String)>) -> Seq<(Seq<char>, Seq<char>)> {
    ps.map_values(|p: (String, String)| (p.0@, p.1@))
}

/// The value of the last pair named `key`, as query-string parsing into a map keeps it.
pub open spec fn param(params: Seq<(Seq<char>, Seq<char>)>, key: Seq<char>) -> Option<Seq<char>>
    decreases params.len(),
{
    if params.len() == 0 {
        None
    } else if params.last().0 == key {
        Some(params.last().1)
    } else {
        param(params.drop_last(), key)
    }
}

/// The outcome of a redirect: the provider's error wins, then the `state` must match, then a
/// non-empty `code` is required.
pub enum RedirectOutcome {
    Code(Seq<char>),
    ProviderError(Seq<char>, Seq<char>),
    StateMismatch,
    NoCode,
}

pub open spec fn interpret_spec(params: Seq<(Seq<char>, Seq<char>)>, expected_state: Seq<char>) -> RedirectOutcome {
    match param(params, "error"@) {
        Some(e) => RedirectOutcome::ProviderError(
            e,
            match param(params, "error_description"@) {
                Some(d) => d,
                None => seq![],
            },
        ),
        None => if param(params, "state"@) != Some(expected_state) {
            RedirectOutcome::StateMismatch
        } else {
            match param(params, "code"@) {
                Some(c) if c.len() > 0 => RedirectOutcome::Code(c),
                _ => RedirectOutcome::NoCode,
            }
        },
    }
}

/// Look up the last pair named `key`.
pub fn get_param<'a>(params: &'a Vec<(String, String)>, key: &str) -> (r: Option<&'a String>)
    ensures
        match r {
            Some(v) => param(pairs_view(params@), key@) == Some(v@),
            None => param(pairs_view(params@), key@) is None,
        },
{
    let k = chars_of(key);
    let mut i = params.len();
    let ghost pv = pairs_view(params@);
    assert(pv.take(i as int) =~= pv);
    while i > 0
        invariant
            i <= params.len(),
            k@ == key@,
            pv == pairs_view(params@),
            param(pv.take(i as int), key@) == param(pv, key@),
        decreases i,
    {
        let ghost t = pv.take(i as int);
        assert(t.drop_last() =~= pv.take(i - 1));
        let pair = &params[i - 1];
        assert(t.last() == (pair.0@, pair.1@));
        let name = chars_of(pair.0.as_str());
        if crate::text::eq_chars(&name, &k) {
            assert(param(t, key@) == Some(pair.1@));
            return Some(&pair.1);
        }
        assert(param(t, key@) == param(t.drop_last(), key@));
        i = i - 1;
    }
    None
}

/// Decide what a redirect's query string means.
pub fn interpret(params: &Vec<(String, String)>, expected_state: &str) -> (r: Result<Redirect, AuthError>)
    ensures
        match interpret_spec(pairs_view(params@), expected_state@) {
            RedirectOutcome::Code(c) => r matches Ok(rd) && rd.code@ == c,
            RedirectOutcome::ProviderError(e, d) => r matches Err(AuthError::Provider { error, description }) && error@ == e && description@ == d,
            RedirectOutcome::StateMismatch => r matches Err(AuthError::Other(m)) && m@ == STATE_MISMATCH_TEXT@,
            RedirectOutcome::NoCode => r matches Err(AuthError::Other(m)) && m@ == NO_CODE_TEXT@,
        },
{
    if let Some(err) = get_param(params, "error") {
        let desc = match get_param(params, "error_description") {
            Some(d) => d.clone(),
            None => String::new(),
        };
        return Err(AuthError::Provider { error: err.clone(), description: desc });
    }
    let ok_state = match get_param(params, "state") {
        Some(s) => {
            let a = chars_of(s.as_str());
            crate::text::eq_str(&a, expected_state)
        },
        None => false,
    };
    if !ok_state {
        return Err(AuthError::Other(STATE_MISMATCH_TEXT.to_owned()));
    }
    match get_param(params, "code") {
        Some(c) => if c.as_str().is_empty() {
            Err(AuthError::Other(NO_CODE_TEXT.to_owned()))
        } else {
            Ok(Redirect { code: c.clone() })
        },
        None => Err(AuthError::Other(NO_CODE_TEXT.to_owned())),
    }
}

/// HTML escaping of `&`, `<`, `>`, `"` and `'`.
pub open spec fn escape_spec(s: Seq<char>) -> Seq<char>
    decreases s.len(),
{
    if s.len() == 0 {
        seq![]
    } else {
        escape_spec(s.drop_last()) + escape_char(s.last())
    }
}

pub open spec fn escape_char(c: char) -> Seq<char> {
    if c == '&' {
        "&amp;"@
    } else if c == '<' {
        "&lt;"@
    } else if c == '>' {
        "&gt;"@
    } else if c == '"' {
        "&quot;"@
    } else if c == '\'' {
        "&#39;"@
    } else {
        seq![c]
    }
}

fn escape_char_exec(c: char) -> (r: Vec<char>)
    ensures
        r@ == escape_char(c),
{
    if c == '&' {
        chars_of("&amp;")
    } else if c == '<' {
        chars_of("&lt;")
    } else if c == '>' {
        chars_of("&gt;")
    } else if c == '"' {
        chars_of("&quot;")
    } else if c == '\'' {
        chars_of("&#39;")
    } else {
        let mut v = Vec::new();
        v.push(c);
        v
    }
}

/// HTML-escape `s`.
pub fn escape(s: &str) -> (r: String)
    ensures
        r@ == escape_spec(s@),
{
    let v = chars_of(s);
    let mut out: Vec<char> = Vec::new();
    let mut i: usize = 0;
    while i < v.len()
        invariant
            i <= v.len(),
            out@ == escape_spec(v@.take(i as int)),
        decreases v.len() - i,
    {
        let e = escape_char_exec(v[i]);
        push_all(&mut out, &e);
        i = i + 1;
        assert(v@.take(i as int).drop_last() =~= v@.take(i - 1));
    }
    assert(v@.take(v.len() as int) =~= v@);
    string_of(&out)
}

/// The page shown after a successful sign-in.
pub fn success_page() -> (r: String)
    ensures
        r@ == SUCCESS_HEAD@ + STYLE@ + SUCCESS_TAIL@,
{
    let mut v = chars_of(SUCCESS_HEAD);
    push_str(&mut v, STYLE);
    push_str(&mut v, SUCCESS_TAIL);
    string_of(&v)
}

/// The page shown when sign-in failed, with the (escaped) reason.
pub fn error_page(message: &str) -> (r: String)
    ensures
        r@ == ERROR_HEAD@ + STYLE@ + ERROR_MID@ + escape_spec(message@) + ERROR_TAIL@,
{
    let mut v = chars_of(ERROR_HEAD);
    push_str(&mut v, STYLE);
    push_str(&mut v, ERROR_MID);
    let e = escape(message);
    push_str(&mut v, e.as_str());
    push_str(&mut v, ERROR_TAIL);
    string_of(&v)
}

/// The pairs of a form-encoded query (`url::form_urlencoded::parse`, decoded and owned).
pub uninterp spec fn form_decode(query: Seq<char>) -> Seq<(Seq<char>, Seq<char>)>;

/// `url::form_urlencoded::parse(query).into_owned()`, collected in order: the pairs named
/// [`form_decode`].
#[verifier::external_body]
fn query_pairs(query: &str) -> (r: Vec<(String, String)>)
    ensures
        pairs_view(r@) == form_decode(query@),
{
    url::form_urlencoded::parse(query.as_bytes()).into_owned().collect()
}

/// The path and the query of a request target.
pub open spec fn split_target(target: Seq<char>) -> (Seq<char>, Seq<char>) {
    match crate::connstr::first_index(target, '?') {
        Some(i) => (target.take(i), target.skip(i + 1)),
        None => (target, seq![]),
    }
}

/// How the listener answers one request.
pub enum LoopbackReply {
    /// Not the redirect (a favicon, a probe): answer 404 and keep waiting.
    NotFound,
    /// The redirect: answer with this page and finish with this outcome.
    Answer { status: u16, page: String, outcome: Result<Redirect, AuthError> },
}

/// The answer to a request for `target` (path and query) while waiting for the redirect of the
/// request whose state is `expected_state`.
pub fn loopback_reply(target: &str, expected_state: &str) -> (r: LoopbackReply)
    ensures
        ({
            let (path, query) = split_target(target@);
            if path != "/"@ || query.len() == 0 {
                r is NotFound
            } else {
                r matches LoopbackReply::Answer { status, page, outcome } && match interpret_spec(
                    form_decode(query),
                    expected_state@,
                ) {
                    RedirectOutcome::Code(c) => outcome matches Ok(rd) && rd.code@ == c && status == 200
                        && page@ == SUCCESS_HEAD@ + STYLE@ + SUCCESS_TAIL@,
                    RedirectOutcome::ProviderError(e, d) => outcome matches Err(
                        AuthError::Provider { error, description },
                    ) && error@ == e && description@ == d && status == 400 && page@ == ERROR_HEAD@ + STYLE@
                        + ERROR_MID@ + escape_spec(e + ": "@ + d) + ERROR_TAIL@,
                    RedirectOutcome::StateMismatch => outcome matches Err(AuthError::Other(m)) && m@
                        == STATE_MISMATCH_TEXT@ && status == 400 && page@ == ERROR_HEAD@ + STYLE@ + ERROR_MID@
                        + escape_spec(STATE_MISMATCH_TEXT@) + ERROR_TAIL@,
                    RedirectOutcome::NoCode => outcome matches Err(AuthError::Other(m)) && m@ == NO_CODE_TEXT@
                        && status == 400 && page@ == ERROR_HEAD@ + STYLE@ + ERROR_MID@ + escape_spec(NO_CODE_TEXT@)
                        + ERROR_TAIL@,
                }
            }
        }),
{
    let v = chars_of(target);
    let q = crate::text::find_char(&v, '?', 0);
    proof {
        crate::connstr::lemma_first_index(
            v@,
            '?',
            match q {
                Some(k) => Some(k as int),
                None => None,
            },
        );
    }
    let (path, query) = match q {
        Some(i) => {
            let p = crate::text::slice(&v, 0, i);
            let qs = crate::text::slice(&v, i + 1, v.len());
            assert(p@ =~= v@.take(i as int));
            assert(qs@ =~= v@.skip(i + 1));
            (p, qs)
        },
        None => {
            let p = crate::text::slice(&v, 0, v.len());
            assert(p@ =~= v@);
            (p, Vec::new())
        },
    };
    if !crate::text::eq_str(&path, "/") || query.len() == 0 {
        return LoopbackReply::NotFound;
    }
    let qtext = string_of(&query);
    let params = query_pairs(qtext.as_str());
    let outcome = interpret(&params, expected_state);
    match outcome {
        Ok(rd) => LoopbackReply::Answer { status: 200, page: success_page(), outcome: Ok(rd) },
        Err(e) => {
            let page = error_page(e.message().as_str());
            LoopbackReply::Answer { status: 400, page, outcome: Err(e) }
        },
    }
}

/// The URI the identity provider redirects to: `localhost` rather than `127.0.0.1`, because
/// that is what a public-client app registration allows on any port.
pub fn redirect_uri_for(port: u16) -> (r: String)
    ensures
        r@ == "http://localhost:"@ + crate::text::dec(port as nat),
{
    let mut v = chars_of("http://localhost:");
    let d = crate::text::dec_u64(port as u64);
    push_all(&mut v, &d);
    string_of(&v)
}

/// The address the listener binds: `127.0.0.1` and the port (0 for an ephemeral one).
pub fn bind_address(port: Option<u16>) -> (r: String)
    ensures
        r@ == "127.0.0.1:"@ + crate::text::dec(
            match port {
                Some(p) => p as nat,
                None => 0,
            },
        ),
{
    let mut v = chars_of("127.0.0.1:");
    let p: u16 = match port {
        Some(p) => p,
        None => 0,
    };
    let d = crate::text::dec_u64(p as u64);
    push_all(&mut v, &d);
    string_of(&v)
}

/// Escaped text holds no `<`, `>`, `"` or `'`.
pub proof fn law_escape_is_inert(s: Seq<char>)
    ensures
        forall|i: int|
            0 <= i < escape_spec(s).len() ==> {
                let c = #[trigger] escape_spec(s)[i];
                c != '<' && c != '>' && c != '"' && c != '\''
            },
    decreases s.len(),
{
    reveal_strlit("&amp;");
    reveal_strlit("&lt;");
    reveal_strlit("&gt;");
    reveal_strlit("&quot;");
    reveal_strlit("&#39;");
    if s.len() > 0 {
        law_escape_is_inert(s.drop_last());
        let a = escape_spec(s.drop_last());
        let b = escape_char(s.last());
        assert forall|i: int| 0 <= i < escape_spec(s).len() implies {
            let c = #[trigger] escape_spec(s)[i];
            c != '<' && c != '>' && c != '"' && c != '\''
        } by {
            if i < a.len() {
                assert(escape_spec(s)[i] == a[i]);
            } else {
                assert(escape_spec(s)[i] == b[i - a.len()]);
            }
        }
    }
}

/// Text `t` holds one of the five entities [`escape_spec`] writes at `i`.
pub open spec fn starts_entity(t: Seq<char>, i: int) -> bool {
    ||| crate::text::matches_at(t, "&amp;"@, i)
    ||| crate::text::matches_at(t, "&lt;"@, i)
    ||| crate::text::matches_at(t, "&gt;"@, i)
    ||| crate::text::matches_at(t, "&quot;"@, i)
    ||| crate::text::matches_at(t, "&#39;"@, i)
}

proof fn lemma_matches_extend(a: Seq<char>, b: Seq<char>, p: Seq<char>, i: int)
    requires
        crate::text::matches_at(a, p, i),
    ensures
        crate::text::matches_at(a + b, p, i),
{
    assert((a + b).subrange(i, i + p.len()) =~= a.subrange(i, i + p.len()));
}

/// Every `&` in escaped text starts one of the entities it writes, so the text reads back
/// unambiguously: together with [`law_escape_is_inert`], an error page shows the message as
/// text and never as markup.
pub proof fn law_escape_ampersands(s: Seq<char>)
    ensures
        forall|i: int| 0 <= i < escape_spec(s).len() && #[trigger] escape_spec(s)[i] == '&' ==> starts_entity(
            escape_spec(s),
            i,
        ),
    decreases s.len(),
{
    reveal_strlit("&amp;");
    reveal_strlit("&lt;");
    reveal_strlit("&gt;");
    reveal_strlit("&quot;");
    reveal_strlit("&#39;");
    if s.len() > 0 {
        law_escape_ampersands(s.drop_last());
        let a = escape_spec(s.drop_last());
        let b = escape_char(s.last());
        let t = escape_spec(s);
        assert(t == a + b);
        assert forall|i: int| 0 <= i < t.len() && #[trigger] t[i] == '&' implies starts_entity(t, i) by {
            if i < a.len() {
                assert(t[i] == a[i]);
                assert(starts_entity(a, i));
                if crate::text::matches_at(a, "&amp;"@, i) {
                    lemma_matches_extend(a, b, "&amp;"@, i);
                } else if crate::text::matches_at(a, "&lt;"@, i) {
                    lemma_matches_extend(a, b, "&lt;"@, i);
                } else if crate::text::matches_at(a, "&gt;"@, i) {
                    lemma_matches_extend(a, b, "&gt;"@, i);
                } else if crate::text::matches_at(a, "&quot;"@, i) {
                    lemma_matches_extend(a, b, "&quot;"@, i);
                } else {
                    lemma_matches_extend(a, b, "&#39;"@, i);
                }
            } else {
                let j = i - a.len();
                assert(t[i] == b[j]);
                assert(j == 0);
                assert(t.subrange(a.len() as int, (a.len() + b.len()) as int) =~= b);
            }
        }
    }
}

/// An error reported by the identity provider decides the outcome, whatever the `state` and
/// `code` say.
pub proof fn law_provider_error_wins(params: Seq<(Seq<char>, Seq<char>)>, expected_state: Seq<char>)
    requires
        param(params, "error"@) is Some,
    ensures
        interpret_spec(params, expected_state) is ProviderError,
{
}

} // verus!
