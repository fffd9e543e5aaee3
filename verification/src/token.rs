//! What the token endpoint answers, as the flows see it: OAuth error mapping, assembling a
//! token set, and the display claims of a JWT.

use crate::connstr::first_index;
use crate::entra::{empty_account, user_scopes_of, AccessToken, AccountView, EntraAccount, EntraConfig, TokenSet};
use crate::error::AuthError;
use crate::profile::opt_view;
use crate::secret::Secret;
use crate::text::{chars_of, contains, contains_exec, dec, dec_u64, find_char, push_all, push_str, slice, string_of, trim};
use vstd::prelude::*;

verus! {

broadcast use vstd::string::group_string_axioms;

/// Success body from `/oauth2/v2.0/token`.
#[derive(Debug, Clone)]
pub struct TokenResponse {
    pub access_token: String,
    pub expires_in: Option<i64>,
    pub refresh_token: Option<String>,
    pub id_token: Option<String>,
    pub scope: Option<String>,
}

/// Error body from any Entra OAuth endpoint.
#[derive(Debug, Clone)]
pub struct OAuthErrorBody {
    pub error: String,
    pub error_description: String,
    pub error_codes: Vec<i64>,
}

/// Raw outcome of a token POST, before flow-specific interpretation.
#[derive(Debug)]
pub enum TokenReply {
    Success(TokenResponse),
    Failure(OAuthErrorBody),
}

/// AADSTS codes whose meaning is "come back through the interactive flow".
pub open spec fn interaction_codes() -> Seq<i64> {
    seq![50076, 50079, 53003, 50173, 70008, 700082, 50078, 50074, 65001, 50058, 50133, 50089, 16000]
}

fn interaction_codes_exec() -> (r: Vec<i64>)
    ensures
        r@ == interaction_codes(),
{
    let r = vec![50076, 50079, 53003, 50173, 70008, 700082, 50078, 50074, 65001, 50058, 50133, 50089, 16000];
    assert(r@ =~= interaction_codes());
    r
}

/// The description shown: the provider's, or the error code when it gave none.
pub open spec fn oauth_desc(e: OAuthErrorBody) -> Seq<char> {
    if e.error_description@.len() == 0 {
        e.error@
    } else {
        e.error_description@
    }
}

/// The body names an interaction-required code, in `error_codes` or as `AADSTS{code}` text.
pub open spec fn interactive_by_code(codes: Seq<i64>, desc: Seq<char>) -> bool {
    ||| exists|i: int| 0 <= i < codes.len() && interaction_codes().contains(#[trigger] codes[i])
    ||| exists|j: int|
        0 <= j < interaction_codes().len() && contains(
            desc,
            "AADSTS"@ + dec(#[trigger] interaction_codes()[j] as nat),
        )
}

pub open spec fn is_interaction_error(e: OAuthErrorBody) -> bool {
    ||| e.error@ == "interaction_required"@
    ||| e.error@ == "invalid_grant"@
    ||| e.error@ == "login_required"@
    ||| e.error@ == "consent_required"@
    ||| interactive_by_code(e.error_codes@, oauth_desc(e))
}

fn contains_i64(v: &Vec<i64>, x: i64) -> (r: bool)
    ensures
        r == v@.contains(x),
{
    let mut i: usize = 0;
    while i < v.len()
        invariant
            i <= v.len(),
            forall|j: int| 0 <= j < i ==> v@[j] != x,
        decreases v.len() - i,
    {
        if v[i] == x {
            assert(v@[i as int] == x);
            return true;
        }
        i = i + 1;
    }
    false
}

/// Turn an OAuth error body into the error the flows report.
pub fn map_oauth_error(e: OAuthErrorBody) -> (r: AuthError)
    ensures
        if is_interaction_error(e) {
            r matches AuthError::InteractionRequired(m) && m@ == oauth_desc(e)
        } else {
            r matches AuthError::Provider { error, description } && error@ == e.error@
                && description@ == oauth_desc(e)
        },
{
    let desc: String = if e.error_description.as_str().is_empty() {
        e.error.clone()
    } else {
        e.error_description.clone()
    };
    let dv = chars_of(desc.as_str());
    let codes = interaction_codes_exec();
    let mut by_code = false;
    let mut i: usize = 0;
    while i < e.error_codes.len()
        invariant
            i <= e.error_codes.len(),
            codes@ == interaction_codes(),
            by_code == exists|k: int| 0 <= k < i && interaction_codes().contains(#[trigger] e.error_codes@[k]),
        decreases e.error_codes.len() - i,
    {
        if contains_i64(&codes, e.error_codes[i]) {
            by_code = true;
        }
        i = i + 1;
    }
    let mut j: usize = 0;
    while j < codes.len()
        invariant
            j <= codes.len(),
            codes@ == interaction_codes(),
            dv@ == oauth_desc(e),
            by_code == ((exists|k: int| 0 <= k < e.error_codes@.len() && interaction_codes().contains(#[trigger] e.error_codes@[k]))
                || (exists|k: int| 0 <= k < j && contains(dv@, "AADSTS"@ + dec(#[trigger] interaction_codes()[k] as nat)))),
        decreases codes.len() - j,
    {
        let mut pat = chars_of("AADSTS");
        let d = dec_u64(codes[j] as u64);
        push_all(&mut pat, &d);
        if contains_exec(&dv, &pat) {
            by_code = true;
        }
        j = j + 1;
    }
    let err = chars_of(e.error.as_str());
    if crate::text::eq_str(&err, "interaction_required") || crate::text::eq_str(&err, "invalid_grant")
        || crate::text::eq_str(&err, "login_required") || crate::text::eq_str(&err, "consent_required") || by_code {
        AuthError::InteractionRequired(desc)
    } else {
        AuthError::Provider { error: e.error, description: desc }
    }
}

// ---------------------------------------------------------------------------------------------
// JWT display claims

/// Text of a base64url payload, decoded (`URL_SAFE_NO_PAD.decode`), if it decodes.
pub uninterp spec fn b64url_nopad_decode(text: Seq<char>) -> Option<Seq<u8>>;

/// The string value of top-level field `key` when `payload` parses as a JSON object
/// (`serde_json::from_slice::<serde_json::Value>`, then `get(key)` and `as_str()`).
pub uninterp spec fn json_str_field(payload: Seq<u8>, key: Seq<char>) -> Option<Seq<char>>;

/// `URL_SAFE_NO_PAD.decode`: the bytes named [`b64url_nopad_decode`] of the text, and `None`
/// exactly when that name says the text does not decode.
#[verifier::external_body]
fn b64url_decode(text: &str) -> (r: Option<Vec<u8>>)
    ensures
        match r {
            Some(b) => b64url_nopad_decode(text@) == Some(b@),
            None => b64url_nopad_decode(text@) is None,
        },
{
    base64::Engine::decode(&base64::engine::general_purpose::URL_SAFE_NO_PAD, text).ok()
}

/// `serde_json::from_slice::<serde_json::Value>`, then `get(key)` and `as_str()`: the string
/// value of one top-level field, as named by [`json_str_field`].
#[verifier::external_body]
fn json_field(payload: &[u8], key: &str) -> (r: Option<String>)
    ensures
        opt_view(r) == json_str_field(payload@, key@),
{
    serde_json::from_slice::<serde_json::Value>(payload).ok()?.get(key)?.as_str().map(|s| s.to_owned())
}

#[verifier::external_type_specification]
#[verifier::external_body]
pub struct ExJsonValue(serde_json::Value);

/// Whether `payload` is a JSON document (`serde_json::from_slice::<serde_json::Value>`).
pub uninterp spec fn json_parses(payload: Seq<u8>) -> bool;

/// `serde_json::from_slice::<serde_json::Value>`: a value exactly when [`json_parses`] says the
/// bytes are a JSON document; nothing is claimed of the value.
#[verifier::external_body]
fn parse_json(payload: &[u8]) -> (r: Option<serde_json::Value>)
    ensures
        r is Some == json_parses(payload@),
{
    serde_json::from_slice::<serde_json::Value>(payload).ok()
}

/// The second `.`-separated segment of a JWT (the payload), if there is one.
pub open spec fn jwt_payload(jwt: Seq<char>) -> Option<Seq<char>> {
    match first_index(jwt, '.') {
        Some(i) => {
            let rest = jwt.skip(i + 1);
            match first_index(rest, '.') {
                Some(j) => Some(rest.take(j)),
                None => Some(rest),
            }
        },
        None => None,
    }
}

/// Strip every trailing `=`.
pub open spec fn strip_padding(s: Seq<char>) -> Seq<char>
    decreases s.len(),
{
    if s.len() > 0 && s.last() == '=' {
        strip_padding(s.drop_last())
    } else {
        s
    }
}

/// The first present claim among `keys`.
pub open spec fn first_claim(p: Seq<u8>, keys: Seq<Seq<char>>) -> Option<Seq<char>>
    decreases keys.len(),
{
    if keys.len() == 0 {
        None
    } else {
        match json_str_field(p, keys[0]) {
            Some(v) => Some(v),
            None => first_claim(p, keys.drop_first()),
        }
    }
}

/// The account named in a JWT's claims: user name from `preferred_username`, `upn`,
/// `unique_name` or `email` (required), display name, tenant, and `{oid|sub}.{tid}`.
pub open spec fn jwt_account(jwt: Seq<char>) -> Option<AccountView> {
    match jwt_payload(jwt) {
        None => None,
        Some(seg) => match b64url_nopad_decode(strip_padding(seg)) {
            None => None,
            Some(p) => match first_claim(p, seq!["preferred_username"@, "upn"@, "unique_name"@, "email"@]) {
                None => None,
                Some(username) => {
                    let tid = json_str_field(p, "tid"@);
                    let oid = first_claim(p, seq!["oid"@, "sub"@]);
                    Some(AccountView {
                        username: username,
                        name: json_str_field(p, "name"@),
                        tenant_id: tid,
                        home_account_id: match (oid, tid) {
                            (Some(o), Some(t)) => Some(o + "."@ + t),
                            (Some(o), None) => Some(o),
                            _ => None,
                        },
                    })
                },
            },
        },
    }
}

fn jwt_payload_exec(v: &Vec<char>) -> (r: Option<Vec<char>>)
    ensures
        match r {
            Some(x) => jwt_payload(v@) == Some(x@),
            None => jwt_payload(v@) is None,
        },
{
    let d1 = find_char(v, '.', 0);
    proof {
        crate::connstr::lemma_first_index(v@, '.', match d1 { Some(k) => Some(k as int), None => None });
    }
    match d1 {
        None => None,
        Some(i) => {
            let rest = slice(v, i + 1, v.len());
            assert(rest@ =~= v@.skip(i + 1));
            let d2 = find_char(&rest, '.', 0);
            proof {
                crate::connstr::lemma_first_index(rest@, '.', match d2 { Some(k) => Some(k as int), None => None });
            }
            match d2 {
                Some(j) => {
                    let seg = slice(&rest, 0, j);
                    assert(seg@ =~= rest@.take(j as int));
                    Some(seg)
                },
                None => Some(rest),
            }
        },
    }
}

fn strip_padding_exec(v: &Vec<char>) -> (r: Vec<char>)
    ensures
        r@ == strip_padding(v@),
{
    let mut j = v.len();
    assert(v@.take(j as int) =~= v@);
    while j > 0 && v[j - 1] == '='
        invariant
            j <= v.len(),
            strip_padding(v@.take(j as int)) == strip_padding(v@),
        decreases j,
    {
        assert(v@.take(j as int).drop_last() =~= v@.take(j - 1));
        j = j - 1;
    }
    let r = slice(v, 0, j);
    assert(r@ =~= v@.take(j as int));
    r
}

fn first_claim_exec(p: &Vec<u8>, keys: &Vec<&str>) -> (r: Option<String>)
    ensures
        opt_view(r) == first_claim(p@, keys@.map_values(|k: &str| k@)),
{
    let ghost ks = keys@.map_values(|k: &str| k@);
    let mut i: usize = 0;
    assert(ks.skip(0) =~= ks);
    while i < keys.len()
        invariant
            i <= keys.len(),
            ks == keys@.map_values(|k: &str| k@),
            first_claim(p@, ks.skip(i as int)) == first_claim(p@, ks),
        decreases keys.len() - i,
    {
        assert(ks.skip(i as int)[0] == keys@[i as int]@);
        assert(ks.skip(i as int).drop_first() =~= ks.skip(i + 1));
        if let Some(v) = json_field(p.as_slice(), keys[i]) {
            return Some(v);
        }
        i = i + 1;
    }
    None
}

/// The bytes of a JWT's payload segment, when it decodes.
pub open spec fn jwt_payload_bytes(jwt: Seq<char>) -> Option<Seq<u8>> {
    match jwt_payload(jwt) {
        None => None,
        Some(seg) => b64url_nopad_decode(strip_padding(seg)),
    }
}

/// Decode a JWT's payload segment as JSON. No signature check: the caller only displays
/// these claims; the token itself is validated by SQL Server / the identity provider.
pub fn decode_jwt_claims(jwt: &str) -> (r: Option<serde_json::Value>)
    ensures
        r is Some <==> match jwt_payload_bytes(jwt@) {
            Some(p) => json_parses(p),
            None => false,
        },
{
    let v = chars_of(jwt);
    let seg = match jwt_payload_exec(&v) {
        Some(s) => s,
        None => return None,
    };
    let stripped = strip_padding_exec(&seg);
    let text = string_of(&stripped);
    let p = match b64url_decode(text.as_str()) {
        Some(p) => p,
        None => return None,
    };
    parse_json(p.as_slice())
}

/// The display claims of an id_token (or, as a fallback, an access token). No signature check:
/// the caller only shows these.
pub fn account_from_jwt(jwt: &str) -> (r: Option<EntraAccount>)
    ensures
        match r {
            Some(a) => jwt_account(jwt@) == Some(a@),
            None => jwt_account(jwt@) is None,
        },
{
    let v = chars_of(jwt);
    let seg = match jwt_payload_exec(&v) {
        Some(s) => s,
        None => return None,
    };
    let stripped = strip_padding_exec(&seg);
    let text = string_of(&stripped);
    let p = match b64url_decode(text.as_str()) {
        Some(p) => p,
        None => return None,
    };
    let user_keys: Vec<&str> = vec!["preferred_username", "upn", "unique_name", "email"];
    assert(user_keys@.map_values(|k: &str| k@) =~= seq!["preferred_username"@, "upn"@, "unique_name"@, "email"@]);
    let username = match first_claim_exec(&p, &user_keys) {
        Some(u) => u,
        None => return None,
    };
    let tid = json_field(p.as_slice(), "tid");
    let oid_keys: Vec<&str> = vec!["oid", "sub"];
    assert(oid_keys@.map_values(|k: &str| k@) =~= seq!["oid"@, "sub"@]);
    let oid = first_claim_exec(&p, &oid_keys);
    let home = match (&oid, &tid) {
        (Some(o), Some(t)) => {
            let mut h = chars_of(o.as_str());
            push_str(&mut h, ".");
            push_str(&mut h, t.as_str());
            Some(string_of(&h))
        },
        (Some(o), None) => Some(o.clone()),
        _ => None,
    };
    let name = json_field(p.as_slice(), "name");
    Some(EntraAccount { username, name, tenant_id: tid, home_account_id: home })
}

// ---------------------------------------------------------------------------------------------
// Token sets

/// Lifetime in seconds the token set assumes: `expires_in`, default an hour, at most a week.
pub open spec fn lifetime_secs(expires_in: Option<i64>, cap: int) -> int {
    let e = match expires_in {
        Some(e) => e as int,
        None => 3600,
    };
    if e < 0 {
        0
    } else if e > cap {
        cap
    } else {
        e
    }
}

/// The clock is within chrono's representable range (about ±262,000 years).
pub open spec fn sane_now(now: i64) -> bool {
    -9_000_000_000_000_000 <= now <= 9_000_000_000_000_000
}

fn lifetime_exec(expires_in: Option<i64>, cap: i64) -> (r: i64)
    requires
        cap >= 0,
    ensures
        r == lifetime_secs(expires_in, cap as int),
        0 <= r <= cap,
{
    let e = match expires_in {
        Some(e) => e,
        None => 3600,
    };
    if e < 0 {
        0
    } else if e > cap {
        cap
    } else {
        e
    }
}

/// The account a token response names: the id_token's, else the access token's claims, else the
/// fallback, else the empty account.
pub open spec fn response_account(t: TokenResponse, fallback: Option<AccountView>) -> AccountView {
    match (match t.id_token {
        Some(id) => jwt_account(id@),
        None => None,
    }) {
        Some(a) => a,
        None => match jwt_account(t.access_token@) {
            Some(a) => a,
            None => match fallback {
                Some(f) => f,
                None => empty_account(),
            },
        },
    }
}

/// Assemble a token set at time `now` (milliseconds). `previous_refresh` is kept when the
/// response carries no new refresh token; `fallback_account` is used when no claims came back.
pub fn token_set_at(
    cfg: &EntraConfig,
    t: TokenResponse,
    previous_refresh: Option<&Secret>,
    fallback_account: Option<&EntraAccount>,
    now: i64,
) -> (r: TokenSet)
    requires
        sane_now(now),
    ensures
        r.access.token.value() == t.access_token@,
        r.access.expires_at == now + lifetime_secs(t.expires_in, 604_800) * 1000,
        r.access.scope@ == match t.scope {
            Some(s) => s@,
            None => user_scopes_of(cfg@),
        },
        match t.refresh_token {
            Some(s) => r.refresh is Some && r.refresh.unwrap().value() == s@,
            None => r.refresh == match previous_refresh {
                Some(p) => Some(*p),
                None => None::<Secret>,
            },
        },
        r.account@ == response_account(t, match fallback_account {
            Some(a) => Some(a@),
            None => None,
        }),
{
    let secs = lifetime_exec(t.expires_in, 604_800);
    let id_account = match &t.id_token {
        Some(id) => account_from_jwt(id.as_str()),
        None => None,
    };
    let account = match id_account {
        Some(a) => a,
        None => match account_from_jwt(t.access_token.as_str()) {
            Some(a) => a,
            None => match fallback_account {
                Some(f) => f.duplicate(),
                None => EntraAccount::default(),
            },
        },
    };
    let scope = match t.scope {
        Some(s) => s,
        None => cfg.user_scopes(),
    };
    let access = AccessToken {
        token: Secret::from_string(t.access_token),
        expires_at: now + secs * 1000,
        scope,
    };
    let refresh = match t.refresh_token {
        Some(s) => Some(Secret::from_string(s)),
        None => match previous_refresh {
            Some(p) => Some(p.duplicate()),
            None => None,
        },
    };
    TokenSet { access, refresh, account }
}

/// Assemble a token set as of now.
pub fn into_token_set(
    cfg: &EntraConfig,
    t: TokenResponse,
    previous_refresh: Option<&Secret>,
    fallback_account: Option<&EntraAccount>,
) -> (r: TokenSet)
    ensures
        r.access.token.value() == t.access_token@,
        r.access.scope@ == match t.scope {
            Some(s) => s@,
            None => user_scopes_of(cfg@),
        },
        match t.refresh_token {
            Some(s) => r.refresh is Some && r.refresh.unwrap().value() == s@,
            None => r.refresh == match previous_refresh {
                Some(p) => Some(*p),
                None => None::<Secret>,
            },
        },
        r.account@ == response_account(t, match fallback_account {
            Some(a) => Some(a@),
            None => None,
        }),
        exists|now: i64| sane_now(now) && r.access.expires_at == now + lifetime_secs(t.expires_in, 604_800) * 1000,
{
    let now = crate::entra::now_millis();
    token_set_at(cfg, t, previous_refresh, fallback_account, now)
}

/// A form field.
pub open spec fn field_view(f: (String, String)) -> (Seq<char>, Seq<char>) {
    (f.0@, f.1@)
}

/// The fields of a form, as text.
pub open spec fn form_view(v: Seq<(String, String)>) -> Seq<(Seq<char>, Seq<char>)> {
    v.map_values(|f: (String, String)| field_view(f))
}

pub fn field(k: &str, v: &str) -> (r: (String, String))
    ensures
        r.0@ == k@,
        r.1@ == v@,
{
    (k.to_owned(), v.to_owned())
}

/// What a token request ends in when any OAuth error counts as a failure.
pub fn token_result(reply: TokenReply) -> (r: Result<TokenResponse, AuthError>)
    ensures
        match reply {
            TokenReply::Success(t) => r == Ok::<TokenResponse, AuthError>(t),
            TokenReply::Failure(e) => r is Err && (if is_interaction_error(e) {
                r->Err_0 matches AuthError::InteractionRequired(m) && m@ == oauth_desc(e)
            } else {
                r->Err_0 matches AuthError::Provider { error, description } && error@ == e.error@
                    && description@ == oauth_desc(e)
            }),
        },
{
    match reply {
        TokenReply::Success(t) => Ok(t),
        TokenReply::Failure(e) => Err(map_oauth_error(e)),
    }
}

/// At most `n` leading characters.
pub open spec fn prefix_at_most(s: Seq<char>, n: nat) -> Seq<char> {
    if s.len() <= n {
        s
    } else {
        s.take(n as int)
    }
}

/// The error body assumed when a failed response is not an OAuth error object:
/// `http_{status}` and the first 500 characters of the body.
pub fn fallback_error_body(status: u16, body_text: &str) -> (r: OAuthErrorBody)
    ensures
        r.error@ == "http_"@ + dec(status as nat),
        r.error_description@ == prefix_at_most(body_text@, 500),
        r.error_codes@.len() == 0,
{
    let mut e = chars_of("http_");
    let d = dec_u64(status as u64);
    push_all(&mut e, &d);
    let b = chars_of(body_text);
    let cut = if b.len() <= 500 {
        b.len()
    } else {
        500
    };
    let desc = slice(&b, 0, cut);
    assert(desc@ =~= prefix_at_most(body_text@, 500));
    OAuthErrorBody { error: string_of(&e), error_description: string_of(&desc), error_codes: Vec::new() }
}

/// The form for a silent renewal from a refresh token.
pub fn refresh_form(cfg: &EntraConfig, refresh_token: &Secret) -> (r: Result<Vec<(String, String)>, AuthError>)
    ensures
        match r {
            Ok(f) => trim(cfg.client_id@).len() > 0 && form_view(f@) == seq![
                ("client_id"@, trim(cfg.client_id@)),
                ("grant_type"@, "refresh_token"@),
                ("refresh_token"@, refresh_token.value()),
                ("scope"@, user_scopes_of(cfg@)),
            ],
            Err(e) => trim(cfg.client_id@).len() == 0 && e is MissingClientId,
        },
{
    let client_id = cfg.require_client_id()?;
    let scope = cfg.user_scopes();
    let f = vec![
        field("client_id", client_id.as_str()),
        field("grant_type", "refresh_token"),
        field("refresh_token", refresh_token.expose()),
        field("scope", scope.as_str()),
    ];
    assert(form_view(f@) =~= seq![
        ("client_id"@, trim(cfg.client_id@)),
        ("grant_type"@, "refresh_token"@),
        ("refresh_token"@, refresh_token.value()),
        ("scope"@, user_scopes_of(cfg@)),
    ]);
    Ok(f)
}

} // verus!
