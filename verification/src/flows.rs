//! The decisions of the token-acquisition flows: what each request sends, and what each answer
//! means. The requests themselves (HTTP, the browser, the loopback listener) run outside.

use crate::entra::{authority_of, sql_scope_of, user_scopes_of, AccessToken, ConfigView, EntraConfig};
use crate::error::AuthError;
use crate::pkce::Pkce;
use crate::profile::opt_view;
use crate::secret::Secret;
use crate::text::{ascii_lower, chars_of, contains, contains_str, eq_str, lower_of, push_str, string_of, trim, trim_chars, trimmed_of};
use crate::token::{
    field, form_view, map_oauth_error, oauth_desc, is_interaction_error, sane_now, OAuthErrorBody, TokenReply,
    TokenResponse,
};
use vstd::prelude::*;

verus! {

broadcast use vstd::string::group_string_axioms;

// ---------------------------------------------------------------------------------------------
// Device code (RFC 8628)

/// What the UI shows the user: "go to `verification_uri` and enter `user_code`".
#[derive(Clone, Debug, PartialEq, Eq)]
pub struct DeviceCodePrompt {
    pub user_code: String,
    pub verification_uri: String,
    /// Entra's ready-made sentence ("To sign in, use a web browser to open ...").
    pub message: String,
    /// Seconds until the code expires.
    pub expires_in: u64,
}

impl DeviceCodePrompt {
    /// An equal copy.
    pub fn duplicate(&self) -> (r: Self)
        ensures
            r == *self,
    {
        DeviceCodePrompt {
            user_code: self.user_code.clone(),
            verification_uri: self.verification_uri.clone(),
            message: self.message.clone(),
            expires_in: self.expires_in,
        }
    }
}

/// The `/devicecode` response.
#[derive(Clone, Debug)]
pub struct DeviceCodeResponse {
    pub device_code: String,
    pub user_code: String,
    pub verification_uri: String,
    pub expires_in: Option<u64>,
    pub interval: Option<u64>,
    pub message: Option<String>,
}

/// The request that starts the flow: the endpoint and the form.
pub fn device_code_start(cfg: &EntraConfig) -> (r: Result<(String, Vec<(String, String)>), AuthError>)
    ensures
        match r {
            Ok((url, f)) => trim(cfg.client_id@).len() > 0 && url@ == authority_of(cfg@)
                + "/oauth2/v2.0/devicecode"@ && form_view(f@) == seq![
                ("client_id"@, trim(cfg.client_id@)),
                ("scope"@, user_scopes_of(cfg@)),
            ],
            Err(e) => trim(cfg.client_id@).len() == 0 && e is MissingClientId,
        },
{
    let client_id = cfg.require_client_id()?;
    let scope = cfg.user_scopes();
    let f = vec![field("client_id", client_id.as_str()), field("scope", scope.as_str())];
    assert(form_view(f@) =~= seq![("client_id"@, trim(cfg.client_id@)), ("scope"@, user_scopes_of(cfg@))]);
    Ok((cfg.device_code_endpoint(), f))
}

/// The error for a `/devicecode` request that failed: the OAuth error in the body, or an empty
/// one when the body is not an OAuth error object.
pub fn device_code_start_error(body: Option<OAuthErrorBody>) -> (r: AuthError)
    ensures
        match body {
            Some(e) => if is_interaction_error(e) {
                r matches AuthError::InteractionRequired(m) && m@ == oauth_desc(e)
            } else {
                r matches AuthError::Provider { error, description } && error@ == e.error@
                    && description@ == oauth_desc(e)
            },
            None => r matches AuthError::Provider { error, description } && error@.len() == 0
                && description@.len() == 0,
        },
{
    let e = match body {
        Some(e) => e,
        None => OAuthErrorBody { error: String::new(), error_description: String::new(), error_codes: Vec::new() },
    };
    proof {
        if body is None {
            assert(!is_interaction_error(e)) by {
                reveal_strlit("interaction_required");
                reveal_strlit("invalid_grant");
                reveal_strlit("login_required");
                reveal_strlit("consent_required");
                assert(e.error@.len() == 0);
                assert(!crate::token::interactive_by_code(e.error_codes@, oauth_desc(e))) by {
                    assert forall|j: int| 0 <= j < crate::token::interaction_codes().len() implies !contains(
                        oauth_desc(e),
                        "AADSTS"@ + crate::text::dec(#[trigger] crate::token::interaction_codes()[j] as nat),
                    ) by {
                        reveal_strlit("AADSTS");
                        assert(oauth_desc(e).len() == 0);
                    }
                }
            }
        }
    }
    map_oauth_error(e)
}

/// The sentence shown when Entra sends none.
pub open spec fn default_device_message(uri: Seq<char>, code: Seq<char>) -> Seq<char> {
    "To sign in, open "@ + uri + " in a web browser and enter the code "@ + code + " to authenticate."@
}

/// The prompt for a `/devicecode` response; the code lives 900 seconds when Entra does not say.
pub fn device_prompt(dc: &DeviceCodeResponse) -> (r: DeviceCodePrompt)
    ensures
        r.user_code@ == dc.user_code@,
        r.verification_uri@ == dc.verification_uri@,
        r.message@ == match dc.message {
            Some(m) => m@,
            None => default_device_message(dc.verification_uri@, dc.user_code@),
        },
        r.expires_in == match dc.expires_in {
            Some(s) => s,
            None => 900,
        },
{
    let message = match &dc.message {
        Some(m) => m.clone(),
        None => {
            let mut v = chars_of("To sign in, open ");
            push_str(&mut v, dc.verification_uri.as_str());
            push_str(&mut v, " in a web browser and enter the code ");
            push_str(&mut v, dc.user_code.as_str());
            push_str(&mut v, " to authenticate.");
            string_of(&v)
        },
    };
    DeviceCodePrompt {
        user_code: dc.user_code.clone(),
        verification_uri: dc.verification_uri.clone(),
        message,
        expires_in: match dc.expires_in {
            Some(s) => s,
            None => 900,
        },
    }
}

/// Seconds between polls when Entra does not say.
pub fn poll_interval(dc: &DeviceCodeResponse) -> (r: u64)
    ensures
        r == match dc.interval {
            Some(s) => s,
            None => 5,
        },
{
    match dc.interval {
        Some(s) => s,
        None => 5,
    }
}

/// The form each poll sends.
pub fn device_poll_form(client_id: &str, device_code: &str) -> (r: Vec<(String, String)>)
    ensures
        form_view(r@) == seq![
            ("client_id"@, client_id@),
            ("grant_type"@, "urn:ietf:params:oauth:grant-type:device_code"@),
            ("device_code"@, device_code@),
        ],
{
    let f = vec![
        field("client_id", client_id),
        field("grant_type", "urn:ietf:params:oauth:grant-type:device_code"),
        field("device_code", device_code),
    ];
    assert(form_view(f@) =~= seq![
        ("client_id"@, client_id@),
        ("grant_type"@, "urn:ietf:params:oauth:grant-type:device_code"@),
        ("device_code"@, device_code@),
    ]);
    f
}

/// What one poll of the token endpoint means.
pub enum PollStep {
    /// Not yet: poll again after this many seconds.
    Wait { interval: u64 },
    /// The user completed the sign-in.
    Finished(TokenResponse),
    Fail(AuthError),
}

/// Interpret one poll answer; `interval` is the current wait between polls, in seconds.
pub fn poll_step(reply: TokenReply, interval: u64) -> (r: PollStep)
    requires
        interval <= u64::MAX - 5,
    ensures
        match reply {
            TokenReply::Success(t) => r == PollStep::Finished(t),
            TokenReply::Failure(e) => if e.error@ == "authorization_pending"@ {
                r == (PollStep::Wait { interval })
            } else if e.error@ == "slow_down"@ {
                r == (PollStep::Wait { interval: (interval + 5) as u64 })
            } else if e.error@ == "expired_token"@ {
                r matches PollStep::Fail(AuthError::Timeout)
            } else if e.error@ == "authorization_declined"@ {
                r matches PollStep::Fail(AuthError::Provider { error, description }) && error@ == e.error@
                    && description@ == if e.error_description@.len() == 0 {
                    "the sign-in was declined"@
                } else {
                    e.error_description@
                }
            } else if is_interaction_error(e) {
                r matches PollStep::Fail(AuthError::InteractionRequired(m)) && m@ == oauth_desc(e)
            } else {
                r matches PollStep::Fail(AuthError::Provider { error, description }) && error@ == e.error@
                    && description@ == oauth_desc(e)
            },
        },
{
    match reply {
        TokenReply::Success(t) => PollStep::Finished(t),
        TokenReply::Failure(e) => {
            let err = chars_of(e.error.as_str());
            if eq_str(&err, "authorization_pending") {
                PollStep::Wait { interval }
            } else if eq_str(&err, "slow_down") {
                PollStep::Wait { interval: interval + 5 }
            } else if eq_str(&err, "expired_token") {
                PollStep::Fail(AuthError::Timeout)
            } else if eq_str(&err, "authorization_declined") {
                let description = if e.error_description.as_str().is_empty() {
                    "the sign-in was declined".to_owned()
                } else {
                    e.error_description
                };
                PollStep::Fail(AuthError::Provider { error: e.error, description })
            } else {
                PollStep::Fail(map_oauth_error(e))
            }
        },
    }
}

// ---------------------------------------------------------------------------------------------
// Service principal (client credentials)

/// Tenant aliases that name no single directory.
pub open spec fn is_multi_tenant_alias(t: Seq<char>) -> bool {
    t == "common"@ || t == "organizations"@ || t == "consumers"@
}

pub const SP_TENANT_TEXT: &'static str = "a service principal needs a specific tenant ID or domain";

pub const SP_CLIENT_ID_TEXT: &'static str = "service principal client ID is empty";

pub const SP_SECRET_TEXT: &'static str = "service principal secret is empty";

/// The configuration a service-principal request is addressed with.
pub open spec fn sp_config(cfg: ConfigView, tenant: Seq<char>, client_id: Seq<char>) -> ConfigView {
    ConfigView { client_id: trim(client_id), tenant: Some(trim(tenant)), ..cfg }
}

/// Check a service-principal request and build it: the configuration it is sent with and the
/// client-credentials form.
pub fn sp_request(cfg: &EntraConfig, tenant: &str, client_id: &str, secret: &Secret) -> (r: Result<
    (EntraConfig, Vec<(String, String)>),
    AuthError,
>)
    ensures
        match r {
            Ok((c, f)) => {
                &&& trim(tenant@).len() > 0 && !is_multi_tenant_alias(trim(tenant@))
                &&& trim(client_id@).len() > 0
                &&& secret.value().len() > 0
                &&& c@ == sp_config(cfg@, tenant@, client_id@)
                &&& form_view(f@) == seq![
                    ("client_id"@, trim(client_id@)),
                    ("client_secret"@, secret.value()),
                    ("grant_type"@, "client_credentials"@),
                    ("scope"@, sql_scope_of(cfg@)),
                ]
            },
            Err(e) => e matches AuthError::Other(m) && if trim(tenant@).len() == 0 || is_multi_tenant_alias(
                trim(tenant@),
            ) {
                m@ == SP_TENANT_TEXT@
            } else if trim(client_id@).len() == 0 {
                m@ == SP_CLIENT_ID_TEXT@
            } else {
                secret.value().len() == 0 && m@ == SP_SECRET_TEXT@
            },
        },
{
    let t = trimmed_of(tenant);
    if t.len() == 0 || eq_str(&t, "common") || eq_str(&t, "organizations") || eq_str(&t, "consumers") {
        return Err(AuthError::Other(SP_TENANT_TEXT.to_owned()));
    }
    let cid = trimmed_of(client_id);
    if cid.len() == 0 {
        return Err(AuthError::Other(SP_CLIENT_ID_TEXT.to_owned()));
    }
    if secret.is_empty() {
        return Err(AuthError::Other(SP_SECRET_TEXT.to_owned()));
    }
    let cid_s = string_of(&cid);
    let base = cfg.duplicate();
    let c = EntraConfig { client_id: cid_s.clone(), tenant: Some(string_of(&t)), ..base };
    let scope = c.sql_scope();
    let f = vec![
        field("client_id", cid_s.as_str()),
        field("client_secret", secret.expose()),
        field("grant_type", "client_credentials"),
        field("scope", scope.as_str()),
    ];
    assert(form_view(f@) =~= seq![
        ("client_id"@, trim(client_id@)),
        ("client_secret"@, secret.value()),
        ("grant_type"@, "client_credentials"@),
        ("scope"@, sql_scope_of(cfg@)),
    ]);
    Ok((c, f))
}

/// Token lifetime a service-principal token is assumed to have, in seconds: `expires_in`,
/// default an hour, at most a day.
pub open spec fn sp_lifetime(expires_in: Option<i64>) -> int {
    crate::token::lifetime_secs(expires_in, 86_400)
}

/// The access token of a client-credentials answer at time `now` (milliseconds).
pub fn sp_access_token(t: TokenResponse, scope: &str, now: i64) -> (r: AccessToken)
    requires
        sane_now(now),
    ensures
        r.token.value() == t.access_token@,
        r.expires_at == now + sp_lifetime(t.expires_in) * 1000,
        r.scope@ == match t.scope {
            Some(s) => s@,
            None => scope@,
        },
{
    let e = match t.expires_in {
        Some(e) => e,
        None => 3600,
    };
    let secs: i64 = if e < 0 {
        0
    } else if e > 86_400 {
        86_400
    } else {
        e
    };
    AccessToken {
        token: Secret::from_string(t.access_token),
        expires_at: now + secs * 1000,
        scope: match t.scope {
            Some(s) => s,
            None => scope.to_owned(),
        },
    }
}

/// The access token of a client-credentials answer, as of now.
pub fn sp_token_now(t: TokenResponse, scope: &str) -> (r: AccessToken)
    ensures
        r.token.value() == t.access_token@,
        r.scope@ == match t.scope {
            Some(s) => s@,
            None => scope@,
        },
        exists|now: i64| sane_now(now) && r.expires_at == now + sp_lifetime(t.expires_in) * 1000,
{
    let now = crate::entra::now_millis();
    sp_access_token(t, scope, now)
}

// ---------------------------------------------------------------------------------------------
// Interactive (authorization code + PKCE)

/// Seconds the interactive flow waits for the user to finish in the browser.
pub const INTERACTIVE_TIMEOUT: u64 = 300;

/// The sign-in hint that is sent: trimmed, and only when not blank.
pub open spec fn sent_hint(login_hint: Option<Seq<char>>) -> Option<Seq<char>> {
    match login_hint {
        Some(h) => if trim(h).len() > 0 {
            Some(trim(h))
        } else {
            None
        },
        None => None,
    }
}

/// The query of the `/authorize` URL, in order.
pub open spec fn authorize_query(
    cfg: ConfigView,
    redirect_uri: Seq<char>,
    state: Seq<char>,
    challenge: Seq<char>,
    login_hint: Option<Seq<char>>,
) -> Seq<(Seq<char>, Seq<char>)> {
    let base = seq![
        ("client_id"@, trim(cfg.client_id)),
        ("response_type"@, "code"@),
        ("redirect_uri"@, redirect_uri),
        ("response_mode"@, "query"@),
        ("scope"@, user_scopes_of(cfg)),
        ("state"@, state),
        ("code_challenge"@, challenge),
        ("code_challenge_method"@, "S256"@),
        ("prompt"@, "select_account"@),
    ];
    match sent_hint(login_hint) {
        Some(h) => base.push(("login_hint"@, h)),
        None => base,
    }
}

/// The query pairs of the `/authorize` URL for one request.
pub fn authorize_pairs(
    cfg: &EntraConfig,
    redirect_uri: &str,
    state: &str,
    pkce: &Pkce,
    login_hint: Option<&str>,
) -> (r: Result<Vec<(String, String)>, AuthError>)
    ensures
        match r {
            Ok(q) => trim(cfg.client_id@).len() > 0 && form_view(q@) == authorize_query(
                cfg@,
                redirect_uri@,
                state@,
                pkce.challenge@,
                match login_hint {
                    Some(h) => Some(h@),
                    None => None,
                },
            ),
            Err(e) => trim(cfg.client_id@).len() == 0 && e is MissingClientId,
        },
{
    let client_id = cfg.require_client_id()?;
    let scope = cfg.user_scopes();
    let mut q = vec![
        field("client_id", client_id.as_str()),
        field("response_type", "code"),
        field("redirect_uri", redirect_uri),
        field("response_mode", "query"),
        field("scope", scope.as_str()),
        field("state", state),
        field("code_challenge", pkce.challenge.as_str()),
        field("code_challenge_method", "S256"),
        field("prompt", "select_account"),
    ];
    let ghost base = seq![
        ("client_id"@, trim(cfg.client_id@)),
        ("response_type"@, "code"@),
        ("redirect_uri"@, redirect_uri@),
        ("response_mode"@, "query"@),
        ("scope"@, user_scopes_of(cfg@)),
        ("state"@, state@),
        ("code_challenge"@, pkce.challenge@),
        ("code_challenge_method"@, "S256"@),
        ("prompt"@, "select_account"@),
    ];
    assert(form_view(q@) =~= base);
    if let Some(h) = login_hint {
        let t = trimmed_of(h);
        if t.len() > 0 {
            let hs = string_of(&t);
            q.push(field("login_hint", hs.as_str()));
            assert(form_view(q@) =~= base.push(("login_hint"@, trim(h@))));
        }
    }
    Ok(q)
}

#[verifier::external_type_specification]
#[verifier::external_body]
pub struct ExUrlParseError(url::ParseError);

/// Whether `url::Url::parse` accepts the text.
pub uninterp spec fn url_parses(text: Seq<char>) -> bool;

/// The text of the URL `base` (as `url::Url::parse` normalises it) with `pairs` appended to its
/// query, form-encoded and in order, by `query_pairs_mut().extend_pairs`.
pub uninterp spec fn url_with_pairs(base: Seq<char>, pairs: Seq<(Seq<char>, Seq<char>)>) -> Seq<char>;

/// `url::Url::parse(base)`, then `query_pairs_mut().extend_pairs(pairs)`, then the URL's text:
/// the text named [`url_with_pairs`], and an error exactly when [`url_parses`] says `base` is
/// no URL.
#[verifier::external_body]
fn url_with_query(base: &str, pairs: &Vec<(String, String)>) -> (r: Result<String, url::ParseError>)
    ensures
        r is Ok == url_parses(base@),
        r matches Ok(t) ==> t@ == url_with_pairs(base@, form_view(pairs@)),
{
    let mut u = url::Url::parse(base)?;
    u.query_pairs_mut().extend_pairs(pairs.iter().map(|(k, v)| (k.as_str(), v.as_str())));
    Ok(u.into())
}

/// The `Display` text of a `url::ParseError`; nothing is claimed of it.
#[verifier::external_body]
fn url_error_text(e: &url::ParseError) -> String {
    e.to_string()
}

/// The `/authorize` URL for one request, as text: the endpoint with [`authorize_query`]
/// appended as a form-encoded query, in order.
pub fn authorize_url(
    cfg: &EntraConfig,
    redirect_uri: &str,
    state: &str,
    pkce: &Pkce,
    login_hint: Option<&str>,
) -> (r: Result<String, AuthError>)
    ensures
        trim(cfg.client_id@).len() == 0 ==> r matches Err(AuthError::MissingClientId),
        trim(cfg.client_id@).len() > 0 ==> match r {
            Ok(t) => url_parses(authority_of(cfg@) + "/oauth2/v2.0/authorize"@) && t@ == url_with_pairs(
                authority_of(cfg@) + "/oauth2/v2.0/authorize"@,
                authorize_query(
                    cfg@,
                    redirect_uri@,
                    state@,
                    pkce.challenge@,
                    match login_hint {
                        Some(h) => Some(h@),
                        None => None,
                    },
                ),
            ),
            Err(e) => !url_parses(authority_of(cfg@) + "/oauth2/v2.0/authorize"@) && e is Other,
        },
{
    let pairs = authorize_pairs(cfg, redirect_uri, state, pkce, login_hint)?;
    let endpoint = cfg.authorize_endpoint();
    match url_with_query(endpoint.as_str(), &pairs) {
        Ok(t) => Ok(t),
        Err(e) => {
            let mut m = chars_of("bad authority: ");
            let t = url_error_text(&e);
            push_str(&mut m, t.as_str());
            Err(AuthError::Other(string_of(&m)))
        },
    }
}

/// The form that exchanges the authorization code for tokens.
pub fn code_exchange_form(cfg: &EntraConfig, code: &str, redirect_uri: &str, verifier: &str) -> (r: Vec<
    (String, String),
>)
    ensures
        form_view(r@) == seq![
            ("client_id"@, trim(cfg.client_id@)),
            ("grant_type"@, "authorization_code"@),
            ("code"@, code@),
            ("redirect_uri"@, redirect_uri@),
            ("code_verifier"@, verifier@),
            ("scope"@, user_scopes_of(cfg@)),
        ],
{
    let cid = string_of(&trimmed_of(cfg.client_id.as_str()));
    let scope = cfg.user_scopes();
    let f = vec![
        field("client_id", cid.as_str()),
        field("grant_type", "authorization_code"),
        field("code", code),
        field("redirect_uri", redirect_uri),
        field("code_verifier", verifier),
        field("scope", scope.as_str()),
    ];
    assert(form_view(f@) =~= seq![
        ("client_id"@, trim(cfg.client_id@)),
        ("grant_type"@, "authorization_code"@),
        ("code"@, code@),
        ("redirect_uri"@, redirect_uri@),
        ("code_verifier"@, verifier@),
        ("scope"@, user_scopes_of(cfg@)),
    ]);
    f
}

// ---------------------------------------------------------------------------------------------
// Azure CLI

pub const CLI_NOT_INSTALLED: &'static str = "the `az` command was not found on PATH — the Azure CLI is not installed (or not on PATH for this app)";

pub const CLI_NOT_SIGNED_IN: &'static str = "not signed in — run `az login` (add `--tenant <id>` for a specific directory) and try again";

/// The CLI's message says the program could not be started.
pub open spec fn cli_not_installed(lower: Seq<char>) -> bool {
    ||| contains(lower, "not found"@)
    ||| contains(lower, "no such file"@)
    ||| contains(lower, "cannot find"@)
    ||| contains(lower, "not recognized"@)
    ||| contains(lower, "program not found"@)
    ||| contains(lower, "os error 2"@)
}

/// The CLI's message says nobody is signed in.
pub open spec fn cli_not_signed_in(lower: Seq<char>) -> bool {
    ||| contains(lower, "az login"@)
    ||| contains(lower, "not logged in"@)
    ||| contains(lower, "please run"@)
}

/// What the user is told for an Azure CLI failure message.
pub open spec fn cli_message(msg: Seq<char>) -> Seq<char> {
    let lower = ascii_lower(msg);
    if cli_not_installed(lower) {
        CLI_NOT_INSTALLED@
    } else if cli_not_signed_in(lower) {
        CLI_NOT_SIGNED_IN@
    } else if contains(lower, "aadsts"@) {
        "token request failed: "@ + trim(msg)
    } else {
        trim(msg)
    }
}

/// Turn the Azure CLI credential's error text into something a user can act on.
pub fn classify_cli_message(msg: &str) -> (r: String)
    ensures
        r@ == cli_message(msg@),
{
    let lower = lower_of(msg);
    if contains_str(&lower, "not found") || contains_str(&lower, "no such file") || contains_str(
        &lower,
        "cannot find",
    ) || contains_str(&lower, "not recognized") || contains_str(&lower, "program not found")
        || contains_str(&lower, "os error 2") {
        return CLI_NOT_INSTALLED.to_owned();
    }
    if contains_str(&lower, "az login") || contains_str(&lower, "not logged in") || contains_str(
        &lower,
        "please run",
    ) {
        return CLI_NOT_SIGNED_IN.to_owned();
    }
    let t = trimmed_of(msg);
    if contains_str(&lower, "aadsts") {
        let mut v = chars_of("token request failed: ");
        crate::text::push_all(&mut v, &t);
        return string_of(&v);
    }
    string_of(&t)
}

/// The tenant handed to the Azure CLI: trimmed, and only when not blank.
pub fn cli_tenant(tenant: Option<&str>) -> (r: Option<String>)
    ensures
        opt_view(r) == sent_hint(
            match tenant {
                Some(t) => Some(t@),
                None => None,
            },
        ),
{
    match tenant {
        Some(t) => {
            let v = trimmed_of(t);
            if v.len() > 0 {
                Some(string_of(&v))
            } else {
                None
            }
        },
        None => None,
    }
}

/// Seconds from the Unix epoch within which chrono represents every time: about 253,000
/// years either way, well inside its documented range of 262144 BCE to 262142 CE.
pub const REPRESENTABLE_SECS: i64 = 8_000_000_000_000;

/// Milliseconds since the Unix epoch of a time given in whole seconds, when chrono can represent
/// it (`DateTime::<Utc>::from_timestamp(secs, 0)`, then `timestamp_millis`). Claims that a
/// result is `secs * 1000`, and that there is one within [`REPRESENTABLE_SECS`] of the epoch.
#[verifier::external_body]
fn millis_of_secs(secs: i64) -> (r: Option<i64>)
    ensures
        r matches Some(ms) ==> ms == secs * 1000,
        -REPRESENTABLE_SECS <= secs <= REPRESENTABLE_SECS ==> r is Some,
{
    chrono::DateTime::<chrono::Utc>::from_timestamp(secs, 0).map(|d| d.timestamp_millis())
}

/// When a token from the Azure CLI expires, in milliseconds: its expiry in seconds, or now
/// when that is out of chrono's range.
pub fn cli_expiry(expires_on_secs: i64) -> (r: i64)
    ensures
        r == expires_on_secs * 1000 || sane_now(r),
        -REPRESENTABLE_SECS <= expires_on_secs <= REPRESENTABLE_SECS ==> r == expires_on_secs * 1000,
{
    match millis_of_secs(expires_on_secs) {
        Some(ms) => ms,
        None => crate::entra::now_millis(),
    }
}

/// The error for a failed Azure CLI token request, from the credential's message.
pub fn map_cli_error(message: &str) -> (r: AuthError)
    ensures
        r matches AuthError::AzureCli(m) && m@ == cli_message(message@),
{
    AuthError::AzureCli(classify_cli_message(message))
}

} // verus!
