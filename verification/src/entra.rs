//! Microsoft Entra ID configuration (client, tenant, authority, endpoints, scopes), the signed-in
//! account, access tokens and token sets, and the cancellation flag shared with running flows.

use crate::error::AuthError;
use crate::profile::opt_view;
use crate::secret::Secret;
use crate::settings::{effective_client_id, ConnectionSettings};
use crate::text::{chars_of, contains, contains_str, ends_with, ends_with_str, push_str, slice, string_of, trim, trim_chars};
use vstd::prelude::*;

verus! {

broadcast use vstd::string::group_string_axioms;

/// Default authority host (public cloud).
pub const DEFAULT_AUTHORITY_HOST: &'static str = "login.microsoftonline.com";
/// Default tenant: any work or school account.
pub const DEFAULT_TENANT: &'static str = "organizations";
/// The Azure SQL / Fabric SQL resource.
pub const SQL_RESOURCE: &'static str = "https://database.windows.net/";
/// OIDC scopes always asked for: a refresh token and enough of an id_token to show who signed in.
pub const OIDC_SCOPES: &'static str = "offline_access openid profile";
pub const USER_AGENT: &'static str = "CobaltSQLWorks/0.1";

/// How a token request is addressed.
#[derive(Clone, Debug, PartialEq, Eq)]
pub struct EntraConfig {
    /// Public-client application (client) ID. Empty means "not configured".
    pub client_id: String,
    /// `organizations` (default), `common`, `consumers`, a tenant GUID, or a verified domain.
    pub tenant: Option<String>,
    /// Host name (`login.microsoftonline.com`) or a full base URL with scheme.
    pub authority_host: String,
    /// Fixed loopback port for the interactive redirect; `None` = ephemeral.
    pub redirect_port: Option<u16>,
    /// Resource whose `.default` scope is requested.
    pub sql_resource: String,
    /// Send token requests to this URL instead of `{authority}/oauth2/v2.0/token`.
    pub token_endpoint_override: Option<String>,
}

pub struct ConfigView {
    pub client_id: Seq<char>,
    pub tenant: Option<Seq<char>>,
    pub authority_host: Seq<char>,
    pub redirect_port: Option<u16>,
    pub sql_resource: Seq<char>,
    pub token_endpoint_override: Option<Seq<char>>,
}

impl View for EntraConfig {
    type V = ConfigView;

    open spec fn view(&self) -> ConfigView {
        ConfigView {
            client_id: self.client_id@,
            tenant: opt_view(self.tenant),
            authority_host: self.authority_host@,
            redirect_port: self.redirect_port,
            sql_resource: self.sql_resource@,
            token_endpoint_override: opt_view(self.token_endpoint_override),
        }
    }
}

/// Drop every trailing `c`.
pub open spec fn strip_trailing(s: Seq<char>, c: char) -> Seq<char>
    decreases s.len(),
{
    if s.len() > 0 && s.last() == c {
        strip_trailing(s.drop_last(), c)
    } else {
        s
    }
}

/// The tenant in use: the configured one (trimmed) unless blank, else `organizations`.
pub open spec fn tenant_of(c: ConfigView) -> Seq<char> {
    match c.tenant {
        Some(t) if trim(t).len() > 0 => trim(t),
        _ => DEFAULT_TENANT@,
    }
}

/// `https://{host}/{tenant}`, or `{base}/{tenant}` when the host already carries a scheme.
pub open spec fn authority_of(c: ConfigView) -> Seq<char> {
    let host = strip_trailing(trim(c.authority_host), '/');
    let base = if contains(host, "://"@) {
        host
    } else {
        "https://"@ + host
    };
    base + "/"@ + tenant_of(c)
}

pub open spec fn token_endpoint_of(c: ConfigView) -> Seq<char> {
    match c.token_endpoint_override {
        Some(u) => u,
        None => authority_of(c) + "/oauth2/v2.0/token"@,
    }
}

/// `{resource}/.default`.
pub open spec fn sql_scope_of(c: ConfigView) -> Seq<char> {
    let r = trim(c.sql_resource);
    if ends_with(r, "/.default"@) {
        r
    } else {
        strip_trailing(r, '/') + "/.default"@
    }
}

/// The scope string sent on interactive / device-code / refresh requests.
pub open spec fn user_scopes_of(c: ConfigView) -> Seq<char> {
    sql_scope_of(c) + " "@ + OIDC_SCOPES@
}

/// The defaults: no client, public-cloud authority, the SQL resource.
pub open spec fn default_config() -> ConfigView {
    ConfigView {
        client_id: ""@,
        tenant: None,
        authority_host: DEFAULT_AUTHORITY_HOST@,
        redirect_port: None,
        sql_resource: SQL_RESOURCE@,
        token_endpoint_override: None,
    }
}

fn strip_trailing_exec(v: &Vec<char>, c: char) -> (r: Vec<char>)
    ensures
        r@ == strip_trailing(v@, c),
{
    let mut j = v.len();
    assert(v@.take(j as int) =~= v@);
    while j > 0 && v[j - 1] == c
        invariant
            j <= v.len(),
            strip_trailing(v@.take(j as int), c) == strip_trailing(v@, c),
        decreases j,
    {
        assert(v@.take(j as int).drop_last() =~= v@.take(j - 1));
        j = j - 1;
    }
    let r = slice(v, 0, j);
    assert(r@ =~= v@.take(j as int));
    r
}

impl EntraConfig {
    pub fn default() -> (r: Self)
        ensures
            r@ == default_config(),
    {
        EntraConfig {
            client_id: "".to_owned(),
            tenant: None,
            authority_host: DEFAULT_AUTHORITY_HOST.to_owned(),
            redirect_port: None,
            sql_resource: SQL_RESOURCE.to_owned(),
            token_endpoint_override: None,
        }
    }

    pub fn new(client_id: &str) -> (r: Self)
        ensures
            r@ == (ConfigView { client_id: client_id@, ..default_config() }),
    {
        EntraConfig { client_id: client_id.to_owned(), ..EntraConfig::default() }
    }

    /// Build from the persisted user settings.
    pub fn from_settings(s: &ConnectionSettings) -> (r: Self)
        ensures
            r@ == (ConfigView {
                client_id: effective_client_id(s.entra_client_id@),
                tenant: match s.entra_default_tenant {
                    Some(t) if trim(t@).len() > 0 => Some(trim(t@)),
                    _ => None,
                },
                redirect_port: s.entra_redirect_port,
                ..default_config()
            }),
    {
        let tenant = match &s.entra_default_tenant {
            Some(t) => {
                let v = trim_chars(&chars_of(t.as_str()));
                if v.len() > 0 {
                    Some(string_of(&v))
                } else {
                    None
                }
            },
            None => None,
        };
        EntraConfig {
            client_id: s.effective_entra_client_id().to_owned(),
            tenant,
            redirect_port: s.entra_redirect_port,
            ..EntraConfig::default()
        }
    }

    /// The same settings aimed at another resource.
    pub fn with_resource(&self, resource: &str) -> (r: Self)
        ensures
            r@ == (ConfigView { sql_resource: resource@, ..self@ }),
    {
        let mut c = self.duplicate();
        c.sql_resource = resource.to_owned();
        c
    }

    /// A copy with the tenant replaced when `tenant` is given and not blank.
    pub fn with_tenant(&self, tenant: Option<&str>) -> (r: Self)
        ensures
            r@ == match tenant {
                Some(t) if trim(t@).len() > 0 => ConfigView { tenant: Some(trim(t@)), ..self@ },
                _ => self@,
            },
    {
        let mut c = self.duplicate();
        if let Some(t) = tenant {
            let v = trim_chars(&chars_of(t));
            if v.len() > 0 {
                c.tenant = Some(string_of(&v));
            }
        }
        c
    }

    /// An equal copy.
    pub fn duplicate(&self) -> (r: Self)
        ensures
            r@ == self@,
    {
        EntraConfig {
            client_id: self.client_id.clone(),
            tenant: match &self.tenant {
                Some(t) => Some(t.clone()),
                None => None,
            },
            authority_host: self.authority_host.clone(),
            redirect_port: self.redirect_port,
            sql_resource: self.sql_resource.clone(),
            token_endpoint_override: match &self.token_endpoint_override {
                Some(t) => Some(t.clone()),
                None => None,
            },
        }
    }

    fn tenant_chars(&self) -> (r: Vec<char>)
        ensures
            r@ == tenant_of(self@),
    {
        match &self.tenant {
            Some(t) => {
                let v = trim_chars(&chars_of(t.as_str()));
                if v.len() > 0 {
                    v
                } else {
                    chars_of(DEFAULT_TENANT)
                }
            },
            None => chars_of(DEFAULT_TENANT),
        }
    }

    /// The tenant in use.
    pub fn tenant(&self) -> (r: String)
        ensures
            r@ == tenant_of(self@),
    {
        string_of(&self.tenant_chars())
    }

    fn authority_chars(&self) -> (r: Vec<char>)
        ensures
            r@ == authority_of(self@),
    {
        let h = trim_chars(&chars_of(self.authority_host.as_str()));
        let host = strip_trailing_exec(&h, '/');
        let mut base = if contains_str(&host, "://") {
            host
        } else {
            let mut b = chars_of("https://");
            crate::text::push_all(&mut b, &host);
            b
        };
        push_str(&mut base, "/");
        let t = self.tenant_chars();
        crate::text::push_all(&mut base, &t);
        base
    }

    /// `https://login.microsoftonline.com/{tenant}` (no trailing slash).
    pub fn authority(&self) -> (r: String)
        ensures
            r@ == authority_of(self@),
    {
        string_of(&self.authority_chars())
    }

    pub fn authorize_endpoint(&self) -> (r: String)
        ensures
            r@ == authority_of(self@) + "/oauth2/v2.0/authorize"@,
    {
        let mut v = self.authority_chars();
        push_str(&mut v, "/oauth2/v2.0/authorize");
        string_of(&v)
    }

    pub fn token_endpoint(&self) -> (r: String)
        ensures
            r@ == token_endpoint_of(self@),
    {
        match &self.token_endpoint_override {
            Some(u) => u.clone(),
            None => {
                let mut v = self.authority_chars();
                push_str(&mut v, "/oauth2/v2.0/token");
                string_of(&v)
            },
        }
    }

    pub fn device_code_endpoint(&self) -> (r: String)
        ensures
            r@ == authority_of(self@) + "/oauth2/v2.0/devicecode"@,
    {
        let mut v = self.authority_chars();
        push_str(&mut v, "/oauth2/v2.0/devicecode");
        string_of(&v)
    }

    fn sql_scope_chars(&self) -> (r: Vec<char>)
        ensures
            r@ == sql_scope_of(self@),
    {
        let r = trim_chars(&chars_of(self.sql_resource.as_str()));
        if ends_with_str(&r, "/.default") {
            r
        } else {
            let mut s = strip_trailing_exec(&r, '/');
            push_str(&mut s, "/.default");
            s
        }
    }

    /// `https://database.windows.net/.default`
    pub fn sql_scope(&self) -> (r: String)
        ensures
            r@ == sql_scope_of(self@),
    {
        string_of(&self.sql_scope_chars())
    }

    /// The scope string sent on interactive / device-code / refresh requests.
    pub fn user_scopes(&self) -> (r: String)
        ensures
            r@ == user_scopes_of(self@),
    {
        let mut v = self.sql_scope_chars();
        push_str(&mut v, " ");
        push_str(&mut v, OIDC_SCOPES);
        string_of(&v)
    }

    /// The client id (trimmed), or `MissingClientId` when it is blank.
    pub fn require_client_id(&self) -> (r: Result<String, AuthError>)
        ensures
            match r {
                Ok(id) => trim(self.client_id@).len() > 0 && id@ == trim(self.client_id@),
                Err(e) => trim(self.client_id@).len() == 0 && e is MissingClientId,
            },
    {
        let v = trim_chars(&chars_of(self.client_id.as_str()));
        if v.len() == 0 {
            Err(AuthError::MissingClientId)
        } else {
            Ok(string_of(&v))
        }
    }
}

/// Who signed in, from the id_token (or the access token's claims).
#[derive(Clone, Debug, PartialEq, Eq)]
pub struct EntraAccount {
    /// `preferred_username` (usually the UPN / e-mail).
    pub username: String,
    /// Display name.
    pub name: Option<String>,
    /// Tenant the account authenticated in (`tid`).
    pub tenant_id: Option<String>,
    /// MSAL-style `{oid}.{tid}`; stable across sign-ins.
    pub home_account_id: Option<String>,
}

pub struct AccountView {
    pub username: Seq<char>,
    pub name: Option<Seq<char>>,
    pub tenant_id: Option<Seq<char>>,
    pub home_account_id: Option<Seq<char>>,
}

impl View for EntraAccount {
    type V = AccountView;

    open spec fn view(&self) -> AccountView {
        AccountView {
            username: self.username@,
            name: opt_view(self.name),
            tenant_id: opt_view(self.tenant_id),
            home_account_id: opt_view(self.home_account_id),
        }
    }
}

pub open spec fn empty_account() -> AccountView {
    AccountView { username: seq![], name: None, tenant_id: None, home_account_id: None }
}

fn opt_clone(o: &Option<String>) -> (r: Option<String>)
    ensures
        opt_view(r) == opt_view(*o),
{
    match o {
        Some(s) => Some(s.clone()),
        None => None,
    }
}

impl EntraAccount {
    /// No account: empty user name, nothing else known.
    pub fn default() -> (r: Self)
        ensures
            r@ == empty_account(),
    {
        EntraAccount { username: String::new(), name: None, tenant_id: None, home_account_id: None }
    }

    /// An equal copy.
    pub fn duplicate(&self) -> (r: Self)
        ensures
            r@ == self@,
    {
        EntraAccount {
            username: self.username.clone(),
            name: opt_clone(&self.name),
            tenant_id: opt_clone(&self.tenant_id),
            home_account_id: opt_clone(&self.home_account_id),
        }
    }

    /// Whether this is the empty account.
    pub fn is_unknown(&self) -> (r: bool)
        ensures
            r == (self@ == empty_account()),
    {
        let r = self.username.as_str().is_empty() && self.name.is_none() && self.tenant_id.is_none()
            && self.home_account_id.is_none();
        proof {
            if self.username@.len() == 0 {
                assert(self.username@ =~= Seq::<char>::empty());
            }
        }
        r
    }
}

/// A bearer token and when it expires (milliseconds since the Unix epoch).
pub struct AccessToken {
    pub token: Secret,
    pub expires_at: i64,
    /// Space-separated scopes actually granted.
    pub scope: String,
}

/// The current time in milliseconds since the Unix epoch:
/// `DateTime::<Utc>::from(SystemTime::now())`, which, unlike `Utc::now`, also accepts a clock
/// set before 1970. chrono's `DateTime<Utc>` spans about ±262,000 years, so the value is within
/// that range; a system clock set outside it makes the conversion panic, which this contract
/// leaves unsaid.
#[verifier::external_body]
pub(crate) fn now_millis() -> (r: i64)
    ensures
        crate::token::sane_now(r),
{
    chrono::DateTime::<chrono::Utc>::from(std::time::SystemTime::now()).timestamp_millis()
}

/// The margin that counts: one too large to represent counts as none.
pub open spec fn effective_margin(margin_ms: u64) -> int {
    if margin_ms <= i64::MAX as u64 {
        margin_ms as int
    } else {
        0
    }
}

impl AccessToken {
    /// True when, at `now`, the token is still good for at least `margin_ms` more.
    pub fn is_valid_at(&self, margin_ms: u64, now: i64) -> (r: bool)
        ensures
            r == (self.expires_at - effective_margin(margin_ms) > now),
    {
        let m: i128 = if margin_ms <= i64::MAX as u64 {
            margin_ms as i128
        } else {
            0
        };
        (self.expires_at as i128) - m > now as i128
    }

    /// True when the token is still good for at least `margin_ms` more, by the clock.
    pub fn is_valid_for(&self, margin_ms: u64) -> (r: bool)
        ensures
            exists|now: i64| crate::token::sane_now(now) && r == (self.expires_at - effective_margin(margin_ms) > now),
    {
        let now = now_millis();
        self.is_valid_at(margin_ms, now)
    }

    /// An equal copy.
    pub fn duplicate(&self) -> (r: Self)
        ensures
            r.token == self.token,
            r.expires_at == self.expires_at,
            r.scope@ == self.scope@,
    {
        AccessToken { token: self.token.duplicate(), expires_at: self.expires_at, scope: self.scope.clone() }
    }
}

/// An access token, the refresh token that came with it, and who signed in.
pub struct TokenSet {
    pub access: AccessToken,
    pub refresh: Option<Secret>,
    pub account: EntraAccount,
}

impl TokenSet {
    /// An equal copy.
    pub fn duplicate(&self) -> (r: Self)
        ensures
            r.access.token == self.access.token,
            r.access.expires_at == self.access.expires_at,
            r.access.scope@ == self.access.scope@,
            r.refresh == self.refresh,
            r.account@ == self.account@,
    {
        TokenSet {
            access: self.access.duplicate(),
            refresh: match &self.refresh {
                Some(s) => Some(s.duplicate()),
                None => None,
            },
            account: self.account.duplicate(),
        }
    }
}

} // verus!
