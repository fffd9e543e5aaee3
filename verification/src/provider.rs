//! The per-profile credential policy: what to do when a connection needs credentials.
//!
//! - SQL login: stored password → prompt.
//! - Entra interactive / device code: unexpired cached token → silent refresh from the stored
//!   refresh token → interactive flow (browser or device code).
//! - Azure CLI, Windows integrated, service principal: straight through.
//!
//! The resolver decides; the steps that talk to the network (refresh, sign-in, CLI, client
//! credentials) are returned as a [`Step`] for the caller to run, and their outcome is handed
//! back to [`CredentialResolver::after_refresh`], [`CredentialResolver::after_sign_in`] or
//! [`after_token`].

use crate::entra::{now_millis, AccessToken, ConfigView, EntraAccount, EntraConfig, TokenSet, empty_account};
use crate::error::AuthError;
use crate::flows::DeviceCodePrompt;
use crate::ids::ProfileId;
use crate::profile::{AuthMethod, ConnectionProfile, ResolvedCredentials};
use crate::secret::{Secret, SecretRef};
use crate::secrets::SecretStore;
use crate::text::trim;
use crate::token::sane_now;
use vstd::hash_map::HashMapWithView;
use vstd::prelude::*;

verus! {

broadcast use {vstd::string::group_string_axioms, vstd::std_specs::hash::group_hash_axioms};

/// A cached access token is reused only if it has at least this long left, in milliseconds.
pub const TOKEN_MARGIN: u64 = 60_000;

/// `SecretRef` kind under which a profile's Entra refresh token is stored.
pub const REFRESH_TOKEN_KIND: &'static str = "refresh_token";

/// How the resolver talks to the user. Implemented by the UI; [`HeadlessPrompter`] for tests.
pub trait Prompter {
    /// Ask for a SQL login (or service-principal) password. `Ok(None)` = the user cancelled.
    fn password(&mut self, profile: &ConnectionProfile) -> Result<Option<Secret>, AuthError>;

    /// Open the interactive sign-in URL.
    fn open_browser(&mut self, url: &str);

    /// Show the device code and where to enter it.
    fn device_code(&mut self, prompt: &DeviceCodePrompt);

    /// Polled while a browser / device-code flow is in progress.
    fn cancelled(&self) -> bool;
}

/// Which interactive flow a user token comes from when nothing silent works.
pub enum UserFlow {
    Interactive { login_hint: Option<String> },
    DeviceCode,
}

impl UserFlow {
    /// An equal copy.
    pub fn duplicate(&self) -> (r: Self)
        ensures
            r == *self,
    {
        match self {
            UserFlow::Interactive { login_hint } => UserFlow::Interactive {
                login_hint: match login_hint {
                    Some(h) => Some(h.clone()),
                    None => None,
                },
            },
            UserFlow::DeviceCode => UserFlow::DeviceCode,
        }
    }
}

/// What resolving credentials needs next.
pub enum Step {
    /// Resolution is over.
    Done(Result<ResolvedCredentials, AuthError>),
    /// Renew silently from this refresh token, then hand the outcome to `after_refresh`.
    Refresh { cfg: EntraConfig, refresh_token: Secret, flow: UserFlow },
    /// Run the interactive or device-code flow, then hand the outcome to `after_sign_in`.
    SignIn { cfg: EntraConfig, flow: UserFlow },
    /// Ask the user for the SQL login's password or the service principal's secret (nothing is
    /// stored), then hand the answer to `after_password`.
    Password,
    /// Ask the Azure CLI for a token (for this tenant), then hand the outcome to [`after_token`].
    AzureCli { tenant: Option<String> },
    /// Run the client-credentials grant, then hand the outcome to [`after_token`].
    ServicePrincipal { cfg: EntraConfig, tenant: String, client_id: String, secret: Secret },
}

/// The credentials a token set stands for.
pub open spec fn creds_of(ts: TokenSet) -> ResolvedCredentials {
    ResolvedCredentials::EntraToken { token: ts.access.token, expires_at: Some(ts.access.expires_at) }
}

/// The credentials of a token set.
pub fn token_creds(ts: &TokenSet) -> (r: ResolvedCredentials)
    ensures
        r == creds_of(*ts),
{
    ResolvedCredentials::EntraToken { token: ts.access.token.duplicate(), expires_at: Some(ts.access.expires_at) }
}

/// The credentials an access token from the Azure CLI or a client-credentials grant gives.
pub fn after_token(outcome: Result<AccessToken, AuthError>) -> (r: Result<ResolvedCredentials, AuthError>)
    ensures
        match outcome {
            Ok(t) => r == Ok::<ResolvedCredentials, AuthError>(
                ResolvedCredentials::EntraToken { token: t.token, expires_at: Some(t.expires_at) },
            ),
            Err(e) => r == Err::<ResolvedCredentials, AuthError>(e),
        },
{
    match outcome {
        Ok(t) => Ok(ResolvedCredentials::EntraToken { token: t.token, expires_at: Some(t.expires_at) }),
        Err(e) => Err(e),
    }
}

/// The secret a password prompt gave: what the user typed, [`AuthError::Cancelled`] when they
/// cancelled, or the prompt's own error.
pub fn prompted_secret(answer: Result<Option<Secret>, AuthError>) -> (r: Result<Secret, AuthError>)
    ensures
        match answer {
            Ok(Some(p)) => r == Ok::<Secret, AuthError>(p),
            Ok(None) => r == Err::<Secret, AuthError>(AuthError::Cancelled),
            Err(e) => r == Err::<Secret, AuthError>(e),
        },
{
    match answer {
        Ok(Some(p)) => Ok(p),
        Ok(None) => Err(AuthError::Cancelled),
        Err(e) => Err(e),
    }
}

/// The configuration with the profile's tenant, when it names one.
pub open spec fn tenant_config(c: ConfigView, tenant: Option<String>) -> ConfigView {
    match tenant {
        Some(t) => if trim(t@).len() > 0 {
            ConfigView { tenant: Some(trim(t@)), ..c }
        } else {
            c
        },
        None => c,
    }
}

/// The key a profile's refresh token is stored under.
pub open spec fn refresh_key(id: ProfileId) -> Seq<char> {
    id.text() + seq![':'] + REFRESH_TOKEN_KIND@
}

/// A cached token is still good at `now` for at least [`TOKEN_MARGIN`].
pub open spec fn fresh_at(ts: TokenSet, now: i64) -> bool {
    ts.access.expires_at - TOKEN_MARGIN > now
}

/// `after` is `before` with `id` signed out: its cached token dropped and, in a store that
/// keeps what it is given, its refresh token deleted.
pub open spec fn forgets<S: SecretStore>(before: CredentialResolver<S>, after: CredentialResolver<S>, id: ProfileId) -> bool {
    &&& after.cached() == before.cached().remove(id.0)
    &&& after.settings() == before.settings()
    &&& after.store().keeps() == before.store().keeps()
    &&& before.store().keeps() ==> after.store().contents() == before.store().contents().remove(refresh_key(id))
}

/// `after` is `before` with `ts` remembered for `id`: cached and, in a store that keeps what it
/// is given, its refresh token (when it has one) stored under the profile's key.
pub open spec fn remembers<S: SecretStore>(
    before: CredentialResolver<S>,
    after: CredentialResolver<S>,
    id: ProfileId,
    ts: TokenSet,
) -> bool {
    &&& after.cached() == before.cached().insert(id.0, ts)
    &&& after.settings() == before.settings()
    &&& after.store().keeps() == before.store().keeps()
    &&& before.store().keeps() ==> after.store().contents() == match ts.refresh {
        Some(rt) => before.store().contents().insert(refresh_key(id), rt.value()),
        None => before.store().contents(),
    }
}

pub struct CredentialResolver<S: SecretStore> {
    secrets: S,
    cfg: EntraConfig,
    cache: HashMapWithView<u128, TokenSet>,
}

impl<S: SecretStore> CredentialResolver<S> {
    /// The token sets acquired in this process, by profile.
    pub closed spec fn cached(&self) -> Map<u128, TokenSet> {
        self.cache@
    }

    /// The secret store.
    pub closed spec fn store(&self) -> S {
        self.secrets
    }

    /// The Entra settings.
    pub closed spec fn settings(&self) -> ConfigView {
        self.cfg@
    }

    pub fn new(secrets: S, cfg: EntraConfig) -> (r: Self)
        ensures
            r.cached() == Map::<u128, TokenSet>::empty(),
            r.store() == secrets,
            r.settings() == cfg@,
    {
        proof {
            broadcast use vstd::std_specs::hash::axiom_u128_obeys_hash_table_key_model;
        }
        CredentialResolver { secrets, cfg, cache: HashMapWithView::new() }
    }

    pub fn config(&self) -> (r: EntraConfig)
        ensures
            r@ == self.settings(),
    {
        self.cfg.duplicate()
    }

    /// Replace the Entra settings (after the user edits Settings → Connections).
    pub fn set_config(&mut self, cfg: EntraConfig)
        ensures
            final(self).settings() == cfg@,
            final(self).cached() == old(self).cached(),
            final(self).store() == old(self).store(),
    {
        self.cfg = cfg;
    }

    pub fn secrets(&self) -> (r: &S)
        ensures
            *r == self.store(),
    {
        &self.secrets
    }

    /// Where a profile's refresh token is stored.
    pub fn refresh_token_ref(profile_id: &ProfileId) -> (r: SecretRef)
        ensures
            r.key@ == refresh_key(*profile_id),
    {
        SecretRef::for_profile(profile_id, REFRESH_TOKEN_KIND)
    }

    /// Drop the stored refresh token and any cached token for a profile ("Sign out").
    pub fn forget(&mut self, profile_id: &ProfileId) -> (r: Result<(), AuthError>)
        ensures
            forgets(*old(self), *final(self), *profile_id),
            old(self).store().keeps() ==> r is Ok,
    {
        self.cache.remove(&profile_id.0);
        assert(self.cached() =~= old(self).cached().remove(profile_id.0));
        let rt = Self::refresh_token_ref(profile_id);
        self.secrets.delete(&rt)
    }

    /// The account behind the cached token, if this process has acquired one for the profile.
    pub fn signed_in_account(&self, profile_id: &ProfileId) -> (r: Option<EntraAccount>)
        ensures
            match r {
                Some(a) => self.cached().contains_key(profile_id.0) && a@ == self.cached()[profile_id.0].account@,
                None => !self.cached().contains_key(profile_id.0),
            },
    {
        match self.cache.get(&profile_id.0) {
            Some(t) => Some(t.account.duplicate()),
            None => None,
        }
    }

    /// Whether a refresh token is stored for the profile (i.e. a silent sign-in is likely).
    pub fn is_remembered(&self, profile_id: &ProfileId) -> (r: bool)
        ensures
            self.store().keeps() ==> r == self.store().contents().contains_key(refresh_key(*profile_id)),
    {
        let rt = Self::refresh_token_ref(profile_id);
        match self.secrets.get(&rt) {
            Ok(Some(_)) => true,
            _ => false,
        }
    }

    /// Put a token set in the in-memory cache (and persist its refresh token). Public so the
    /// app can pre-warm from a flow it ran itself, and for tests.
    pub fn insert_cached(&mut self, profile_id: ProfileId, set: TokenSet)
        ensures
            remembers(*old(self), *final(self), profile_id, set),
    {
        self.remember(profile_id, set);
    }

    fn remember(&mut self, id: ProfileId, ts: TokenSet)
        ensures
            remembers(*old(self), *final(self), id, ts),
    {
        if let Some(rt) = &ts.refresh {
            let r = Self::refresh_token_ref(&id);
            let _ = self.secrets.set(&r, rt);
        }
        self.cache.insert(id.0, ts);
    }

    /// The stored password of a SQL login or secret of a service principal, if there is one; a
    /// store error is passed on.
    fn stored_secret(&self, stored: &Option<SecretRef>) -> (r: Result<Option<Secret>, AuthError>)
        ensures
            stored is None ==> r matches Ok(None),
            self.store().keeps() ==> match stored {
                Some(sr) => if self.store().contents().contains_key(sr.key@) {
                    r matches Ok(Some(s)) && s.value() == self.store().contents()[sr.key@]
                } else {
                    r matches Ok(None)
                },
                None => true,
            },
    {
        match stored {
            Some(sr) => self.secrets.get(sr),
            None => Ok(None),
        }
    }

    /// The first step for a user token: the cached token when it is still good, else a silent
    /// refresh when a refresh token is stored or cached, else the sign-in flow.
    fn user_step(&self, id: ProfileId, tenant: &Option<String>, flow: UserFlow, now: i64) -> (r: Step)
        ensures
            user_step_outcome(self, id, *tenant, r, now),
            r matches Step::Refresh { flow: f, .. } ==> f == flow,
            r matches Step::SignIn { flow: f, .. } ==> f == flow,
    {
        let t = match tenant {
            Some(s) => Some(s.as_str()),
            None => None,
        };
        let cfg = self.cfg.with_tenant(t);
        if let Err(e) = cfg.require_client_id() {
            return Step::Done(Err(e));
        }
        let cached = self.cache.get(&id.0);
        if let Some(ts) = cached {
            if ts.access.is_valid_at(TOKEN_MARGIN, now) {
                return Step::Done(Ok(token_creds(ts)));
            }
        }
        let rt_ref = Self::refresh_token_ref(&id);
        let stored_rt = match self.secrets.get(&rt_ref) {
            Ok(rt) => rt,
            Err(_) => None,
        };
        let rt = match stored_rt {
            Some(s) => Some(s),
            None => match cached {
                Some(ts) => match &ts.refresh {
                    Some(s) => Some(s.duplicate()),
                    None => None,
                },
                None => None,
            },
        };
        match rt {
            Some(refresh_token) => Step::Refresh { cfg, refresh_token, flow },
            None => Step::SignIn { cfg, flow },
        }
    }

    /// The first step of resolving credentials for `profile` at time `now` (milliseconds),
    /// asking `prompt` for a password when nothing is stored.
    pub fn begin_at(&self, profile: &ConnectionProfile, now: i64) -> (r: Step)
        ensures
            begin_outcome(*self, *profile, r, now),
    {
        match &profile.auth {
            AuthMethod::SqlLogin { password, .. } => {
                let found = self.stored_secret(password);
                self.after_lookup(profile, found)
            },
            AuthMethod::EntraInteractive { tenant, account_hint } => {
                let hint = match account_hint {
                    Some(h) => Some(h.clone()),
                    None => None,
                };
                self.user_step(profile.id, tenant, UserFlow::Interactive { login_hint: hint }, now)
            },
            AuthMethod::EntraDeviceCode { tenant } => {
                self.user_step(profile.id, tenant, UserFlow::DeviceCode, now)
            },
            AuthMethod::AzureCli { tenant } => {
                let t = match tenant {
                    Some(x) => Some(x.clone()),
                    None => match &self.cfg.tenant {
                        Some(x) => Some(x.clone()),
                        None => None,
                    },
                };
                Step::AzureCli { tenant: t }
            },
            AuthMethod::WindowsIntegrated => Step::Done(Ok(ResolvedCredentials::WindowsIntegrated)),
            AuthMethod::EntraServicePrincipal { secret, .. } => {
                let found = self.stored_secret(secret);
                self.after_lookup(profile, found)
            },
        }
    }

    /// The step after looking up the stored password of a SQL login or secret of a service
    /// principal: a stored one is used, none asks the user ([`Step::Password`]), and a store
    /// error ends resolution as it is.
    pub fn after_lookup(&self, profile: &ConnectionProfile, found: Result<Option<Secret>, AuthError>) -> (r: Step)
        requires
            profile.auth is SqlLogin || profile.auth is EntraServicePrincipal,
        ensures
            match found {
                Ok(None) => r == Step::Password,
                Err(e) => r == Step::Done(Err(e)),
                Ok(Some(p)) => match profile.auth {
                    AuthMethod::SqlLogin { user, .. } => r matches Step::Done(
                        Ok(ResolvedCredentials::SqlLogin { user: u, password: q }),
                    ) && u@ == user@ && q == p,
                    AuthMethod::EntraServicePrincipal { tenant, client_id, .. } => r matches Step::ServicePrincipal {
                        cfg,
                        tenant: t,
                        client_id: c,
                        secret: q,
                    } && cfg@ == self.settings() && t == tenant && c == client_id && q == p,
                    _ => false,
                },
            },
    {
        match found {
            Ok(None) => Step::Password,
            Err(e) => Step::Done(Err(e)),
            Ok(Some(p)) => self.with_secret(profile, p),
        }
    }

    /// The step a known password or secret gives.
    fn with_secret(&self, profile: &ConnectionProfile, p: Secret) -> (r: Step)
        requires
            profile.auth is SqlLogin || profile.auth is EntraServicePrincipal,
        ensures
            match profile.auth {
                AuthMethod::SqlLogin { user, .. } => r matches Step::Done(
                    Ok(ResolvedCredentials::SqlLogin { user: u, password: q }),
                ) && u@ == user@ && q == p,
                AuthMethod::EntraServicePrincipal { tenant, client_id, .. } => r matches Step::ServicePrincipal {
                    cfg,
                    tenant: t,
                    client_id: c,
                    secret: q,
                } && cfg@ == self.settings() && t == tenant && c == client_id && q == p,
                _ => false,
            },
    {
        match &profile.auth {
            AuthMethod::SqlLogin { user, .. } => Step::Done(Ok(ResolvedCredentials::SqlLogin { user: user.clone(), password: p })),
            AuthMethod::EntraServicePrincipal { tenant, client_id, .. } => Step::ServicePrincipal {
                cfg: self.cfg.duplicate(),
                tenant: tenant.clone(),
                client_id: client_id.clone(),
                secret: p,
            },
            _ => Step::Done(Err(AuthError::Cancelled)),
        }
    }

    /// The first step of resolving credentials for `profile`, by the clock.
    pub fn begin(&self, profile: &ConnectionProfile) -> (r: Step)
        ensures
            exists|now: i64| sane_now(now) && begin_outcome(*self, *profile, r, now),
    {
        let now = now_millis();
        self.begin_at(profile, now)
    }

    /// Continue after a [`Step::Password`] with the user's answer: what they typed becomes the
    /// SQL login's password or the service principal's secret, a cancelled prompt ends with
    /// [`AuthError::Cancelled`], and the prompt's own error ends resolution as it is.
    pub fn after_password(&self, profile: &ConnectionProfile, answer: Result<Option<Secret>, AuthError>) -> (r: Step)
        requires
            profile.auth is SqlLogin || profile.auth is EntraServicePrincipal,
        ensures
            match answer {
                Ok(None) => r == Step::Done(Err(AuthError::Cancelled)),
                Err(e) => r == Step::Done(Err(e)),
                Ok(Some(p)) => match profile.auth {
                    AuthMethod::SqlLogin { user, .. } => r matches Step::Done(
                        Ok(ResolvedCredentials::SqlLogin { user: u, password: q }),
                    ) && u@ == user@ && q == p,
                    AuthMethod::EntraServicePrincipal { tenant, client_id, .. } => r matches Step::ServicePrincipal {
                        cfg,
                        tenant: t,
                        client_id: c,
                        secret: q,
                    } && cfg@ == self.settings() && t == tenant && c == client_id && q == p,
                    _ => false,
                },
            },
    {
        match prompted_secret(answer) {
            Ok(p) => self.with_secret(profile, p),
            Err(e) => Step::Done(Err(e)),
        }
    }

    /// Continue after a silent refresh. A renewed set is cached (keeping the previous account
    /// when the answer named none) and used; a rejected refresh token is forgotten and the
    /// sign-in flow comes next; any other failure ends resolution.
    pub fn after_refresh(
        &mut self,
        id: ProfileId,
        cfg: EntraConfig,
        flow: UserFlow,
        outcome: Result<TokenSet, AuthError>,
    ) -> (r: Step)
        ensures
            final(self).settings() == old(self).settings(),
            final(self).store().keeps() == old(self).store().keeps(),
            refresh_outcome(*old(self), *final(self), id, cfg, flow, outcome, r),
    {
        match outcome {
            Ok(ts) => {
                let mut ts = ts;
                if ts.account.is_unknown() {
                    if let Some(prev) = self.cache.get(&id.0) {
                        ts.account = prev.account.duplicate();
                    }
                }
                let creds = token_creds(&ts);
                self.remember(id, ts);
                Step::Done(Ok(creds))
            },
            Err(e) => {
                let rejected = match &e {
                    AuthError::InteractionRequired(_) => true,
                    AuthError::Provider { .. } => true,
                    _ => false,
                };
                if rejected {
                    let rt_ref = Self::refresh_token_ref(&id);
                    let _ = self.secrets.delete(&rt_ref);
                    self.cache.remove(&id.0);
                    proof {
                        assert(self.cached() =~= old(self).cached().remove(id.0));
                    }
                    Step::SignIn { cfg, flow }
                } else {
                    Step::Done(Err(e))
                }
            },
        }
    }

    /// Finish after the interactive or device-code flow: a new token set is cached and used.
    pub fn after_sign_in(&mut self, id: ProfileId, outcome: Result<TokenSet, AuthError>) -> (r: Result<
        ResolvedCredentials,
        AuthError,
    >)
        ensures
            final(self).settings() == old(self).settings(),
            final(self).store().keeps() == old(self).store().keeps(),
            match outcome {
                Ok(ts) => {
                    &&& r == Ok::<ResolvedCredentials, AuthError>(creds_of(ts))
                    &&& remembers(*old(self), *final(self), id, ts)
                },
                Err(e) => {
                    &&& r == Err::<ResolvedCredentials, AuthError>(e)
                    &&& final(self).cached() == old(self).cached()
                    &&& final(self).store() == old(self).store()
                },
            },
    {
        match outcome {
            Ok(ts) => {
                let creds = token_creds(&ts);
                self.remember(id, ts);
                Ok(creds)
            },
            Err(e) => Err(e),
        }
    }
}

/// What the first step of resolving credentials for `profile` at time `now` is: windows
/// credentials pass through; a SQL login or a service principal uses the stored secret when one
/// is stored and asks for it ([`Step::Password`]) when none is, passing on a store error; user
/// tokens follow [`user_step_outcome`]; the Azure CLI gets the profile's tenant or the
/// configured one.
pub open spec fn begin_outcome<S: SecretStore>(res: CredentialResolver<S>, profile: ConnectionProfile, r: Step, now: i64) -> bool {
    match profile.auth {
        AuthMethod::WindowsIntegrated => r == Step::Done(Ok(ResolvedCredentials::WindowsIntegrated)),
        AuthMethod::SqlLogin { user, password } => {
            &&& (r is Password || r is Done)
            &&& r matches Step::Done(Ok(c)) ==> c matches ResolvedCredentials::SqlLogin {
                user: u,
                ..
            } && u@ == user@
            &&& password is None ==> r is Password
            &&& r matches Step::Done(Err(_)) ==> password is Some && !res.store().keeps()
            &&& res.store().keeps() ==> match password {
                Some(sr) => if res.store().contents().contains_key(sr.key@) {
                    r matches Step::Done(Ok(ResolvedCredentials::SqlLogin { password: p, .. })) && p.value()
                        == res.store().contents()[sr.key@]
                } else {
                    r is Password
                },
                None => true,
            }
        },
        AuthMethod::EntraInteractive { tenant, account_hint } => {
            &&& r matches Step::Refresh { flow, .. } ==> flow == (UserFlow::Interactive { login_hint: account_hint })
            &&& r matches Step::SignIn { flow, .. } ==> flow == (UserFlow::Interactive { login_hint: account_hint })
            &&& user_step_outcome(&res, profile.id, tenant, r, now)
        },
        AuthMethod::EntraDeviceCode { tenant } => {
            &&& r matches Step::Refresh { flow, .. } ==> flow == UserFlow::DeviceCode
            &&& r matches Step::SignIn { flow, .. } ==> flow == UserFlow::DeviceCode
            &&& user_step_outcome(&res, profile.id, tenant, r, now)
        },
        AuthMethod::AzureCli { tenant } => {
            r matches Step::AzureCli { tenant: t } && crate::profile::opt_view(t) == match tenant {
                Some(x) => Some(x@),
                None => res.settings().tenant,
            }
        },
        AuthMethod::EntraServicePrincipal { tenant, client_id, secret } => {
            &&& (r is ServicePrincipal || r is Password || r matches Step::Done(Err(_)))
            &&& r matches Step::ServicePrincipal { cfg, tenant: t, client_id: c, .. } ==> cfg@
                == res.settings() && t == tenant && c == client_id
            &&& secret is None ==> r is Password
            &&& r matches Step::Done(Err(_)) ==> secret is Some && !res.store().keeps()
            &&& res.store().keeps() ==> match secret {
                Some(sr) => if res.store().contents().contains_key(sr.key@) {
                    r matches Step::ServicePrincipal { secret: s, .. } && s.value() == res.store().contents()[sr.key@]
                } else {
                    r is Password
                },
                None => true,
            }
        },
    }
}

/// What the first step for a user token is, as [`CredentialResolver::begin_at`] states it.
pub open spec fn user_step_outcome<S: SecretStore>(
    res: &CredentialResolver<S>,
    id: ProfileId,
    tenant: Option<String>,
    r: Step,
    now: i64,
) -> bool {
    let c = tenant_config(res.settings(), tenant);
    let key = refresh_key(id);
    if trim(c.client_id).len() == 0 {
        r matches Step::Done(Err(AuthError::MissingClientId))
    } else if res.cached().contains_key(id.0) && fresh_at(res.cached()[id.0], now) {
        r == Step::Done(Ok(creds_of(res.cached()[id.0])))
    } else {
        &&& r matches Step::Refresh { cfg, refresh_token, .. } ==> cfg@ == c && (res.store().keeps()
            ==> refresh_token.value() == if res.store().contents().contains_key(key) {
            res.store().contents()[key]
        } else {
            res.cached()[id.0].refresh.unwrap().value()
        })
        &&& r matches Step::SignIn { cfg, .. } ==> cfg@ == c
        &&& (r is Refresh || r is SignIn)
        &&& res.store().keeps() ==> (r is Refresh <==> (res.store().contents().contains_key(key) || (
        res.cached().contains_key(id.0) && res.cached()[id.0].refresh is Some)))
    }
}

/// What [`CredentialResolver::after_refresh`] does with the outcome of a silent refresh:
/// `before` and `after` are the resolver before and after, `r` the step it returns.
pub open spec fn refresh_outcome<S: SecretStore>(
    before: CredentialResolver<S>,
    after: CredentialResolver<S>,
    id: ProfileId,
    cfg: EntraConfig,
    flow: UserFlow,
    outcome: Result<TokenSet, AuthError>,
    r: Step,
) -> bool {
    match outcome {
        Ok(ts) => {
            &&& after.cached().contains_key(id.0)
            &&& after.cached() == before.cached().insert(id.0, after.cached()[id.0])
            &&& r == Step::Done(Ok(creds_of(after.cached()[id.0])))
            &&& after.cached()[id.0].access == ts.access
            &&& after.cached()[id.0].refresh == ts.refresh
            &&& after.cached()[id.0].account@ == if ts.account@ == empty_account()
                && before.cached().contains_key(id.0) {
                before.cached()[id.0].account@
            } else {
                ts.account@
            }
            &&& before.store().keeps() ==> after.store().contents() == match ts.refresh {
                Some(rt) => before.store().contents().insert(refresh_key(id), rt.value()),
                None => before.store().contents(),
            }
        },
        Err(e) => if e is InteractionRequired || e is Provider {
            &&& r == (Step::SignIn { cfg, flow })
            &&& after.cached() == before.cached().remove(id.0)
            &&& before.store().keeps() ==> after.store().contents() == before.store().contents().remove(refresh_key(id))
        } else {
            &&& r == Step::Done(Err(e))
            &&& after.cached() == before.cached()
            &&& after.store() == before.store()
        },
    }
}

/// The order in which a user token is found, across the steps of one resolution (with a client
/// id configured, and a store that keeps what it is given): a cached token that is still good
/// for [`TOKEN_MARGIN`] is used as it is, with no refresh and no sign-in; otherwise a refresh
/// token stored for the profile (or cached with it) is tried first; a refresh that succeeds
/// gives its access token, caches the new set and stores its refresh token, with no sign-in;
/// and the sign-in flow comes only when there is no refresh token, or the identity provider
/// rejected it. `r1` is the first step for the profile at `now`, and, when it is a refresh,
/// `res1` and `r2` are the resolver and the step after `after_refresh` with its `outcome`.
pub proof fn law_token_policy<S: SecretStore>(
    res0: CredentialResolver<S>,
    id: ProfileId,
    tenant: Option<String>,
    now: i64,
    r1: Step,
    res1: CredentialResolver<S>,
    outcome: Result<TokenSet, AuthError>,
    r2: Step,
)
    requires
        res0.store().keeps(),
        trim(tenant_config(res0.settings(), tenant).client_id).len() > 0,
        user_step_outcome(&res0, id, tenant, r1, now),
        r1 matches Step::Refresh { cfg, flow, .. } ==> refresh_outcome(res0, res1, id, cfg, flow, outcome, r2),
    ensures
        res0.cached().contains_key(id.0) && fresh_at(res0.cached()[id.0], now) ==> r1 == Step::Done(
            Ok(creds_of(res0.cached()[id.0])),
        ),
        !(res0.cached().contains_key(id.0) && fresh_at(res0.cached()[id.0], now)) && (
        res0.store().contents().contains_key(refresh_key(id)) || (res0.cached().contains_key(id.0)
            && res0.cached()[id.0].refresh is Some)) ==> r1 is Refresh,
        r1 is SignIn ==> !res0.store().contents().contains_key(refresh_key(id)) && !(res0.cached().contains_key(
            id.0,
        ) && res0.cached()[id.0].refresh is Some),
        r1 is Refresh && outcome is Ok ==> {
            let ts = outcome->Ok_0;
            &&& r2 == Step::Done(Ok(creds_of(res1.cached()[id.0])))
            &&& creds_of(res1.cached()[id.0]) == creds_of(ts)
            &&& res1.cached()[id.0].access == ts.access
            &&& ts.refresh matches Some(rt) ==> (res1.store().contents().contains_key(refresh_key(id))
                && res1.store().contents()[refresh_key(id)] == rt.value())
        },
        r1 is Refresh && r2 is SignIn ==> (outcome matches Err(e) && (e is InteractionRequired || e is Provider)),
{
}

/// After a sign-out (`forget`) the profile has no cached token, so `signed_in_account` answers
/// `None`; a store that keeps what it is given holds no refresh token for it, so
/// `is_remembered` answers `false`. Other profiles keep their cached tokens.
pub proof fn law_forget_clears<S: SecretStore>(
    before: CredentialResolver<S>,
    after: CredentialResolver<S>,
    id: ProfileId,
)
    requires
        forgets(before, after, id),
    ensures
        !after.cached().contains_key(id.0),
        after.store().keeps() ==> !after.store().contents().contains_key(refresh_key(id)),
        forall|other: u128|
            other != id.0 ==> #[trigger] after.cached().contains_key(other) == before.cached().contains_key(other)
                && (after.cached().contains_key(other) ==> after.cached()[other] == before.cached()[other]),
{
}

/// After a token set is remembered for a profile (a finished sign-in, a refresh, or
/// `insert_cached`), `signed_in_account` answers its account; when it carries a refresh token, a
/// store that keeps what it is given holds that token under the profile's key, so
/// `is_remembered` answers `true` and the next resolution can refresh silently. Other profiles
/// keep their cached tokens.
pub proof fn law_remember_then_lookup<S: SecretStore>(
    before: CredentialResolver<S>,
    after: CredentialResolver<S>,
    id: ProfileId,
    ts: TokenSet,
)
    requires
        remembers(before, after, id, ts),
    ensures
        after.cached().contains_key(id.0) && after.cached()[id.0] == ts,
        after.store().keeps() && ts.refresh is Some ==> after.store().contents().contains_key(refresh_key(id))
            && after.store().contents()[refresh_key(id)] == ts.refresh.unwrap().value(),
        forall|other: u128|
            other != id.0 ==> #[trigger] after.cached().contains_key(other) == before.cached().contains_key(other)
                && (after.cached().contains_key(other) ==> after.cached()[other] == before.cached()[other]),
{
}

// ---------------------------------------------------------------------------------------------

/// A [`Prompter`] with canned answers, for tests and headless use. Records everything it is
/// asked so tests can check the prompt order.
pub struct HeadlessPrompter {
    password: Option<Secret>,
    opened: Vec<String>,
    device_prompts: Vec<DeviceCodePrompt>,
    password_prompts: usize,
    cancelled: bool,
}

impl HeadlessPrompter {
    /// The answer to every password prompt.
    pub closed spec fn answer(&self) -> Option<Secret> {
        self.password
    }

    /// The URLs handed to `open_browser`, in order.
    pub closed spec fn opened(&self) -> Seq<Seq<char>> {
        self.opened@.map_values(|u: String| u@)
    }

    /// The device-code prompts shown, in order.
    pub closed spec fn shown(&self) -> Seq<DeviceCodePrompt> {
        self.device_prompts@
    }

    /// How many times a password was asked for.
    pub closed spec fn asked(&self) -> nat {
        self.password_prompts as nat
    }

    pub closed spec fn is_cancelled(&self) -> bool {
        self.cancelled
    }

    pub fn new() -> (r: Self)
        ensures
            r.answer() is None,
            r.opened().len() == 0,
            r.shown().len() == 0,
            r.asked() == 0,
            !r.is_cancelled(),
    {
        HeadlessPrompter {
            password: None,
            opened: Vec::new(),
            device_prompts: Vec::new(),
            password_prompts: 0,
            cancelled: false,
        }
    }

    /// Answer every password prompt with this value.
    pub fn with_password(self, p: &str) -> (r: Self)
        ensures
            r.answer() is Some && r.answer().unwrap().value() == p@,
            r.opened() == self.opened(),
            r.shown() == self.shown(),
            r.asked() == self.asked(),
            r.is_cancelled() == self.is_cancelled(),
    {
        HeadlessPrompter { password: Some(Secret::new(p)), ..self }
    }

    pub fn set_cancelled(&mut self, v: bool)
        ensures
            final(self).is_cancelled() == v,
            final(self).answer() == old(self).answer(),
            final(self).opened() == old(self).opened(),
            final(self).shown() == old(self).shown(),
            final(self).asked() == old(self).asked(),
    {
        self.cancelled = v;
    }

    pub fn opened_urls(&self) -> (r: Vec<String>)
        ensures
            r@.map_values(|u: String| u@) == self.opened(),
    {
        let mut r: Vec<String> = Vec::new();
        let mut i: usize = 0;
        while i < self.opened.len()
            invariant
                i <= self.opened.len(),
                r.len() == i,
                forall|k: int| 0 <= k < i ==> #[trigger] r@[k]@ == self.opened@[k]@,
            decreases self.opened.len() - i,
        {
            r.push(self.opened[i].clone());
            i = i + 1;
        }
        assert(r@.map_values(|u: String| u@) =~= self.opened@.map_values(|u: String| u@));
        r
    }

    pub fn device_prompts(&self) -> (r: Vec<DeviceCodePrompt>)
        ensures
            r@ == self.shown(),
    {
        let mut r: Vec<DeviceCodePrompt> = Vec::new();
        let mut i: usize = 0;
        while i < self.device_prompts.len()
            invariant
                i <= self.device_prompts.len(),
                r@ == self.device_prompts@.take(i as int),
            decreases self.device_prompts.len() - i,
        {
            r.push(self.device_prompts[i].duplicate());
            assert(self.device_prompts@.take(i + 1) =~= self.device_prompts@.take(i as int).push(
                self.device_prompts@[i as int],
            ));
            i = i + 1;
        }
        assert(self.device_prompts@.take(i as int) =~= self.device_prompts@);
        r
    }

    pub fn password_prompt_count(&self) -> (r: usize)
        ensures
            r == self.asked(),
    {
        self.password_prompts
    }

    /// Answer a password prompt, counting it.
    pub fn answer_password(&mut self) -> (r: Option<Secret>)
        ensures
            r == old(self).answer(),
            final(self).asked() == if old(self).asked() < usize::MAX {
                old(self).asked() + 1
            } else {
                0
            },
            final(self).answer() == old(self).answer(),
            final(self).opened() == old(self).opened(),
            final(self).shown() == old(self).shown(),
            final(self).is_cancelled() == old(self).is_cancelled(),
    {
        self.password_prompts = if self.password_prompts < usize::MAX {
            self.password_prompts + 1
        } else {
            0
        };
        match &self.password {
            Some(p) => Some(p.duplicate()),
            None => None,
        }
    }

    /// Record a URL handed over for the browser.
    pub fn record_open(&mut self, url: &str)
        ensures
            final(self).opened() == old(self).opened().push(url@),
            final(self).answer() == old(self).answer(),
            final(self).shown() == old(self).shown(),
            final(self).asked() == old(self).asked(),
            final(self).is_cancelled() == old(self).is_cancelled(),
    {
        self.opened.push(url.to_owned());
        assert(self.opened@.map_values(|u: String| u@) =~= old(self).opened@.map_values(|u: String| u@).push(url@));
    }

    /// Record a device-code prompt.
    pub fn record_device(&mut self, prompt: &DeviceCodePrompt)
        ensures
            final(self).shown() == old(self).shown().push(*prompt),
            final(self).answer() == old(self).answer(),
            final(self).opened() == old(self).opened(),
            final(self).asked() == old(self).asked(),
            final(self).is_cancelled() == old(self).is_cancelled(),
    {
        self.device_prompts.push(prompt.duplicate());
    }
}

impl Prompter for HeadlessPrompter {
    fn password(&mut self, profile: &ConnectionProfile) -> (r: Result<Option<Secret>, AuthError>)
        ensures
            r == Ok::<Option<Secret>, AuthError>(old(self).answer()),
            one_prompt(*old(self), *final(self)),
            final(self).asked() == if old(self).asked() < usize::MAX {
                old(self).asked() + 1
            } else {
                0
            },
            final(self).answer() == old(self).answer(),
            final(self).opened() == old(self).opened(),
            final(self).shown() == old(self).shown(),
            final(self).is_cancelled() == old(self).is_cancelled(),
    {
        Ok(self.answer_password())
    }

    fn open_browser(&mut self, url: &str)
        ensures
            final(self).opened() == old(self).opened().push(url@),
            final(self).answer() == old(self).answer(),
            final(self).shown() == old(self).shown(),
            final(self).asked() == old(self).asked(),
            final(self).is_cancelled() == old(self).is_cancelled(),
    {
        self.record_open(url);
    }

    fn device_code(&mut self, prompt: &DeviceCodePrompt)
        ensures
            final(self).shown() == old(self).shown().push(*prompt),
            final(self).answer() == old(self).answer(),
            final(self).opened() == old(self).opened(),
            final(self).asked() == old(self).asked(),
            final(self).is_cancelled() == old(self).is_cancelled(),
    {
        self.record_device(prompt);
    }

    fn cancelled(&self) -> (r: bool)
        ensures
            r == self.is_cancelled(),
    {
        self.cancelled
    }
}

/// One password prompt on `before` left `after`: one more prompt counted (wrapping to 0 past
/// `usize::MAX`), and the answer and everything recorded unchanged.
pub open spec fn one_prompt(before: HeadlessPrompter, after: HeadlessPrompter) -> bool {
    &&& after.asked() == if before.asked() < usize::MAX {
        before.asked() + 1
    } else {
        0
    }
    &&& after.answer() == before.answer()
    &&& after.opened() == before.opened()
    &&& after.shown() == before.shown()
    &&& after.is_cancelled() == before.is_cancelled()
}

/// `password_prompt_count` counts the password prompts: over states `hs`, each one password
/// prompt after the one before and the first with none counted (as `new` and `with_password`
/// leave it), the `i`-th state has counted `i` prompts, and every prompt gives the same answer
/// (none without `with_password`, its password with it).
pub proof fn law_prompt_count(hs: Seq<HeadlessPrompter>)
    requires
        hs.len() >= 1,
        hs.len() <= usize::MAX + 1,
        hs[0].asked() == 0,
        forall|i: int| 0 <= i < hs.len() - 1 ==> one_prompt(#[trigger] hs[i], hs[i + 1]),
    ensures
        forall|i: int| 0 <= i < hs.len() ==> (#[trigger] hs[i]).asked() == i && hs[i].answer() == hs[0].answer(),
    decreases hs.len(),
{
    if hs.len() > 1 {
        let front = hs.drop_last();
        assert forall|i: int| 0 <= i < front.len() - 1 implies one_prompt(#[trigger] front[i], front[i + 1]) by {
            assert(one_prompt(hs[i], hs[i + 1]));
        }
        law_prompt_count(front);
        let n = hs.len() - 1;
        assert(front[n - 1] == hs[n - 1]);
        assert(one_prompt(hs[n - 1], hs[n]));
        assert forall|i: int| 0 <= i < hs.len() implies (#[trigger] hs[i]).asked() == i && hs[i].answer()
            == hs[0].answer() by {
            if i < n {
                assert(front[i] == hs[i]);
            }
        }
    }
}

} // verus!
