use cobalt::entra::{AccessToken, EntraAccount, EntraConfig, TokenSet};
use cobalt::error::AuthError;
use cobalt::ids::ProfileId;
use cobalt::profile::{AuthMethod, ConnectionProfile, ResolvedCredentials};
use cobalt::provider::{after_token, prompted_secret, CredentialResolver, HeadlessPrompter, Prompter, Step, UserFlow};
use cobalt::secret::{Secret, SecretRef};
use cobalt::secrets::{MemoryStore, SecretStore};

const NOW: i64 = 1_700_000_000_000;

/// The first step, with a password prompt answered by `prompt` as the app does.
fn first_step(r: &CredentialResolver<MemoryStore>, p: &ConnectionProfile, prompt: &mut HeadlessPrompter) -> Step {
    match r.begin_at(p, NOW) {
        Step::Password => r.after_password(p, prompt.password(p)),
        other => other,
    }
}

fn resolver(store: MemoryStore) -> CredentialResolver<MemoryStore> {
    CredentialResolver::new(store, EntraConfig::new("test-client"))
}

fn token_set(secs: i64, refresh: Option<&str>) -> TokenSet {
    TokenSet {
        access: AccessToken { token: Secret::new("at"), expires_at: NOW + secs * 1000, scope: "s".into() },
        refresh: refresh.map(Secret::new),
        account: EntraAccount { username: "u@x.y".into(), ..EntraAccount::default() },
    }
}

#[test]
fn sql_login_uses_stored_password_without_prompting() {
    let mut store = MemoryStore::new();
    let mut p = ConnectionProfile::new("srv", AuthMethod::SqlLogin { user: "sa".into(), password: None }).unwrap();
    let sref = SecretRef::for_profile(&p.id, "password");
    store.set(&sref, &Secret::new("stored")).unwrap();
    let r = resolver(store);
    p.auth = AuthMethod::SqlLogin { user: "sa".into(), password: Some(sref) };
    let mut prompt = HeadlessPrompter::new().with_password("typed");
    match first_step(&r, &p, &mut prompt) {
        Step::Done(Ok(ResolvedCredentials::SqlLogin { user, password })) => {
            assert_eq!(user, "sa");
            assert_eq!(password.expose(), "stored");
        }
        _ => panic!("expected a SQL login"),
    }
    assert_eq!(prompt.password_prompt_count(), 0);
}

#[test]
fn sql_login_prompts_when_nothing_stored() {
    let r = resolver(MemoryStore::new());
    let p = ConnectionProfile::new("srv", AuthMethod::SqlLogin { user: "sa".into(), password: None }).unwrap();
    let mut prompt = HeadlessPrompter::new().with_password("typed");
    match first_step(&r, &p, &mut prompt) {
        Step::Done(Ok(ResolvedCredentials::SqlLogin { password, .. })) => assert_eq!(password.expose(), "typed"),
        _ => panic!("expected a SQL login"),
    }
    assert_eq!(prompt.password_prompt_count(), 1);
    let p2 = ConnectionProfile::new(
        "srv",
        AuthMethod::SqlLogin { user: "sa".into(), password: Some(SecretRef { key: "missing".into() }) },
    ).unwrap();
    assert!(matches!(first_step(&r, &p2, &mut prompt), Step::Done(Ok(_))));
    assert_eq!(prompt.password_prompt_count(), 2);
}

#[test]
fn sql_login_cancelled_prompt_is_cancelled() {
    let r = resolver(MemoryStore::new());
    let p = ConnectionProfile::new("srv", AuthMethod::SqlLogin { user: "sa".into(), password: None }).unwrap();
    assert!(matches!(first_step(&r, &p, &mut HeadlessPrompter::new()), Step::Done(Err(AuthError::Cancelled))));
}

#[test]
fn windows_integrated_passes_through() {
    let r = resolver(MemoryStore::new());
    let p = ConnectionProfile::new("srv", AuthMethod::WindowsIntegrated).unwrap();
    assert!(matches!(
        first_step(&r, &p, &mut HeadlessPrompter::new()),
        Step::Done(Ok(ResolvedCredentials::WindowsIntegrated))
    ));
}

#[test]
fn entra_without_client_id_is_a_clear_error() {
    let r = CredentialResolver::new(MemoryStore::new(), EntraConfig::default());
    let p = ConnectionProfile::new("srv", AuthMethod::EntraInteractive { tenant: None, account_hint: None }).unwrap();
    match first_step(&r, &p, &mut HeadlessPrompter::new()) {
        Step::Done(Err(e)) => {
            assert!(matches!(e, AuthError::MissingClientId));
            assert!(e.message().contains("Settings"));
        }
        _ => panic!("expected MissingClientId"),
    }
}

#[test]
fn cached_valid_token_is_used_without_any_io() {
    let mut r = resolver(MemoryStore::new());
    let p = ConnectionProfile::new("srv", AuthMethod::EntraInteractive { tenant: None, account_hint: None }).unwrap();
    r.insert_cached(p.id, token_set(600, Some("rt")));
    assert!(r.secrets().contains(&CredentialResolver::<MemoryStore>::refresh_token_ref(&p.id)));
    let mut prompt = HeadlessPrompter::new();
    match first_step(&r, &p, &mut prompt) {
        Step::Done(Ok(ResolvedCredentials::EntraToken { token, expires_at })) => {
            assert_eq!(token.expose(), "at");
            assert!(expires_at.is_some());
        }
        _ => panic!("expected the cached token"),
    }
    assert!(prompt.opened_urls().is_empty());
    assert_eq!(r.signed_in_account(&p.id).unwrap().username, "u@x.y");
    assert!(r.is_remembered(&p.id));
}

#[test]
fn forget_clears_cache_and_store() {
    let mut r = resolver(MemoryStore::new());
    let id = ProfileId::new().unwrap();
    r.insert_cached(id, token_set(600, Some("rt")));
    r.forget(&id).unwrap();
    assert!(r.signed_in_account(&id).is_none());
    assert!(!r.secrets().contains(&CredentialResolver::<MemoryStore>::refresh_token_ref(&id)));
    assert!(!r.is_remembered(&id));
}

#[test]
fn set_config_replaces_settings() {
    let mut r = resolver(MemoryStore::new());
    let mut cfg = r.config();
    cfg.tenant = Some("contoso.com".into());
    r.set_config(cfg.clone());
    assert_eq!(r.config(), cfg);
}

#[test]
fn expiring_token_goes_to_refresh_then_sign_in() {
    let mut r = resolver(MemoryStore::new());
    let p = ConnectionProfile::new("srv", AuthMethod::EntraDeviceCode { tenant: Some(" contoso.com ".into()) }).unwrap();
    // 30 s left is inside the 60 s margin: renew silently with the stored refresh token.
    r.insert_cached(p.id, token_set(30, Some("rt")));
    let (cfg, flow) = match first_step(&r, &p, &mut HeadlessPrompter::new()) {
        Step::Refresh { cfg, refresh_token, flow } => {
            assert_eq!(refresh_token.expose(), "rt");
            assert_eq!(cfg.tenant.as_deref(), Some("contoso.com"));
            (cfg, flow)
        }
        _ => panic!("expected a refresh"),
    };
    // The identity provider rejects the refresh token: it is forgotten and sign-in is next.
    match r.after_refresh(p.id, cfg, flow, Err(AuthError::InteractionRequired("expired".into()))) {
        Step::SignIn { flow: UserFlow::DeviceCode, .. } => {}
        _ => panic!("expected sign-in"),
    }
    assert!(r.signed_in_account(&p.id).is_none());
    assert!(!r.is_remembered(&p.id));
    assert!(matches!(first_step(&r, &p, &mut HeadlessPrompter::new()), Step::SignIn { .. }));
}

#[test]
fn refresh_keeps_previous_account_and_network_errors_surface() {
    let mut r = resolver(MemoryStore::new());
    let id = ProfileId::new().unwrap();
    r.insert_cached(id, token_set(0, Some("rt")));
    let mut renewed = token_set(3600, Some("rt2"));
    renewed.account = EntraAccount::default();
    let cfg = r.config();
    match r.after_refresh(id, cfg, UserFlow::DeviceCode, Ok(renewed)) {
        Step::Done(Ok(ResolvedCredentials::EntraToken { token, .. })) => assert_eq!(token.expose(), "at"),
        _ => panic!("expected the renewed token"),
    }
    assert_eq!(r.signed_in_account(&id).unwrap().username, "u@x.y");
    let stored = r.secrets().get(&CredentialResolver::<MemoryStore>::refresh_token_ref(&id)).unwrap().unwrap();
    assert_eq!(stored.expose(), "rt2");
    let cfg = r.config();
    match r.after_refresh(id, cfg, UserFlow::DeviceCode, Err(AuthError::Http("offline".into()))) {
        Step::Done(Err(AuthError::Http(m))) => assert_eq!(m, "offline"),
        _ => panic!("expected the network error"),
    }
    assert!(r.is_remembered(&id));
}

#[test]
fn azure_cli_and_service_principal_steps() {
    let mut store = MemoryStore::new();
    let sref = SecretRef { key: "sp".into() };
    store.set(&sref, &Secret::new("s3cret")).unwrap();
    let mut cfg = EntraConfig::new("c");
    cfg.tenant = Some("settings-tenant".into());
    let r = CredentialResolver::new(store, cfg);
    let p = ConnectionProfile::new("srv", AuthMethod::AzureCli { tenant: None }).unwrap();
    match first_step(&r, &p, &mut HeadlessPrompter::new()) {
        Step::AzureCli { tenant } => assert_eq!(tenant.as_deref(), Some("settings-tenant")),
        _ => panic!("expected the Azure CLI"),
    }
    let p = ConnectionProfile::new(
        "srv",
        AuthMethod::EntraServicePrincipal { tenant: "t".into(), client_id: "cid".into(), secret: Some(sref) },
    ).unwrap();
    let mut prompt = HeadlessPrompter::new();
    match first_step(&r, &p, &mut prompt) {
        Step::ServicePrincipal { secret, client_id, .. } => {
            assert_eq!(secret.expose(), "s3cret");
            assert_eq!(client_id, "cid");
        }
        _ => panic!("expected a service principal"),
    }
    assert_eq!(prompt.password_prompt_count(), 0);
    let t = AccessToken { token: Secret::new("tok"), expires_at: 5, scope: "s".into() };
    match after_token(Ok(t)) {
        Ok(ResolvedCredentials::EntraToken { token, expires_at }) => {
            assert_eq!(token.expose(), "tok");
            assert_eq!(expires_at, Some(5));
        }
        _ => panic!("expected a token"),
    }
}

#[test]
fn prompt_answers_become_secrets_or_errors() {
    match prompted_secret(Ok(Some(Secret::new("typed")))) {
        Ok(s) => assert_eq!(s.expose(), "typed"),
        Err(e) => panic!("{e:?}"),
    }
    assert!(matches!(prompted_secret(Ok(None)), Err(AuthError::Cancelled)));
    assert!(matches!(prompted_secret(Err(AuthError::Other("ui gone".to_string()))), Err(AuthError::Other(m)) if m == "ui gone"));
}

#[test]
fn missing_password_is_a_password_step() {
    let r = resolver(MemoryStore::new());
    let p = ConnectionProfile::new("srv", AuthMethod::SqlLogin { user: "sa".into(), password: None }).unwrap();
    assert!(matches!(r.begin_at(&p, NOW), Step::Password));
    match r.after_password(&p, Ok(Some(Secret::new("typed")))) {
        Step::Done(Ok(ResolvedCredentials::SqlLogin { user, password })) => {
            assert_eq!(user, "sa");
            assert_eq!(password.expose(), "typed");
        }
        _ => panic!("expected credentials"),
    }
    assert!(matches!(r.after_password(&p, Ok(None)), Step::Done(Err(AuthError::Cancelled))));
}

#[test]
fn store_lookup_outcomes_become_steps() {
    let r = resolver(MemoryStore::new());
    let p = ConnectionProfile::new("srv", AuthMethod::SqlLogin { user: "sa".into(), password: None }).unwrap();
    assert!(matches!(r.after_lookup(&p, Ok(None)), Step::Password));
    assert!(matches!(
        r.after_lookup(&p, Err(AuthError::SecretStoreUnavailable("locked".into()))),
        Step::Done(Err(AuthError::SecretStoreUnavailable(m))) if m == "locked"
    ));
    match r.after_lookup(&p, Ok(Some(Secret::new("stored")))) {
        Step::Done(Ok(ResolvedCredentials::SqlLogin { user, password })) => {
            assert_eq!(user, "sa");
            assert_eq!(password.expose(), "stored");
        }
        _ => panic!("expected credentials"),
    }
}
