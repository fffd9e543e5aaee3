use base64::Engine;
use cobalt::entra::{EntraAccount, EntraConfig};
use cobalt::error::AuthError;
use cobalt::flows::{authorize_url, classify_cli_message};
use cobalt::ids::ProfileId;
use cobalt::loopback::{error_page, interpret, success_page};
use cobalt::pkce::{challenge_for, random_state, Pkce};
use cobalt::secret::{Secret, SecretRef};
use cobalt::secrets::{MemoryStore, SecretStore};
use cobalt::token::{account_from_jwt, decode_jwt_claims, into_token_set, map_oauth_error, OAuthErrorBody, TokenResponse};
use std::collections::HashMap;

fn params(pairs: &[(&str, &str)]) -> Vec<(String, String)> {
    pairs.iter().map(|(k, v)| (k.to_string(), v.to_string())).collect()
}

#[test]
fn interpret_success() {
    let r = interpret(&params(&[("code", "abc"), ("state", "s1")]), "s1").unwrap();
    assert_eq!(r.code, "abc");
}

#[test]
fn interpret_state_mismatch() {
    let e = interpret(&params(&[("code", "abc"), ("state", "other")]), "s1").unwrap_err();
    assert!(e.message().contains("state mismatch"), "{e:?}");
    let e = interpret(&params(&[("code", "abc")]), "s1").unwrap_err();
    assert!(e.message().contains("state mismatch"), "{e:?}");
}

#[test]
fn interpret_provider_error_wins_over_state() {
    let e = interpret(
        &params(&[("error", "access_denied"), ("error_description", "AADSTS65004: user declined"), ("state", "s1")]),
        "s1",
    )
    .unwrap_err();
    match e {
        AuthError::Provider { error, description } => {
            assert_eq!(error, "access_denied");
            assert!(description.contains("AADSTS65004"));
        }
        other => panic!("{other:?}"),
    }
}

#[test]
fn interpret_missing_code() {
    let e = interpret(&params(&[("state", "s1")]), "s1").unwrap_err();
    assert!(e.message().contains("no authorization code"));
}

#[test]
fn pages_are_self_contained_and_escaped() {
    let ok = success_page();
    assert!(ok.contains("#1F6FEB"));
    assert!(ok.contains("You're signed in to Cobalt SQL Works"));
    assert!(!ok.contains("http://") && !ok.contains("https://"), "no external resources");
    let err = error_page("<script>alert(1)</script> & \"q\"");
    assert!(err.contains("&lt;script&gt;"));
    assert!(!err.contains("<script>alert"));
    assert!(err.contains("&amp; &quot;q&quot;"));
}

#[test]
fn rfc7636_appendix_b_vector() {
    let p = Pkce::from_verifier("dBjftJeZ4CVP-mB92K27uhbUJU1p1r_wW1gFWFOEjXk");
    assert_eq!(p.challenge, "E9Melhoa2OwvFrEMTJguCHaoeK1t8URWbuGJSstw-cM");
}

#[test]
fn generated_verifier_is_unreserved_and_sized() {
    let p = Pkce::generate().unwrap();
    assert_eq!(p.verifier.len(), 43);
    assert!(p.verifier.chars().all(|c| c.is_ascii_alphanumeric() || c == '-' || c == '_'));
    assert_eq!(p.challenge, challenge_for(&p.verifier));
    assert_ne!(p.verifier, Pkce::generate().unwrap().verifier);
}

#[test]
fn state_is_random() {
    let a = random_state().unwrap();
    let b = random_state().unwrap();
    assert_ne!(a, b);
    assert!(a.len() >= 32);
}

#[test]
fn memory_store_roundtrip() {
    let mut store = MemoryStore::new();
    let r = SecretRef::for_profile(&ProfileId::new().unwrap(), "password");
    assert!(store.get(&r).unwrap().is_none());
    store.set(&r, &Secret::new("hunter2")).unwrap();
    assert_eq!(store.get(&r).unwrap().unwrap().expose(), "hunter2");
    store.delete(&r).unwrap();
    assert!(store.get(&r).unwrap().is_none());
    store.delete(&r).unwrap(); // idempotent
}

#[test]
fn memory_store_keys_are_independent() {
    let mut store = MemoryStore::new();
    let a = SecretRef { key: "a".to_string() };
    let b = SecretRef { key: "b".to_string() };
    store.set(&a, &Secret::new("1")).unwrap();
    store.set(&b, &Secret::new("2")).unwrap();
    store.set(&a, &Secret::new("3")).unwrap();
    assert_eq!(store.len(), 2);
    assert_eq!(store.get(&a).unwrap().unwrap().expose(), "3");
    store.delete(&a).unwrap();
    assert_eq!(store.get(&b).unwrap().unwrap().expose(), "2");
    assert!(!store.contains(&a));
    assert!(store.contains(&b));
    assert!(!store.is_empty());
}

#[test]
fn cli_messages_are_classified() {
    assert!(classify_cli_message("program not found").contains("not found on PATH"));
    assert!(classify_cli_message("'az' is not recognized as an internal or external command").contains("not found on PATH"));
    assert!(classify_cli_message("AzureCliCredential authentication failed. Please run 'az login' to setup account.")
        .contains("az login"));
    assert!(classify_cli_message("  something else  ") == "something else");
    let e = AuthError::AzureCli(classify_cli_message("ERROR: please run 'az login'"));
    assert!(e.hint().unwrap().contains("az login"));
}

#[test]
fn authorize_url_has_every_parameter() {
    let mut cfg = EntraConfig::new("client-123");
    cfg.tenant = Some("contoso.onmicrosoft.com".into());
    let pkce = Pkce::from_verifier("dBjftJeZ4CVP-mB92K27uhbUJU1p1r_wW1gFWFOEjXk");
    let text = authorize_url(&cfg, "http://localhost:4242", "st4te", &pkce, Some("ada@contoso.com")).unwrap();
    let url = url::Url::parse(&text).unwrap();
    assert_eq!(url.scheme(), "https");
    assert_eq!(url.host_str(), Some("login.microsoftonline.com"));
    assert_eq!(url.path(), "/contoso.onmicrosoft.com/oauth2/v2.0/authorize");
    let q: HashMap<_, _> = url.query_pairs().into_owned().collect();
    assert_eq!(q["client_id"], "client-123");
    assert_eq!(q["response_type"], "code");
    assert_eq!(q["response_mode"], "query");
    assert_eq!(q["redirect_uri"], "http://localhost:4242");
    assert_eq!(q["scope"], "https://database.windows.net/.default offline_access openid profile");
    assert_eq!(q["state"], "st4te");
    assert_eq!(q["code_challenge"], "E9Melhoa2OwvFrEMTJguCHaoeK1t8URWbuGJSstw-cM");
    assert_eq!(q["code_challenge_method"], "S256");
    assert_eq!(q["prompt"], "select_account");
    assert_eq!(q["login_hint"], "ada@contoso.com");
}

#[test]
fn authorize_url_omits_blank_hint_and_uses_default_tenant() {
    let cfg = EntraConfig::new("c");
    let text = authorize_url(&cfg, "http://localhost:1", "s", &Pkce::generate().unwrap(), Some("  ")).unwrap();
    let url = url::Url::parse(&text).unwrap();
    assert!(url.path().starts_with("/organizations/"));
    assert!(!url.query().unwrap().contains("login_hint"));
}

#[test]
fn missing_client_id_is_rejected_early() {
    let cfg = EntraConfig::default();
    let e = authorize_url(&cfg, "http://localhost:1", "s", &Pkce::generate().unwrap(), None).unwrap_err();
    assert!(matches!(e, AuthError::MissingClientId));
}

fn fake_jwt(claims_json: &str) -> String {
    let engine = base64::engine::general_purpose::URL_SAFE_NO_PAD;
    let header = engine.encode(br#"{"alg":"none","typ":"JWT"}"#);
    let payload = engine.encode(claims_json);
    format!("{header}.{payload}.sig")
}

#[test]
fn id_token_decodes_to_account() {
    let jwt = fake_jwt(
        r#"{"preferred_username":"ada@contoso.com","name":"Ada Lovelace","tid":"11111111-2222-3333-4444-555555555555","oid":"aaaa-bbbb"}"#,
    );
    let a = account_from_jwt(&jwt).unwrap();
    assert_eq!(a.username, "ada@contoso.com");
    assert_eq!(a.name.as_deref(), Some("Ada Lovelace"));
    assert_eq!(a.tenant_id.as_deref(), Some("11111111-2222-3333-4444-555555555555"));
    assert_eq!(a.home_account_id.as_deref(), Some("aaaa-bbbb.11111111-2222-3333-4444-555555555555"));
}

#[test]
fn access_token_upn_is_a_fallback() {
    let jwt = fake_jwt(r#"{"upn":"bob@contoso.com","tid":"t1","oid":"o1"}"#);
    let a = account_from_jwt(&jwt).unwrap();
    assert_eq!(a.username, "bob@contoso.com");
    assert_eq!(a.name, None);
}

#[test]
fn garbage_jwt_is_none() {
    assert!(decode_jwt_claims("not.a.jwt").is_none());
    assert!(decode_jwt_claims("").is_none());
    assert!(account_from_jwt(&fake_jwt(r#"{"sub":"x"}"#)).is_none());
}

#[test]
fn jwt_payload_with_padding_decodes() {
    // 31 bytes of JSON, so the padded encoding ends in '='.
    let header = base64::engine::general_purpose::URL_SAFE_NO_PAD.encode(b"{}");
    let payload = base64::engine::general_purpose::URL_SAFE.encode(br#"{"preferred_username":"p@x.yz"}"#);
    assert!(payload.ends_with('='));
    let a = account_from_jwt(&format!("{header}.{payload}.s")).unwrap();
    assert_eq!(a.username, "p@x.yz");
    assert!(account_from_jwt("onlyonesegment").is_none());
    assert!(account_from_jwt("a.!!!.c").is_none());
}

fn body(error: &str, desc: &str, codes: Vec<i64>) -> OAuthErrorBody {
    OAuthErrorBody { error: error.into(), error_description: desc.into(), error_codes: codes }
}

#[test]
fn error_mapping_interaction_required() {
    assert!(matches!(map_oauth_error(body("invalid_grant", "AADSTS70008: expired", vec![70008])), AuthError::InteractionRequired(_)));
    assert!(matches!(
        map_oauth_error(body("interaction_required", "AADSTS50076: MFA", vec![50076])),
        AuthError::InteractionRequired(_)
    ));
    // code only in the description
    assert!(matches!(map_oauth_error(body("access_denied", "AADSTS53003: blocked by CA", vec![])), AuthError::InteractionRequired(_)));
    // code only in error_codes
    assert!(matches!(map_oauth_error(body("access_denied", "blocked", vec![50079])), AuthError::InteractionRequired(_)));
    // unrelated → Provider
    match map_oauth_error(body("invalid_client", "AADSTS7000218: public client", vec![7000218])) {
        AuthError::Provider { error, description } => {
            assert_eq!(error, "invalid_client");
            assert!(description.contains("AADSTS7000218"));
        }
        other => panic!("{other:?}"),
    }
}

#[test]
fn provider_hints_for_common_aadsts() {
    let e = AuthError::provider("access_denied", "AADSTS53003: Access has been blocked by Conditional Access policies");
    assert!(e.hint().unwrap().contains("device-code"));
    let e = AuthError::provider("unauthorized_client", "AADSTS700016: Application not found in the directory");
    assert!(e.hint().unwrap().contains("client ID"));
    let e = AuthError::provider("invalid_request", "AADSTS50011: The redirect URI does not match");
    assert!(e.hint().unwrap().contains("localhost"));
    assert!(AuthError::MissingClientId.hint().is_some());
    assert!(AuthError::AzureCli("az not found on PATH".into()).hint().unwrap().contains("Install"));
    assert!(AuthError::AzureCli("Please run 'az login'".into()).hint().unwrap().contains("az login"));
    assert!(AuthError::Cancelled.hint().is_none());
}

#[test]
fn token_set_keeps_old_refresh_when_absent() {
    let cfg = EntraConfig::new("cid");
    let old = Secret::new("old-rt");
    let t = TokenResponse { access_token: "at".into(), expires_in: Some(10), refresh_token: None, id_token: None, scope: None };
    let ts = into_token_set(&cfg, t, Some(&old), None);
    assert_eq!(ts.refresh.as_ref().unwrap().expose(), "old-rt");
    assert_eq!(ts.access.scope, cfg.user_scopes());
    assert!(ts.access.is_valid_for(5_000));
    assert!(!ts.access.is_valid_for(30_000));
    assert_eq!(ts.account, EntraAccount::default());

    let t = TokenResponse {
        access_token: "at".into(),
        expires_in: None,
        refresh_token: Some("new-rt".into()),
        id_token: None,
        scope: Some("s".into()),
    };
    let fallback = EntraAccount { username: "prev@x.y".into(), ..EntraAccount::default() };
    let ts = into_token_set(&cfg, t, Some(&old), Some(&fallback));
    assert_eq!(ts.refresh.as_ref().unwrap().expose(), "new-rt");
    assert_eq!(ts.account.username, "prev@x.y");
}

#[test]
fn memory_store_holds_the_last_write_of_each_undeleted_key() {
    let mut store = MemoryStore::new();
    let a = SecretRef { key: "a".to_string() };
    let b = SecretRef { key: "b".to_string() };
    let c = SecretRef { key: "c".to_string() };
    store.set(&a, &Secret::new("1")).unwrap();
    store.set(&b, &Secret::new("2")).unwrap();
    store.delete(&a).unwrap();
    store.set(&c, &Secret::new("3")).unwrap();
    store.set(&a, &Secret::new("4")).unwrap();
    store.delete(&b).unwrap();
    assert_eq!(store.len(), 2);
    assert_eq!(store.get(&a).unwrap().unwrap().expose(), "4");
    assert!(store.get(&b).unwrap().is_none());
    assert_eq!(store.get(&c).unwrap().unwrap().expose(), "3");
    for r in [&a, &b, &c] {
        assert_eq!(store.contains(r), store.get(r).unwrap().is_some());
    }
}

#[test]
fn padded_jwt_payload_decodes() {
    let header = base64::engine::general_purpose::URL_SAFE_NO_PAD.encode(b"{}");
    let payload = base64::engine::general_purpose::URL_SAFE.encode(br#"{"preferred_username":"p@x.y"}"#);
    let a = account_from_jwt(&format!("{header}.{payload}.s")).unwrap();
    assert_eq!(a.username, "p@x.y");
}
