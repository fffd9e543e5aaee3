use cobalt::entra::EntraConfig;
use cobalt::secrets::{delete_failure, read_failure, store_failure, KeyringFault};
use cobalt::error::AuthError;
use cobalt::flows::{
    authorize_pairs, cli_expiry, cli_tenant, code_exchange_form, device_code_start, device_code_start_error, device_poll_form,
    device_prompt, map_cli_error, poll_interval, poll_step, sp_access_token, sp_request, DeviceCodeResponse, PollStep,
};
use cobalt::loopback::{bind_address, loopback_reply, redirect_uri_for, LoopbackReply};
use cobalt::pkce::Pkce;
use cobalt::secret::{Secret, SecretRef};
use cobalt::secrets::{
    chunk_header_text, chunk_ref, chunk_refs, decode_entry, encode_entry, parse_chunk_header, read_result, split_chunks,
    write_entries, CHUNK_CHARS,
};
use cobalt::sqltype::{ArrowType, SqlType};
use cobalt::token::{fallback_error_body, refresh_form, token_result, OAuthErrorBody, TokenReply, TokenResponse};

fn pairs(v: &[(String, String)]) -> Vec<(&str, &str)> {
    v.iter().map(|(k, v)| (k.as_str(), v.as_str())).collect()
}

fn response(token: &str) -> TokenResponse {
    TokenResponse { access_token: token.into(), expires_in: None, refresh_token: None, id_token: None, scope: None }
}

fn failure(error: &str, desc: &str) -> TokenReply {
    TokenReply::Failure(OAuthErrorBody { error: error.into(), error_description: desc.into(), error_codes: vec![] })
}

#[test]
fn device_code_requests_and_prompt() {
    assert!(matches!(device_code_start(&EntraConfig::default()), Err(AuthError::MissingClientId)));
    let (url, form) = device_code_start(&EntraConfig::new(" cid ")).unwrap();
    assert_eq!(url, "https://login.microsoftonline.com/organizations/oauth2/v2.0/devicecode");
    assert_eq!(
        pairs(&form),
        vec![("client_id", "cid"), ("scope", "https://database.windows.net/.default offline_access openid profile")]
    );
    let dc = DeviceCodeResponse {
        device_code: "dev".into(),
        user_code: "ABCD".into(),
        verification_uri: "https://microsoft.com/devicelogin".into(),
        expires_in: None,
        interval: None,
        message: None,
    };
    let p = device_prompt(&dc);
    assert_eq!(p.expires_in, 900);
    assert_eq!(
        p.message,
        "To sign in, open https://microsoft.com/devicelogin in a web browser and enter the code ABCD to authenticate."
    );
    assert_eq!(poll_interval(&dc), 5);
    assert_eq!(
        pairs(&device_poll_form("cid", "dev")),
        vec![("client_id", "cid"), ("grant_type", "urn:ietf:params:oauth:grant-type:device_code"), ("device_code", "dev")]
    );
    match device_code_start_error(None) {
        AuthError::Provider { error, description } => assert!(error.is_empty() && description.is_empty()),
        other => panic!("{other:?}"),
    }
}

#[test]
fn device_code_poll_answers() {
    assert!(matches!(poll_step(failure("authorization_pending", ""), 5), PollStep::Wait { interval: 5 }));
    assert!(matches!(poll_step(failure("slow_down", ""), 5), PollStep::Wait { interval: 10 }));
    assert!(matches!(poll_step(failure("expired_token", ""), 5), PollStep::Fail(AuthError::Timeout)));
    match poll_step(failure("authorization_declined", ""), 5) {
        PollStep::Fail(AuthError::Provider { error, description }) => {
            assert_eq!(error, "authorization_declined");
            assert_eq!(description, "the sign-in was declined");
        }
        _ => panic!("expected declined"),
    }
    assert!(matches!(poll_step(failure("invalid_grant", "x"), 5), PollStep::Fail(AuthError::InteractionRequired(_))));
    match poll_step(TokenReply::Success(response("at")), 5) {
        PollStep::Finished(t) => assert_eq!(t.access_token, "at"),
        _ => panic!("expected success"),
    }
}

#[test]
fn rejects_multi_tenant_aliases_and_blanks() {
    let cfg = EntraConfig::default();
    for t in ["", "common", "organizations", "consumers"] {
        let e = sp_request(&cfg, t, "cid", &Secret::new("s")).unwrap_err();
        assert!(e.message().contains("tenant"), "{t}: {e:?}");
    }
    assert!(sp_request(&cfg, "tid", "", &Secret::new("s")).is_err());
    assert!(sp_request(&cfg, "tid", "cid", &Secret::new("")).is_err());
}

#[test]
fn service_principal_request_and_token() {
    let (c, form) = sp_request(&EntraConfig::default(), " contoso.com ", " app ", &Secret::new("pw")).unwrap();
    assert_eq!(c.client_id, "app");
    assert_eq!(c.tenant.as_deref(), Some("contoso.com"));
    assert_eq!(c.token_endpoint(), "https://login.microsoftonline.com/contoso.com/oauth2/v2.0/token");
    assert_eq!(
        pairs(&form),
        vec![
            ("client_id", "app"),
            ("client_secret", "pw"),
            ("grant_type", "client_credentials"),
            ("scope", "https://database.windows.net/.default"),
        ]
    );
    let mut t = response("tok");
    t.expires_in = Some(999_999);
    let a = sp_access_token(t, "scope-x", 1_000);
    assert_eq!(a.token.expose(), "tok");
    assert_eq!(a.expires_at, 1_000 + 86_400_000);
    assert_eq!(a.scope, "scope-x");
}

#[test]
fn interactive_pairs_and_code_exchange() {
    let cfg = EntraConfig::new("cid");
    let pkce = Pkce::from_verifier("dBjftJeZ4CVP-mB92K27uhbUJU1p1r_wW1gFWFOEjXk");
    let q = authorize_pairs(&cfg, "http://localhost:1", "st", &pkce, Some(" ada@x.y ")).unwrap();
    assert_eq!(q.len(), 10);
    assert_eq!(q[9], ("login_hint".to_string(), "ada@x.y".to_string()));
    assert_eq!(q[6].1, "E9Melhoa2OwvFrEMTJguCHaoeK1t8URWbuGJSstw-cM");
    let f = code_exchange_form(&cfg, "the-code", "http://localhost:1", "verifier");
    assert_eq!(
        pairs(&f),
        vec![
            ("client_id", "cid"),
            ("grant_type", "authorization_code"),
            ("code", "the-code"),
            ("redirect_uri", "http://localhost:1"),
            ("code_verifier", "verifier"),
            ("scope", "https://database.windows.net/.default offline_access openid profile"),
        ]
    );
}

#[test]
fn token_endpoint_answers() {
    let f = refresh_form(&EntraConfig::new("c"), &Secret::new("rt")).unwrap();
    assert_eq!(f[2], ("refresh_token".to_string(), "rt".to_string()));
    assert!(matches!(refresh_form(&EntraConfig::default(), &Secret::new("rt")), Err(AuthError::MissingClientId)));
    let body = fallback_error_body(502, &"x".repeat(600));
    assert_eq!(body.error, "http_502");
    assert_eq!(body.error_description.chars().count(), 500);
    assert!(matches!(token_result(failure("invalid_grant", "gone")), Err(AuthError::InteractionRequired(m)) if m == "gone"));
    assert_eq!(token_result(TokenReply::Success(response("a"))).unwrap().access_token, "a");
}

#[test]
fn azure_cli_helpers() {
    assert_eq!(cli_tenant(Some("  t1 ")).as_deref(), Some("t1"));
    assert_eq!(cli_tenant(Some("   ")), None);
    assert_eq!(cli_tenant(None), None);
    assert_eq!(cli_expiry(1_700_000_000), 1_700_000_000_000);
    match map_cli_error("AADSTS50076: MFA  ") {
        AuthError::AzureCli(m) => assert_eq!(m, "token request failed: AADSTS50076: MFA"),
        other => panic!("{other:?}"),
    }
}

#[test]
fn loopback_requests() {
    assert!(matches!(loopback_reply("/favicon.ico", "s"), LoopbackReply::NotFound));
    assert!(matches!(loopback_reply("/", "s"), LoopbackReply::NotFound));
    match loopback_reply("/?code=a%2Bb&state=s%201", "s 1") {
        LoopbackReply::Answer { status, page, outcome } => {
            assert_eq!(status, 200);
            assert!(page.contains("You're signed in"));
            assert_eq!(outcome.unwrap().code, "a+b");
        }
        LoopbackReply::NotFound => panic!("expected an answer"),
    }
    match loopback_reply("/?error=access_denied&error_description=%3Cb%3E", "s") {
        LoopbackReply::Answer { status, page, outcome } => {
            assert_eq!(status, 400);
            assert!(page.contains("access_denied: &lt;b&gt;"));
            assert!(matches!(outcome, Err(AuthError::Provider { .. })));
        }
        LoopbackReply::NotFound => panic!("expected an answer"),
    }
    assert_eq!(redirect_uri_for(4242), "http://localhost:4242");
    assert_eq!(bind_address(None), "127.0.0.1:0");
    assert_eq!(bind_address(Some(80)), "127.0.0.1:80");
}

#[test]
fn chunked_keyring_values() {
    let r = SecretRef { key: "p:refresh_token".into() };
    assert_eq!(chunk_ref(&r, 12).key, "p:refresh_token#12");
    assert_eq!(chunk_header_text(3), "__cobalt_chunks:3");
    assert_eq!(parse_chunk_header("__cobalt_chunks:3"), Some(3));
    assert_eq!(parse_chunk_header("__cobalt_chunks:+7"), Some(7));
    assert_eq!(parse_chunk_header("__cobalt_chunks:"), None);
    assert_eq!(parse_chunk_header("plain value"), None);
    let long: String = "é".repeat(CHUNK_CHARS * 2 + 1);
    let parts = split_chunks(&long);
    assert_eq!(parts.len(), 3);
    assert_eq!(parts[0].chars().count(), CHUNK_CHARS);
    assert_eq!(parts[2], "é");
    assert_eq!(parts.concat(), long);
    assert!(split_chunks("").is_empty());
}

#[test]
fn fallback_file_entries() {
    let s = Secret::new("tok/with+chars=");
    let text = encode_entry(&s);
    assert_ne!(text, "tok/with+chars=");
    assert_eq!(text, "dG9rL3dpdGgrY2hhcnM9");
    assert_eq!(decode_entry("k", &text).unwrap().expose(), "tok/with+chars=");
    match decode_entry("k", "!!!") {
        Err(AuthError::Secret(m)) => assert!(m.starts_with("corrupt entry k: ")),
        _ => panic!("expected a corrupt-entry error"),
    }
    match decode_entry("k", "/w==") {
        Err(AuthError::Secret(m)) => assert_eq!(m, "corrupt entry k: not UTF-8"),
        _ => panic!("expected a not-UTF-8 error"),
    }
}

#[test]
fn arrow_export_types() {
    assert_eq!(SqlType::Decimal { precision: 18, scale: 4 }.arrow_type(), ArrowType::Decimal128(18, 4));
    assert_eq!(SqlType::Money.arrow_type(), ArrowType::Decimal128(19, 4));
    assert_eq!(SqlType::NVarChar { len: None }.arrow_type(), ArrowType::LargeUtf8);
    assert_eq!(SqlType::NVarChar { len: Some(10) }.arrow_type(), ArrowType::Utf8);
    assert_eq!(SqlType::DateTimeOffset { scale: 7 }.arrow_type(), ArrowType::TimestampNanosecondUtc);
    assert_eq!(SqlType::VarBinary { len: None }.arrow_type(), ArrowType::LargeBinary);
    assert_eq!(SqlType::Other("x".into()).arrow_type(), ArrowType::LargeUtf8);
}

#[test]
fn keyring_write_plan_and_assembly_round_trip() {
    let (head, chunks) = cobalt::secrets::write_plan("short");
    assert_eq!(head, "short");
    assert!(chunks.is_empty());
    assert_eq!(cobalt::secrets::assemble(&head, &chunks).as_deref(), Some("short"));

    let long: String = "abcdefghij".repeat(250);
    let (head, chunks) = cobalt::secrets::write_plan(&long);
    assert_eq!(head, "__cobalt_chunks:3");
    assert_eq!(chunks.iter().map(|c| c.chars().count()).collect::<Vec<_>>(), vec![1000, 1000, 500]);
    assert_eq!(cobalt::secrets::assemble(&head, &chunks).as_deref(), Some(long.as_str()));
    // A chunk that went missing: nothing is stored.
    assert_eq!(cobalt::secrets::assemble(&head, &chunks[..2].to_vec()), None);
}

#[test]
fn keyring_failures_map_to_errors_or_nothing_stored() {
    assert!(matches!(read_failure(KeyringFault::Missing, "gone".into()), Ok(None)));
    assert!(matches!(read_failure(KeyringFault::NoAccess, "locked".into()), Err(AuthError::SecretStoreUnavailable(m)) if m == "locked"));
    assert!(matches!(read_failure(KeyringFault::Other, "bad".into()), Err(AuthError::Secret(m)) if m == "bad"));
    assert!(delete_failure(KeyringFault::Missing, "gone".into()).is_ok());
    assert!(matches!(delete_failure(KeyringFault::Other, "bad".into()), Err(AuthError::Secret(m)) if m == "bad"));
    assert!(matches!(store_failure(KeyringFault::NoAccess, "x".into()), AuthError::SecretStoreUnavailable(m) if m == "x"));
}

fn ok(v: &str) -> Result<String, (KeyringFault, String)> {
    Ok(v.to_string())
}

fn fault(f: KeyringFault, m: &str) -> Result<String, (KeyringFault, String)> {
    Err((f, m.to_string()))
}

fn value_of(r: Result<Option<Secret>, AuthError>) -> Option<String> {
    r.unwrap().map(|s| s.expose().to_string())
}

#[test]
fn keyring_reads_become_answers() {
    // Head reads.
    assert!(value_of(read_result(fault(KeyringFault::Missing, "no entry"), &vec![])).is_none());
    match read_result(fault(KeyringFault::NoAccess, "locked"), &vec![]) {
        Err(AuthError::SecretStoreUnavailable(m)) => assert_eq!(m, "locked"),
        _ => panic!("unexpected answer"),
    }
    match read_result(fault(KeyringFault::Other, "bad"), &vec![]) {
        Err(AuthError::Secret(m)) => assert_eq!(m, "bad"),
        _ => panic!("unexpected answer"),
    }
    assert_eq!(value_of(read_result(ok("plain"), &vec![])).as_deref(), Some("plain"));
    // A header for two chunks: both present, the first missing, the second failing otherwise.
    let h = "__cobalt_chunks:2";
    assert_eq!(value_of(read_result(ok(h), &vec![ok("ab"), ok("cd")])).as_deref(), Some("abcd"));
    assert!(value_of(read_result(ok(h), &vec![fault(KeyringFault::Missing, "gone")])).is_none());
    match read_result(ok(h), &vec![ok("ab"), fault(KeyringFault::Other, "broken")]) {
        Err(AuthError::Secret(m)) => assert_eq!(m, "broken"),
        _ => panic!("unexpected answer"),
    }
    match read_result(ok(h), &vec![fault(KeyringFault::NoAccess, "locked"), ok("cd")]) {
        Err(AuthError::SecretStoreUnavailable(m)) => assert_eq!(m, "locked"),
        _ => panic!("unexpected answer"),
    }
    // Reads past the header's count are not used.
    assert_eq!(value_of(read_result(ok("__cobalt_chunks:1"), &vec![ok("x"), ok("y")])).as_deref(), Some("x"));
}

#[test]
fn keyring_writes_go_under_the_key_and_its_chunk_keys() {
    let r = SecretRef { key: "k".to_string() };
    let w = write_entries(&r, "short");
    assert_eq!(w.len(), 1);
    assert_eq!((w[0].0.key.as_str(), w[0].1.as_str()), ("k", "short"));
    let long: String = "x".repeat(CHUNK_CHARS * 2 + 5);
    let w = write_entries(&r, &long);
    assert_eq!(w.len(), 4);
    assert_eq!(w[0].0.key, "k#0");
    assert_eq!(w[1].0.key, "k#1");
    assert_eq!(w[2].0.key, "k#2");
    assert_eq!(w[3].0.key, "k");
    assert_eq!(w[3].1, "__cobalt_chunks:3");
    assert_eq!(w[0].1.chars().count(), CHUNK_CHARS);
    assert_eq!(w[2].1, "xxxxx");
    let keys: Vec<String> = chunk_refs(&r, 3).into_iter().map(|c| c.key).collect();
    assert_eq!(keys, vec!["k#0", "k#1", "k#2"]);
    // What was written reads back.
    let reads: Vec<Result<String, (KeyringFault, String)>> = w[..3].iter().map(|(_, v)| Ok(v.clone())).collect();
    assert_eq!(value_of(read_result(Ok(w[3].1.clone()), &reads)), Some(long));
}
