use cobalt::catalog::{bracket, ColumnInfo, ObjectKind};
use cobalt::connstr::split_conn_string;
use cobalt::engine::{EngineInfo, EngineKind};
use cobalt::entra::EntraConfig;
use cobalt::error::AuthError;
use cobalt::message::ServerMessage;
use cobalt::profile::{AuthMethod, ConnectionProfile};
use cobalt::provider::{HeadlessPrompter, Prompter};
use cobalt::secret::{Secret, SecretRef};
use cobalt::settings::ConnectionSettings;
use cobalt::sqltype::SqlType;

#[test]
fn splits_connection_strings_outside_quotes_and_braces() {
    assert_eq!(
        split_conn_string("Server=a;Password='x;y';Pwd={p;q};  "),
        vec!["Server=a".to_string(), "Password='x;y'".to_string(), "Pwd={p;q}".to_string()]
    );
    assert_eq!(split_conn_string("a;;b"), vec!["a".to_string(), String::new(), "b".to_string()]);
}

#[test]
fn sys_type_codes_map_to_kinds() {
    assert_eq!(ObjectKind::from_sys_type(" U "), Some(ObjectKind::Table));
    assert_eq!(ObjectKind::from_sys_type("PC"), Some(ObjectKind::Procedure));
    assert_eq!(ObjectKind::from_sys_type("IF"), Some(ObjectKind::TableFunction));
    assert_eq!(ObjectKind::from_sys_type("TA"), Some(ObjectKind::Trigger));
    assert_eq!(ObjectKind::from_sys_type("u"), None);
    assert_eq!(ObjectKind::from_sys_type("S"), None);
}

#[test]
fn bracket_doubles_closing_brackets() {
    assert_eq!(bracket("a]b]]"), "a]]b]]]]");
    assert_eq!(bracket("plain"), "plain");
}

#[test]
fn column_type_labels() {
    let c = ColumnInfo::new("n", SqlType::NVarChar { len: Some(100) }, true, 0);
    assert_eq!(c.type_label(), "nvarchar(100), null");
    let d = ColumnInfo::new("d", SqlType::Decimal { precision: 18, scale: 4 }, false, 1);
    assert_eq!(d.type_label(), "decimal(18,4), not null");
    let v = ColumnInfo::new("b", SqlType::VarBinary { len: None }, false, 2);
    assert_eq!(v.type_label(), "varbinary(max), not null");
}

#[test]
fn sql_type_families() {
    assert!(SqlType::Xml.is_string() && SqlType::Json.is_string() && !SqlType::Int.is_string());
    assert!(SqlType::Timestamp.is_binary() && SqlType::Image.is_binary() && !SqlType::Text.is_binary());
    assert!(SqlType::DateTimeOffset { scale: 7 }.is_temporal() && !SqlType::Bit.is_temporal());
    assert!(SqlType::Money.right_align() && SqlType::Real.right_align() && !SqlType::Bit.right_align());
}

#[test]
fn server_message_headlines() {
    let mut m = ServerMessage {
        number: 8134,
        state: 1,
        class: 16,
        message: "Divide by zero error encountered.".to_string(),
        server: None,
        procedure: None,
        line: 3,
        is_error: true,
    };
    assert_eq!(m.headline().as_deref(), Some("Msg 8134, Level 16, State 1, Line 3"));
    m.procedure = Some("p_calc".to_string());
    assert_eq!(m.headline().as_deref(), Some("Msg 8134, Level 16, State 1, Procedure p_calc, Line 3"));
    m.is_error = false;
    m.number = 0;
    assert_eq!(m.headline(), None);
}

fn engine(kind: EngineKind, version: &str) -> EngineInfo {
    EngineInfo {
        kind,
        version: version.to_string(),
        product_level: String::new(),
        edition: String::new(),
        server_name: String::new(),
        version_text: String::new(),
        capabilities: kind.capabilities(),
    }
}

#[test]
fn engine_labels_and_fabric_kinds() {
    assert_eq!(engine(EngineKind::SqlServer, "16.0.4165.4").short_label(), "SQL Server 2022");
    assert_eq!(engine(EngineKind::SqlServer, "10.50.1600.1").short_label(), "SQL Server 10.50.1600.1");
    assert_eq!(engine(EngineKind::AzureSqlDb, "12.0.2000.8").short_label(), EngineKind::AzureSqlDb.label());
    assert!(EngineKind::FabricWarehouse.is_fabric() && EngineKind::FabricSqlDb.is_fabric());
    assert!(!EngineKind::SqlServer.is_fabric());
}

#[test]
fn profile_names_and_auth_queries() {
    let mut p = ConnectionProfile::new("srv.example.com", AuthMethod::SqlLogin { user: "sa".to_string(), password: None }).unwrap();
    assert_eq!(p.display_name(), "srv.example.com");
    p.name = Some("   ".to_string());
    assert_eq!(p.display_name(), "srv.example.com");
    p.name = Some("Prod".to_string());
    assert_eq!(p.display_name(), "Prod");
    assert_eq!(p.auth.user_name(), Some("sa"));
    assert!(!p.auth.is_entra());
    let hinted = AuthMethod::EntraInteractive { tenant: None, account_hint: Some("ada@contoso.com".to_string()) };
    assert_eq!(hinted.user_name(), Some("ada@contoso.com"));
    assert!(hinted.is_entra());
    assert!(AuthMethod::AzureCli { tenant: None }.is_entra());
    assert_eq!(AuthMethod::WindowsIntegrated.user_name(), None);
    assert!(!AuthMethod::WindowsIntegrated.is_entra());
}

#[test]
fn entra_config_from_settings_and_resource() {
    let mut s = ConnectionSettings::default();
    s.entra_client_id = "  my-app  ".to_string();
    s.entra_default_tenant = Some(" contoso.com ".to_string());
    s.entra_redirect_port = Some(8400);
    let c = EntraConfig::from_settings(&s);
    assert_eq!(c.client_id, "my-app");
    assert_eq!(c.tenant.as_deref(), Some("contoso.com"));
    assert_eq!(c.redirect_port, Some(8400));
    s.entra_client_id = "   ".to_string();
    s.entra_default_tenant = Some("  ".to_string());
    let d = EntraConfig::from_settings(&s);
    assert_eq!(d.client_id, cobalt::settings::DEFAULT_ENTRA_CLIENT_ID);
    assert_eq!(d.tenant, None);
    let f = c.with_resource("https://api.fabric.microsoft.com/");
    assert_eq!(f.sql_resource, "https://api.fabric.microsoft.com/");
    assert_eq!(f.sql_scope(), "https://api.fabric.microsoft.com/.default");
    assert_eq!(f.client_id, "my-app");
}

#[test]
fn only_interaction_required_needs_interaction() {
    assert!(AuthError::InteractionRequired("AADSTS50076".to_string()).needs_interaction());
    assert!(!AuthError::Cancelled.needs_interaction());
    assert!(!AuthError::Other("x".to_string()).needs_interaction());
}

#[test]
fn headless_prompter_cancel_flag() {
    let mut p = HeadlessPrompter::new();
    assert!(!p.cancelled());
    p.set_cancelled(true);
    assert!(p.cancelled());
    p.set_cancelled(false);
    assert!(!p.cancelled());
}

#[test]
fn secrets_show_redacted_and_default_empty() {
    assert_eq!(Secret::new("hunter2").debug_text(), "Secret(***)");
    assert!(Secret::default().is_empty());
    assert_eq!(SecretRef { key: "p:password".to_string() }.debug_text(), "SecretRef(p:password)");
}
