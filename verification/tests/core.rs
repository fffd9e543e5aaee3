use cobalt::catalog::quote_ident;
use cobalt::engine::EngineKind;
use cobalt::profile::{ApplicationIntent, AuthMethod, Color, ConnectionProfile, Encrypt};
use cobalt::sqltype::SqlType;

#[test]
fn quoting() {
    assert_eq!(quote_ident("orders"), "orders");
    assert_eq!(quote_ident("Order Details"), "[Order Details]");
    assert_eq!(quote_ident("a]b"), "[a]]b]");
    assert_eq!(quote_ident("1st"), "[1st]");
}

#[test]
fn edition_mapping_for_fabric_hosts() {
    assert_eq!(EngineKind::from_edition(12, true, "SQL Azure"), EngineKind::FabricSqlDb);
    assert_eq!(EngineKind::from_edition(5, true, "SQL Azure"), EngineKind::FabricSqlDb);
    assert_eq!(EngineKind::from_edition(11, true, "DataWarehouse"), EngineKind::FabricWarehouse);
    assert_eq!(EngineKind::from_edition(11, true, "Lakehouse SQL Endpoint"), EngineKind::FabricSqlEndpoint);
    assert_eq!(EngineKind::from_edition(12, false, "SQL Azure"), EngineKind::AzureSqlDb);
    assert_eq!(EngineKind::from_edition(3, false, "Developer Edition (64-bit)"), EngineKind::SqlServer);
}

#[test]
fn fabric_warehouse_rejects_xact_abort_and_statistics() {
    let c = EngineKind::FabricWarehouse.capabilities();
    assert!(!c.set_xact_abort && !c.set_statistics && !c.actual_plans && c.estimated_plans);
    let c = EngineKind::FabricSqlDb.capabilities();
    assert!(c.set_xact_abort && c.set_statistics && c.actual_plans);
}

#[test]
fn catalog_parse() {
    assert_eq!(SqlType::from_catalog("nvarchar", 200, 0, 0), SqlType::NVarChar { len: Some(100) });
    assert_eq!(SqlType::from_catalog("nvarchar", -1, 0, 0), SqlType::NVarChar { len: None });
    assert_eq!(SqlType::from_catalog("decimal", 9, 18, 4).type_text(), "decimal(18,4)");
    assert_eq!(SqlType::from_catalog("varbinary", -1, 0, 0).type_text(), "varbinary(max)");
}

#[test]
fn color_roundtrip() {
    let c = Color(0x1F, 0x6F, 0xEB);
    assert_eq!(Color::parse(&c.hex()), Some(c));
    assert_eq!(c.hex(), "#1F6FEB");
}

#[test]
fn fabric_detection() {
    let p = ConnectionProfile::new(
        "abc-xyz.datawarehouse.fabric.microsoft.com",
        AuthMethod::EntraInteractive { tenant: None, account_hint: None },
    ).unwrap();
    assert!(p.looks_like_fabric() && p.looks_like_azure());
}

#[test]
fn sql_login_with_port_and_options() {
    let mut p = ConnectionProfile::new("", AuthMethod::WindowsIntegrated).unwrap();
    let s = p.apply_connection_string("Server=tcp:db.example.com,1533;Initial Catalog=Sales;User ID=app;Password=\"p;w=1\";Encrypt=True;TrustServerCertificate=true;Application Name=x;Connect Timeout=45;ApplicationIntent=ReadOnly;Bogus=1").unwrap();
    assert_eq!(p.server, "db.example.com");
    assert_eq!(p.port, Some(1533));
    assert_eq!(p.database.as_deref(), Some("Sales"));
    assert!(matches!(&p.auth, AuthMethod::SqlLogin { user, .. } if user == "app"));
    assert_eq!(s.password.as_deref(), Some("p;w=1"));
    assert_eq!(p.options.encrypt, Encrypt::Mandatory);
    assert!(p.options.trust_server_certificate);
    assert_eq!(p.options.connect_timeout_secs, 45);
    assert_eq!(p.options.application_intent, ApplicationIntent::ReadOnly);
    assert_eq!(s.ignored, vec!["bogus".to_string()]);
}

#[test]
fn entra_and_integrated() {
    let mut p = ConnectionProfile::new("", AuthMethod::WindowsIntegrated).unwrap();
    p.apply_connection_string("Data Source=x.datawarehouse.fabric.microsoft.com;Authentication=Active Directory Interactive;User ID=me@corp.com;Encrypt=Strict").unwrap();
    assert!(matches!(&p.auth, AuthMethod::EntraInteractive { account_hint: Some(h), .. } if h == "me@corp.com"));
    assert_eq!(p.options.encrypt, Encrypt::Strict);
    let mut q = ConnectionProfile::new("", AuthMethod::WindowsIntegrated).unwrap();
    q.apply_connection_string("Server=.\\SQLEXPRESS;Database=master;Integrated Security=SSPI").unwrap();
    assert_eq!(q.server, ".\\SQLEXPRESS");
    assert!(matches!(q.auth, AuthMethod::WindowsIntegrated));
    let mut sp = ConnectionProfile::new("", AuthMethod::WindowsIntegrated).unwrap();
    let s = sp.apply_connection_string("Server=s;Authentication=Active Directory Service Principal;User Id=client-guid;Password=sec").unwrap();
    assert!(matches!(&sp.auth, AuthMethod::EntraServicePrincipal { client_id, .. } if client_id == "client-guid"));
    assert_eq!(s.client_secret.as_deref(), Some("sec"));
    assert!(s.password.is_none());
}

#[test]
fn rejects_garbage() {
    let mut p = ConnectionProfile::new("", AuthMethod::WindowsIntegrated).unwrap();
    assert!(p.apply_connection_string("hello world").is_err());
}

#[test]
fn catalog_names_ignore_case_and_follow_their_family() {
    assert_eq!(SqlType::from_catalog("NVARCHAR", 200, 0, 0), SqlType::from_catalog("nvarchar", 200, 0, 0));
    assert_eq!(SqlType::from_catalog("DateTime2", 0, 0, 7), SqlType::DateTime2 { scale: 7 });
    assert_eq!(SqlType::from_catalog("NChar", 21, 0, 0), SqlType::NChar { len: Some(10) });
    assert_eq!(SqlType::from_catalog("BINARY", 16, 0, 0), SqlType::Binary { len: Some(16) });
    assert_eq!(SqlType::from_catalog("Numeric", 9, 10, 2), SqlType::Numeric { precision: 10, scale: 2 });
    assert_eq!(SqlType::from_catalog("GEOGRAPHYX", 0, 0, 0), SqlType::Other("geographyx".to_string()));
}
