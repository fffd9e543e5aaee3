//! Which flavor of SQL Server a connection talks to, and what it supports.

use crate::text::{ascii_lower, chars_of, contains, contains_str, dec, find_char, lower_of, parse_uint, parse_uint_exec, push_all, push_str, slice, string_of};
use vstd::prelude::*;

verus! {

broadcast use vstd::string::group_string_axioms;

#[derive(Clone, Copy, Debug, PartialEq, Eq, Hash, Structural)]
pub enum EngineKind {
    SqlServer,
    AzureSqlDb,
    AzureSqlMi,
    SynapseDedicated,
    SynapseServerless,
    FabricWarehouse,
    /// Lakehouse SQL analytics endpoint: read-only.
    FabricSqlEndpoint,
    FabricSqlDb,
    SqlEdge,
    Unknown,
}

#[derive(Clone, Copy, Debug, PartialEq, Eq, Structural)]
pub struct Capabilities {
    pub actual_plans: bool,
    pub estimated_plans: bool,
    pub procedures: bool,
    pub functions: bool,
    pub sequences: bool,
    pub synonyms: bool,
    pub table_types: bool,
    pub triggers: bool,
    pub transactions: bool,
    pub read_only: bool,
    pub multiple_databases: bool,
    pub sql_login: bool,
    pub temp_tables: bool,
    pub system_databases: bool,
    /// `SET XACT_ABORT` is accepted (Fabric Warehouse / SQL endpoint reject it).
    pub set_xact_abort: bool,
    /// `SET STATISTICS IO/TIME/XML` are accepted (Synapse / Fabric Warehouse reject them).
    pub set_statistics: bool,
}

/// The engine for `SERVERPROPERTY('EngineEdition')`, whether the host looks like Fabric, and
/// the (lower-cased) edition name.
pub open spec fn engine_of(engine_edition: i32, host_is_fabric: bool, e: Seq<char>) -> EngineKind {
    if host_is_fabric {
        if contains(e, "datawarehouse"@) || contains(e, "warehouse"@) {
            EngineKind::FabricWarehouse
        } else if contains(e, "lakehouse"@) || contains(e, "endpoint"@) {
            EngineKind::FabricSqlEndpoint
        } else if engine_edition == 5 || engine_edition == 12 {
            EngineKind::FabricSqlDb
        } else {
            EngineKind::FabricWarehouse
        }
    } else if 1 <= engine_edition <= 4 {
        EngineKind::SqlServer
    } else if engine_edition == 5 || engine_edition == 12 {
        EngineKind::AzureSqlDb
    } else if engine_edition == 6 {
        EngineKind::SynapseDedicated
    } else if engine_edition == 8 {
        EngineKind::AzureSqlMi
    } else if engine_edition == 9 {
        EngineKind::SqlEdge
    } else if engine_edition == 11 {
        EngineKind::SynapseServerless
    } else {
        EngineKind::Unknown
    }
}

pub open spec fn engine_label(k: EngineKind) -> Seq<char> {
    match k {
        EngineKind::SqlServer => "SQL Server"@,
        EngineKind::AzureSqlDb => "Azure SQL Database"@,
        EngineKind::AzureSqlMi => "Azure SQL Managed Instance"@,
        EngineKind::SynapseDedicated => "Synapse dedicated SQL pool"@,
        EngineKind::SynapseServerless => "Synapse serverless SQL pool"@,
        EngineKind::FabricWarehouse => "Fabric Warehouse"@,
        EngineKind::FabricSqlEndpoint => "Fabric SQL analytics endpoint"@,
        EngineKind::FabricSqlDb => "Fabric SQL database"@,
        EngineKind::SqlEdge => "Azure SQL Edge"@,
        EngineKind::Unknown => "SQL Server (unknown edition)"@,
    }
}

proof fn lemma_no_capital_f(s: Seq<char>)
    requires
        forall|i: int| 0 <= i < s.len() ==> s[i] != 'F',
    ensures
        !contains(s, "Fabric"@),
{
    reveal_strlit("Fabric");
    if contains(s, "Fabric"@) {
        let i = choose|i: int| crate::text::matches_at(s, "Fabric"@, i);
        assert(s.subrange(i, i + 6)[0] == s[i]);
    }
}

/// Off Fabric, `EngineEdition` alone decides the engine, and the engine's label names the
/// product that edition number stands for: 1–4 SQL Server, 5 and 12 Azure SQL Database, 6 a
/// Synapse dedicated pool, 8 Azure SQL Managed Instance, 9 Azure SQL Edge, 11 a Synapse
/// serverless pool. A Managed Instance, unlike an Azure SQL Database, holds several databases.
pub proof fn law_edition_products(edition: i32, e1: Seq<char>, e2: Seq<char>)
    ensures
        engine_of(edition, false, e1) == engine_of(edition, false, e2),
        1 <= edition <= 4 ==> engine_label(engine_of(edition, false, e1)) == "SQL Server"@,
        edition == 5 || edition == 12 ==> engine_label(engine_of(edition, false, e1)) == "Azure SQL Database"@,
        edition == 6 ==> engine_label(engine_of(edition, false, e1)) == "Synapse dedicated SQL pool"@,
        edition == 8 ==> engine_label(engine_of(edition, false, e1)) == "Azure SQL Managed Instance"@,
        edition == 9 ==> engine_label(engine_of(edition, false, e1)) == "Azure SQL Edge"@,
        edition == 11 ==> engine_label(engine_of(edition, false, e1)) == "Synapse serverless SQL pool"@,
        engine_caps(engine_of(8, false, e1)).multiple_databases,
        !engine_caps(engine_of(5, false, e1)).multiple_databases,
        engine_of(8, false, e1) != engine_of(5, false, e2),
{
}

/// On a Fabric host the engine is always one of Fabric's (its label names Fabric) and none
/// takes SQL logins: an edition name mentioning a warehouse gives the Warehouse; one mentioning
/// a lakehouse or an endpoint (and no warehouse) gives the read-only SQL analytics endpoint;
/// otherwise `EngineEdition` 5 or 12 is a Fabric SQL database and anything else a Warehouse.
pub proof fn law_fabric_host(edition: i32, e: Seq<char>)
    ensures
        contains(engine_label(engine_of(edition, true, e)), "Fabric"@),
        !engine_caps(engine_of(edition, true, e)).sql_login,
        contains(e, "warehouse"@) ==> engine_label(engine_of(edition, true, e)) == "Fabric Warehouse"@,
        !contains(e, "warehouse"@) && !contains(e, "datawarehouse"@) && (contains(e, "lakehouse"@) || contains(
            e,
            "endpoint"@,
        )) ==> engine_caps(engine_of(edition, true, e)).read_only,
        !contains(e, "warehouse"@) && !contains(e, "datawarehouse"@) && !contains(e, "lakehouse"@) && !contains(
            e,
            "endpoint"@,
        ) ==> engine_label(engine_of(edition, true, e)) == if edition == 5 || edition == 12 {
            "Fabric SQL database"@
        } else {
            "Fabric Warehouse"@
        },
        !engine_caps(engine_of(edition, true, e)).read_only ==> engine_caps(engine_of(edition, true, e)).transactions,
{
    law_fabric_label(engine_of(edition, true, e));
}

/// The Fabric engines are exactly those whose label names Fabric.
pub proof fn law_fabric_label(k: EngineKind)
    ensures
        (k == EngineKind::FabricWarehouse || k == EngineKind::FabricSqlEndpoint || k == EngineKind::FabricSqlDb)
            <==> contains(engine_label(k), "Fabric"@),
{
    reveal_strlit("Fabric");
    let l = engine_label(k);
    match k {
        EngineKind::FabricWarehouse => {
            reveal_strlit("Fabric Warehouse");
            assert(l.subrange(0, 6) =~= "Fabric"@);
            assert(crate::text::matches_at(l, "Fabric"@, 0));
        },
        EngineKind::FabricSqlEndpoint => {
            reveal_strlit("Fabric SQL analytics endpoint");
            assert(l.subrange(0, 6) =~= "Fabric"@);
            assert(crate::text::matches_at(l, "Fabric"@, 0));
        },
        EngineKind::FabricSqlDb => {
            reveal_strlit("Fabric SQL database");
            assert(l.subrange(0, 6) =~= "Fabric"@);
            assert(crate::text::matches_at(l, "Fabric"@, 0));
        },
        EngineKind::SqlServer => {
            reveal_strlit("SQL Server");
            lemma_no_capital_f(l);
        },
        EngineKind::AzureSqlDb => {
            reveal_strlit("Azure SQL Database");
            lemma_no_capital_f(l);
        },
        EngineKind::AzureSqlMi => {
            reveal_strlit("Azure SQL Managed Instance");
            lemma_no_capital_f(l);
        },
        EngineKind::SynapseDedicated => {
            reveal_strlit("Synapse dedicated SQL pool");
            lemma_no_capital_f(l);
        },
        EngineKind::SynapseServerless => {
            reveal_strlit("Synapse serverless SQL pool");
            lemma_no_capital_f(l);
        },
        EngineKind::SqlEdge => {
            reveal_strlit("Azure SQL Edge");
            lemma_no_capital_f(l);
        },
        EngineKind::Unknown => {
            reveal_strlit("SQL Server (unknown edition)");
            lemma_no_capital_f(l);
        },
    }
}

/// Everything supported.
pub open spec fn full_caps() -> Capabilities {
    Capabilities {
        actual_plans: true,
        estimated_plans: true,
        procedures: true,
        functions: true,
        sequences: true,
        synonyms: true,
        table_types: true,
        triggers: true,
        transactions: true,
        read_only: false,
        multiple_databases: true,
        sql_login: true,
        temp_tables: true,
        system_databases: true,
        set_xact_abort: true,
        set_statistics: true,
    }
}

pub open spec fn engine_caps(k: EngineKind) -> Capabilities {
    let full = full_caps();
    match k {
        EngineKind::SqlServer | EngineKind::SqlEdge | EngineKind::AzureSqlMi
        | EngineKind::Unknown => full,
        EngineKind::AzureSqlDb => Capabilities {
            multiple_databases: false,
            system_databases: false,
            ..full
        },
        EngineKind::SynapseDedicated => Capabilities {
            actual_plans: false,
            sequences: false,
            synonyms: false,
            triggers: false,
            multiple_databases: false,
            system_databases: false,
            set_statistics: false,
            ..full
        },
        EngineKind::SynapseServerless => Capabilities {
            actual_plans: false,
            procedures: true,
            sequences: false,
            table_types: false,
            triggers: false,
            transactions: false,
            system_databases: false,
            set_statistics: false,
            ..full
        },
        EngineKind::FabricWarehouse => Capabilities {
            actual_plans: false,
            sequences: false,
            synonyms: false,
            table_types: false,
            triggers: false,
            transactions: true,
            sql_login: false,
            system_databases: false,
            set_xact_abort: false,
            set_statistics: false,
            ..full
        },
        EngineKind::FabricSqlEndpoint => Capabilities {
            actual_plans: false,
            procedures: false,
            sequences: false,
            synonyms: false,
            table_types: false,
            triggers: false,
            transactions: false,
            read_only: true,
            sql_login: false,
            system_databases: false,
            set_xact_abort: false,
            set_statistics: false,
            ..full
        },
        EngineKind::FabricSqlDb => Capabilities {
            sql_login: false,
            multiple_databases: false,
            system_databases: false,
            ..full
        },
    }
}

impl EngineKind {
    /// Map `SERVERPROPERTY('EngineEdition')` plus host heuristics: 1-4 on-premises, 5 Azure SQL
    /// DB, 6 Synapse dedicated, 8 Managed Instance, 9 SQL Edge, 11 Synapse serverless, 12 Fabric
    /// SQL database; on Fabric hosts the edition name decides between Warehouse and endpoint.
    pub fn from_edition(engine_edition: i32, host_is_fabric: bool, edition_name: &str) -> (r: Self)
        ensures
            r == engine_of(engine_edition, host_is_fabric, ascii_lower(edition_name@)),
    {
        let e = lower_of(edition_name);
        if host_is_fabric {
            if contains_str(&e, "datawarehouse") || contains_str(&e, "warehouse") {
                return EngineKind::FabricWarehouse;
            }
            if contains_str(&e, "lakehouse") || contains_str(&e, "endpoint") {
                return EngineKind::FabricSqlEndpoint;
            }
            return if engine_edition == 5 || engine_edition == 12 {
                EngineKind::FabricSqlDb
            } else {
                EngineKind::FabricWarehouse
            };
        }
        if 1 <= engine_edition && engine_edition <= 4 {
            EngineKind::SqlServer
        } else if engine_edition == 5 || engine_edition == 12 {
            EngineKind::AzureSqlDb
        } else if engine_edition == 6 {
            EngineKind::SynapseDedicated
        } else if engine_edition == 8 {
            EngineKind::AzureSqlMi
        } else if engine_edition == 9 {
            EngineKind::SqlEdge
        } else if engine_edition == 11 {
            EngineKind::SynapseServerless
        } else {
            EngineKind::Unknown
        }
    }

    pub fn label(&self) -> (r: &'static str)
        ensures
            r@ == engine_label(*self),
    {
        match self {
            EngineKind::SqlServer => "SQL Server",
            EngineKind::AzureSqlDb => "Azure SQL Database",
            EngineKind::AzureSqlMi => "Azure SQL Managed Instance",
            EngineKind::SynapseDedicated => "Synapse dedicated SQL pool",
            EngineKind::SynapseServerless => "Synapse serverless SQL pool",
            EngineKind::FabricWarehouse => "Fabric Warehouse",
            EngineKind::FabricSqlEndpoint => "Fabric SQL analytics endpoint",
            EngineKind::FabricSqlDb => "Fabric SQL database",
            EngineKind::SqlEdge => "Azure SQL Edge",
            EngineKind::Unknown => "SQL Server (unknown edition)",
        }
    }

    pub fn is_fabric(&self) -> (r: bool)
        ensures
            r == (*self == EngineKind::FabricWarehouse || *self == EngineKind::FabricSqlEndpoint
                || *self == EngineKind::FabricSqlDb),
    {
        match self {
            EngineKind::FabricWarehouse | EngineKind::FabricSqlEndpoint
            | EngineKind::FabricSqlDb => true,
            _ => false,
        }
    }

    /// What the engine supports.
    pub fn capabilities(&self) -> (r: Capabilities)
        ensures
            r == engine_caps(*self),
    {
        let full = Capabilities {
            actual_plans: true,
            estimated_plans: true,
            procedures: true,
            functions: true,
            sequences: true,
            synonyms: true,
            table_types: true,
            triggers: true,
            transactions: true,
            read_only: false,
            multiple_databases: true,
            sql_login: true,
            temp_tables: true,
            system_databases: true,
            set_xact_abort: true,
            set_statistics: true,
        };
        match self {
            EngineKind::SqlServer | EngineKind::SqlEdge | EngineKind::AzureSqlMi
            | EngineKind::Unknown => full,
            EngineKind::AzureSqlDb => Capabilities {
                multiple_databases: false,
                system_databases: false,
                ..full
            },
            EngineKind::SynapseDedicated => Capabilities {
                actual_plans: false,
                sequences: false,
                synonyms: false,
                triggers: false,
                multiple_databases: false,
                system_databases: false,
                set_statistics: false,
                ..full
            },
            EngineKind::SynapseServerless => Capabilities {
                actual_plans: false,
                procedures: true,
                sequences: false,
                table_types: false,
                triggers: false,
                transactions: false,
                system_databases: false,
                set_statistics: false,
                ..full
            },
            EngineKind::FabricWarehouse => Capabilities {
                actual_plans: false,
                sequences: false,
                synonyms: false,
                table_types: false,
                triggers: false,
                transactions: true,
                sql_login: false,
                system_databases: false,
                set_xact_abort: false,
                set_statistics: false,
                ..full
            },
            EngineKind::FabricSqlEndpoint => Capabilities {
                actual_plans: false,
                procedures: false,
                sequences: false,
                synonyms: false,
                table_types: false,
                triggers: false,
                transactions: false,
                read_only: true,
                sql_login: false,
                system_databases: false,
                set_xact_abort: false,
                set_statistics: false,
                ..full
            },
            EngineKind::FabricSqlDb => Capabilities {
                sql_login: false,
                multiple_databases: false,
                system_databases: false,
                ..full
            },
        }
    }
}

#[derive(Clone, Debug)]
pub struct EngineInfo {
    pub kind: EngineKind,
    /// e.g. "16.0.4165.4"
    pub version: String,
    pub product_level: String,
    pub edition: String,
    pub server_name: String,
    /// Full `@@VERSION` text.
    pub version_text: String,
    pub capabilities: Capabilities,
}

/// The text before the first `.` (all of it when there is none).
pub open spec fn first_segment(s: Seq<char>) -> Seq<char> {
    if exists|i: int| 0 <= i < s.len() && s[i] == '.' {
        s.take(choose|i: int| 0 <= i < s.len() && s[i] == '.' && forall|j: int| 0 <= j < i ==> s[j] != '.')
    } else {
        s
    }
}

/// The leading number of a version string, or 0.
pub open spec fn major_of(version: Seq<char>) -> u32 {
    match parse_uint(first_segment(version), 0xffff_ffff) {
        Some(n) => n as u32,
        None => 0,
    }
}

/// The product year of an on-premises SQL Server major version, or empty.
pub open spec fn year_of(major: u32) -> Seq<char> {
    if major == 17 {
        "2025"@
    } else if major == 16 {
        "2022"@
    } else if major == 15 {
        "2019"@
    } else if major == 14 {
        "2017"@
    } else if major == 13 {
        "2016"@
    } else if major == 12 {
        "2014"@
    } else if major == 11 {
        "2012"@
    } else {
        ""@
    }
}

pub open spec fn short_label_spec(kind: EngineKind, version: Seq<char>) -> Seq<char> {
    if kind == EngineKind::SqlServer {
        let yr = year_of(major_of(version));
        if yr.len() == 0 {
            "SQL Server "@ + version
        } else {
            "SQL Server "@ + yr
        }
    } else {
        engine_label(kind)
    }
}

impl EngineInfo {
    /// The leading number of `version` (0 when it does not read as one).
    pub fn major_version(&self) -> (r: u32)
        ensures
            r == major_of(self.version@),
    {
        let v = chars_of(self.version.as_str());
        let dot = find_char(&v, '.', 0);
        let seg = match dot {
            Some(i) => {
                proof {
                    let k = choose|k: int| 0 <= k < v@.len() && v@[k] == '.' && forall|j: int| 0 <= j < k ==> v@[j] != '.';
                    if k < i { assert(v@[k] != '.'); }
                    if k > i { assert(v@[i as int] != '.'); }
                }
                slice(&v, 0, i)
            },
            None => v.clone(),
        };
        assert(seg@ == first_segment(v@));
        match parse_uint_exec(&seg, 0xffff_ffff) {
            Some(n) => n as u32,
            None => 0,
        }
    }

    /// `SQL Server 2022` for on-premises servers with a known version, else the engine label.
    pub fn short_label(&self) -> (r: String)
        ensures
            r@ == short_label_spec(self.kind, self.version@),
    {
        match self.kind {
            EngineKind::SqlServer => {
                let m = self.major_version();
                let yr: &str = if m == 17 {
                    "2025"
                } else if m == 16 {
                    "2022"
                } else if m == 15 {
                    "2019"
                } else if m == 14 {
                    "2017"
                } else if m == 13 {
                    "2016"
                } else if m == 12 {
                    "2014"
                } else if m == 11 {
                    "2012"
                } else {
                    ""
                };
                let mut v = chars_of("SQL Server ");
                if yr.is_empty() {
                    push_str(&mut v, self.version.as_str());
                } else {
                    push_str(&mut v, yr);
                }
                string_of(&v)
            },
            k => string_of(&chars_of(k.label())),
        }
    }
}

} // verus!
