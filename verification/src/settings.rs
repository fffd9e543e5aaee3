//! User settings sections that hold no floating-point values, with their defaults.

use crate::text::{chars_of, trim, trim_bounds};
use vstd::string::StrSliceExecFns;
use vstd::prelude::*;

verus! {

broadcast use vstd::string::group_string_axioms;

#[derive(Clone, Copy, Debug, PartialEq, Eq, Structural)]
pub enum ThemeChoice {
    System,
    Light,
    Dark,
}

#[derive(Clone, Copy, Debug, PartialEq, Eq, Structural)]
pub struct EditorSettings {
    pub tab_size: u8,
    pub insert_spaces: bool,
    pub word_wrap: bool,
    pub auto_close_brackets: bool,
    pub highlight_current_statement: bool,
    pub completion_enabled: bool,
    pub completion_on_type: bool,
    pub uppercase_keywords_on_complete: bool,
    pub auto_save: bool,
}

impl EditorSettings {
    pub fn default() -> (r: Self)
        ensures
            r == (EditorSettings {
                tab_size: 4,
                insert_spaces: true,
                word_wrap: false,
                auto_close_brackets: true,
                highlight_current_statement: true,
                completion_enabled: true,
                completion_on_type: true,
                uppercase_keywords_on_complete: true,
                auto_save: false,
            }),
    {
        EditorSettings {
            tab_size: 4,
            insert_spaces: true,
            word_wrap: false,
            auto_close_brackets: true,
            highlight_current_statement: true,
            completion_enabled: true,
            completion_on_type: true,
            uppercase_keywords_on_complete: true,
            auto_save: false,
        }
    }
}

#[derive(Clone, Copy, Debug, PartialEq, Eq, Structural)]
pub struct ExecutionSettings {
    pub row_cap: u64,
    pub command_timeout_secs: u32,
    pub select_top_n: u32,
    pub stop_on_error: bool,
    pub arithabort: bool,
}

impl ExecutionSettings {
    pub fn default() -> (r: Self)
        ensures
            r == (ExecutionSettings {
                row_cap: 10_000,
                command_timeout_secs: 0,
                select_top_n: 1000,
                stop_on_error: true,
                arithabort: true,
            }),
    {
        ExecutionSettings {
            row_cap: 10_000,
            command_timeout_secs: 0,
            select_top_n: 1000,
            stop_on_error: true,
            arithabort: true,
        }
    }
}

#[derive(Clone, Copy, Debug, PartialEq, Eq, Structural)]
pub enum ResultLayout {
    Stacked,
    Tabs,
}

#[derive(Clone, Debug, PartialEq, Eq)]
pub struct ExportSettings {
    pub csv_delimiter: String,
    pub csv_include_headers: bool,
    pub csv_quote_all: bool,
    pub csv_line_ending: String,
    pub csv_bom: bool,
    pub csv_null_as: String,
    pub json_lines: bool,
    pub json_pretty: bool,
    pub xml_row_element: String,
    pub xml_attribute_style: bool,
    pub parquet_compression: String,
    pub parquet_row_group_rows: usize,
    pub excel_freeze_header: bool,
    pub excel_autofilter: bool,
    pub excel_bold_header: bool,
    pub delta_mode: String,
    pub open_after_save: bool,
    pub last_dir: Option<String>,
    /// Extension of the format chosen last time (`csv`, `parquet`, `delta`…).
    pub last_format: Option<String>,
}

impl ExportSettings {
    pub fn default() -> (r: Self)
        ensures
            r.csv_delimiter@ == ","@,
            r.csv_include_headers,
            !r.csv_quote_all,
            r.csv_line_ending@ == "\r\n"@,
            !r.csv_bom,
            r.csv_null_as@ == ""@,
            !r.json_lines,
            r.json_pretty,
            r.xml_row_element@ == "row"@,
            !r.xml_attribute_style,
            r.parquet_compression@ == "zstd"@,
            r.parquet_row_group_rows == 131_072,
            r.excel_freeze_header,
            r.excel_autofilter,
            r.excel_bold_header,
            r.delta_mode@ == "create"@,
            !r.open_after_save,
            r.last_dir is None,
            r.last_format is None,
    {
        ExportSettings {
            csv_delimiter: ",".to_owned(),
            csv_include_headers: true,
            csv_quote_all: false,
            csv_line_ending: "\r\n".to_owned(),
            csv_bom: false,
            csv_null_as: "".to_owned(),
            json_lines: false,
            json_pretty: true,
            xml_row_element: "row".to_owned(),
            xml_attribute_style: false,
            parquet_compression: "zstd".to_owned(),
            parquet_row_group_rows: 131_072,
            excel_freeze_header: true,
            excel_autofilter: true,
            excel_bold_header: true,
            delta_mode: "create".to_owned(),
            open_after_save: false,
            last_dir: None,
            last_format: None,
        }
    }
}

/// Cobalt SQL Works public-client app registration (multi-tenant, personal accounts allowed).
pub const DEFAULT_ENTRA_CLIENT_ID: &'static str = "ecec63e7-6f92-470c-be3e-0fccff2e8c34";

#[derive(Clone, Debug, PartialEq, Eq)]
pub struct ConnectionSettings {
    /// Entra public-client app id used for interactive/device-code auth. Overridable per user.
    pub entra_client_id: String,
    pub entra_default_tenant: Option<String>,
    pub entra_redirect_port: Option<u16>,
    pub default_auth: String,
    pub metadata_connection: bool,
    pub reconnect_on_run: bool,
}

/// The client id in use: the configured one (trimmed), or the default when it is blank.
pub open spec fn effective_client_id(configured: Seq<char>) -> Seq<char> {
    if trim(configured).len() == 0 {
        DEFAULT_ENTRA_CLIENT_ID@
    } else {
        trim(configured)
    }
}

impl ConnectionSettings {
    /// The configured client id, or Cobalt's default when the setting is blank.
    pub fn effective_entra_client_id(&self) -> (r: &str)
        ensures
            r@ == effective_client_id(self.entra_client_id@),
    {
        let s = self.entra_client_id.as_str();
        let v = chars_of(s);
        let (i, j) = trim_bounds(&v);
        let t = s.substring_char(i, j);
        if t.is_empty() {
            DEFAULT_ENTRA_CLIENT_ID
        } else {
            t
        }
    }

    pub fn default() -> (r: Self)
        ensures
            r.entra_client_id@ == DEFAULT_ENTRA_CLIENT_ID@,
            r.entra_default_tenant is None,
            r.entra_redirect_port is None,
            r.default_auth@ == "sql_login"@,
            r.metadata_connection,
            r.reconnect_on_run,
    {
        ConnectionSettings {
            entra_client_id: DEFAULT_ENTRA_CLIENT_ID.to_owned(),
            entra_default_tenant: None,
            entra_redirect_port: None,
            default_auth: "sql_login".to_owned(),
            metadata_connection: true,
            reconnect_on_run: true,
        }
    }
}

#[derive(Clone, Copy, Debug, PartialEq, Eq, Structural)]
pub struct HistorySettings {
    pub capture: bool,
    pub retention_days: u32,
    pub max_entries: u32,
}

impl HistorySettings {
    pub fn default() -> (r: Self)
        ensures
            r == (HistorySettings { capture: true, retention_days: 90, max_entries: 10_000 }),
    {
        HistorySettings { capture: true, retention_days: 90, max_entries: 10_000 }
    }
}

#[derive(Clone, Debug, PartialEq, Eq)]
pub struct UpdateSettings {
    /// Ask for the latest release shortly after start-up.
    pub check_on_startup: bool,
    /// A version the user chose to skip; the start-up check stays quiet about it.
    pub skipped_version: Option<String>,
}

impl UpdateSettings {
    pub fn default() -> (r: Self)
        ensures
            r.check_on_startup,
            r.skipped_version is None,
    {
        UpdateSettings { check_on_startup: true, skipped_version: None }
    }
}

#[derive(Clone, Debug, PartialEq, Eq)]
pub struct AdvancedSettings {
    /// Bytes of result data held in RAM before spilling to disk.
    pub memory_budget_bytes: u64,
    pub temp_dir: Option<String>,
    pub log_level: String,
    pub renderer: String,
}

impl AdvancedSettings {
    pub fn default() -> (r: Self)
        ensures
            r.memory_budget_bytes == 1024 * 1024 * 1024,
            r.temp_dir is None,
            r.log_level@ == "info"@,
            r.renderer@ == "wgpu"@,
    {
        AdvancedSettings {
            memory_budget_bytes: 1024 * 1024 * 1024,
            temp_dir: None,
            log_level: "info".to_owned(),
            renderer: "wgpu".to_owned(),
        }
    }
}

} // verus!
