//! Server messages, execution options and related enums.

use crate::text::{chars_of, dec, dec_int, dec_i64, dec_u64, push_all, push_str, string_of};
use vstd::prelude::*;

verus! {

broadcast use vstd::string::group_string_axioms;

/// An informational or error message from the server (PRINT, RAISERROR, errors, rows affected).
#[derive(Clone, Debug, PartialEq, Eq)]
pub struct ServerMessage {
    pub number: i32,
    pub state: u8,
    pub class: u8,
    pub message: String,
    pub server: Option<String>,
    pub procedure: Option<String>,
    /// 1-based line within the batch as reported by the server.
    pub line: u32,
    pub is_error: bool,
}

/// `Msg 8134, Level 16, State 1[, Procedure p], Line 3`.
pub open spec fn headline_text(m: ServerMessage) -> Seq<char> {
    "Msg "@ + dec_int(m.number as int) + ", Level "@ + dec(m.class as nat) + ", State "@ + dec(
        m.state as nat,
    ) + match m.procedure {
        Some(p) => ", Procedure "@ + p@,
        None => ""@,
    } + ", Line "@ + dec(m.line as nat)
}

impl ServerMessage {
    /// An informational message.
    pub fn info(text: &str) -> (r: Self)
        ensures
            r.number == 0,
            r.state == 1,
            r.class == 0,
            r.message@ == text@,
            r.server is None,
            r.procedure is None,
            r.line == 0,
            !r.is_error,
    {
        ServerMessage {
            number: 0,
            state: 1,
            class: 0,
            message: text.to_owned(),
            server: None,
            procedure: None,
            line: 0,
            is_error: false,
        }
    }

    /// An error at severity 16.
    pub fn error(number: i32, text: &str, line: u32) -> (r: Self)
        ensures
            r.number == number,
            r.state == 1,
            r.class == 16,
            r.message@ == text@,
            r.server is None,
            r.procedure is None,
            r.line == line,
            r.is_error,
    {
        ServerMessage {
            number,
            state: 1,
            class: 16,
            message: text.to_owned(),
            server: None,
            procedure: None,
            line,
            is_error: true,
        }
    }

    /// SSMS-style prefix, for errors and numbered messages.
    pub fn headline(&self) -> (r: Option<String>)
        ensures
            match r {
                Some(h) => (self.is_error || self.number > 0) && h@ == headline_text(*self),
                None => !(self.is_error || self.number > 0),
            },
    {
        if self.is_error || self.number > 0 {
            let mut v = chars_of("Msg ");
            let n = dec_i64(self.number as i64);
            push_all(&mut v, &n);
            push_str(&mut v, ", Level ");
            let c = dec_u64(self.class as u64);
            push_all(&mut v, &c);
            push_str(&mut v, ", State ");
            let s = dec_u64(self.state as u64);
            push_all(&mut v, &s);
            match &self.procedure {
                Some(p) => {
                    let mut q = chars_of(", Procedure ");
                    push_str(&mut q, p.as_str());
                    push_all(&mut v, &q);
                },
                None => {
                    let e = chars_of("");
                    push_all(&mut v, &e);
                },
            }
            push_str(&mut v, ", Line ");
            let l = dec_u64(self.line as u64);
            push_all(&mut v, &l);
            Some(string_of(&v))
        } else {
            None
        }
    }
}

#[derive(Clone, Copy, Debug, PartialEq, Eq, Structural)]
pub enum PlanMode {
    /// No plan is captured.
    NoPlan,
    /// `SET SHOWPLAN_XML ON`: no data, one plan result set per statement.
    Estimated,
    /// `SET STATISTICS XML ON`: data, then a plan result set per statement.
    Actual,
}

#[derive(Clone, Copy, Debug, PartialEq, Eq, Structural)]
pub enum IsolationLevel {
    ReadUncommitted,
    ReadCommitted,
    RepeatableRead,
    Serializable,
    Snapshot,
}

impl IsolationLevel {
    /// The T-SQL words after `SET TRANSACTION ISOLATION LEVEL`.
    pub fn sql(&self) -> (r: &'static str)
        ensures
            r@ == match *self {
                IsolationLevel::ReadUncommitted => "READ UNCOMMITTED"@,
                IsolationLevel::ReadCommitted => "READ COMMITTED"@,
                IsolationLevel::RepeatableRead => "REPEATABLE READ"@,
                IsolationLevel::Serializable => "SERIALIZABLE"@,
                IsolationLevel::Snapshot => "SNAPSHOT"@,
            },
    {
        match self {
            IsolationLevel::ReadUncommitted => "READ UNCOMMITTED",
            IsolationLevel::ReadCommitted => "READ COMMITTED",
            IsolationLevel::RepeatableRead => "REPEATABLE READ",
            IsolationLevel::Serializable => "SERIALIZABLE",
            IsolationLevel::Snapshot => "SNAPSHOT",
        }
    }
}

/// Options applied to a single execution.
#[derive(Clone, Copy, Debug, PartialEq, Eq, Structural)]
pub struct ExecOptions {
    /// Stop fetching after this many rows per result set. 0 = unlimited.
    pub row_cap: u64,
    /// 0 = none.
    pub timeout_secs: u32,
    pub plan: PlanMode,
    pub isolation: Option<IsolationLevel>,
    pub nocount: bool,
    pub arithabort: bool,
    pub statistics_io: bool,
    pub statistics_time: bool,
    pub xact_abort: bool,
    /// Rows per batch handed to the UI.
    pub batch_rows: usize,
}

impl ExecOptions {
    pub fn default() -> (r: Self)
        ensures
            r == (ExecOptions {
                row_cap: 10_000,
                timeout_secs: 0,
                plan: PlanMode::NoPlan,
                isolation: None,
                nocount: false,
                arithabort: true,
                statistics_io: false,
                statistics_time: false,
                xact_abort: false,
                batch_rows: 4096,
            }),
    {
        ExecOptions {
            row_cap: 10_000,
            timeout_secs: 0,
            plan: PlanMode::NoPlan,
            isolation: None,
            nocount: false,
            arithabort: true,
            statistics_io: false,
            statistics_time: false,
            xact_abort: false,
            batch_rows: 4096,
        }
    }
}

/// Where a connection is used; drives pooling/priority decisions.
#[derive(Clone, Copy, Debug, PartialEq, Eq, Hash, Structural)]
pub enum ConnectionRole {
    /// An editor tab's session.
    Query,
    /// Object explorer / completion catalog reads.
    Metadata,
    /// Background export runs.
    Export,
}

} // verus!
