//! The query-history sidebar's actions and relative times.

use crate::text::{chars_of, dec, dec_u64, push_all, push_str, string_of};
use crate::token::sane_now;
use vstd::prelude::*;

verus! {

broadcast use vstd::string::group_string_axioms;

/// What the history sidebar asks for.
#[derive(Debug, Clone)]
pub enum HistoryAction {
    Refresh,
    OpenInTab(i64),
    Run(i64),
    Star(i64, bool),
    Delete(i64),
    ClearAll,
    Copy(String),
}

/// How long ago `t` was at `now` (both in milliseconds since the Unix epoch), in words; `None`
/// from a week on, when the entry shows its local date instead.
pub open spec fn ago_text(now: int, t: int) -> Option<Seq<char>> {
    let d = now - t;
    if d < 60_000 {
        Some("just now"@)
    } else if d / 60_000 < 60 {
        Some(dec((d / 60_000) as nat) + " min ago"@)
    } else if d / 3_600_000 < 24 {
        Some(dec((d / 3_600_000) as nat) + " h ago"@)
    } else if d / 86_400_000 < 7 {
        Some(dec((d / 86_400_000) as nat) + " d ago"@)
    } else {
        None
    }
}

/// The relative time of a history entry started at `t`, as of `now`.
pub fn time_ago_at(now: i64, t: i64) -> (r: Option<String>)
    requires
        sane_now(now),
        sane_now(t),
    ensures
        match ago_text(now as int, t as int) {
            Some(s) => r is Some && r.unwrap()@ == s,
            None => r is None,
        },
{
    let d = now - t;
    if d < 60_000 {
        return Some("just now".to_owned());
    }
    let (n, unit) = if d / 60_000 < 60 {
        (d / 60_000, " min ago")
    } else if d / 3_600_000 < 24 {
        (d / 3_600_000, " h ago")
    } else if d / 86_400_000 < 7 {
        (d / 86_400_000, " d ago")
    } else {
        return None;
    };
    let mut v = dec_u64(n as u64);
    push_str(&mut v, unit);
    Some(string_of(&v))
}

} // verus!
