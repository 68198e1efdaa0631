//! Session / trading-day scope filters for research-style queries, and the
//! review and ranking options that go with them.

use vstd::prelude::*;

use crate::text::{chars_of, eq_lit, lex_lt, lex_lt_exec, norm_lower, norm_lower_of, owned, trimmed};

verus! {

/// Review fields written back onto a trade.
#[derive(Debug, Clone)]
pub struct TradeReviewUpdate {
    pub planned: bool,
    pub rules_followed: Option<bool>,
    pub emotional_state: Option<String>,
    pub thesis: Option<String>,
    pub review_tags: Vec<String>,
    pub mistake_tags: Vec<String>,
    pub notes: String,
}

/// Ranking key of the setup performance matrix.
#[derive(Debug, Clone, Copy, PartialEq, Eq, Structural)]
pub enum SetupPerformanceSortBy {
    WinRate,
    AvgR,
    Resolved,
    TotalSignals,
}

/// Optional session / trading-day scope used by research-style queries.
#[derive(Debug, Clone)]
pub struct SessionScopeFilter {
    pub session_type: Option<String>,
    pub session_segment: Option<String>,
    pub trading_day_start: Option<String>,
    pub trading_day_end: Option<String>,
    pub root_symbol: Option<String>,
    pub contract_symbol: Option<String>,
    pub include_rollover_sessions: bool,
    pub continuous_mode: bool,
}

impl Default for SessionScopeFilter {
    fn default() -> (r: Self)
        ensures
            r.session_type is None,
            r.session_segment is None,
            r.trading_day_start is None,
            r.trading_day_end is None,
            r.root_symbol is None,
            r.contract_symbol is None,
            !r.include_rollover_sessions,
            !r.continuous_mode,
    {
        SessionScopeFilter {
            session_type: None,
            session_segment: None,
            trading_day_start: None,
            trading_day_end: None,
            root_symbol: None,
            contract_symbol: None,
            include_rollover_sessions: false,
            continuous_mode: false,
        }
    }
}

/// Signal source recorded when none is given.
pub fn default_signal_source() -> (r: String)
    ensures
        r@ == "live"@,
{
    owned("live")
}

/// Rollover sessions are included unless a request says otherwise.
pub fn default_include_rollover_sessions() -> (r: bool)
    ensures
        r,
{
    true
}

/// A scope that restricts nothing: no session, day or symbol filter, rollover
/// sessions included, continuous mode off.
pub open spec fn scope_is_empty(s: SessionScopeFilter) -> bool {
    &&& s.session_type is None
    &&& s.session_segment is None
    &&& s.trading_day_start is None
    &&& s.trading_day_end is None
    &&& s.root_symbol is None
    &&& s.contract_symbol is None
    &&& s.include_rollover_sessions
    &&& !s.continuous_mode
}

impl SessionScopeFilter {
    /// Whether the scope restricts nothing.
    pub fn is_empty(&self) -> (r: bool)
        ensures
            r == scope_is_empty(*self),
    {
        self.session_type.is_none() && self.session_segment.is_none()
            && self.trading_day_start.is_none() && self.trading_day_end.is_none()
            && self.root_symbol.is_none() && self.contract_symbol.is_none()
            && self.include_rollover_sessions && !self.continuous_mode
    }
}

/// Canonical session type of a filter value (trimmed, any ASCII case).
pub open spec fn session_type_key(v: Seq<char>) -> Option<Seq<char>> {
    let k = norm_lower(v);
    if k == "rth"@ {
        Some("RTH"@)
    } else if k == "globex"@ {
        Some("Globex"@)
    } else if k == "unknown"@ {
        Some("Unknown"@)
    } else {
        None
    }
}

/// Canonical session segment of a filter value (trimmed, any ASCII case).
pub open spec fn session_segment_key(v: Seq<char>) -> Option<Seq<char>> {
    let k = norm_lower(v);
    if k == "asia"@ {
        Some("Asia"@)
    } else if k == "london"@ {
        Some("London"@)
    } else if k == "none"@ {
        Some("None"@)
    } else {
        None
    }
}

fn opt_str(o: Option<&'static str>) -> (r: Option<String>)
    ensures
        match o {
            Some(s) => r matches Some(t) && t@ == s@,
            None => r is None,
        },
{
    match o {
        Some(s) => Some(owned(s)),
        None => None,
    }
}

/// Canonical session type of a filter value: `RTH`, `Globex` or `Unknown`.
pub fn normalize_session_type_filter(value: &str) -> (r: Option<&'static str>)
    ensures
        match session_type_key(value@) {
            Some(k) => r matches Some(s) && s@ == k,
            None => r is None,
        },
{
    let k = norm_lower_of(value);
    if eq_lit(&k, "rth") {
        Some("RTH")
    } else if eq_lit(&k, "globex") {
        Some("Globex")
    } else if eq_lit(&k, "unknown") {
        Some("Unknown")
    } else {
        None
    }
}

/// Canonical session segment of a filter value: `Asia`, `London` or `None`.
pub fn normalize_session_segment_filter(value: &str) -> (r: Option<&'static str>)
    ensures
        match session_segment_key(value@) {
            Some(k) => r matches Some(s) && s@ == k,
            None => r is None,
        },
{
    let k = norm_lower_of(value);
    if eq_lit(&k, "asia") {
        Some("Asia")
    } else if eq_lit(&k, "london") {
        Some("London")
    } else if eq_lit(&k, "none") {
        Some("None")
    } else {
        None
    }
}

/// Canonical session type of a stored row value.
pub fn normalize_session_type_value(value: &str) -> (r: Option<&'static str>)
    ensures
        match session_type_key(value@) {
            Some(k) => r matches Some(s) && s@ == k,
            None => r is None,
        },
{
    normalize_session_type_filter(value)
}

/// Canonical session segment of a stored row value: only Globex rows carry a
/// segment; anything unrecognised is `None`.
pub fn normalize_session_segment_value(value: &str, session_type: &str) -> (r: Option<&'static str>)
    ensures
        r matches Some(s) && s@ == (if session_type@ != "Globex"@ {
            "None"@
        } else {
            match session_segment_key(value@) {
                Some(k) => k,
                None => "None"@,
            }
        }),
{
    let t = chars_of(session_type);
    if !eq_lit(&t, "Globex") {
        return Some("None");
    }
    match normalize_session_segment_filter(value) {
        Some(s) => Some(s),
        None => Some("None"),
    }
}

/// A stored value that is present and not blank.
pub open spec fn present(v: Option<&str>) -> Option<Seq<char>> {
    match v {
        Some(s) => if trimmed(s@).len() > 0 {
            Some(s@)
        } else {
            None
        },
        None => None,
    }
}

/// Session context stored on an event row: (session type, segment, trading
/// day) when the row carries a recognised session type and a trading day.
pub open spec fn stored_context(
    session_type: Option<&str>,
    session_segment: Option<&str>,
    trading_day: Option<&str>,
) -> Option<(Seq<char>, Seq<char>, Seq<char>)> {
    match (present(session_type), present(trading_day)) {
        (Some(t), Some(day)) => match session_type_key(t) {
            Some(st) => {
                let seg = if st != "Globex"@ {
                    "None"@
                } else {
                    match present(session_segment) {
                        Some(g) => match session_segment_key(g) {
                            Some(k) => k,
                            None => "None"@,
                        },
                        None => "None"@,
                    }
                };
                Some((st, seg, day))
            },
            None => None,
        },
        _ => None,
    }
}

fn present_exec(v: Option<&str>) -> (r: Option<&str>)
    ensures
        match present(v) {
            Some(s) => r matches Some(t) && t@ == s && t == v.unwrap(),
            None => r is None,
        },
{
    match v {
        Some(s) => {
            let t = crate::text::trimmed_of(s);
            if t.len() > 0 {
                Some(s)
            } else {
                None
            }
        },
        None => None,
    }
}

/// The session context an event row stores, when it stores one: a
/// recognised session type and a non-blank trading day. Rows without it fall
/// back on their timestamp's session context, then on the session date.
pub fn stored_event_row_context(
    session_type: Option<&str>,
    session_segment: Option<&str>,
    trading_day: Option<&str>,
) -> (r: Option<(String, String, String)>)
    ensures
        match stored_context(session_type, session_segment, trading_day) {
            Some((st, seg, day)) => r matches Some((a, b, c)) && a@ == st && b@ == seg && c@ == day,
            None => r is None,
        },
{
    let st = match present_exec(session_type) {
        Some(t) => normalize_session_type_value(t),
        None => None,
    };
    let day = present_exec(trading_day);
    match (st, day) {
        (Some(st), Some(day)) => {
            let seg_raw = match present_exec(session_segment) {
                Some(g) => g,
                None => "None",
            };
            proof {
                reveal_strlit("None");
                reveal_strlit("none");
                reveal_strlit("asia");
                reveal_strlit("london");
                crate::text::lemma_trimmed_plain("None"@);
                assert(crate::text::trimmed("None"@) == "None"@);
                assert(crate::text::lower("None"@) =~= "none"@);
                assert(norm_lower("None"@) == "none"@);
                assert("none"@ != "asia"@) by {
                    assert("none"@[0] != "asia"@[0]);
                }
                assert("none"@ != "london"@) by {
                    assert("none"@.len() != "london"@.len());
                }
                assert(session_segment_key("None"@) == Some("None"@));
            }
            let seg = normalize_session_segment_value(seg_raw, st);
            match seg {
                Some(seg) => Some((owned(st), owned(seg), owned(day))),
                None => None,
            }
        },
        _ => None,
    }
}

/// The trading day of a row with session context (`session_type`,
/// `session_segment`, `trading_day`) when it falls inside `scope`; an absent
/// or empty scope admits every row. A filter value that names no known
/// session type or segment admits nothing.
pub open spec fn scope_day(
    session_type: Seq<char>,
    session_segment: Seq<char>,
    trading_day: Seq<char>,
    scope: Option<SessionScopeFilter>,
) -> Option<Seq<char>> {
    match scope {
        None => Some(trading_day),
        Some(s) => if scope_is_empty(s) {
            Some(trading_day)
        } else if s.session_type matches Some(t) && session_type_key(t@) != Some(session_type) {
            None
        } else if s.session_segment matches Some(g) && session_segment_key(g@) != Some(
            session_segment,
        ) {
            None
        } else if s.trading_day_start matches Some(a) && lex_lt(trading_day, a@) {
            None
        } else if s.trading_day_end matches Some(b) && lex_lt(b@, trading_day) {
            None
        } else {
            Some(trading_day)
        },
    }
}

/// The row's trading day when the row is inside `scope` (see [`scope_day`]).
pub fn trading_day_if_scope_match(
    session_type: &str,
    session_segment: &str,
    trading_day: &str,
    scope: Option<&SessionScopeFilter>,
) -> (r: Option<String>)
    ensures
        match scope_day(session_type@, session_segment@, trading_day@, match scope {
            Some(s) => Some(*s),
            None => None,
        }) {
            Some(d) => r matches Some(t) && t@ == d,
            None => r is None,
        },
{
    let s = match scope {
        None => {
            return Some(owned(trading_day));
        },
        Some(s) => s,
    };
    if s.is_empty() {
        return Some(owned(trading_day));
    }
    let t = chars_of(session_type);
    match &s.session_type {
        Some(f) => match normalize_session_type_filter(f.as_str()) {
            Some(norm) => {
                if !eq_lit(&t, norm) {
                    return None;
                }
            },
            None => {
                return None;
            },
        },
        None => {},
    }
    let g = chars_of(session_segment);
    match &s.session_segment {
        Some(f) => match normalize_session_segment_filter(f.as_str()) {
            Some(norm) => {
                if !eq_lit(&g, norm) {
                    return None;
                }
            },
            None => {
                return None;
            },
        },
        None => {},
    }
    let day = chars_of(trading_day);
    match &s.trading_day_start {
        Some(a) => {
            let a = chars_of(a.as_str());
            if lex_lt_exec(&day, &a) {
                return None;
            }
        },
        None => {},
    }
    match &s.trading_day_end {
        Some(b) => {
            let b = chars_of(b.as_str());
            if lex_lt_exec(&b, &day) {
                return None;
            }
        },
        None => {},
    }
    Some(owned(trading_day))
}

/// The day a row is analysed under: its scoped trading day when it matched;
/// otherwise its session date, unless a non-empty scope excluded it.
pub fn analysis_day_for_scope(
    session_date: &str,
    matched_day: Option<String>,
    scope: Option<&SessionScopeFilter>,
) -> (r: Option<String>)
    ensures
        matched_day is Some ==> r == matched_day,
        matched_day is None ==> match scope {
            Some(s) => if scope_is_empty(*s) {
                r matches Some(d) && d@ == session_date@
            } else {
                r is None
            },
            None => r matches Some(d) && d@ == session_date@,
        },
{
    match matched_day {
        Some(d) => Some(d),
        None => {
            let excluded = match scope {
                Some(s) => !s.is_empty(),
                None => false,
            };
            if excluded {
                None
            } else {
                Some(owned(session_date))
            }
        },
    }
}

/// The value `unwrap_or_default` reads from an optional symbol.
pub open spec fn symbol_or_empty(v: Option<&str>) -> Seq<char> {
    match v {
        Some(s) => s@,
        None => Seq::empty(),
    }
}

/// Root and contract symbols of a row agree with the scope's symbol filters
/// (an absent symbol reads as empty).
pub fn contract_fields_match_scope(
    root_symbol: Option<&str>,
    contract_symbol: Option<&str>,
    scope: Option<&SessionScopeFilter>,
) -> (r: bool)
    ensures
        r == match scope {
            None => true,
            Some(s) => (s.root_symbol matches Some(f) ==> symbol_or_empty(root_symbol) == f@) && (
            s.contract_symbol matches Some(f) ==> symbol_or_empty(contract_symbol) == f@),
        },
{
    let s = match scope {
        None => {
            return true;
        },
        Some(s) => s,
    };
    match &s.root_symbol {
        Some(f) => {
            let have = match root_symbol {
                Some(x) => chars_of(x),
                None => Vec::new(),
            };
            let want = chars_of(f.as_str());
            if !crate::text::same_chars(&have, &want) {
                return false;
            }
        },
        None => {},
    }
    match &s.contract_symbol {
        Some(f) => {
            let have = match contract_symbol {
                Some(x) => chars_of(x),
                None => Vec::new(),
            };
            let want = chars_of(f.as_str());
            if !crate::text::same_chars(&have, &want) {
                return false;
            }
        },
        None => {},
    }
    true
}

} // verus!
