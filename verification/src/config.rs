//! SIL feature flags (the `[sil]` table of the Desk config file).

use vstd::prelude::*;

use crate::text::{eq_lit, lemma_norm_lower_plain, norm_lower, norm_lower_of};

verus! {

/// How the MCP adapter obtains live coaching state.
///
/// - `Embedded`: MCP owns ingest (today's topology / rollback).
/// - `External`: MCP is a thin client over the external engine.
#[derive(Debug, Clone, Copy, PartialEq, Eq, Structural)]
pub enum EngineMode {
    /// MCP alone — no external engine process (true rollback).
    Embedded,
    /// MCP reads published state from the engine state socket.
    External,
}

pub open spec fn engine_mode_label(m: EngineMode) -> Seq<char> {
    match m {
        EngineMode::Embedded => "embedded"@,
        EngineMode::External => "external"@,
    }
}

/// The engine mode a normalized label names (`socket` and `ipc` mean external).
pub open spec fn engine_mode_from_key(k: Seq<char>) -> Option<EngineMode> {
    if k == "embedded"@ {
        Some(EngineMode::Embedded)
    } else if k == "external"@ || k == "socket"@ || k == "ipc"@ {
        Some(EngineMode::External)
    } else {
        None
    }
}

impl Default for EngineMode {
    fn default() -> (r: EngineMode)
        ensures
            r == EngineMode::Embedded,
    {
        EngineMode::Embedded
    }
}

impl EngineMode {
    /// Parse wire labels used in config.toml / tests.
    pub fn parse(raw: &str) -> (r: Option<EngineMode>)
        ensures
            r == engine_mode_from_key(norm_lower(raw@)),
    {
        let k = norm_lower_of(raw);
        if eq_lit(&k, "embedded") {
            Some(EngineMode::Embedded)
        } else if eq_lit(&k, "external") || eq_lit(&k, "socket") || eq_lit(&k, "ipc") {
            Some(EngineMode::External)
        } else {
            None
        }
    }

    pub fn as_str(self) -> (r: &'static str)
        ensures
            r@ == engine_mode_label(self),
    {
        match self {
            EngineMode::Embedded => "embedded",
            EngineMode::External => "external",
        }
    }
}

/// SIL configuration. Default-off: discovery tools are omitted unless enabled.
#[derive(Debug, Clone, PartialEq, Eq)]
pub struct SilConfig {
    /// When true, register catalog discovery + read-kernel operators.
    pub catalog_discovery: bool,
    /// Embedded (default) vs external engine topology.
    pub engine_mode: EngineMode,
    /// Optional override for the engine state socket (`host:port`).
    pub engine_bind: Option<String>,
}

impl Default for SilConfig {
    fn default() -> (r: SilConfig)
        ensures
            !r.catalog_discovery,
            r.engine_mode == EngineMode::Embedded,
            r.engine_bind is None,
    {
        SilConfig { catalog_discovery: false, engine_mode: EngineMode::Embedded, engine_bind: None }
    }
}

/// Every engine mode's wire label parses back to it.
pub proof fn lemma_engine_mode_round_trip(m: EngineMode)
    ensures
        engine_mode_from_key(norm_lower(engine_mode_label(m))) == Some(m),
{
    reveal_strlit("embedded");
    reveal_strlit("external");
    reveal_strlit("socket");
    reveal_strlit("ipc");
    lemma_norm_lower_plain(engine_mode_label(m));
}

} // verus!
