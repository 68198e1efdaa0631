//! Tallies behind the research performance views: which signal-outcome rows
//! a date window and session scope keep, the outcome counts over them (per
//! setup for the setup matrix), and the scoped event and session counts.
//!
//! A row's analysis day is read from the stored row and its fire time by the
//! caller (see `scope::analysis_day_for_scope`); averages of R multiples are
//! the caller's too.

use vstd::prelude::*;

use crate::scope::{contract_fields_match_scope, symbol_or_empty, SessionScopeFilter};
use crate::text::{
    char_views, chars_of, eq_lit, lemma_lex_lt_irreflexive, lex_lt, lex_lt_exec, same_chars,
    sort_unique, string_from, strictly_sorted,
};

verus! {

/// One signal-outcome row as the performance views read it. `analysis_day`
/// is the day the row is analysed under, or `None` when its scope excluded it.
#[derive(Debug, Clone, PartialEq)]
pub struct OutcomeRow {
    pub setup_id: String,
    pub setup_name: Option<String>,
    pub outcome: String,
    pub analysis_day: Option<String>,
    pub root_symbol: Option<String>,
    pub contract_symbol: Option<String>,
}

/// Outcome counts over kept rows.
#[derive(Debug, Clone, Copy, PartialEq, Eq)]
pub struct OutcomeCounts {
    pub total: u64,
    pub resolved: u64,
    pub pending: u64,
    pub target_hit: u64,
    pub stop_hit: u64,
    pub time_exit: u64,
}

/// One row of the setup performance matrix.
#[derive(Debug, Clone, PartialEq)]
pub struct SetupCounts {
    pub setup_id: String,
    pub setup_name: Option<String>,
    pub counts: OutcomeCounts,
}

/// Which rows a count counts.
pub enum Tallied {
    Any,
    Resolved,
    Pending,
    TargetHit,
    StopHit,
    TimeExit,
}

pub open spec fn opt_seq(o: Option<String>) -> Option<Seq<char>> {
    match o {
        Some(s) => Some(s@),
        None => None,
    }
}

pub open spec fn opt_str_seq(o: Option<&str>) -> Option<Seq<char>> {
    match o {
        Some(s) => Some(s@),
        None => None,
    }
}

pub open spec fn opt_scope(o: Option<&SessionScopeFilter>) -> Option<SessionScopeFilter> {
    match o {
        Some(s) => Some(*s),
        None => None,
    }
}

pub open spec fn text_or_empty(o: Option<String>) -> Seq<char> {
    match o {
        Some(s) => s@,
        None => Seq::empty(),
    }
}

/// `day` is inside the inclusive window (string order).
pub open spec fn in_window(day: Seq<char>, start: Option<Seq<char>>, end: Option<Seq<char>>) -> bool {
    &&& (start matches Some(sd) ==> !lex_lt(day, sd))
    &&& (end matches Some(ed) ==> !lex_lt(ed, day))
}

/// The row's root and contract symbols agree with the scope's filters (an
/// absent symbol reads as empty).
pub open spec fn symbols_match(r: OutcomeRow, scope: Option<SessionScopeFilter>) -> bool {
    match scope {
        None => true,
        Some(s) => (s.root_symbol matches Some(f) ==> text_or_empty(r.root_symbol) == f@) && (
        s.contract_symbol matches Some(f) ==> text_or_empty(r.contract_symbol) == f@),
    }
}

/// A row is kept when its symbols match the scope and it has an analysis day
/// inside the date window.
pub open spec fn row_kept(
    r: OutcomeRow,
    start: Option<Seq<char>>,
    end: Option<Seq<char>>,
    scope: Option<SessionScopeFilter>,
) -> bool {
    &&& symbols_match(r, scope)
    &&& r.analysis_day is Some
    &&& in_window(r.analysis_day->0@, start, end)
}

/// Whether an outcome label is counted under `k`.
pub open spec fn counts_as(outcome: Seq<char>, k: Tallied) -> bool {
    match k {
        Tallied::Any => true,
        Tallied::Resolved => outcome != "pending"@,
        Tallied::Pending => outcome == "pending"@,
        Tallied::TargetHit => outcome == "target_hit"@,
        Tallied::StopHit => outcome == "stop_hit"@,
        Tallied::TimeExit => outcome == "time_exit"@,
    }
}

/// A kept row of setup `setup` (any setup when `None`).
pub open spec fn row_counted(
    r: OutcomeRow,
    start: Option<Seq<char>>,
    end: Option<Seq<char>>,
    scope: Option<SessionScopeFilter>,
    setup: Option<Seq<char>>,
) -> bool {
    &&& row_kept(r, start, end, scope)
    &&& (setup matches Some(id) ==> r.setup_id@ == id)
}

/// Number of kept rows (of `setup`, when given) counted under `k`.
pub open spec fn tally(
    rows: Seq<OutcomeRow>,
    start: Option<Seq<char>>,
    end: Option<Seq<char>>,
    scope: Option<SessionScopeFilter>,
    setup: Option<Seq<char>>,
    k: Tallied,
) -> nat
    decreases rows.len(),
{
    if rows.len() == 0 {
        0
    } else {
        tally(rows.drop_last(), start, end, scope, setup, k) + if row_counted(
            rows.last(),
            start,
            end,
            scope,
            setup,
        ) && counts_as(rows.last().outcome@, k) {
            1nat
        } else {
            0nat
        }
    }
}

/// `c` holds the counts of the kept rows (of `setup`, when given).
pub open spec fn counts_match(
    c: OutcomeCounts,
    rows: Seq<OutcomeRow>,
    start: Option<Seq<char>>,
    end: Option<Seq<char>>,
    scope: Option<SessionScopeFilter>,
    setup: Option<Seq<char>>,
) -> bool {
    &&& c.total == tally(rows, start, end, scope, setup, Tallied::Any)
    &&& c.resolved == tally(rows, start, end, scope, setup, Tallied::Resolved)
    &&& c.pending == tally(rows, start, end, scope, setup, Tallied::Pending)
    &&& c.target_hit == tally(rows, start, end, scope, setup, Tallied::TargetHit)
    &&& c.stop_hit == tally(rows, start, end, scope, setup, Tallied::StopHit)
    &&& c.time_exit == tally(rows, start, end, scope, setup, Tallied::TimeExit)
}

/// Every kept row is either resolved or pending: the total is their sum.
pub proof fn lemma_total_is_resolved_plus_pending(
    rows: Seq<OutcomeRow>,
    start: Option<Seq<char>>,
    end: Option<Seq<char>>,
    scope: Option<SessionScopeFilter>,
    setup: Option<Seq<char>>,
)
    ensures
        tally(rows, start, end, scope, setup, Tallied::Any) == tally(
            rows,
            start,
            end,
            scope,
            setup,
            Tallied::Resolved,
        ) + tally(rows, start, end, scope, setup, Tallied::Pending),
    decreases rows.len(),
{
    if rows.len() > 0 {
        lemma_total_is_resolved_plus_pending(rows.drop_last(), start, end, scope, setup);
    }
}

/// A count never exceeds the number of rows.
proof fn lemma_tally_bounded(
    rows: Seq<OutcomeRow>,
    start: Option<Seq<char>>,
    end: Option<Seq<char>>,
    scope: Option<SessionScopeFilter>,
    setup: Option<Seq<char>>,
    k: Tallied,
)
    ensures
        tally(rows, start, end, scope, setup, k) <= rows.len(),
    decreases rows.len(),
{
    if rows.len() > 0 {
        lemma_tally_bounded(rows.drop_last(), start, end, scope, setup, k);
    }
}

fn opt_str(o: &Option<String>) -> (r: Option<&str>)
    ensures
        symbol_or_empty(r) == text_or_empty(*o),
        opt_str_seq(r) == opt_seq(*o),
{
    match o {
        Some(s) => Some(s.as_str()),
        None => None,
    }
}

/// Whether the window and scope keep an outcome row.
pub fn outcome_row_kept(
    row: &OutcomeRow,
    start_date: Option<&str>,
    end_date: Option<&str>,
    scope: Option<&SessionScopeFilter>,
) -> (b: bool)
    ensures
        b == row_kept(*row, opt_str_seq(start_date), opt_str_seq(end_date), opt_scope(scope)),
{
    if !contract_fields_match_scope(opt_str(&row.root_symbol), opt_str(&row.contract_symbol), scope) {
        return false;
    }
    match &row.analysis_day {
        None => false,
        Some(d) => {
            let dc = chars_of(d.as_str());
            match start_date {
                Some(sd) => {
                    if lex_lt_exec(&dc, &chars_of(sd)) {
                        return false;
                    }
                },
                None => {},
            }
            match end_date {
                Some(ed) => {
                    if lex_lt_exec(&chars_of(ed), &dc) {
                        return false;
                    }
                },
                None => {},
            }
            true
        },
    }
}

pub open spec fn opt_chars_vec(o: Option<&Vec<char>>) -> Option<Seq<char>> {
    match o {
        Some(v) => Some(v@),
        None => None,
    }
}

/// Counts of the kept rows (of `setup`, when given).
fn counts_for(
    rows: &Vec<OutcomeRow>,
    start_date: Option<&str>,
    end_date: Option<&str>,
    scope: Option<&SessionScopeFilter>,
    setup: Option<&Vec<char>>,
) -> (c: OutcomeCounts)
    ensures
        counts_match(
            c,
            rows@,
            opt_str_seq(start_date),
            opt_str_seq(end_date),
            opt_scope(scope),
            opt_chars_vec(setup),
        ),
{
    let ghost sd = opt_str_seq(start_date);
    let ghost ed = opt_str_seq(end_date);
    let ghost sc = opt_scope(scope);
    let ghost su = opt_chars_vec(setup);
    let mut c = OutcomeCounts { total: 0, resolved: 0, pending: 0, target_hit: 0, stop_hit: 0, time_exit: 0 };
    let n = rows.len();
    let mut i: usize = 0;
    assert(rows@.take(0) =~= Seq::<OutcomeRow>::empty());
    while i < n
        invariant
            n == rows@.len(),
            i <= n,
            sd == opt_str_seq(start_date),
            ed == opt_str_seq(end_date),
            sc == opt_scope(scope),
            su == opt_chars_vec(setup),
            counts_match(c, rows@.take(i as int), sd, ed, sc, su),
            c.total <= i,
            c.resolved <= i,
            c.pending <= i,
            c.target_hit <= i,
            c.stop_hit <= i,
            c.time_exit <= i,
        decreases n - i,
    {
        let r = &rows[i];
        assert(rows@.take(i + 1).drop_last() =~= rows@.take(i as int));
        assert(rows@.take(i + 1).last() == rows@[i as int]);
        let mut counted = outcome_row_kept(r, start_date, end_date, scope);
        match setup {
            Some(id) => {
                let own = chars_of(r.setup_id.as_str());
                if !same_chars(&own, id) {
                    counted = false;
                }
            },
            None => {},
        }
        proof {
            reveal_strlit("pending");
            reveal_strlit("target_hit");
            reveal_strlit("stop_hit");
            reveal_strlit("time_exit");
            assert(counted == row_counted(rows@[i as int], sd, ed, sc, su));
        }
        if counted {
            let o = chars_of(r.outcome.as_str());
            assert(o@ == rows@[i as int].outcome@);
            c.total = c.total + 1;
            if eq_lit(&o, "pending") {
                c.pending = c.pending + 1;
            } else {
                c.resolved = c.resolved + 1;
            }
            if eq_lit(&o, "target_hit") {
                c.target_hit = c.target_hit + 1;
            } else if eq_lit(&o, "stop_hit") {
                c.stop_hit = c.stop_hit + 1;
            } else if eq_lit(&o, "time_exit") {
                c.time_exit = c.time_exit + 1;
            }
        }
        proof {
            let t = rows@.take(i + 1);
            assert(t.drop_last() =~= rows@.take(i as int));
            assert(t.last() == rows@[i as int]);
        }
        i = i + 1;
    }
    assert(rows@.take(n as int) =~= rows@);
    c
}

/// Outcome counts of the rows the date window and scope keep. Every kept
/// row is resolved or pending, so the total is their sum.
pub fn outcome_counts(
    rows: &Vec<OutcomeRow>,
    start_date: Option<&str>,
    end_date: Option<&str>,
    scope: Option<&SessionScopeFilter>,
) -> (r: OutcomeCounts)
    ensures
        counts_match(r, rows@, opt_str_seq(start_date), opt_str_seq(end_date), opt_scope(scope), None),
        r.total == r.resolved + r.pending,
{
    let r = counts_for(rows, start_date, end_date, scope, None);
    proof {
        lemma_total_is_resolved_plus_pending(
            rows@,
            opt_str_seq(start_date),
            opt_str_seq(end_date),
            opt_scope(scope),
            None,
        );
    }
    r
}

/// The ids of matrix rows, in order.
pub open spec fn setup_ids(r: Seq<SetupCounts>) -> Seq<Seq<char>> {
    r.map_values(|c: SetupCounts| c.setup_id@)
}

/// Some kept row belongs to setup `id`.
pub open spec fn setup_has_kept_row(
    rows: Seq<OutcomeRow>,
    start: Option<Seq<char>>,
    end: Option<Seq<char>>,
    scope: Option<SessionScopeFilter>,
    id: Seq<char>,
) -> bool {
    exists|i: int| 0 <= i < rows.len() && row_kept(#[trigger] rows[i], start, end, scope) && rows[i].setup_id@ == id
}

/// The first name given by a kept row of setup `id`, in row order.
pub open spec fn first_setup_name(
    rows: Seq<OutcomeRow>,
    start: Option<Seq<char>>,
    end: Option<Seq<char>>,
    scope: Option<SessionScopeFilter>,
    id: Seq<char>,
) -> Option<Seq<char>>
    decreases rows.len(),
{
    if rows.len() == 0 {
        None
    } else {
        match first_setup_name(rows.drop_last(), start, end, scope, id) {
            Some(n) => Some(n),
            None => if row_counted(rows.last(), start, end, scope, Some(id)) {
                opt_seq(rows.last().setup_name)
            } else {
                None
            },
        }
    }
}

fn first_name_for(
    rows: &Vec<OutcomeRow>,
    start_date: Option<&str>,
    end_date: Option<&str>,
    scope: Option<&SessionScopeFilter>,
    id: &Vec<char>,
) -> (r: Option<String>)
    ensures
        opt_seq(r) == first_setup_name(
            rows@,
            opt_str_seq(start_date),
            opt_str_seq(end_date),
            opt_scope(scope),
            id@,
        ),
{
    let ghost sd = opt_str_seq(start_date);
    let ghost ed = opt_str_seq(end_date);
    let ghost sc = opt_scope(scope);
    let mut r: Option<String> = None;
    let n = rows.len();
    let mut i: usize = 0;
    assert(rows@.take(0) =~= Seq::<OutcomeRow>::empty());
    while i < n
        invariant
            n == rows@.len(),
            i <= n,
            sd == opt_str_seq(start_date),
            ed == opt_str_seq(end_date),
            sc == opt_scope(scope),
            opt_seq(r) == first_setup_name(rows@.take(i as int), sd, ed, sc, id@),
        decreases n - i,
    {
        assert(rows@.take(i + 1).drop_last() =~= rows@.take(i as int));
        assert(rows@.take(i + 1).last() == rows@[i as int]);
        if r.is_none() {
            let row = &rows[i];
            if outcome_row_kept(row, start_date, end_date, scope) && same_chars(
                &chars_of(row.setup_id.as_str()),
                id,
            ) {
                r = match &row.setup_name {
                    Some(s) => Some(string_from(&chars_of(s.as_str()))),
                    None => None,
                };
            }
        }
        i = i + 1;
    }
    assert(rows@.take(n as int) =~= rows@);
    r
}

/// The setup performance matrix: one row per setup id with a kept row, in
/// increasing id order, carrying its counts and the first name its kept rows
/// give. Exactly the setups with at least `min_resolved` resolved rows are
/// listed.
pub fn setup_outcome_matrix(
    rows: &Vec<OutcomeRow>,
    start_date: Option<&str>,
    end_date: Option<&str>,
    scope: Option<&SessionScopeFilter>,
    min_resolved: i64,
) -> (r: Vec<SetupCounts>)
    ensures
        ({
            let sd = opt_str_seq(start_date);
            let ed = opt_str_seq(end_date);
            let sc = opt_scope(scope);
            let ids = setup_ids(r@);
            &&& strictly_sorted(ids)
            &&& forall|x: Seq<char>| #[trigger] ids.contains(x) <==> (setup_has_kept_row(rows@, sd, ed, sc, x)
                && tally(rows@, sd, ed, sc, Some(x), Tallied::Resolved) >= min_resolved)
            &&& forall|i: int| 0 <= i < r@.len() ==> counts_match(
                (#[trigger] r@[i]).counts,
                rows@,
                sd,
                ed,
                sc,
                Some(r@[i].setup_id@),
            ) && opt_seq(r@[i].setup_name) == first_setup_name(rows@, sd, ed, sc, r@[i].setup_id@)
        }),
{
    let ghost sd = opt_str_seq(start_date);
    let ghost ed = opt_str_seq(end_date);
    let ghost sc = opt_scope(scope);
    let mut seen: Vec<Vec<char>> = Vec::new();
    let n = rows.len();
    let mut i: usize = 0;
    while i < n
        invariant
            n == rows@.len(),
            i <= n,
            sd == opt_str_seq(start_date),
            ed == opt_str_seq(end_date),
            sc == opt_scope(scope),
            forall|x: Seq<char>| #[trigger] char_views(seen@).contains(x) <==> exists|j: int|
                0 <= j < i && row_kept(#[trigger] rows@[j], sd, ed, sc) && rows@[j].setup_id@ == x,
        decreases n - i,
    {
        let ghost before = char_views(seen@);
        if outcome_row_kept(&rows[i], start_date, end_date, scope) {
            seen.push(chars_of(rows[i].setup_id.as_str()));
            assert(char_views(seen@) =~= before.push(rows@[i as int].setup_id@));
        } else {
            assert(char_views(seen@) =~= before);
        }
        assert forall|x: Seq<char>| #[trigger] char_views(seen@).contains(x) <==> exists|j: int|
            0 <= j < i + 1 && row_kept(#[trigger] rows@[j], sd, ed, sc) && rows@[j].setup_id@ == x by {
            if char_views(seen@).contains(x) {
                if before.contains(x) {
                } else {
                    assert(rows@[i as int].setup_id@ == x);
                }
            }
            if exists|j: int| 0 <= j < i + 1 && row_kept(#[trigger] rows@[j], sd, ed, sc) && rows@[j].setup_id@ == x {
                let j = choose|j: int| 0 <= j < i + 1 && row_kept(#[trigger] rows@[j], sd, ed, sc) && rows@[j].setup_id@ == x;
                if j < i {
                    assert(before.contains(x));
                    let k = choose|k: int| 0 <= k < before.len() && before[k] == x;
                    assert(char_views(seen@)[k] == x);
                } else {
                    assert(char_views(seen@)[char_views(seen@).len() - 1] == x);
                }
            }
        }
        i = i + 1;
    }
    let ids = sort_unique(seen);
    let ghost u = char_views(ids@);
    let mut r: Vec<SetupCounts> = Vec::new();
    let m = ids.len();
    let mut j: usize = 0;
    while j < m
        invariant
            m == ids@.len(),
            u == char_views(ids@),
            j <= m,
            strictly_sorted(u),
            sd == opt_str_seq(start_date),
            ed == opt_str_seq(end_date),
            sc == opt_scope(scope),
            forall|x: Seq<char>| #[trigger] u.contains(x) <==> setup_has_kept_row(rows@, sd, ed, sc, x),
            strictly_sorted(setup_ids(r@)),
            forall|p: int| 0 <= p < r@.len() ==> exists|t: int| 0 <= t < j && (#[trigger] r@[p]).setup_id@ == u[t],
            forall|x: Seq<char>| #[trigger] setup_ids(r@).contains(x) <==> (exists|t: int|
                0 <= t < j && u[t] == x) && tally(rows@, sd, ed, sc, Some(x), Tallied::Resolved) >= min_resolved,
            forall|p: int| 0 <= p < r@.len() ==> counts_match(
                (#[trigger] r@[p]).counts,
                rows@,
                sd,
                ed,
                sc,
                Some(r@[p].setup_id@),
            ) && opt_seq(r@[p].setup_name) == first_setup_name(rows@, sd, ed, sc, r@[p].setup_id@),
        decreases m - j,
    {
        let id = &ids[j];
        let c = counts_for(rows, start_date, end_date, scope, Some(id));
        let keep = min_resolved <= 0 || c.resolved >= (min_resolved as u64);
        let ghost before = r@;
        let ghost bids = setup_ids(before);
        if keep {
            let name = first_name_for(rows, start_date, end_date, scope, id);
            let row = SetupCounts { setup_id: string_from(id), setup_name: name, counts: c };
            assert(u[j as int] == id@);
            assert(row.setup_id@ == u[j as int]);
            r.push(row);
            assert(r@[r@.len() - 1] == row);
            let ghost rids = setup_ids(r@);
            assert(rids =~= bids.push(u[j as int]));
            assert forall|a: int, b: int| 0 <= a < b < rids.len() implies lex_lt(#[trigger] rids[a], #[trigger] rids[b]) by {
                if b == rids.len() - 1 {
                    let t = choose|t: int| 0 <= t < j && (#[trigger] before[a]).setup_id@ == u[t];
                    assert(before[a].setup_id@ == bids[a]);
                }
            }
            assert forall|p: int| 0 <= p < r@.len() implies exists|t: int| 0 <= t < j + 1 && (#[trigger] r@[p]).setup_id@ == u[t] by {
                if p < before.len() {
                    assert(r@[p] == before[p]);
                    let t = choose|t: int| 0 <= t < j && (#[trigger] before[p]).setup_id@ == u[t];
                    assert(0 <= t < j + 1 && r@[p].setup_id@ == u[t]);
                } else {
                    assert(r@[p].setup_id@ == u[j as int]);
                }
            }
            assert forall|x: Seq<char>| #[trigger] rids.contains(x) <==> (exists|t: int|
                0 <= t < j + 1 && u[t] == x) && tally(rows@, sd, ed, sc, Some(x), Tallied::Resolved) >= min_resolved by {
                if rids.contains(x) {
                    let k = choose|k: int| 0 <= k < rids.len() && rids[k] == x;
                    if k < bids.len() {
                        assert(bids[k] == x);
                        assert(bids.contains(x));
                    } else {
                        assert(u[j as int] == x);
                    }
                }
                if (exists|t: int| 0 <= t < j + 1 && u[t] == x) && tally(rows@, sd, ed, sc, Some(x), Tallied::Resolved) >= min_resolved {
                    let t = choose|t: int| 0 <= t < j + 1 && u[t] == x;
                    if t < j {
                        assert(bids.contains(x));
                        let k = choose|k: int| 0 <= k < bids.len() && bids[k] == x;
                        assert(rids[k] == x);
                    } else {
                        assert(rids[rids.len() - 1] == x);
                    }
                }
            }
            assert forall|p: int| 0 <= p < r@.len() implies counts_match(
                (#[trigger] r@[p]).counts,
                rows@,
                sd,
                ed,
                sc,
                Some(r@[p].setup_id@),
            ) && opt_seq(r@[p].setup_name) == first_setup_name(rows@, sd, ed, sc, r@[p].setup_id@) by {
                if p < before.len() {
                    assert(r@[p] == before[p]);
                }
            }
        } else {
            assert forall|x: Seq<char>| #[trigger] bids.contains(x) <==> (exists|t: int|
                0 <= t < j + 1 && u[t] == x) && tally(rows@, sd, ed, sc, Some(x), Tallied::Resolved) >= min_resolved by {
                if (exists|t: int| 0 <= t < j + 1 && u[t] == x) && tally(rows@, sd, ed, sc, Some(x), Tallied::Resolved) >= min_resolved {
                    let t = choose|t: int| 0 <= t < j + 1 && u[t] == x;
                    if t == j {
                        assert(false);
                    }
                }
            }
            assert forall|p: int| 0 <= p < r@.len() implies exists|t: int| 0 <= t < j + 1 && (#[trigger] r@[p]).setup_id@ == u[t] by {
                let t = choose|t: int| 0 <= t < j && (#[trigger] r@[p]).setup_id@ == u[t];
                assert(0 <= t < j + 1 && r@[p].setup_id@ == u[t]);
            }
        }
        j = j + 1;
    }
    proof {
        let ids_r = setup_ids(r@);
        assert forall|x: Seq<char>| #[trigger] ids_r.contains(x) <==> (setup_has_kept_row(rows@, sd, ed, sc, x)
            && tally(rows@, sd, ed, sc, Some(x), Tallied::Resolved) >= min_resolved) by {
            if setup_has_kept_row(rows@, sd, ed, sc, x) {
                assert(u.contains(x));
                let t = choose|t: int| 0 <= t < u.len() && u[t] == x;
                assert(0 <= t < m && u[t] == x);
            }
            if exists|t: int| 0 <= t < m && u[t] == x {
                let t = choose|t: int| 0 <= t < m && u[t] == x;
                assert(u.contains(x));
            }
        }
    }
    r
}

/// The distinct days named in `days`.
pub open spec fn named_days(days: Seq<Option<String>>) -> Set<Seq<char>> {
    Set::new(|d: Seq<char>| exists|i: int| 0 <= i < days.len() && opt_seq(#[trigger] days[i]) == Some(d))
}

/// How many entries of `days` name a day.
pub open spec fn named_count(days: Seq<Option<String>>) -> nat
    decreases days.len(),
{
    if days.len() == 0 {
        0
    } else {
        named_count(days.drop_last()) + if days.last() is Some {
            1nat
        } else {
            0nat
        }
    }
}

proof fn lemma_strictly_sorted_no_duplicates(s: Seq<Seq<char>>)
    requires
        strictly_sorted(s),
    ensures
        s.no_duplicates(),
{
    assert forall|i: int, j: int| 0 <= i < s.len() && 0 <= j < s.len() && i != j implies s[i] != s[j] by {
        lemma_lex_lt_irreflexive(s[i]);
        if i < j {
            assert(lex_lt(s[i], s[j]));
        } else {
            assert(lex_lt(s[j], s[i]));
        }
    }
}

/// Number of distinct days named in `days`.
fn distinct_day_count(days: &Vec<Option<String>>) -> (r: u64)
    ensures
        r == named_days(days@).len(),
        named_days(days@).finite(),
{
    let mut seen: Vec<Vec<char>> = Vec::new();
    let n = days.len();
    let mut i: usize = 0;
    while i < n
        invariant
            n == days@.len(),
            i <= n,
            seen@.len() <= i,
            forall|x: Seq<char>| #[trigger] char_views(seen@).contains(x) <==> exists|j: int|
                0 <= j < i && opt_seq(#[trigger] days@[j]) == Some(x),
        decreases n - i,
    {
        let ghost before = char_views(seen@);
        match &days[i] {
            Some(d) => {
                seen.push(chars_of(d.as_str()));
                assert(char_views(seen@) =~= before.push(d@));
            },
            None => {
                assert(char_views(seen@) =~= before);
            },
        }
        assert forall|x: Seq<char>| #[trigger] char_views(seen@).contains(x) <==> exists|j: int|
            0 <= j < i + 1 && opt_seq(#[trigger] days@[j]) == Some(x) by {
            if char_views(seen@).contains(x) && !before.contains(x) {
                assert(opt_seq(days@[i as int]) == Some(x));
            }
            if exists|j: int| 0 <= j < i + 1 && opt_seq(#[trigger] days@[j]) == Some(x) {
                let j = choose|j: int| 0 <= j < i + 1 && opt_seq(#[trigger] days@[j]) == Some(x);
                if j < i {
                    assert(before.contains(x));
                    let k = choose|k: int| 0 <= k < before.len() && before[k] == x;
                    assert(char_views(seen@)[k] == x);
                } else {
                    assert(char_views(seen@)[char_views(seen@).len() - 1] == x);
                }
            }
        }
        i = i + 1;
    }
    let u = sort_unique(seen);
    proof {
        let uv = char_views(u@);
        lemma_strictly_sorted_no_duplicates(uv);
        uv.unique_seq_to_set();
        assert(uv.to_set() =~= named_days(days@)) by {
            assert forall|x: Seq<char>| #[trigger] uv.to_set().contains(x) <==> named_days(days@).contains(x) by {
                assert(uv.to_set().contains(x) <==> uv.contains(x));
            }
        }
        assert(uv.len() == u@.len());
        vstd::seq_lib::seq_to_set_is_finite(uv);
    }
    u.len() as u64
}

/// Event counts for one event type under a session scope: `event_days[i]` is
/// the scoped trading day of the type's i-th event (`None` when the scope
/// excludes it) and `all_days` the same for every event in the window, with
/// the dates of summarized sessions added. The result is the number of
/// matched events, the number of distinct days with such an event, and the
/// number of distinct days overall.
pub fn scoped_event_counts(event_days: &Vec<Option<String>>, all_days: &Vec<Option<String>>) -> (r: (u64, u64, u64))
    ensures
        r.0 == named_count(event_days@),
        r.1 == named_days(event_days@).len(),
        r.2 == named_days(all_days@).len(),
{
    let mut matched: u64 = 0;
    let n = event_days.len();
    let mut i: usize = 0;
    assert(event_days@.take(0) =~= Seq::<Option<String>>::empty());
    while i < n
        invariant
            n == event_days@.len(),
            i <= n,
            matched == named_count(event_days@.take(i as int)),
            matched <= i,
        decreases n - i,
    {
        assert(event_days@.take(i + 1).drop_last() =~= event_days@.take(i as int));
        if event_days[i].is_some() {
            matched = matched + 1;
        }
        i = i + 1;
    }
    assert(event_days@.take(n as int) =~= event_days@);
    let with_event = distinct_day_count(event_days);
    let overall = distinct_day_count(all_days);
    (matched, with_event, overall)
}

/// How one more row changes the counts: it counts only when its symbols match
/// the scope, its analysis day is inside the window and (when a setup is
/// given) it belongs to that setup; it then adds one to the total, and one to
/// exactly the outcome it has: `pending` to pending, anything else to
/// resolved, and `target_hit`, `stop_hit`, `time_exit` each to its own count.
pub proof fn lemma_counts_of_one_more_row(
    rows: Seq<OutcomeRow>,
    r: OutcomeRow,
    start: Option<Seq<char>>,
    end: Option<Seq<char>>,
    scope: Option<SessionScopeFilter>,
    setup: Option<Seq<char>>,
)
    ensures
        ({
            let kept = symbols_match(r, scope) && r.analysis_day is Some && in_window(
                r.analysis_day->0@,
                start,
                end,
            ) && (setup matches Some(id) ==> r.setup_id@ == id);
            let more = rows.push(r);
            let one = |b: bool| if kept && b { 1int } else { 0int };
            &&& tally(more, start, end, scope, setup, Tallied::Any) == tally(rows, start, end, scope, setup, Tallied::Any) + one(true)
            &&& tally(more, start, end, scope, setup, Tallied::Pending) == tally(rows, start, end, scope, setup, Tallied::Pending) + one(r.outcome@ == "pending"@)
            &&& tally(more, start, end, scope, setup, Tallied::Resolved) == tally(rows, start, end, scope, setup, Tallied::Resolved) + one(r.outcome@ != "pending"@)
            &&& tally(more, start, end, scope, setup, Tallied::TargetHit) == tally(rows, start, end, scope, setup, Tallied::TargetHit) + one(r.outcome@ == "target_hit"@)
            &&& tally(more, start, end, scope, setup, Tallied::StopHit) == tally(rows, start, end, scope, setup, Tallied::StopHit) + one(r.outcome@ == "stop_hit"@)
            &&& tally(more, start, end, scope, setup, Tallied::TimeExit) == tally(rows, start, end, scope, setup, Tallied::TimeExit) + one(r.outcome@ == "time_exit"@)
        }),
{
    assert(rows.push(r).drop_last() =~= rows);
}

/// No rows, no counts.
pub proof fn lemma_no_rows_no_counts(
    start: Option<Seq<char>>,
    end: Option<Seq<char>>,
    scope: Option<SessionScopeFilter>,
    setup: Option<Seq<char>>,
    k: Tallied,
)
    ensures
        tally(Seq::empty(), start, end, scope, setup, k) == 0,
{
}

/// Target hits, stop hits and time exits are resolved outcomes, each counted
/// once: together they never exceed the resolved count.
pub proof fn lemma_exits_within_resolved(
    rows: Seq<OutcomeRow>,
    start: Option<Seq<char>>,
    end: Option<Seq<char>>,
    scope: Option<SessionScopeFilter>,
    setup: Option<Seq<char>>,
)
    ensures
        tally(rows, start, end, scope, setup, Tallied::TargetHit) + tally(rows, start, end, scope, setup, Tallied::StopHit)
            + tally(rows, start, end, scope, setup, Tallied::TimeExit) <= tally(rows, start, end, scope, setup, Tallied::Resolved),
    decreases rows.len(),
{
    reveal_strlit("pending");
    reveal_strlit("target_hit");
    reveal_strlit("stop_hit");
    reveal_strlit("time_exit");
    assert("pending"@.len() == 7 && "target_hit"@.len() == 10 && "stop_hit"@.len() == 8
        && "time_exit"@.len() == 9);
    if rows.len() > 0 {
        lemma_exits_within_resolved(rows.drop_last(), start, end, scope, setup);
    }
}

} // verus!

verus! {

/// Integer count the setup matrix can be ranked by.
#[derive(Debug, Clone, Copy, PartialEq, Eq, Structural)]
pub enum CountKey {
    Resolved,
    TotalSignals,
}

/// The count of a matrix row that `key` ranks by.
pub open spec fn count_of(s: SetupCounts, key: CountKey) -> u64 {
    match key {
        CountKey::Resolved => s.counts.resolved,
        CountKey::TotalSignals => s.counts.total,
    }
}

/// Rows in non-increasing order of their count.
pub open spec fn sorted_desc(s: Seq<SetupCounts>, key: CountKey) -> bool {
    forall|i: int, j: int| 0 <= i < j < s.len() ==> count_of(#[trigger] s[i], key) >= count_of(#[trigger] s[j], key)
}

/// Rows whose count is `v`.
pub open spec fn with_count(key: CountKey, v: u64) -> spec_fn(SetupCounts) -> bool {
    |x: SetupCounts| count_of(x, key) == v
}

/// Where a row with count `k` goes in `s`: after the leading rows whose
/// count is at least `k`.
pub open spec fn insert_pos(s: Seq<SetupCounts>, key: CountKey, k: u64) -> int
    decreases s.len(),
{
    if s.len() == 0 {
        0
    } else if count_of(s[0], key) >= k {
        1 + insert_pos(s.subrange(1, s.len() as int), key, k)
    } else {
        0
    }
}

/// The matrix ranked by `key`, largest first, rows with equal counts in
/// their order in `m` (a stable sort by descending count).
pub open spec fn ranked(m: Seq<SetupCounts>, key: CountKey) -> Seq<SetupCounts>
    decreases m.len(),
{
    if m.len() == 0 {
        m
    } else {
        let s = ranked(m.drop_last(), key);
        s.insert(insert_pos(s, key, count_of(m.last(), key)), m.last())
    }
}

proof fn lemma_insert_pos(s: Seq<SetupCounts>, key: CountKey, k: u64)
    ensures
        0 <= insert_pos(s, key, k) <= s.len(),
        forall|i: int| 0 <= i < insert_pos(s, key, k) ==> count_of(#[trigger] s[i], key) >= k,
        insert_pos(s, key, k) < s.len() ==> count_of(s[insert_pos(s, key, k)], key) < k,
    decreases s.len(),
{
    if s.len() > 0 && count_of(s[0], key) >= k {
        let t = s.subrange(1, s.len() as int);
        lemma_insert_pos(t, key, k);
        assert forall|i: int| 0 <= i < insert_pos(s, key, k) implies count_of(#[trigger] s[i], key) >= k by {
            if i > 0 {
                assert(s[i] == t[i - 1]);
            }
        }
        if insert_pos(s, key, k) < s.len() {
            assert(s[insert_pos(s, key, k)] == t[insert_pos(t, key, k)]);
        }
    }
}

/// A position meeting the characterization of `insert_pos` is it.
proof fn lemma_insert_pos_unique(s: Seq<SetupCounts>, key: CountKey, k: u64, p: int)
    requires
        0 <= p <= s.len(),
        forall|i: int| 0 <= i < p ==> count_of(#[trigger] s[i], key) >= k,
        p < s.len() ==> count_of(s[p], key) < k,
    ensures
        insert_pos(s, key, k) == p,
    decreases s.len(),
{
    if s.len() > 0 && p > 0 {
        let t = s.subrange(1, s.len() as int);
        assert(count_of(s[0], key) >= k);
        assert forall|i: int| 0 <= i < p - 1 implies count_of(#[trigger] t[i], key) >= k by {
            assert(t[i] == s[i + 1]);
        }
        if p - 1 < t.len() {
            assert(t[p - 1] == s[p]);
        }
        lemma_insert_pos_unique(t, key, k, p - 1);
    }
}

proof fn lemma_insert_keeps_order(s: Seq<SetupCounts>, key: CountKey, x: SetupCounts)
    requires
        sorted_desc(s, key),
    ensures
        sorted_desc(s.insert(insert_pos(s, key, count_of(x, key)), x), key),
        forall|v: u64| #[trigger] s.insert(insert_pos(s, key, count_of(x, key)), x).filter(with_count(key, v))
            == if count_of(x, key) == v {
            s.filter(with_count(key, v)).push(x)
        } else {
            s.filter(with_count(key, v))
        },
{
    broadcast use vstd::seq_lib::group_seq_properties;

    let k = count_of(x, key);
    let p = insert_pos(s, key, k);
    lemma_insert_pos(s, key, k);
    let t = s.insert(p, x);
    let a = s.subrange(0, p);
    let b = s.subrange(p, s.len() as int);
    assert(t =~= a.push(x) + b);
    assert(s =~= a + b);
    assert forall|i: int| 0 <= i < b.len() implies count_of(#[trigger] b[i], key) < k by {
        assert(b[i] == s[p + i]);
        if i > 0 {
            assert(count_of(s[p], key) >= count_of(s[p + i], key));
        }
    }
    assert(t.len() == s.len() + 1);
    assert forall|i: int| 0 <= i < t.len() implies #[trigger] t[i] == (if i < p {
        s[i]
    } else if i == p {
        x
    } else {
        s[i - 1]
    }) by {
        if i > p {
            assert(t[i] == b[i - p - 1]);
        }
    }
    assert forall|i: int, j: int| 0 <= i < j < t.len() implies count_of(#[trigger] t[i], key) >= count_of(
        #[trigger] t[j],
        key,
    ) by {
        if j == p {
            assert(count_of(s[i], key) >= k);
        } else if i == p {
            assert(count_of(s[j - 1], key) < k) by {
                assert(b[j - 1 - p] == s[j - 1]);
            }
        } else if i < p && j > p {
            assert(count_of(s[i], key) >= count_of(s[j - 1], key));
        }
    }
    assert forall|v: u64| #[trigger] t.filter(with_count(key, v)) == if k == v {
        s.filter(with_count(key, v)).push(x)
    } else {
        s.filter(with_count(key, v))
    } by {
        let f = with_count(key, v);
        Seq::filter_distributes_over_add(a.push(x), b, f);
        Seq::filter_distributes_over_add(a, b, f);
        a.lemma_filter_push(x, f);
        if k == v {
            assert(b.all(|y: SetupCounts| !f(y))) by {
                assert forall|i: int| 0 <= i < b.len() implies !f(b[i]) by {
                    assert(count_of(b[i], key) < k);
                }
            }
            b.lemma_all_neg_filter_empty(f);
            assert(b.filter(f) =~= Seq::<SetupCounts>::empty());
            assert(a.filter(f).push(x) + b.filter(f) =~= (a.filter(f) + b.filter(f)).push(x));
        }
    }
}

/// Ranking by a count is a stable sort, largest first: the ranking holds the
/// same rows, in non-increasing order of the count, and the rows that share a
/// count keep their order in `m`.
pub proof fn lemma_ranked_is_stable_sort(m: Seq<SetupCounts>, key: CountKey)
    ensures
        ranked(m, key).len() == m.len(),
        sorted_desc(ranked(m, key), key),
        forall|v: u64| #[trigger] ranked(m, key).filter(with_count(key, v)) == m.filter(with_count(key, v)),
    decreases m.len(),
{
    broadcast use vstd::seq_lib::group_seq_properties;

    if m.len() > 0 {
        lemma_ranked_is_stable_sort(m.drop_last(), key);
        let s = ranked(m.drop_last(), key);
        lemma_insert_keeps_order(s, key, m.last());
        lemma_insert_pos(s, key, count_of(m.last(), key));
        assert forall|v: u64| #[trigger] ranked(m, key).filter(with_count(key, v)) == m.filter(
            with_count(key, v),
        ) by {
            assert(m =~= m.drop_last().push(m.last()));
            m.drop_last().lemma_filter_push(m.last(), with_count(key, v));
        }
    } else {
        assert(sorted_desc(ranked(m, key), key));
        assert forall|v: u64| #[trigger] ranked(m, key).filter(with_count(key, v)) == m.filter(
            with_count(key, v),
        ) by {}
    }
}

fn count_exec(s: &SetupCounts, key: CountKey) -> (r: u64)
    ensures
        r == count_of(*s, key),
{
    match key {
        CountKey::Resolved => s.counts.resolved,
        CountKey::TotalSignals => s.counts.total,
    }
}

/// Rank the matrix by an integer count, largest first, rows with equal counts
/// keeping their order in `m` (setup-id order for the matrix), and keep the
/// first `limit`.
pub fn rank_setups_by_count(m: Vec<SetupCounts>, key: CountKey, limit: usize) -> (r: Vec<SetupCounts>)
    ensures
        r@.len() == (if limit < m@.len() {
            limit as int
        } else {
            m@.len() as int
        }),
        r@ == ranked(m@, key).take(r@.len() as int),
        sorted_desc(r@, key),
{
    let ghost m0 = m@;
    let n = m.len();
    let mut rest = m;
    let mut rev: Vec<SetupCounts> = Vec::new();
    while rest.len() > 0
        invariant
            rest@ == m0.take(rest@.len() as int),
            rev@.len() + rest@.len() == m0.len(),
            forall|t: int| 0 <= t < rev@.len() ==> #[trigger] rev@[t] == m0[m0.len() - 1 - t],
        decreases rest@.len(),
    {
        let ghost before = rest@;
        let x = rest.pop().unwrap();
        assert(x == m0[rest@.len() as int]);
        assert(rest@ =~= m0.take(rest@.len() as int));
        rev.push(x);
    }
    let mut out: Vec<SetupCounts> = Vec::new();
    let mut i: usize = 0;
    while rev.len() > 0
        invariant
            n == m0.len(),
            i + rev@.len() == n,
            forall|t: int| 0 <= t < rev@.len() ==> #[trigger] rev@[t] == m0[m0.len() - 1 - t],
            out@ == ranked(m0.take(i as int), key),
            sorted_desc(out@, key),
        decreases rev@.len(),
    {
        let ghost r0 = rev@;
        let x = rev.pop().unwrap();
        assert(x == m0[i as int]);
        assert(forall|t: int| 0 <= t < rev@.len() ==> rev@[t] == r0[t]);
        let k = count_exec(&x, key);
        let mut p: usize = 0;
        while p < out.len() && count_exec(&out[p], key) >= k
            invariant
                p <= out@.len(),
                forall|q: int| 0 <= q < p ==> count_of(#[trigger] out@[q], key) >= k,
            decreases out@.len() - p,
        {
            p = p + 1;
        }
        proof {
            lemma_insert_pos_unique(out@, key, k, p as int);
            lemma_insert_keeps_order(out@, key, x);
            assert(m0.take(i + 1).drop_last() =~= m0.take(i as int));
            assert(m0.take(i + 1).last() == x);
        }
        out.insert(p, x);
        i = i + 1;
    }
    assert(m0.take(n as int) =~= m0);
    proof {
        lemma_ranked_is_stable_sort(m0, key);
    }
    if limit < out.len() {
        out.truncate(limit);
    }
    out
}

} // verus!
