//! Typed Positioning records — the Levels-Only Record write path.
//!
//! Manual entry is first-class (completeness `levels_only`), not a degraded or
//! fallback kind. Vendor stamps are rejected so a manual card is never presented
//! as live vendor data; freshness fails closed.

use vstd::prelude::*;

use crate::text::{
    chars_of, contains, contains_exec, eq_lit, is_ascii_digit, join3, lower, lower_chars,
    norm_lower, norm_lower_of, owned, string_from, trimmed, trimmed_of, views,
};

verus! {

/// Catalog id for a Levels-Only Record (first-class Positioning kind).
pub const LEVELS_ONLY_RECORD_KIND: &'static str = "levels_only";

/// Provenance source stamp for the manual / as-of write path.
pub const MANUAL_PROVENANCE_SOURCE: &'static str = "manual";

/// Wall role labels used by Desk-derived levels.
pub const WALL_ROLES: [&'static str; 2] = ["call_wall", "put_wall"];

/// Vendor / provider labels a manual record may not carry.
pub const VENDOR_LABELS: [&'static str; 7] = [
    "volsignals",
    "vs3d",
    "vs3dprovider",
    "provider",
    "vendor",
    "live_vendor",
    "convexvalue",
];

/// Advisory or second-class copy that Positioning notes may not use.
pub const BANNED_COPY: [&'static str; 13] = [
    "you should buy",
    "you should sell",
    "i recommend",
    "this is a good trade",
    "fallback",
    "second-class",
    "second class",
    "partial record",
    "degraded record",
    "degraded mode",
    "degraded path",
    "fallback path",
    "fallback record",
];

/// Refusal of a vendor stamp on the manual path.
pub const VENDOR_STAMP_MESSAGE: &'static str = "Levels-Only Records are the manual/as-of path; do not stamp a vendor (VolSignals / Vs3dProvider is a later ticket)";

/// Refusal of a vendor data time on the manual path.
pub const VENDOR_DATA_TIME_MESSAGE: &'static str = "Levels-Only Records must not carry vendor dataTime; use capturedAt/asOf for explicit manual as-of";

/// Refusal of an entry without derived levels.
pub const MISSING_LEVELS_MESSAGE: &'static str = "positioning_entry requires derivedLevels (flip, walls, balance, upsideTest, downsideTest)";

/// Refusal of a wall without a role.
pub const WALL_ROLE_REQUIRED_MESSAGE: &'static str = "derivedLevels.walls[].role is required";

/// Refusal of a wall with a non-finite strike.
pub const WALL_STRIKE_MESSAGE: &'static str = "derivedLevels.walls[].strike must be a finite price";

/// Provenance note of a Levels-Only Record written without its own note.
pub const LEVELS_ONLY_PROVENANCE_NOTE: &'static str = "Levels-Only Record from your annotated sessions / your methodology (manual/as-of). Completeness levels_only is first-class. Not vendor scrape.";

/// Mid-day re-mark on a Positioning card.
#[derive(Debug, Clone, PartialEq)]
pub struct MidDayRead {
    pub as_of: String,
    pub note: Option<String>,
}

/// Provenance carried on the durable record (never a vendor pretence).
#[derive(Debug, Clone, PartialEq)]
pub struct PositioningRecordProvenance {
    pub source: String,
    pub first_class: bool,
    pub vendor: Option<String>,
    pub note: Option<String>,
}

/// Positioning write-path errors.
#[derive(Debug, PartialEq, Eq)]
pub enum PositioningError {
    Invalid(String),
}

/// Canonical record kind for a normalized (trimmed, lower-cased) label.
pub open spec fn kind_from_label(k: Seq<char>) -> Option<Seq<char>> {
    if k == "levels_only"@ || k == "levels-only"@ || k == "levelsonly"@ {
        Some("levels_only"@)
    } else if k == "slice"@ {
        Some("slice"@)
    } else if k == "position_grid"@ || k == "grid"@ {
        Some("position_grid"@)
    } else if k == "positions_by_strike"@ || k == "by-strike"@ || k == "by_strike"@ {
        Some("positions_by_strike"@)
    } else {
        None
    }
}

/// The label a record-kind input is read as: the trimmed value, or
/// `levels_only` when absent or blank.
pub open spec fn kind_input(raw: Option<Seq<char>>) -> Seq<char> {
    match raw {
        Some(r) => if trimmed(r).len() > 0 {
            trimmed(r)
        } else {
            "levels_only"@
        },
        None => "levels_only"@,
    }
}

/// The chars of an optional string slice.
pub open spec fn opt_chars(o: Option<&str>) -> Option<Seq<char>> {
    match o {
        Some(s) => Some(s@),
        None => None,
    }
}

/// The chars of an optional owned string.
pub open spec fn opt_string_chars(o: Option<String>) -> Option<Seq<char>> {
    match o {
        Some(s) => Some(s@),
        None => None,
    }
}

/// Normalize a Positioning record kind; unknown kinds are rejected.
pub fn normalize_kind(raw: Option<&str>) -> (r: Result<String, PositioningError>)
    ensures
        kind_from_label(lower(kind_input(opt_chars(raw)))) matches Some(k) ==> (r matches Ok(s) && s@ == k),
        kind_from_label(lower(kind_input(opt_chars(raw)))) is None ==> (r matches Err(
            PositioningError::Invalid(m),
        ) && m@ == "unknown Positioning recordKind `"@ + lower(kind_input(opt_chars(raw))) + "`"@),
{
    let kind = match raw {
        Some(r) => {
            let t = trimmed_of(r);
            if t.len() > 0 {
                t
            } else {
                chars_of(LEVELS_ONLY_RECORD_KIND)
            }
        },
        None => chars_of(LEVELS_ONLY_RECORD_KIND),
    };
    let k = lower_chars(&kind);
    if eq_lit(&k, "levels_only") || eq_lit(&k, "levels-only") || eq_lit(&k, "levelsonly") {
        Ok(owned(LEVELS_ONLY_RECORD_KIND))
    } else if eq_lit(&k, "slice") {
        Ok(owned("slice"))
    } else if eq_lit(&k, "position_grid") || eq_lit(&k, "grid") {
        Ok(owned("position_grid"))
    } else if eq_lit(&k, "positions_by_strike") || eq_lit(&k, "by-strike") || eq_lit(
        &k,
        "by_strike",
    ) {
        Ok(owned("positions_by_strike"))
    } else {
        Err(PositioningError::Invalid(join3("unknown Positioning recordKind `", &k, "`")))
    }
}

/// Why the `positioning_entry` path refuses a record kind and completeness,
/// if it does: the kind must normalize to `levels_only`, and a given,
/// non-blank completeness must be `levels_only` (ASCII case-insensitive).
pub open spec fn levels_only_failure(record_kind: Option<Seq<char>>, completeness: Option<Seq<char>>) -> Option<Seq<char>> {
    let label = lower(kind_input(record_kind));
    match kind_from_label(label) {
        None => Some("unknown Positioning recordKind `"@ + label + "`"@),
        Some(k) => if k != "levels_only"@ {
            Some("positioning_entry accepts Levels-Only Records only (recordKind=`levels_only`); `"@ + k
                + "` is a later capture-adapter / Vs3dProvider path"@)
        } else {
            match completeness {
                Some(c) => if trimmed(c).len() > 0 && lower(trimmed(c)) != "levels_only"@ {
                    Some("completeness `"@ + trimmed(c)
                        + "` must be `levels_only` for a Levels-Only Record (first-class; not a fallback kind)"@)
                } else {
                    None
                },
                None => None,
            }
        },
    }
}

/// The `positioning_entry` path accepts only Levels-Only Records (see
/// [`levels_only_failure`]). Returns the completeness to store.
pub fn require_levels_only(record_kind: Option<&str>, completeness: Option<&str>) -> (r: Result<
    String,
    PositioningError,
>)
    ensures
        match levels_only_failure(opt_chars(record_kind), opt_chars(completeness)) {
            None => r matches Ok(c) && c@ == "levels_only"@,
            Some(m) => r matches Err(PositioningError::Invalid(s)) && s@ == m,
        },
{
    proof {
        reveal_strlit("levels_only");
        reveal_strlit("slice");
        reveal_strlit("position_grid");
        reveal_strlit("positions_by_strike");
    }
    let kind = normalize_kind(record_kind)?;
    let kc = chars_of(kind.as_str());
    if !eq_lit(&kc, LEVELS_ONLY_RECORD_KIND) {
        return Err(PositioningError::Invalid(join3(
            "positioning_entry accepts Levels-Only Records only (recordKind=`levels_only`); `",
            &kc,
            "` is a later capture-adapter / Vs3dProvider path",
        )));
    }
    match completeness {
        None => Ok(owned(LEVELS_ONLY_RECORD_KIND)),
        Some(raw) => {
            let t = trimmed_of(raw);
            if t.len() == 0 {
                return Ok(owned(LEVELS_ONLY_RECORD_KIND));
            }
            let c = lower_chars(&t);
            if !eq_lit(&c, LEVELS_ONLY_RECORD_KIND) {
                return Err(PositioningError::Invalid(join3(
                    "completeness `",
                    &t,
                    "` must be `levels_only` for a Levels-Only Record (first-class; not a fallback kind)",
                )));
            }
            Ok(owned(LEVELS_ONLY_RECORD_KIND))
        },
    }
}

/// `YYYY-MM-DD`: ten chars, `-` at positions 4 and 7, ASCII digits elsewhere.
pub open spec fn is_trading_day(d: Seq<char>) -> bool {
    &&& d.len() == 10
    &&& d[4] == '-'
    &&& d[7] == '-'
    &&& forall|i: int| 0 <= i < 10 && i != 4 && i != 7 ==> is_ascii_digit(#[trigger] d[i])
}

/// Validate an explicit trading day (`YYYY-MM-DD`).
pub fn validate_trading_day(day: &str) -> (r: Result<String, PositioningError>)
    ensures
        is_trading_day(day@) ==> (r matches Ok(s) && s@ == day@),
        !is_trading_day(day@) ==> (r matches Err(PositioningError::Invalid(m)) && m@
            == "tradingDay must be YYYY-MM-DD (got `"@ + day@ + "`)"@),
{
    let v = chars_of(day);
    let mut ok = v.len() == 10;
    if ok {
        let mut i: usize = 0;
        while i < 10
            invariant
                v@.len() == 10,
                i <= 10,
                ok == (forall|j: int|
                    0 <= j < i ==> (if j == 4 || j == 7 {
                        v@[j] == '-'
                    } else {
                        is_ascii_digit(#[trigger] v@[j])
                    })),
            decreases 10 - i,
        {
            let c = v[i];
            let good = if i == 4 || i == 7 {
                c == '-'
            } else {
                c >= '0' && c <= '9'
            };
            ok = ok && good;
            i = i + 1;
        }
        assert(ok == is_trading_day(v@)) by {
            if ok {
                assert(v@[4] == '-' && v@[7] == '-');
            } else {
                let j = choose|j: int|
                    0 <= j < 10 && !(if j == 4 || j == 7 {
                        v@[j] == '-'
                    } else {
                        is_ascii_digit(#[trigger] v@[j])
                    });
            }
        }
    }
    if !ok {
        return Err(PositioningError::Invalid(join3("tradingDay must be YYYY-MM-DD (got `", &v, "`)")));
    }
    Ok(owned(day))
}

/// A vendor / provider label: non-blank, and (ASCII lower-cased, trimmed) one of
/// the vendor labels or containing `volsignal` or `vs3d`.
pub open spec fn vendor_label(raw: Option<&str>) -> bool {
    match raw {
        None => false,
        Some(s) => vendor_chars(s@),
    }
}

pub open spec fn vendor_chars(s: Seq<char>) -> bool {
    let l = norm_lower(s);
    trimmed(s).len() > 0 && (views(VENDOR_LABELS@).contains(l) || contains(l, "volsignal"@)
        || contains(l, "vs3d"@))
}

/// True when the label names a vendor / live provider.
pub fn is_vendor_label(raw: Option<&str>) -> (r: bool)
    ensures
        r == vendor_label(raw),
{
    let s = match raw {
        None => {
            return false;
        },
        Some(s) => s,
    };
    let t = trimmed_of(s);
    if t.len() == 0 {
        return false;
    }
    let l = norm_lower_of(s);
    let volsignal = chars_of("volsignal");
    let vs3d = chars_of("vs3d");
    crate::text::key_in(&l, &VENDOR_LABELS) || contains_exec(&l, &volsignal) || contains_exec(
        &l,
        &vs3d,
    )
}

/// A Levels-Only Record may not carry a vendor stamp, nor a valid vendor data
/// time (`data_time_valid`: a positive, finite data time was supplied).
pub fn reject_vendor_pretence(vendor: Option<&str>, data_time_valid: bool) -> (r: Result<
    (),
    PositioningError,
>)
    ensures
        match vendor_failure(match vendor {
            Some(v) => Some(v@),
            None => None,
        }, data_time_valid) {
            None => r is Ok,
            Some(m) => r matches Err(PositioningError::Invalid(s)) && s@ == m,
        },
{
    if is_vendor_label(vendor) {
        return Err(PositioningError::Invalid(owned(VENDOR_STAMP_MESSAGE)));
    }
    if data_time_valid {
        return Err(PositioningError::Invalid(owned(VENDOR_DATA_TIME_MESSAGE)));
    }
    Ok(())
}

/// Why a manual record's vendor stamp or data time is refused, if it is.
pub open spec fn vendor_failure(vendor: Option<Seq<char>>, data_time_valid: bool) -> Option<Seq<char>> {
    if vendor matches Some(v) && vendor_chars(v) {
        Some(VENDOR_STAMP_MESSAGE@)
    } else if data_time_valid {
        Some(VENDOR_DATA_TIME_MESSAGE@)
    } else {
        None
    }
}

/// Why a wall role is refused, if it is: it is required, and must be
/// `call_wall` or `put_wall` after trimming.
pub open spec fn role_failure(role: Seq<char>) -> Option<Seq<char>> {
    if trimmed(role).len() == 0 {
        Some(WALL_ROLE_REQUIRED_MESSAGE@)
    } else if !views(WALL_ROLES@).contains(trimmed(role)) {
        Some("derivedLevels.walls[].role `"@ + trimmed(role) + "` must be call_wall or put_wall"@)
    } else {
        None
    }
}

/// Wall roles: required (non-blank) and one of `call_wall` / `put_wall` after trimming.
pub fn validate_wall_role(role: &str) -> (r: Result<(), PositioningError>)
    ensures
        match role_failure(role@) {
            None => r is Ok,
            Some(m) => r matches Err(PositioningError::Invalid(s)) && s@ == m,
        },
{
    let t = trimmed_of(role);
    if t.len() == 0 {
        proof {
            reveal_strlit("call_wall");
            reveal_strlit("put_wall");
            assert(!views(WALL_ROLES@).contains(t@)) by {
                if views(WALL_ROLES@).contains(t@) {
                    let i = choose|i: int| 0 <= i < views(WALL_ROLES@).len() && views(WALL_ROLES@)[i] == t@;
                }
            }
        }
        return Err(PositioningError::Invalid(owned(WALL_ROLE_REQUIRED_MESSAGE)));
    }
    if !crate::text::key_in(&t, &WALL_ROLES) {
        return Err(PositioningError::Invalid(join3(
            "derivedLevels.walls[].role `",
            &t,
            "` must be call_wall or put_wall",
        )));
    }
    Ok(())
}

/// Unicode lower-case mapping of a string (what `str::to_lowercase` returns).
pub uninterp spec fn unicode_lowercase(s: Seq<char>) -> Seq<char>;

/// Every char of `s` is ASCII.
pub open spec fn ascii_only(s: Seq<char>) -> bool {
    forall|i: int| 0 <= i < s.len() ==> (#[trigger] s[i] as u32) < 128
}

/// The text of an optional note when it is ASCII and, lower-cased, holds a
/// banned phrase.
pub open spec fn ascii_banned(o: Option<Seq<char>>) -> bool {
    o matches Some(t) && ascii_only(t) && first_banned_from(lower(t), 0) < 13
}

/// `str::to_lowercase`: the full Unicode lower-case mapping of `s`. Its result
/// is named (`unicode_lowercase`): the mapping is Unicode data. On ASCII text
/// it is the ASCII lower-casing, char for char (the mapping of an ASCII
/// letter is its ASCII lower-case letter; other ASCII chars map to
/// themselves); nothing more is stated of other text.
#[verifier::external_body]
fn to_lowercase(s: &str) -> (r: String)
    ensures
        r@ == unicode_lowercase(s@),
        ascii_only(s@) ==> r@ == lower(s@),
{
    s.to_lowercase()
}

/// Index of the first banned phrase occurring in `lowered` (`BANNED_COPY.len()` when none).
pub open spec fn first_banned_from(lowered: Seq<char>, i: int) -> int
    decreases 13 - i,
{
    if i >= 13 || i < 0 {
        13
    } else if contains(lowered, BANNED_COPY@[i]@) {
        i
    } else {
        first_banned_from(lowered, i + 1)
    }
}

/// The first banned phrase that occurs in already lower-cased copy, if any.
pub fn first_banned_phrase(lowered: &str) -> (r: Option<&'static str>)
    ensures
        first_banned_from(lowered@, 0) < 13 ==> r == Some(BANNED_COPY@[first_banned_from(lowered@, 0)]),
        first_banned_from(lowered@, 0) >= 13 ==> r is None,
{
    let l = chars_of(lowered);
    let mut i: usize = 0;
    while i < 13
        invariant
            i <= 13,
            l@ == lowered@,
            first_banned_from(lowered@, 0) == first_banned_from(lowered@, i as int),
        decreases 13 - i,
    {
        let p = chars_of(BANNED_COPY[i]);
        if contains_exec(&l, &p) {
            return Some(BANNED_COPY[i]);
        }
        i = i + 1;
    }
    None
}

/// Reject advisory or second-class copy in a Positioning note (matched on the
/// Unicode lower-cased text).
pub fn reject_banned_copy(text: Option<&str>) -> (r: Result<(), PositioningError>)
    ensures
        match copy_failure(opt_chars(text)) {
            None => r is Ok,
            Some(m) => r matches Err(PositioningError::Invalid(s)) && s@ == m,
        },
        text is None ==> r is Ok,
        text matches Some(t) ==> (r is Ok <==> first_banned_from(unicode_lowercase(t@), 0) >= 13),
        text is Some && ascii_only(text->0@) ==> (r is Ok <==> first_banned_from(lower(text->0@), 0) >= 13),
        text is Some && first_banned_from(unicode_lowercase(text->0@), 0) < 13 ==> (r matches Err(
            PositioningError::Invalid(m),
        ) && m@ == "Positioning copy must not use `"@ + BANNED_COPY@[first_banned_from(
            unicode_lowercase(text->0@),
            0,
        )]@ + "` \u{2014} Levels-Only Records are first-class; coaching frames as your annotated sessions / your methodology say\u{2026}"@),
{
    let t = match text {
        None => {
            return Ok(());
        },
        Some(t) => t,
    };
    let l = to_lowercase(t);
    match first_banned_phrase(l.as_str()) {
        None => Ok(()),
        Some(banned) => {
            let b = chars_of(banned);
            Err(PositioningError::Invalid(join3(
                "Positioning copy must not use `",
                &b,
                "` \u{2014} Levels-Only Records are first-class; coaching frames as your annotated sessions / your methodology say\u{2026}",
            )))
        },
    }
}

/// Whether a Levels-Only Record fails its read-time freshness check:
/// missing timestamps, any vendor / provider stamp, or (on the live path) a
/// trading day other than today's.
pub open spec fn freshness_fails(
    timestamps_ok: bool,
    source: Seq<char>,
    vendor: Option<&str>,
    trading_day: Seq<char>,
    live_trading_day: Option<&str>,
) -> bool {
    !timestamps_ok || vendor is Some || lower(source) == "provider"@ || vendor_chars(source) || (
    live_trading_day matches Some(d) && trading_day != d@)
}

/// The note a freshness verdict carries: the first reason it fails, or the
/// first-class Levels-Only note.
pub open spec fn freshness_note(
    timestamps_ok: bool,
    source: Seq<char>,
    vendor: Option<&str>,
    trading_day: Seq<char>,
    live_trading_day: Option<&str>,
) -> Seq<char> {
    if !timestamps_ok {
        "Levels-Only Record missing capturedAt/as-of; freshness fails closed. Not live vendor data."@
    } else if vendor is Some || lower(source) == "provider"@ || vendor_chars(source) {
        "Positioning freshness fails closed: vendor/provider stamp is not valid on the Levels-Only Record path. Not live vendor data."@
    } else if live_trading_day matches Some(d) && trading_day != d@ {
        "Levels-Only Record as-of "@ + trading_day
            + " from your annotated sessions is first-class Positioning; freshnessOk=false (not live vendor data)."@
    } else {
        LEVELS_ONLY_PROVENANCE_NOTE@
    }
}

/// Read-time freshness verdict `(freshness_ok, degraded, note)` for a
/// Levels-Only Record; `timestamps_ok` says capturedAt and as-of are positive
/// and finite.
pub fn freshness_verdict(
    timestamps_ok: bool,
    source: &str,
    vendor: Option<&str>,
    trading_day: &str,
    live_trading_day: Option<&str>,
) -> (r: (bool, bool, String))
    ensures
        r.0 == !freshness_fails(timestamps_ok, source@, vendor, trading_day@, live_trading_day),
        r.1 == !r.0,
        r.2@ == freshness_note(timestamps_ok, source@, vendor, trading_day@, live_trading_day),
{
    if !timestamps_ok {
        return (
            false,
            true,
            owned(
                "Levels-Only Record missing capturedAt/as-of; freshness fails closed. Not live vendor data.",
            ),
        );
    }
    let src = chars_of(source);
    let src_lower = lower_chars(&src);
    if vendor.is_some() || eq_lit(&src_lower, "provider") || is_vendor_label(vendor)
        || is_vendor_label(Some(source)) {
        return (
            false,
            true,
            owned(
                "Positioning freshness fails closed: vendor/provider stamp is not valid on the Levels-Only Record path. Not live vendor data.",
            ),
        );
    }
    if let Some(day) = live_trading_day {
        let rd = chars_of(trading_day);
        let ld = chars_of(day);
        if !crate::text::same_chars(&rd, &ld) {
            return (
                false,
                true,
                join3(
                    "Levels-Only Record as-of ",
                    &rd,
                    " from your annotated sessions is first-class Positioning; freshnessOk=false (not live vendor data).",
                ),
            );
        }
    }
    (true, false, owned(LEVELS_ONLY_PROVENANCE_NOTE))
}

/// A record stamped by a vendor or provider is never fresh, whatever its dates.
pub proof fn lemma_vendor_stamp_never_fresh(
    timestamps_ok: bool,
    source: Seq<char>,
    vendor: Option<&str>,
    trading_day: Seq<char>,
    live_trading_day: Option<&str>,
)
    requires
        vendor is Some || vendor_chars(source),
    ensures
        freshness_fails(timestamps_ok, source, vendor, trading_day, live_trading_day),
{
}

/// What the write path reads of one Desk-derived wall: whether its strike
/// is a finite price, and its role label.
#[derive(Debug, Clone, PartialEq)]
pub struct WallCheck {
    pub strike_finite: bool,
    pub role: String,
}

/// What the write path reads of derived levels: whether each price is
/// finite, and the walls in order.
#[derive(Debug, Clone, PartialEq)]
pub struct LevelsCheck {
    pub flip_finite: bool,
    pub balance_finite: bool,
    pub upside_test_finite: bool,
    pub downside_test_finite: bool,
    pub walls: Vec<WallCheck>,
}

/// Why one wall is refused, if it is.
pub open spec fn wall_failure(w: WallCheck) -> Option<Seq<char>> {
    if !w.strike_finite {
        Some(WALL_STRIKE_MESSAGE@)
    } else {
        role_failure(w.role@)
    }
}

/// The first refusal among `walls`, in order.
pub open spec fn walls_failure(walls: Seq<WallCheck>) -> Option<Seq<char>>
    decreases walls.len(),
{
    if walls.len() == 0 {
        None
    } else {
        match walls_failure(walls.drop_last()) {
            Some(m) => Some(m),
            None => wall_failure(walls.last()),
        }
    }
}

/// Why derived levels are refused, if they are: flip, balance, upsideTest
/// and downsideTest must be finite prices, then each wall is checked in order.
pub open spec fn levels_failure(l: LevelsCheck) -> Option<Seq<char>> {
    if !l.flip_finite {
        Some("derivedLevels.flip must be a finite price"@)
    } else if !l.balance_finite {
        Some("derivedLevels.balance must be a finite price"@)
    } else if !l.upside_test_finite {
        Some("derivedLevels.upsideTest must be a finite price"@)
    } else if !l.downside_test_finite {
        Some("derivedLevels.downsideTest must be a finite price"@)
    } else {
        walls_failure(l.walls@)
    }
}

/// Validate Desk-derived levels.
#[verifier::loop_isolation(false)]
pub fn validate_derived_levels(levels: &LevelsCheck) -> (r: Result<(), PositioningError>)
    ensures
        match levels_failure(*levels) {
            None => r is Ok,
            Some(m) => r matches Err(PositioningError::Invalid(s)) && s@ == m,
        },
{
    if !levels.flip_finite {
        return Err(PositioningError::Invalid(owned("derivedLevels.flip must be a finite price")));
    }
    if !levels.balance_finite {
        return Err(PositioningError::Invalid(owned("derivedLevels.balance must be a finite price")));
    }
    if !levels.upside_test_finite {
        return Err(PositioningError::Invalid(owned("derivedLevels.upsideTest must be a finite price")));
    }
    if !levels.downside_test_finite {
        return Err(PositioningError::Invalid(owned("derivedLevels.downsideTest must be a finite price")));
    }
    let n = levels.walls.len();
    let mut i: usize = 0;
    while i < n
        invariant
            n == levels.walls@.len(),
            i <= n,
            walls_failure(levels.walls@.take(i as int)) is None,
        decreases n - i,
    {
        let w = &levels.walls[i];
        assert(levels.walls@.take(i + 1).drop_last() =~= levels.walls@.take(i as int));
        assert(levels.walls@.take(i + 1).last() == *w);
        if !w.strike_finite {
            proof {
                lemma_walls_failure_grows(levels.walls@, i as int + 1, n as int);
                assert(levels.walls@.take(n as int) =~= levels.walls@);
            }
            return Err(PositioningError::Invalid(owned(WALL_STRIKE_MESSAGE)));
        }
        match validate_wall_role(w.role.as_str()) {
            Err(e) => {
                proof {
                    lemma_walls_failure_grows(levels.walls@, i as int + 1, n as int);
                    assert(levels.walls@.take(n as int) =~= levels.walls@);
                }
                return Err(e);
            },
            Ok(()) => {},
        }
        i = i + 1;
    }
    assert(levels.walls@.take(n as int) =~= levels.walls@);
    Ok(())
}

/// A refusal found among the first walls is the refusal of every longer run.
proof fn lemma_walls_failure_grows(walls: Seq<WallCheck>, k: int, m: int)
    requires
        0 <= k <= m <= walls.len(),
        walls_failure(walls.take(k)) is Some,
    ensures
        walls_failure(walls.take(m)) == walls_failure(walls.take(k)),
    decreases m - k,
{
    if m > k {
        lemma_walls_failure_grows(walls, k, m - 1);
        assert(walls.take(m).drop_last() =~= walls.take(m - 1));
    }
}

/// What the `positioning_entry` write path reads of an entry. Timestamp and
/// price checks arrive as their outcomes: `captured_at_ok` says the capture
/// time (or, absent one, the current time) is a positive finite epoch-ms
/// value, `as_of_ok` the same of the as-of time (or the capture time), and
/// `data_time_valid` that a positive finite vendor data time was supplied.
#[derive(Debug, Clone, PartialEq)]
pub struct LevelsOnlyEntry {
    pub id: Option<String>,
    pub record_kind: Option<String>,
    pub completeness: Option<String>,
    pub trading_day: Option<String>,
    pub captured_at_ok: bool,
    pub as_of_ok: bool,
    pub data_time_valid: bool,
    pub vendor: Option<String>,
    pub levels: Option<LevelsCheck>,
    pub note: Option<String>,
    pub mid_day_notes: Vec<Option<String>>,
}

/// What an accepted entry is stored with. An absent `id` is generated at
/// write time; an absent `trading_day` is the trading day of the as-of time.
/// The record never carries a vendor data time (`keeps_data_time` is false)
/// and is fresh when written.
#[derive(Debug, Clone, PartialEq)]
pub struct LevelsOnlyPlan {
    pub id: Option<String>,
    pub record_kind: String,
    pub completeness: String,
    pub trading_day: Option<String>,
    pub keeps_data_time: bool,
    pub freshness_ok: bool,
    pub note: Option<String>,
    pub provenance: PositioningRecordProvenance,
}

/// The value of an optional text field once trimmed, when not blank.
pub open spec fn nonblank(o: Option<Seq<char>>) -> Option<Seq<char>> {
    match o {
        Some(s) => if trimmed(s).len() > 0 {
            Some(trimmed(s))
        } else {
            None
        },
        None => None,
    }
}

/// Why Positioning copy is refused, if it is (matched on its Unicode
/// lower-cased text).
pub open spec fn copy_failure(text: Option<Seq<char>>) -> Option<Seq<char>> {
    match text {
        Some(t) => if first_banned_from(unicode_lowercase(t), 0) < 13 {
            Some("Positioning copy must not use `"@ + BANNED_COPY@[first_banned_from(
                unicode_lowercase(t),
                0,
            )]@ + "` \u{2014} Levels-Only Records are first-class; coaching frames as your annotated sessions / your methodology say\u{2026}"@)
        } else {
            None
        },
        None => None,
    }
}

/// The first refusal among mid-day re-mark notes, in order.
pub open spec fn notes_failure(notes: Seq<Option<String>>) -> Option<Seq<char>>
    decreases notes.len(),
{
    if notes.len() == 0 {
        None
    } else {
        match notes_failure(notes.drop_last()) {
            Some(m) => Some(m),
            None => copy_failure(opt_string_chars(notes.last())),
        }
    }
}

/// Why a Levels-Only entry is refused: the first failing check, in the order
/// record kind and completeness, vendor stamp and data time, capture time,
/// as-of time, trading day, derived levels, note copy, mid-day note copy.
pub open spec fn entry_failure(e: LevelsOnlyEntry) -> Option<Seq<char>> {
    if levels_only_failure(opt_string_chars(e.record_kind), opt_string_chars(e.completeness)) is Some {
        levels_only_failure(opt_string_chars(e.record_kind), opt_string_chars(e.completeness))
    } else if vendor_failure(opt_string_chars(e.vendor), e.data_time_valid) is Some {
        vendor_failure(opt_string_chars(e.vendor), e.data_time_valid)
    } else if !e.captured_at_ok {
        Some("capturedAt must be a positive finite epoch-milliseconds value (explicit manual/as-of)"@)
    } else if !e.as_of_ok {
        Some("asOf must be a positive finite epoch-milliseconds value (explicit manual/as-of)"@)
    } else if nonblank(opt_string_chars(e.trading_day)) is Some && !is_trading_day(
        nonblank(opt_string_chars(e.trading_day))->0,
    ) {
        Some("tradingDay must be YYYY-MM-DD (got `"@ + nonblank(opt_string_chars(e.trading_day))->0
            + "`)"@)
    } else if e.levels is None {
        Some(MISSING_LEVELS_MESSAGE@)
    } else if levels_failure(e.levels->0) is Some {
        levels_failure(e.levels->0)
    } else if copy_failure(opt_string_chars(e.note)) is Some {
        copy_failure(opt_string_chars(e.note))
    } else {
        notes_failure(e.mid_day_notes@)
    }
}

fn nonblank_of(o: &Option<String>) -> (r: Option<String>)
    ensures
        match nonblank(opt_string_chars(*o)) {
            Some(t) => r matches Some(x) && x@ == t,
            None => r is None,
        },
{
    match o {
        Some(s) => {
            let t = trimmed_of(s.as_str());
            if t.len() > 0 {
                Some(string_from(&t))
            } else {
                None
            }
        },
        None => None,
    }
}

fn as_str_opt(o: &Option<String>) -> (r: Option<&str>)
    ensures
        opt_chars(r) == opt_string_chars(*o),
{
    match o {
        Some(s) => Some(s.as_str()),
        None => None,
    }
}

/// Accept a Levels-Only Record into the canonical Positioning schema.
///
/// Slice / grid / by-strike writes are refused here, and so are vendor
/// stamps, so a manual card is never presented as live vendor data. The
/// record is stored as `levels_only`, manual, first-class.
#[verifier::loop_isolation(false)]
pub fn accept_levels_only_entry(input: &LevelsOnlyEntry) -> (r: Result<LevelsOnlyPlan, PositioningError>)
    ensures
        match entry_failure(*input) {
            Some(m) => r matches Err(PositioningError::Invalid(s)) && s@ == m,
            None => r matches Ok(p) && {
                &&& p.record_kind@ == LEVELS_ONLY_RECORD_KIND@
                &&& p.completeness@ == LEVELS_ONLY_RECORD_KIND@
                &&& opt_string_chars(p.id) == nonblank(opt_string_chars(input.id))
                &&& opt_string_chars(p.trading_day) == nonblank(opt_string_chars(input.trading_day))
                &&& !p.keeps_data_time
                &&& p.freshness_ok
                &&& opt_string_chars(p.note) == nonblank(opt_string_chars(input.note))
                &&& p.provenance.source@ == MANUAL_PROVENANCE_SOURCE@
                &&& p.provenance.first_class
                &&& p.provenance.vendor is None
                &&& opt_string_chars(p.provenance.note) == Some(
                    match nonblank(opt_string_chars(input.note)) {
                        Some(n) => n,
                        None => LEVELS_ONLY_PROVENANCE_NOTE@,
                    },
                )
            },
        },
        ascii_banned(opt_string_chars(input.note)) ==> r is Err,
        forall|j: int| 0 <= j < input.mid_day_notes@.len() && ascii_banned(
            opt_string_chars(#[trigger] input.mid_day_notes@[j]),
        ) ==> r is Err,
{
    let completeness = require_levels_only(as_str_opt(&input.record_kind), as_str_opt(&input.completeness))?;
    reject_vendor_pretence(as_str_opt(&input.vendor), input.data_time_valid)?;
    if !input.captured_at_ok {
        return Err(PositioningError::Invalid(owned(
            "capturedAt must be a positive finite epoch-milliseconds value (explicit manual/as-of)",
        )));
    }
    if !input.as_of_ok {
        return Err(PositioningError::Invalid(owned(
            "asOf must be a positive finite epoch-milliseconds value (explicit manual/as-of)",
        )));
    }
    let trading_day = match nonblank_of(&input.trading_day) {
        Some(d) => Some(validate_trading_day(d.as_str())?),
        None => None,
    };
    let levels = match &input.levels {
        Some(l) => l,
        None => {
            return Err(PositioningError::Invalid(owned(MISSING_LEVELS_MESSAGE)));
        },
    };
    validate_derived_levels(levels)?;
    reject_banned_copy(as_str_opt(&input.note))?;
    let n = input.mid_day_notes.len();
    let mut i: usize = 0;
    while i < n
        invariant
            n == input.mid_day_notes@.len(),
            i <= n,
            notes_failure(input.mid_day_notes@.take(i as int)) is None,
            forall|j: int| 0 <= j < i ==> !ascii_banned(opt_string_chars(#[trigger] input.mid_day_notes@[j])),
        decreases n - i,
    {
        assert(input.mid_day_notes@.take(i + 1).drop_last() =~= input.mid_day_notes@.take(i as int));
        assert(input.mid_day_notes@.take(i + 1).last() == input.mid_day_notes@[i as int]);
        match reject_banned_copy(as_str_opt(&input.mid_day_notes[i])) {
            Err(e) => {
                proof {
                    lemma_notes_failure_grows(input.mid_day_notes@, i as int + 1, n as int);
                    assert(input.mid_day_notes@.take(n as int) =~= input.mid_day_notes@);
                }
                return Err(e);
            },
            Ok(()) => {},
        }
        i = i + 1;
    }
    assert(input.mid_day_notes@.take(n as int) =~= input.mid_day_notes@);
    let note = nonblank_of(&input.note);
    let provenance_note = match &note {
        Some(n) => owned(n.as_str()),
        None => owned(LEVELS_ONLY_PROVENANCE_NOTE),
    };
    Ok(
        LevelsOnlyPlan {
            id: nonblank_of(&input.id),
            record_kind: owned(LEVELS_ONLY_RECORD_KIND),
            completeness,
            trading_day,
            keeps_data_time: false,
            freshness_ok: true,
            note,
            provenance: PositioningRecordProvenance {
                source: owned(MANUAL_PROVENANCE_SOURCE),
                first_class: true,
                vendor: None,
                note: Some(provenance_note),
            },
        },
    )
}

/// A refusal found among the first notes is the refusal of every longer run.
proof fn lemma_notes_failure_grows(notes: Seq<Option<String>>, k: int, m: int)
    requires
        0 <= k <= m <= notes.len(),
        notes_failure(notes.take(k)) is Some,
    ensures
        notes_failure(notes.take(m)) == notes_failure(notes.take(k)),
    decreases m - k,
{
    if m > k {
        lemma_notes_failure_grows(notes, k, m - 1);
        assert(notes.take(m).drop_last() =~= notes.take(m - 1));
    }
}

/// An entry is refused whenever its record kind is a slice, grid or by-strike
/// kind, it carries a vendor stamp or a vendor data time, its derived levels
/// are missing or refused (a non-finite price, a wall role other than
/// `call_wall` / `put_wall`), or its note or a mid-day note uses banned copy.
pub proof fn lemma_refused_entries(e: LevelsOnlyEntry)
    requires
        (kind_from_label(lower(kind_input(opt_string_chars(e.record_kind)))) matches Some(k) && k
            != "levels_only"@) || (e.vendor matches Some(v) && vendor_chars(v@)) || e.data_time_valid
            || e.levels is None || (e.levels matches Some(l) && levels_failure(l) is Some)
            || copy_failure(opt_string_chars(e.note)) is Some || notes_failure(e.mid_day_notes@) is Some,
    ensures
        entry_failure(e) is Some,
{
}

proof fn lemma_walls_pass(walls: Seq<WallCheck>)
    requires
        walls_failure(walls) is None,
    ensures
        forall|i: int| 0 <= i < walls.len() ==> (#[trigger] walls[i]).strike_finite && views(
            WALL_ROLES@,
        ).contains(trimmed(walls[i].role@)),
    decreases walls.len(),
{
    if walls.len() > 0 {
        lemma_walls_pass(walls.drop_last());
        assert forall|i: int| 0 <= i < walls.len() implies (#[trigger] walls[i]).strike_finite && views(
            WALL_ROLES@,
        ).contains(trimmed(walls[i].role@)) by {
            if i < walls.len() - 1 {
                assert(walls.drop_last()[i] == walls[i]);
            } else {
                assert(walls[i] == walls.last());
            }
        }
    }
}

/// Derived levels pass only when every price is finite: flip, balance, both
/// tests, and the strike of every wall; and every wall's role is `call_wall`
/// or `put_wall` (trimmed). One non-finite wall strike, wherever it stands,
/// refuses the levels.
pub proof fn lemma_accepted_levels_are_finite(l: LevelsCheck)
    requires
        levels_failure(l) is None,
    ensures
        l.flip_finite,
        l.balance_finite,
        l.upside_test_finite,
        l.downside_test_finite,
        forall|i: int| 0 <= i < l.walls@.len() ==> (#[trigger] l.walls@[i]).strike_finite && (trimmed(
            l.walls@[i].role@,
        ) == "call_wall"@ || trimmed(l.walls@[i].role@) == "put_wall"@),
{
    lemma_walls_pass(l.walls@);
    assert forall|i: int| 0 <= i < l.walls@.len() implies (#[trigger] l.walls@[i]).strike_finite && (trimmed(
        l.walls@[i].role@,
    ) == "call_wall"@ || trimmed(l.walls@[i].role@) == "put_wall"@) by {
        let t = trimmed(l.walls@[i].role@);
        assert(views(WALL_ROLES@).contains(t));
        let k = choose|k: int| 0 <= k < views(WALL_ROLES@).len() && views(WALL_ROLES@)[k] == t;
        assert(views(WALL_ROLES@)[k] == WALL_ROLES@[k]@);
    }
}

/// Levels whose prices are all finite and whose walls all carry a
/// `call_wall` / `put_wall` role (trimmed) pass.
pub proof fn lemma_finite_levels_pass(l: LevelsCheck)
    requires
        l.flip_finite,
        l.balance_finite,
        l.upside_test_finite,
        l.downside_test_finite,
        forall|i: int| 0 <= i < l.walls@.len() ==> (#[trigger] l.walls@[i]).strike_finite && (trimmed(
            l.walls@[i].role@,
        ) == "call_wall"@ || trimmed(l.walls@[i].role@) == "put_wall"@),
    ensures
        levels_failure(l) is None,
{
    lemma_walls_all_pass(l.walls@);
}

proof fn lemma_walls_all_pass(walls: Seq<WallCheck>)
    requires
        forall|i: int| 0 <= i < walls.len() ==> (#[trigger] walls[i]).strike_finite && (trimmed(
            walls[i].role@,
        ) == "call_wall"@ || trimmed(walls[i].role@) == "put_wall"@),
    ensures
        walls_failure(walls) is None,
    decreases walls.len(),
{
    if walls.len() > 0 {
        assert forall|i: int| 0 <= i < walls.drop_last().len() implies (#[trigger] walls.drop_last()[i]).strike_finite
            && (trimmed(walls.drop_last()[i].role@) == "call_wall"@ || trimmed(walls.drop_last()[i].role@)
            == "put_wall"@) by {
            assert(walls.drop_last()[i] == walls[i]);
        }
        lemma_walls_all_pass(walls.drop_last());
        let w = walls.last();
        assert(w == walls[walls.len() - 1]);
        let t = trimmed(w.role@);
        reveal_strlit("call_wall");
        reveal_strlit("put_wall");
        assert(views(WALL_ROLES@)[0] == "call_wall"@);
        assert(views(WALL_ROLES@)[1] == "put_wall"@);
        assert(views(WALL_ROLES@).contains(t));
    }
}

/// A Levels-Only Record reads as fresh exactly when its timestamps are
/// valid, it carries no vendor, its source is neither `provider` nor a vendor
/// label, and (on the live path) its trading day is today's; a fresh record
/// carries the first-class Levels-Only note.
pub proof fn lemma_fresh_iff(
    timestamps_ok: bool,
    source: Seq<char>,
    vendor: Option<&str>,
    trading_day: Seq<char>,
    live_trading_day: Option<&str>,
)
    ensures
        !freshness_fails(timestamps_ok, source, vendor, trading_day, live_trading_day) <==> {
            &&& timestamps_ok
            &&& vendor is None
            &&& lower(source) != "provider"@
            &&& !vendor_chars(source)
            &&& (live_trading_day is None || trading_day == live_trading_day->0@)
        },
        !freshness_fails(timestamps_ok, source, vendor, trading_day, live_trading_day) ==> freshness_note(
            timestamps_ok,
            source,
            vendor,
            trading_day,
            live_trading_day,
        ) == LEVELS_ONLY_PROVENANCE_NOTE@,
{
}

} // verus!
