//! Which stored agent insights a query keeps once the store has applied its
//! column filters: the tag and the scope matches on the insight's `scope`
//! object.

use vstd::prelude::*;

use crate::text::{chars_of, key_in_strings, lower, lower_chars, same_chars, string_views};

verus! {

/// The string values of an insight's `scope` object the query reads
/// (`None` when a key is absent or not a string).
#[derive(Debug, Clone, PartialEq)]
pub struct InsightScope {
    pub session_type: Option<String>,
    pub session_segment: Option<String>,
    pub time_bucket: Option<String>,
    pub day_type: Option<String>,
}

/// The post-filters of an insight query; `None` keeps every insight.
#[derive(Debug, Clone, PartialEq)]
pub struct InsightFilter {
    pub tag: Option<String>,
    pub session_type: Option<String>,
    pub session_segment: Option<String>,
    pub time_bucket: Option<String>,
    pub day_type: Option<String>,
}

/// A wanted scope value matches the insight's: no wanted value keeps every
/// insight; a wanted value needs the insight's value, compared exactly or
/// ASCII case-insensitively.
pub open spec fn scope_value_ok(want: Option<String>, have: Option<String>, ignore_case: bool) -> bool {
    match want {
        None => true,
        Some(w) => match have {
            None => false,
            Some(h) => if ignore_case {
                lower(h@) == lower(w@)
            } else {
                h@ == w@
            },
        },
    }
}

/// Whether an insight survives the query's post-filters: its tags hold the
/// wanted tag, and its session type, session segment and day type match
/// ASCII case-insensitively, its time bucket exactly.
pub open spec fn insight_kept_spec(tags: Seq<Seq<char>>, scope: InsightScope, filter: InsightFilter) -> bool {
    &&& match filter.tag {
        None => true,
        Some(t) => tags.contains(t@),
    }
    &&& scope_value_ok(filter.session_type, scope.session_type, true)
    &&& scope_value_ok(filter.session_segment, scope.session_segment, true)
    &&& scope_value_ok(filter.time_bucket, scope.time_bucket, false)
    &&& scope_value_ok(filter.day_type, scope.day_type, true)
}

fn scope_value_matches(want: &Option<String>, have: &Option<String>, ignore_case: bool) -> (r: bool)
    ensures
        r == scope_value_ok(*want, *have, ignore_case),
{
    match want {
        None => true,
        Some(w) => match have {
            None => false,
            Some(h) => {
                let hc = chars_of(h.as_str());
                let wc = chars_of(w.as_str());
                if ignore_case {
                    same_chars(&lower_chars(&hc), &lower_chars(&wc))
                } else {
                    same_chars(&hc, &wc)
                }
            },
        },
    }
}

/// Whether a stored insight with these tags and scope values is kept by the
/// query's tag and scope filters.
pub fn insight_kept(tags: &Vec<String>, scope: &InsightScope, filter: &InsightFilter) -> (r: bool)
    ensures
        r == insight_kept_spec(string_views(tags@), *scope, *filter),
{
    let tag_ok = match &filter.tag {
        None => true,
        Some(t) => key_in_strings(tags, t.as_str()),
    };
    tag_ok && scope_value_matches(&filter.session_type, &scope.session_type, true)
        && scope_value_matches(&filter.session_segment, &scope.session_segment, true)
        && scope_value_matches(&filter.time_bucket, &scope.time_bucket, false)
        && scope_value_matches(&filter.day_type, &scope.day_type, true)
}

/// A value filter matches when the wanted value is absent, or the insight
/// carries a value equal to it (ASCII case-insensitively when `ignore_case`).
pub open spec fn value_filter_holds(want: Option<String>, have: Option<String>, ignore_case: bool) -> bool {
    want is None || (have is Some && if ignore_case {
        lower(have->0@) == lower(want->0@)
    } else {
        have->0@ == want->0@
    })
}

/// An insight is kept exactly when every given filter holds of it: its tags
/// hold the wanted tag; its session type, session segment and day type equal
/// the wanted ones ASCII case-insensitively; its time bucket equals the
/// wanted one exactly. A filter that is given needs the insight to carry a
/// value for it.
pub proof fn lemma_insight_filters_hold(tags: Seq<Seq<char>>, scope: InsightScope, filter: InsightFilter)
    ensures
        insight_kept_spec(tags, scope, filter) <==> {
            &&& (filter.tag is None || tags.contains(filter.tag->0@))
            &&& value_filter_holds(filter.session_type, scope.session_type, true)
            &&& value_filter_holds(filter.session_segment, scope.session_segment, true)
            &&& value_filter_holds(filter.time_bucket, scope.time_bucket, false)
            &&& value_filter_holds(filter.day_type, scope.day_type, true)
        },
        insight_kept_spec(tags, scope, filter) && filter.day_type is Some ==> scope.day_type is Some
            && lower(scope.day_type->0@) == lower(filter.day_type->0@),
        insight_kept_spec(tags, scope, filter) && filter.session_type is Some ==> scope.session_type is Some
            && lower(scope.session_type->0@) == lower(filter.session_type->0@),
        insight_kept_spec(tags, scope, filter) && filter.session_segment is Some
            ==> scope.session_segment is Some && lower(scope.session_segment->0@) == lower(
            filter.session_segment->0@,
        ),
        insight_kept_spec(tags, scope, filter) && filter.time_bucket is Some ==> scope.time_bucket is Some
            && scope.time_bucket->0@ == filter.time_bucket->0@,
{
}

} // verus!
