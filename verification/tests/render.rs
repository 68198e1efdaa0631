use the_desk::catalog::{build_catalog, SPECIALTY_MARKET_TOOLS};
use the_desk::render::render_catalog_markdown;
use the_desk::types::{CostHint, FieldSpec, FreshnessSemantics, SessionScope, Unit};

fn spec(id: &'static str, name: &'static str, domain: &'static str, unit: Unit) -> FieldSpec {
    FieldSpec {
        id,
        rust_field: name,
        name,
        domain_id: domain,
        description: "A field.",
        unit,
        session_scope: SessionScope::Rth,
        freshness: FreshnessSemantics::SessionScoped,
        cost_hint: CostHint::R1,
    }
}

#[test]
fn markdown_opens_with_title_banner_and_counts() {
    let cat = build_catalog(vec![
        spec("market.location_structure.poc", "poc", "location_structure", Unit::PricePoints),
        spec("market.location_structure.vwap", "vwap", "location_structure", Unit::PricePoints),
    ]);
    let md = render_catalog_markdown(&cat, "> banner line\n\n");
    let head = format!(
        "# Desk Catalog v0\n\n> banner line\n\n- **catalogVersion:** `0.1.0`\n- **Trust Ceiling:** L3 (ADR-022)\n- **domains:** {}\n- **fields:** {}\n",
        cat.domains.len(),
        cat.fields.len()
    );
    assert!(md.starts_with(&head), "{md}");
    assert!(md.ends_with("|\n\n"));
}

#[test]
fn markdown_lists_each_field_row_under_its_domain() {
    let cat = build_catalog(vec![spec(
        "market.location_structure.poc",
        "poc",
        "location_structure",
        Unit::PricePoints,
    )]);
    let md = render_catalog_markdown(&cat, "");
    let row = "| `market.location_structure.poc` | PricePoints | Rth | SessionScoped | R1 |\n";
    assert_eq!(md.matches(row).count(), 1);
    let section = md.find("### `location_structure`").expect("domain section");
    let at = md.find(row).unwrap();
    assert!(section < at);
    assert!(md.contains("## Specialty market tools (allowlist)\n\n"));
    for tool in SPECIALTY_MARKET_TOOLS {
        assert!(md.contains(&format!("- `{tool}`\n")));
    }
}

#[test]
fn markdown_lists_every_shipped_detector() {
    let cat = build_catalog(Vec::new());
    let md = render_catalog_markdown(&cat, "");
    assert!(md.contains("| Id | Domain | Promotion | Builtin | Event types |\n|---|---|---|---|---|\n"));
    for d in &cat.base_detectors {
        let row = format!(
            "| `{}` | `{}` | {} | {} | {} |\n",
            d.id,
            d.domain_id,
            d.promotion_state.as_str(),
            d.builtin,
            d.schema.event_types.join(", ")
        );
        assert!(md.contains(&row), "missing {row}");
    }
    assert_eq!(md.matches("- **domains:** ").count(), 1);
}

#[test]
fn markdown_states_the_shared_eval_cap() {
    let md = render_catalog_markdown(&build_catalog(Vec::new()), "");
    let cap = the_desk::feature_ir::FEATURE_IR_EVAL_MAX_FRAMES;
    assert!(md.contains(&format!("capped at {cap} frames")));
    assert!(!md.contains("capped at 8192 frames"));
}
