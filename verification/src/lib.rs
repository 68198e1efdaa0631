//! Desk Catalog core: wire labels, event lifecycle, Feature Registry governance,
//! Positioning record checks, and trust-level tagging, with verified contracts.

pub mod catalog;
pub mod codegen;
pub mod config;
pub mod envelope;
pub mod positioning;
pub mod render;
pub mod performance;
pub mod positioning_record;
pub mod scope;
pub mod sorting;
pub mod event_lifecycle;
pub mod events_kernel;
pub mod feature_ir;
pub mod feature_registry;
pub mod insights;
pub mod text;
pub mod trust;
pub mod types;
