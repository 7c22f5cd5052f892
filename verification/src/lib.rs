//! Server state rules: identity keys, registries, caches, backfills, reads and
//! publication decisions, stated as contracts and proved.

pub mod text;
pub mod sorted;
pub mod digest;
pub mod public_blob;
pub mod json;
pub mod file_blobs;
pub mod file_reads;
pub mod batch_text;
pub mod artifacts;
pub mod assets;
pub mod config;
pub mod telemetry;
pub mod replay_parity;
pub mod entity_load;
pub mod field_backfill;
pub mod key_backfill;
pub mod vector_backfill;
pub mod keys;
pub mod state_cache;
pub mod timestamps;
pub mod entity_index;
pub mod directory;
pub mod eviction;
pub mod readiness;
pub mod loading;
pub mod passivation;
pub mod gates;
pub mod tables;
pub mod coverage;
pub mod activation;
pub mod create_errors;
pub mod entity_state;
pub mod creation;
pub mod initial_files;
pub mod authz;
pub mod hints;
pub mod verification_gate;
pub mod metrics;
pub mod observe_events;
pub mod pending_decisions;
pub mod policy_suggestions;
pub mod evolution;
pub mod persistence;
pub mod spec_catalog;
pub mod wasm_modules;
pub mod server_state;
