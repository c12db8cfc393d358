//! The host side of a long-horizon context store for a coding agent.
//!
//! The host records what a conversation holds, item by item, in a store that
//! outlives it; compacts the conversation from that store when it has grown too
//! large; and rebuilds its own record of the conversation from it. This library
//! holds what the host decides and computes on that way. Files, databases,
//! threads and models belong to whoever calls it.
//!
//! - Values: [`text`], [`byte_text`], [`json`], [`json_members`],
//!   [`collections`], [`ordering`], [`timestamps`].
//! - What is spoken of: [`protocol`] and its JSON image in [`wire`] and
//!   [`unwire`], [`records`], [`thread_view`], [`rollout`].
//! - From items to stored events: [`idempotency`], [`mapping`], [`host_ids`],
//!   [`image_blocks`].
//! - Capturing a conversation: [`install`], [`capture_intake`], [`capture`].
//! - Compacting it: [`coverage`], [`compact_marker`], [`compact_bridge`],
//!   [`compact_continuation`], [`band_shape`], [`inference`].
//! - What may be sent next: [`body_validation`], [`body_degrade`].
//! - From the store back to a rollout: [`rollback`], [`host_turn_ids`],
//!   [`usage`], [`reverse`], [`tail`], [`materialize`], [`guardian_fold`].
//! - Where things lie and whether they changed: [`gating`],
//!   [`database_digest`].
//!
//! What holds of these together is stated and proved beside them:
//!
//! - Of values and their notation: [`text_laws`], [`notation_laws`].
//! - Of what is stored: [`key_laws`], [`mapping_laws`], [`image_laws`],
//!   [`install_laws`], [`intake_laws`], [`capture_laws`].
//! - Of compacting: [`coverage_laws`], [`marker_laws`], [`compact_laws`],
//!   [`continuation_laws`], [`band_laws`].
//! - Of bodies: [`body_laws`], [`degrade_laws`], [`survival_laws`].
//! - Of what is rebuilt: [`rollback_laws`], [`turn_name_laws`], [`usage_laws`],
//!   [`reverse_laws`], [`tail_laws`], [`tail_content_laws`],
//!   [`tail_turn_laws`], [`rebuild_laws`], [`inspection_laws`].
//! - Of the words of a message, and of a database: [`word_laws`],
//!   [`database_laws`].

pub mod band_laws;
pub mod band_shape;
pub mod body_degrade;
pub mod body_laws;
pub mod body_validation;
pub mod byte_text;
pub mod capture;
pub mod capture_intake;
pub mod capture_laws;
pub mod collections;
pub mod compact_bridge;
pub mod compact_continuation;
pub mod compact_laws;
pub mod compact_marker;
pub mod continuation_laws;
pub mod coverage;
pub mod coverage_laws;
pub mod database_digest;
pub mod database_laws;
pub mod degrade_laws;
pub mod gating;
pub mod guardian_fold;
pub mod host_ids;
pub mod host_turn_ids;
pub mod idempotency;
pub mod image_blocks;
pub mod image_laws;
pub mod inference;
pub mod inspection_laws;
pub mod install;
pub mod install_laws;
pub mod intake_laws;
pub mod json;
pub mod json_members;
pub mod key_laws;
pub mod mapping;
pub mod mapping_laws;
pub mod marker_laws;
pub mod materialize;
pub mod notation_laws;
pub mod ordering;
pub mod protocol;
pub mod rebuild_laws;
pub mod records;
pub mod reverse;
pub mod reverse_laws;
pub mod rollback;
pub mod rollback_laws;
pub mod rollout;
pub mod survival_laws;
pub mod tail;
pub mod tail_content_laws;
pub mod tail_laws;
pub mod tail_turn_laws;
pub mod text;
pub mod text_laws;
pub mod thread_view;
pub mod timestamps;
pub mod turn_name_laws;
pub mod unwire;
pub mod usage;
pub mod usage_laws;
pub mod wire;
pub mod word_laws;
