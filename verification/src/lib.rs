//! Expansion planning for derive macros that turn each variant of an enum
//! into a Bevy event, message or entity-event struct inside a snake_case
//! module.
//!
//! The library works on a plain model of the derive input (names, attribute
//! tokens, generic parameter names and the type paths and lifetimes that the
//! field types mention) and computes an [`plan::ExpansionPlan`]: what module
//! and which structs are generated, which attributes pass through, where the
//! `#[event_target]` marker goes, which phantom parameters are needed and
//! which `#[entity_event(..)]` propagation attribute is emitted.

pub mod naming;
pub mod tokens;
pub mod attrs;
pub mod generics;
pub mod model;
pub mod plan;
pub mod laws;

pub use naming::to_snake_case;
pub use plan::{derive_enum_entity_events, derive_enum_events, derive_enum_messages};
