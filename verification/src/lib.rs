//! A runtime-reconfigurable suppression layer for hierarchical diagnostic
//! spans.
//!
//! The library decides, per span, whether the span and its descendants are
//! suppressed from an event sink, based on field-value rules that an operator
//! can change live over a control channel. It provides:
//!
//! - [`fields`]: the span-field data model and field/value matching;
//! - [`filters`]: `FilterSet`, an immutable snapshot of suppression rules;
//! - [`store`]: `FilterStore`, the atomically replaceable current snapshot;
//! - [`engine`]: the span registry and the suppression decision itself;
//! - [`protocol`]: the line-oriented control protocol and its connection
//!   state machine.

pub mod engine;
pub mod fields;
pub mod filters;
pub mod protocol;
pub mod store;
