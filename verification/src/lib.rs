//! A declarative network-policy engine: rule sets, their validators and
//! textual forms, the decision engine, the operational state machine, the
//! firewall-directive renderer and the proxy share-link codec.
//!
//! Every function comes with a contract over a model of its data: text is a
//! sequence of characters, and each record has a view that holds its fields
//! as such sequences.
//!
//! - `rules`, `dsl`: the rule-set model, its validation and the rule
//!   language.
//! - `engine`, `state`: which rule governs a flow, and how the operational
//!   state moves.
//! - `actions`, `action_backend`: from a rule's action to a decision and to
//!   the command lines of a packet filter.
//! - `xray`, `outbound`, `json`: from share links to proxy nodes and to the
//!   configuration document of the forwarder.
//! - `inspector`, `ebpf`, `telemetry`, `web`, `schedule`: what the
//!   surrounding programs read from text, their counters, and when they
//!   reload.
//! - `text`, `numerals`, `strings`: the text primitives under all of them.
//! - `laws`: what the predicate languages accept, for every pattern of a
//!   given shape.

pub mod action_backend;
pub mod actions;
pub mod dsl;
pub mod ebpf;
pub mod engine;
pub mod inspector;
pub mod json;
pub mod laws;
pub mod numerals;
pub mod outbound;
pub mod rules;
pub mod schedule;
pub mod state;
pub mod strings;
pub mod telemetry;
pub mod text;
pub mod web;
pub mod xray;
