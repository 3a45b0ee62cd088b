//! A declarative engine for the configuration of network interfaces.
//!
//! A desired state is merged with the observed one into reconciliation
//! records. From these follow the difference to apply, the check of what is
//! observed after the apply, and the revert that undoes the apply. Link and
//! wireless events are turned into the desired state that the saved
//! interfaces ask for on that event.
//!
//! Every type has a mathematical model, its view, and every function states
//! its result over those models.

/// The order in which changed interfaces are handed to the backend.
pub mod apply_order;
/// Kinds, states, IP settings and the base record of an interface.
pub mod base;
/// Interfaces as structural values, and back.
pub mod codec;
/// Reading back what was written: laws of the structural values of
/// interfaces.
pub mod codec_laws;
/// The difference between what is asked for and what is observed.
pub mod diff;
/// The name resolution of a state, and its verification.
pub mod dns;
/// Errors.
pub mod error;
/// Link and wireless events, and what saved interfaces ask for on them.
pub mod event;
/// The interface: a base record and what is specific to its kind.
pub mod iface;
/// Updating, sanitizing and comparing interfaces.
pub mod iface_ops;
/// The interfaces of a state, in two partitions.
pub mod ifaces;
/// Passes over the interfaces of a state: unknown ports, ignored
/// interfaces.
pub mod ifaces_clean;
/// Structural values: scalars, arrays and objects.
pub mod json;
/// Laws of the reconciliation of well-formed states.
pub mod merge_laws;
/// Reconciliation records.
pub mod merged;
/// What the monitor of links and wireless networks is told.
pub mod monitor;
/// Instructions for the backend that programs the kernel, as plain values.
pub mod nispor_conf;
/// The events that every plugin takes.
pub mod plugin_common;
/// Structural values as JSON text.
pub mod render;
/// The revert of an apply.
pub mod revert;
/// Network states and their reconciliation.
pub mod state;
/// The order of texts.
pub mod text_order;
/// Triggers: when a saved interface is brought up or down.
pub mod trigger;
/// Difference, merge and revert of structural values.
pub mod value;
/// Laws of difference, merge and revert.
pub mod value_laws;
/// Verification of the observed state against what is expected.
pub mod verify;
/// Models of texts and lists, and helpers on them.
pub mod views;
