//! Work-mode model and state-reconciliation engine for a cloud-controlled
//! fan-like device bridged to an MQTT integration.
//!
//! The library parses a device's schema-described operating-mode capability
//! into a normalized model, projects live device state into the fixed
//! protocol vocabulary (on/off, quantized 0-100 percentage, named preset),
//! translates requested percentages back into device commands, and masks
//! cloud-propagation lag after a locally-issued command with a time-bounded
//! per-topic pin store.

pub mod air_purifier;
pub mod model;
pub mod pinstore;
pub mod projection;
pub mod reconcile;
pub mod schema;
pub mod strutil;
