//! Command-driven window-shutter actuation service.
//!
//! A network client sends one command per line of text; each command names a
//! shutter and a direction, and the service pulses the matching physical
//! control line for a fixed duration. This crate holds the verified core:
//! configuration validation (no control line shared between shutters), the
//! command decoder, the pulse sequencing, and the per-line connection step.
//! The surrounding process (socket handling, the GPIO driver, timers) performs
//! the actions this crate plans.

pub mod actuator;
pub mod command;
pub mod config;
pub mod decode;
pub mod handler;
