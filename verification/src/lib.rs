//! Core logic of a device-automation control loop: a perception sanitizer
//! that turns raw accessibility dumps into ranked, indexed UI elements, a
//! response normalizer that recovers structured action plans from unreliable
//! model output, a cooldown-aware provider fallback manager, a risk-tiered
//! guardrail executor with human confirmation, and a stuck detector with
//! escalating recovery.

pub mod clock;
pub mod config;
pub mod flow;
pub mod oneshot;
pub mod session;
pub mod soul;
pub mod tailscale;
pub mod workflow;
pub mod action;
pub mod brain;
pub mod json;
pub mod perception;
pub mod sanitizer;
pub mod stuck;
pub mod fallback;
pub mod util;
pub mod util_seq;

pub use util::simple_hash;
