//! Core logic of a remote-desktop host agent.

use vstd::prelude::*;

pub mod access;
pub mod adapt;
pub mod agent;
pub mod app;
pub mod arith;
pub mod bench;
pub mod capture;
pub mod cli;
pub mod clipboard;
pub mod crypto;
pub mod cursor;
pub mod device;
pub mod dtls_bind;
pub mod encode;
pub mod fsutil;
pub mod input;
pub mod opaque;
pub mod pipeline;
pub mod platform;
pub mod proto;
pub mod text;

verus! {

/// What is logged unless the user asks for something else. The WebRTC stack and
/// the injector log routine events as warnings.
pub const DEFAULT_LOG_FILTER: &'static str = "info,rtc=error,rtc_dtls=error,rtc_ice=error,rtc_ice::agent::agent_proto=off,enigo=warn";

} // verus!
