//! Verified core of the OrbitDock server: token parsing, release channel
//! selection, usage accounting, sync sequencing and the dashboard text rules.
use vstd::prelude::*;

pub mod text;
pub mod usage;
pub mod releases;
pub mod logging;
pub mod auth_tokens;
pub mod timefmt;
pub mod sync;
pub mod sync_writer;
pub mod pending_hooks;
pub mod housekeeping;
pub mod codex_config;
pub mod conversation;
pub mod dashboard;
pub mod session_errors;
pub mod thread_registry;
pub mod migrations;
pub mod session_config;
pub mod session_writes;
pub mod persist_sync;
pub mod dispatch;
pub mod takeover;
pub mod message_store;

verus! {

} // verus!
