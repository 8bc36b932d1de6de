//! Verified core of the GlimaNexus game-server manager: the wire format of the
//! Minecraft status ping, the game-template rules, the text that is sent to a
//! managed server (systemd units, shell commands) and the parsing of what the
//! server answers.
use vstd::prelude::*;

pub mod commands;
pub mod discovery;
pub mod games;
pub mod json;
pub mod listing;
pub mod mc_ping;
pub mod naming;
pub mod paths;
pub mod provisioning;
pub mod rediscovery;
pub mod session;
pub mod status;
pub mod text;
pub mod varint;

verus! {

} // verus!
