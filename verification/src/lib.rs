//! Voice for a gateway: the VoxCPM speech provider and the checks that tell
//! whether a host can run a local voice backend.
//!
//! The library decides; it does not talk to servers or start commands. Where a
//! decision needs to know what a server or a command said, a function takes what
//! is known so far and returns the next step, which the caller carries out.
#![allow(unused_imports)]

pub mod audio;
pub mod config;
pub mod config_laws;
pub mod design_laws;
pub mod detect;
pub mod error;
pub mod exchange_laws;
pub mod host_laws;
pub mod json;
pub mod number;
pub mod probe;
pub mod server_laws;
pub mod status;
pub mod text;
pub mod text_laws;
pub mod voice_design;
pub mod voices;
pub mod voxcpm;
pub mod voxtral;
