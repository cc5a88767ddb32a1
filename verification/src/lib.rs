//! Audio Config Manager: the decisions behind audio profiles and
//! per-application routing, with every function proved against its contract but
//! the wrappers around other crates and the standard library.

pub mod app_routing;
pub mod appearance;
pub mod clock;
pub mod commands;
pub mod decode;
pub mod encoding;
pub mod fakeaudio;
pub mod json;
pub mod laws;
pub mod order;
pub mod paths;
pub mod profiles;
pub mod ps;
pub mod route_cli;
pub mod settings;
pub mod text;
pub mod versions;
