//! A relay between debug targets (web pages, React-Native agents, Reactotron
//! clients) and Chrome DevTools frontends.  This crate holds the verified
//! core: the JSON value model, the Reactotron-to-CDP translator, the
//! connection registries with their fan-out rules, and the lifecycle state
//! machine.  The network plumbing around it lives outside the library.
use vstd::prelude::*;

pub mod json;
pub mod text;
pub mod json_parse;
pub mod normalize;
pub mod react_native;
pub mod reactotron;
pub mod socket_server;
pub mod cdp_bridge;
pub mod config;
pub mod dispatch;
pub mod lifecycle;
pub mod logging;

verus! {

} // verus!
