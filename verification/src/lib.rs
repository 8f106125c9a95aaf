//! Host-side library of the sagens sandbox daemon: configuration checks,
//! BOX settings and lifecycle rules, the BOX API access rules, image
//! package resolution and boot diagnostics.

pub mod alpine;
pub mod archive;
pub mod box_api;
pub mod box_lifecycle;
pub mod box_store;
pub mod boxes;
pub mod bundle;
pub mod client_state;
pub mod codec;
pub mod config;
pub mod daemon;
pub mod digest;
pub mod error;
pub mod guest_transport;
pub mod hardening;
pub mod guest_rpc;
pub mod packages;
pub mod ordering;
pub mod paths;
pub mod host_log;
pub mod ids;
pub mod images;
pub mod private_fs;
pub mod protocol;
pub mod runtime;
pub mod session;
pub mod terminal;
pub mod text;
pub mod textmap;

use vstd::prelude::*;

verus! {

} // verus!
