//! A periodic data-collection agent for a vendor's IoT thermostat API,
//! stated and checked as a library: client-credentials authentication with a
//! token whose lifetime is tracked, decoding of the vendor's device-list
//! envelope, selection of temperature readings for logging, and
//! duplicate-safe persistence of device and status rows. The poll loop
//! itself is a state machine whose transitions are proved: an unexpired
//! token is never renewed, an expired one is renewed before the fetch, and a
//! failed fetch skips the cycle's write.

pub mod auth;
pub mod config;
pub mod controller;
pub mod errors;
pub mod fetch;
pub mod json;
pub mod model;
pub mod persist;
pub mod store;
pub mod text;

use vstd::prelude::*;

verus! {

} // verus!
