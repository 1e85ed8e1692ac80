use vstd::prelude::*;

verus! {

/// What can go wrong while acquiring a bearer token.
#[derive(Debug, Clone, Copy, PartialEq, Eq, Structural)]
pub enum AuthError {
    Network,
    Decode,
}

/// What can go wrong while fetching the device list.
#[derive(Debug, Clone, Copy, PartialEq, Eq, Structural)]
pub enum FetchError {
    Network,
    Decode,
    Unauthorized,
}

/// What can go wrong while persisting a cycle's rows.
#[derive(Debug, Clone, Copy, PartialEq, Eq, Structural)]
pub enum WriteError {
    Connection,
    QueryFailed,
}

/// The one fatal error: a required credential is missing at startup.
#[derive(Debug, Clone, Copy, PartialEq, Eq, Structural)]
pub enum StartupError {
    MissingCredential,
}

} // verus!
