//! Boundary error types. Each domain surfaces a small, domain-shaped error so
//! callers never match on a foreign error variant. Each carries its message.

use vstd::prelude::*;

verus! {

/// An error from the Discord RPC boundary.
#[derive(Debug, PartialEq, Eq)]
pub struct RpcError(pub String);

/// An error from the input boundary.
#[derive(Debug, PartialEq, Eq)]
pub struct InputError(pub String);

/// An error from the render boundary.
#[derive(Debug, PartialEq, Eq)]
pub struct RenderError(pub String);

/// An error loading/validating config.
#[derive(Debug, PartialEq, Eq)]
pub struct ConfigError(pub String);

impl RpcError {
    pub fn new(msg: &str) -> (e: Self)
        ensures
            e.0@ == msg@,
    {
        RpcError(msg.to_owned())
    }

    /// The message, as `Display` would print it.
    pub fn to_string(&self) -> (s: String)
        ensures
            s@ == self.0@,
    {
        self.0.clone()
    }
}

impl InputError {
    pub fn new(msg: &str) -> (e: Self)
        ensures
            e.0@ == msg@,
    {
        InputError(msg.to_owned())
    }

    /// The message, as `Display` would print it.
    pub fn to_string(&self) -> (s: String)
        ensures
            s@ == self.0@,
    {
        self.0.clone()
    }
}

impl RenderError {
    pub fn new(msg: &str) -> (e: Self)
        ensures
            e.0@ == msg@,
    {
        RenderError(msg.to_owned())
    }

    /// The message, as `Display` would print it.
    pub fn to_string(&self) -> (s: String)
        ensures
            s@ == self.0@,
    {
        self.0.clone()
    }
}

impl ConfigError {
    pub fn new(msg: &str) -> (e: Self)
        ensures
            e.0@ == msg@,
    {
        ConfigError(msg.to_owned())
    }

    /// The message, as `Display` would print it.
    pub fn to_string(&self) -> (s: String)
        ensures
            s@ == self.0@,
    {
        self.0.clone()
    }
}

} // verus!
