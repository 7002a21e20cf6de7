//! What a signed token lets its bearer do.
use vstd::prelude::*;

verus! {

/// The permissions carried by a token whose signature was found to be good.
#[derive(Clone, Copy, Debug, PartialEq, Eq, Structural)]
pub struct ValidatedToken {
    /// Whether the bearer may join rooms.
    pub join_hub: bool,
    /// Whether the bearer may remove other users.
    pub kick_users: bool,
}

/// The outcome of checking one token against the configured key.
#[derive(Clone, Copy, Debug, PartialEq, Eq, Structural)]
pub enum TokenCheck {
    /// The token is malformed, expired or was signed with another key.
    Invalid,
    /// The token is good, and carries these permissions.
    Valid(ValidatedToken),
}

} // verus!
