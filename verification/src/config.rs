//! The operator's settings.
use crate::messages::MessageKind;
use vstd::prelude::*;

verus! {

/// The settings of one server.
#[derive(Debug)]
pub struct Config {
    /// The key that tokens are checked against. Without one, anyone may join and nobody may kick.
    pub auth_key: Option<Vec<u8>>,
    /// A room with more occupants than this takes no further data connection.
    pub max_room_size: usize,
    /// A server with more sessions than this takes no further data connection.
    pub max_ccu: usize,
}

impl Default for Config {
    /// The settings used when none can be read: no key and no limits.
    fn default() -> (config: Self)
        ensures
            config.auth_key is None,
            config.max_room_size == usize::MAX,
            config.max_ccu == usize::MAX,
    {
        Config { auth_key: None, max_room_size: usize::MAX, max_ccu: usize::MAX }
    }
}

impl Config {
    /// Which key the token of a message has to be checked against, and the token; `None` where
    /// there is nothing to check, because no key is configured or the message carries no token.
    pub fn token_to_check<'a>(&'a self, msg: &'a MessageKind) -> (work: Option<
        (&'a Vec<u8>, &'a String),
    >)
        ensures
            work is Some <==> self.auth_key is Some && msg@.token() is Some,
            work matches Some(pair) ==> Some(*pair.0) == self.auth_key && Some(pair.1@)
                == msg@.token(),
    {
        match (&self.auth_key, msg.token()) {
            (Some(key), Some(token)) => Some((key, token)),
            _ => None,
        }
    }
}

} // verus!
