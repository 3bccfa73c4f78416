//! Process configuration that the decision logic reads: the identifier of
//! the one gated space this process controls. Loading it from the
//! environment happens outside the crate.

use vstd::prelude::*;

verus! {

/// The gated space's configuration.
#[derive(Clone, Copy, Debug, PartialEq, Eq, Structural)]
pub struct Config {
    /// The chat id of the gated space.
    pub chat_id: i64,
}

impl Config {
    /// Whether an event belongs to the gated space; events from any other
    /// chat are ignored.
    pub fn is_gated_chat(&self, chat_id: i64) -> (r: bool)
        ensures
            r == (chat_id == self.chat_id),
    {
        chat_id == self.chat_id
    }
}

} // verus!
