//! What the bot keeps of the chat service's messages and threads.

use vstd::prelude::*;

verus! {

/// A message, by the channel it stands in and its own number.
#[derive(PartialEq, Eq, Structural, Debug, Clone, Copy, Hash)]
pub struct DiscordMessage {
    pub channel_id: u64,
    pub message_id: u64,
}

/// The error of rewriting a thread's message.
pub struct UpdateError;

} // verus!
