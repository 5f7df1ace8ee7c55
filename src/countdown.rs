use crate::registry::{evictions, pending_in, registry_ticked, CountdownRegistry};
use vstd::prelude::*;

verus! {

/// The message text that asks for the help reply.
pub open spec fn help_command() -> Seq<char> {
    "!tag help"@
}

pub open spec fn help_reply() -> Seq<char> {
    "How to tag a message: \n \n 1. React with the appropriate emoji. \n 2. Wait for me to move it \n 3. ??? \n 4. Profit!"@
}

/// The static help reply.
pub fn help_text() -> (r: String)
    ensures
        r@ == help_reply(),
{
    String::from_str(
        "How to tag a message: \n \n 1. React with the appropriate emoji. \n 2. Wait for me to move it \n 3. ??? \n 4. Profit!",
    )
}

/// What the caller does after a message was posted.
pub struct MessageOutcome {
    /// The message was the help command: post the help reply in its channel.
    pub reply_help: bool,
    /// Messages of the channel to delete, in insertion order.
    pub evicted: Vec<u64>,
}

/// A message with text `content` was posted in `channel_id` (by anyone,
/// the bot included): the channel's countdowns tick once. The help command
/// also asks for the help reply and ticks like any other message.
pub fn on_message_posted(registry: &mut CountdownRegistry, channel_id: u64, content: &String) -> (r:
    MessageOutcome)
    ensures
        r.reply_help == (content@ == help_command()),
        r.evicted@ == evictions(pending_in(old(registry)@, channel_id)),
        final(registry)@ == registry_ticked(old(registry)@, channel_id),
{
    let command = String::from_str("!tag help");
    let reply_help = *content == command;
    let evicted = registry.tick_and_evict(channel_id);
    MessageOutcome { reply_help, evicted }
}

} // verus!
