//! Tagging and countdown-eviction core of a channel curation bot.
//!
//! Privileged users tag a message with an emoji reaction; the bot cites the
//! message in a destination channel and deletes the original once a set
//! number of later messages have been posted in its channel.
//!
//! - `rules`: the emoji-to-destination rule table.
//! - `registry`: per-channel pending entries and their countdowns.
//! - `history`: the registry over a whole sequence of inserts and ticks.
//! - `citation`: the text posted for a tagged message.
//! - `tagging`: one tag request as a state machine driven by its caller.
//! - `countdown`: what a newly posted message does.
//! - `logging`: errors and log records.
pub mod citation;
pub mod countdown;
pub mod history;
pub mod logging;
pub mod registry;
pub mod rules;
pub mod tagging;

pub use citation::citation_text;
pub use countdown::{help_text, on_message_posted, MessageOutcome};
pub use history::ChannelOp;
pub use logging::{BotError, Log, LogLevel, LogRecord};
pub use registry::{CountdownRegistry, PendingEntry};
pub use rules::{TagRule, TagTable};
pub use tagging::{
    acknowledgment_emoji, begin_tag, FetchedMessage, ReactionAdded, ReactionEmoji, TagAction, TagEvent, TagOutcome,
    TagSession, TagStage,
};
