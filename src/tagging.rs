use crate::citation::{citation, citation_text};
use crate::logging::BotError;
use crate::registry::{holds_message, pending_in, registry_inserted, CountdownRegistry, RegistryView};
use crate::rules::{first_match, TagTable};
use vstd::prelude::*;

verus! {

/// The emoji of a reaction: a custom server emoji (whose name may be
/// unknown) or a plain unicode one.
pub enum ReactionEmoji {
    Custom { name: Option<String> },
    Unicode(String),
}

/// A user reacted to a message.
pub struct ReactionAdded {
    pub channel_id: u64,
    pub message_id: u64,
    pub user_id: u64,
    pub guild_id: Option<u64>,
    pub emoji: ReactionEmoji,
}

/// What the citation needs of the reacted-to message.
pub struct FetchedMessage {
    pub author_id: u64,
    pub content: String,
    pub attachment_urls: Vec<String>,
}

#[derive(Clone, Copy, Debug, PartialEq, Eq, Structural)]
pub enum TagStage {
    CheckingRole,
    FetchingMessage,
    SendingCitation,
    Acknowledging,
    Finished,
}

/// Progress of one tag request, from the reaction to the registry insert.
#[derive(Clone, Copy, Debug, PartialEq, Eq, Structural)]
pub struct TagSession {
    pub stage: TagStage,
    /// Channel and id of the tagged message.
    pub channel_id: u64,
    pub message_id: u64,
    /// The user who reacted.
    pub user_id: u64,
    /// From the matching rule.
    pub destination: u64,
    pub countdown: u16,
}

/// The answer to the last action.
pub enum TagEvent {
    /// Whether the reacting user holds the tagging role; an error when the
    /// user or the role could not be looked up.
    RoleChecked(Result<bool, BotError>),
    MessageFetched(Result<FetchedMessage, BotError>),
    CitationSent(Result<(), BotError>),
    Acknowledged(Result<(), BotError>),
}

pub enum TagOutcome {
    /// Not a tagging reaction, or an answer that does not fit the stage.
    Ignored,
    /// The user may not tag.
    Denied,
    /// A request failed before the citation was posted; nothing was registered.
    Failed(BotError),
    /// The citation was posted and the message registered (`newly_pending`
    /// is false when it was already pending); `acknowledged` is the result
    /// of marking the original message.
    Tagged { newly_pending: bool, acknowledged: Result<(), BotError> },
}

/// What the caller performs next, answering with the matching event.
pub enum TagAction {
    CheckRole { user_id: u64, guild_id: u64, role_id: u64 },
    FetchMessage { channel_id: u64, message_id: u64 },
    SendCitation { channel_id: u64, text: String },
    /// React to the tagged message with the acknowledgment emoji.
    Acknowledge { channel_id: u64, message_id: u64 },
    Finish(TagOutcome),
}

/// The emoji with which a tagged message is marked once cited.
pub open spec fn acknowledgment() -> Seq<char> {
    "\u{2705}"@
}

/// The acknowledgment emoji, a check mark.
pub fn acknowledgment_emoji() -> (r: String)
    ensures
        r@ == acknowledgment(),
{
    String::from_str("\u{2705}")
}

/// The rule that a reaction triggers, as an index into the table.
pub open spec fn rule_for(reaction: ReactionAdded, table: TagTable) -> Option<int> {
    match reaction.emoji {
        ReactionEmoji::Custom { name: Some(n) } => first_match(table.rules@, n@),
        _ => None,
    }
}

/// The session that `begin_tag` starts.
pub open spec fn begin_session(reaction: ReactionAdded, table: TagTable) -> TagSession {
    let idle = TagSession {
        stage: TagStage::Finished,
        channel_id: reaction.channel_id,
        message_id: reaction.message_id,
        user_id: reaction.user_id,
        destination: 0,
        countdown: 0,
    };
    match rule_for(reaction, table) {
        Some(i) if reaction.guild_id is Some => TagSession {
            stage: TagStage::CheckingRole,
            destination: table.rules@[i].channel_target,
            countdown: table.rules@[i].message_counter,
            ..idle
        },
        _ => idle,
    }
}

pub open spec fn finished(s: TagSession) -> TagSession {
    TagSession { stage: TagStage::Finished, ..s }
}

/// The session after `event`.
pub open spec fn next_session(s: TagSession, event: TagEvent) -> TagSession {
    match (s.stage, event) {
        (TagStage::CheckingRole, TagEvent::RoleChecked(Ok(true))) => TagSession {
            stage: TagStage::FetchingMessage,
            ..s
        },
        (TagStage::FetchingMessage, TagEvent::MessageFetched(Ok(_))) => TagSession {
            stage: TagStage::SendingCitation,
            ..s
        },
        (TagStage::SendingCitation, TagEvent::CitationSent(Ok(_))) => TagSession {
            stage: TagStage::Acknowledging,
            ..s
        },
        _ => finished(s),
    }
}

/// Whether `event` leads to posting a citation.
pub open spec fn sends_citation(s: TagSession, event: TagEvent) -> bool {
    s.stage == TagStage::FetchingMessage && event matches TagEvent::MessageFetched(Ok(_))
}

/// Whether `event` leads to registering the tagged message.
pub open spec fn registers(s: TagSession, event: TagEvent) -> bool {
    s.stage == TagStage::Acknowledging && event is Acknowledged
}

/// The registry after `event`.
pub open spec fn registry_after(s: TagSession, event: TagEvent, reg: RegistryView) -> RegistryView {
    if registers(s, event) {
        registry_inserted(reg, s.channel_id, s.message_id, s.countdown)
    } else {
        reg
    }
}

/// The action that follows `event`.
pub open spec fn action_after(s: TagSession, event: TagEvent, reg: RegistryView, a: TagAction) -> bool {
    match (s.stage, event) {
        (TagStage::CheckingRole, TagEvent::RoleChecked(Ok(true))) => a == TagAction::FetchMessage {
            channel_id: s.channel_id,
            message_id: s.message_id,
        },
        (TagStage::CheckingRole, TagEvent::RoleChecked(Ok(false))) => a == TagAction::Finish(
            TagOutcome::Denied,
        ),
        (TagStage::CheckingRole, TagEvent::RoleChecked(Err(e))) => a == TagAction::Finish(
            TagOutcome::Failed(e),
        ),
        (TagStage::FetchingMessage, TagEvent::MessageFetched(Ok(m))) => a matches TagAction::SendCitation {
            channel_id,
            text,
        } && channel_id == s.destination && text@ == citation(
            m.author_id,
            s.user_id,
            m.content@,
            m.attachment_urls@,
        ),
        (TagStage::FetchingMessage, TagEvent::MessageFetched(Err(e))) => a == TagAction::Finish(
            TagOutcome::Failed(e),
        ),
        (TagStage::SendingCitation, TagEvent::CitationSent(Ok(_))) => a == TagAction::Acknowledge {
            channel_id: s.channel_id,
            message_id: s.message_id,
        },
        (TagStage::SendingCitation, TagEvent::CitationSent(Err(e))) => a == TagAction::Finish(
            TagOutcome::Failed(e),
        ),
        (TagStage::Acknowledging, TagEvent::Acknowledged(r)) => a == TagAction::Finish(
            TagOutcome::Tagged {
                newly_pending: !holds_message(pending_in(reg, s.channel_id), s.message_id),
                acknowledged: r,
            },
        ),
        _ => a == TagAction::Finish(TagOutcome::Ignored),
    }
}

/// Starts handling a reaction. Only a named custom emoji that some rule
/// lists starts a tag (the first such rule applies); the reacting user's
/// role `tag_role` is checked first. Outside a server nobody may tag.
pub fn begin_tag(reaction: &ReactionAdded, table: &TagTable, tag_role: u64) -> (r: (
    TagSession,
    TagAction,
))
    ensures
        r.0 == begin_session(*reaction, *table),
        rule_for(*reaction, *table) is None ==> r.0.stage == TagStage::Finished && r.1
            == TagAction::Finish(TagOutcome::Ignored),
        rule_for(*reaction, *table) matches Some(i) ==> match reaction.guild_id {
            None => r.0.stage == TagStage::Finished && r.1 == TagAction::Finish(
                TagOutcome::Denied,
            ),
            Some(g) => r.0 == TagSession {
                stage: TagStage::CheckingRole,
                channel_id: reaction.channel_id,
                message_id: reaction.message_id,
                user_id: reaction.user_id,
                destination: table.rules@[i].channel_target,
                countdown: table.rules@[i].message_counter,
            } && r.1 == TagAction::CheckRole { user_id: reaction.user_id, guild_id: g, role_id: tag_role },
        },
{
    let idle = TagSession {
        stage: TagStage::Finished,
        channel_id: reaction.channel_id,
        message_id: reaction.message_id,
        user_id: reaction.user_id,
        destination: 0,
        countdown: 0,
    };
    let rule = match &reaction.emoji {
        ReactionEmoji::Custom { name: Some(n) } => table.lookup(n),
        _ => None,
    };
    match rule {
        None => (idle, TagAction::Finish(TagOutcome::Ignored)),
        Some(rule) => match reaction.guild_id {
            None => (idle, TagAction::Finish(TagOutcome::Denied)),
            Some(g) => (
                TagSession {
                    stage: TagStage::CheckingRole,
                    destination: rule.channel_target,
                    countdown: rule.message_counter,
                    ..idle
                },
                TagAction::CheckRole { user_id: reaction.user_id, guild_id: g, role_id: tag_role },
            ),
        },
    }
}

impl TagSession {
    /// Takes the answer to the last action and returns the next session and
    /// action. The message is registered only once its citation has been
    /// posted, when the acknowledgment answer arrives; a finished session
    /// stays finished and changes nothing.
    pub fn advance(&self, event: TagEvent, registry: &mut CountdownRegistry) -> (r: (
        TagSession,
        TagAction,
    ))
        ensures
            r.0 == next_session(*self, event),
            final(registry)@ == registry_after(*self, event, old(registry)@),
            action_after(*self, event, old(registry)@, r.1),
    {
        let s = *self;
        match (s.stage, event) {
            (TagStage::CheckingRole, TagEvent::RoleChecked(Ok(true))) => (
                TagSession { stage: TagStage::FetchingMessage, ..s },
                TagAction::FetchMessage { channel_id: s.channel_id, message_id: s.message_id },
            ),
            (TagStage::CheckingRole, TagEvent::RoleChecked(Ok(false))) => (
                TagSession { stage: TagStage::Finished, ..s },
                TagAction::Finish(TagOutcome::Denied),
            ),
            (TagStage::CheckingRole, TagEvent::RoleChecked(Err(e))) => (
                TagSession { stage: TagStage::Finished, ..s },
                TagAction::Finish(TagOutcome::Failed(e)),
            ),
            (TagStage::FetchingMessage, TagEvent::MessageFetched(Ok(m))) => {
                let text = citation_text(m.author_id, s.user_id, &m.content, &m.attachment_urls);
                (
                    TagSession { stage: TagStage::SendingCitation, ..s },
                    TagAction::SendCitation { channel_id: s.destination, text },
                )
            },
            (TagStage::FetchingMessage, TagEvent::MessageFetched(Err(e))) => (
                TagSession { stage: TagStage::Finished, ..s },
                TagAction::Finish(TagOutcome::Failed(e)),
            ),
            (TagStage::SendingCitation, TagEvent::CitationSent(Ok(_))) => (
                TagSession { stage: TagStage::Acknowledging, ..s },
                TagAction::Acknowledge { channel_id: s.channel_id, message_id: s.message_id },
            ),
            (TagStage::SendingCitation, TagEvent::CitationSent(Err(e))) => (
                TagSession { stage: TagStage::Finished, ..s },
                TagAction::Finish(TagOutcome::Failed(e)),
            ),
            (TagStage::Acknowledging, TagEvent::Acknowledged(ack)) => {
                let added = registry.insert(s.channel_id, s.message_id, s.countdown);
                (
                    TagSession { stage: TagStage::Finished, ..s },
                    TagAction::Finish(TagOutcome::Tagged { newly_pending: added, acknowledged: ack }),
                )
            },
            _ => (TagSession { stage: TagStage::Finished, ..s }, TagAction::Finish(TagOutcome::Ignored)),
        }
    }
}

/// Session and registry after answering `s` with each of `events` in turn.
pub open spec fn run_session(s: TagSession, events: Seq<TagEvent>, reg: RegistryView) -> (
    TagSession,
    RegistryView,
)
    decreases events.len(),
{
    if events.len() == 0 {
        (s, reg)
    } else {
        run_session(
            next_session(s, events[0]),
            events.subrange(1, events.len() as int),
            registry_after(s, events[0], reg),
        )
    }
}

/// Whether some answer among `events` leads to posting a citation.
pub open spec fn cites_during(s: TagSession, events: Seq<TagEvent>) -> bool
    decreases events.len(),
{
    if events.len() == 0 {
        false
    } else {
        sends_citation(s, events[0]) || cites_during(
            next_session(s, events[0]),
            events.subrange(1, events.len() as int),
        )
    }
}

/// A finished session ignores whatever answers still arrive: it posts no
/// citation and leaves the registry as it is.
pub proof fn lemma_finished_session_inert(s: TagSession, events: Seq<TagEvent>, reg: RegistryView)
    requires
        s.stage == TagStage::Finished,
    ensures
        run_session(s, events, reg) == (s, reg),
        !cites_during(s, events),
    decreases events.len(),
{
    if events.len() > 0 {
        lemma_finished_session_inert(s, events.subrange(1, events.len() as int), reg);
    }
}

/// A reaction whose emoji no rule lists never posts a citation and never
/// changes the registry, whatever answers follow.
pub proof fn lemma_unknown_emoji_inert(
    reaction: ReactionAdded,
    table: TagTable,
    events: Seq<TagEvent>,
    reg: RegistryView,
)
    requires
        rule_for(reaction, table) is None,
    ensures
        run_session(begin_session(reaction, table), events, reg).1 == reg,
        !cites_during(begin_session(reaction, table), events),
{
    lemma_finished_session_inert(begin_session(reaction, table), events, reg);
}

/// A tag by a user who lacks the tagging role (or whose role could not be
/// confirmed) never posts a citation and never changes the registry, even
/// when the emoji matches a rule.
pub proof fn lemma_denied_user_inert(
    reaction: ReactionAdded,
    table: TagTable,
    events: Seq<TagEvent>,
    reg: RegistryView,
)
    requires
        events.len() > 0,
        events[0] is RoleChecked,
        !(events[0] matches TagEvent::RoleChecked(Ok(true))),
    ensures
        run_session(begin_session(reaction, table), events, reg).1 == reg,
        !cites_during(begin_session(reaction, table), events),
{
    let s = begin_session(reaction, table);
    let rest = events.subrange(1, events.len() as int);
    lemma_finished_session_inert(next_session(s, events[0]), rest, reg);
    if s.stage == TagStage::Finished {
        lemma_finished_session_inert(s, events, reg);
    }
}

/// When posting the citation fails, the tagged message is never registered,
/// whatever answers follow.
pub proof fn lemma_failed_citation_not_registered(
    s: TagSession,
    events: Seq<TagEvent>,
    reg: RegistryView,
)
    requires
        s.stage == TagStage::SendingCitation,
        events.len() > 0,
        events[0] matches TagEvent::CitationSent(Err(_)),
    ensures
        run_session(s, events, reg).1 == reg,
{
    lemma_finished_session_inert(
        next_session(s, events[0]),
        events.subrange(1, events.len() as int),
        reg,
    );
}

} // verus!
