use tag_bot::{
    begin_tag, citation_text, BotError, CountdownRegistry, FetchedMessage, Log, LogLevel,
    PendingEntry, ReactionAdded, ReactionEmoji, TagAction, TagEvent, TagOutcome, TagRule,
    TagStage, TagTable,
};

const GENERAL: u64 = 100;
const ARCHIVE: u64 = 300;
const MESSAGE: u64 = 42;
const TAGGER: u64 = 7;
const AUTHOR: u64 = 9;
const ROLE: u64 = 55;

fn table() -> TagTable {
    TagTable {
        rules: vec![
            TagRule { emoji_name: "archive".to_string(), channel_target: ARCHIVE, message_counter: 2 },
            TagRule { emoji_name: "trash".to_string(), channel_target: 301, message_counter: 0 },
            TagRule { emoji_name: "archive".to_string(), channel_target: 999, message_counter: 9 },
        ],
    }
}

fn reaction(emoji: ReactionEmoji) -> ReactionAdded {
    ReactionAdded {
        channel_id: GENERAL,
        message_id: MESSAGE,
        user_id: TAGGER,
        guild_id: Some(1),
        emoji,
    }
}

fn custom(name: &str) -> ReactionEmoji {
    ReactionEmoji::Custom { name: Some(name.to_string()) }
}

fn fetched() -> FetchedMessage {
    FetchedMessage {
        author_id: AUTHOR,
        content: "look at this".to_string(),
        attachment_urls: vec!["https://a/1.png".to_string(), "https://a/2.png".to_string()],
    }
}

fn discord(text: &str) -> BotError {
    BotError::Discord(text.to_string())
}

#[test]
fn citation_quotes_author_tagger_content_and_attachments() {
    let text = citation_text(AUTHOR, TAGGER, &"look at this".to_string(), &fetched().attachment_urls);
    assert_eq!(text, "<@9> says (tagged by <@7>)\n> look at this\nhttps://a/1.png\nhttps://a/2.png");
    let plain = citation_text(123456789012, 0, &String::new(), &vec![]);
    assert_eq!(plain, "<@123456789012> says (tagged by <@0>)\n> ");
}

#[test]
fn acknowledgment_is_a_check_mark() {
    assert_eq!(tag_bot::acknowledgment_emoji(), "\u{2705}");
}

#[test]
fn lookup_takes_the_first_matching_rule() {
    let t = table();
    let rule = t.lookup(&"archive".to_string()).unwrap();
    assert_eq!(rule.channel_target, ARCHIVE);
    assert_eq!(rule.message_counter, 2);
    assert!(t.lookup(&"nothing".to_string()).is_none());
}

#[test]
fn full_tag_then_countdown_scenario() {
    let t = TagTable {
        rules: vec![TagRule { emoji_name: "\u{2705}".to_string(), channel_target: ARCHIVE, message_counter: 2 }],
    };
    let mut reg = CountdownRegistry::new();
    let (s, a) = begin_tag(&reaction(custom("\u{2705}")), &t, ROLE);
    assert_eq!(s.stage, TagStage::CheckingRole);
    assert!(matches!(a, TagAction::CheckRole { user_id: TAGGER, guild_id: 1, role_id: ROLE }));
    let (s, a) = s.advance(TagEvent::RoleChecked(Ok(true)), &mut reg);
    assert!(matches!(a, TagAction::FetchMessage { channel_id: GENERAL, message_id: MESSAGE }));
    let (s, a) = s.advance(TagEvent::MessageFetched(Ok(fetched())), &mut reg);
    match a {
        TagAction::SendCitation { channel_id, text } => {
            assert_eq!(channel_id, ARCHIVE);
            assert_eq!(text, "<@9> says (tagged by <@7>)\n> look at this\nhttps://a/1.png\nhttps://a/2.png");
        }
        _ => panic!("expected a citation"),
    }
    assert_eq!(reg.pending(GENERAL), vec![]);
    let (s, a) = s.advance(TagEvent::CitationSent(Ok(())), &mut reg);
    assert!(matches!(a, TagAction::Acknowledge { channel_id: GENERAL, message_id: MESSAGE }));
    assert_eq!(reg.pending(GENERAL), vec![]);
    let (s, a) = s.advance(TagEvent::Acknowledged(Ok(())), &mut reg);
    assert_eq!(s.stage, TagStage::Finished);
    assert!(matches!(a, TagAction::Finish(TagOutcome::Tagged { newly_pending: true, acknowledged: Ok(()) })));
    assert_eq!(reg.pending(GENERAL), vec![PendingEntry { message_id: MESSAGE, remaining: 2 }]);

    assert_eq!(reg.tick_and_evict(GENERAL), Vec::<u64>::new());
    assert_eq!(reg.pending(GENERAL), vec![PendingEntry { message_id: MESSAGE, remaining: 1 }]);
    assert_eq!(reg.tick_and_evict(GENERAL), Vec::<u64>::new());
    assert_eq!(reg.pending(GENERAL), vec![PendingEntry { message_id: MESSAGE, remaining: 0 }]);
    assert_eq!(reg.tick_and_evict(GENERAL), vec![MESSAGE]);
    assert_eq!(reg.pending(GENERAL), vec![]);
}

#[test]
fn unknown_or_unicode_emoji_is_ignored() {
    let t = table();
    for emoji in [custom("party"), ReactionEmoji::Unicode("x".to_string()), ReactionEmoji::Custom { name: None }] {
        let mut reg = CountdownRegistry::new();
        let (s, a) = begin_tag(&reaction(emoji), &t, ROLE);
        assert_eq!(s.stage, TagStage::Finished);
        assert!(matches!(a, TagAction::Finish(TagOutcome::Ignored)));
        // later answers change nothing and post nothing
        let (s, a) = s.advance(TagEvent::MessageFetched(Ok(fetched())), &mut reg);
        assert!(matches!(a, TagAction::Finish(TagOutcome::Ignored)));
        let (_, a) = s.advance(TagEvent::Acknowledged(Ok(())), &mut reg);
        assert!(matches!(a, TagAction::Finish(TagOutcome::Ignored)));
        assert_eq!(reg.pending(GENERAL), vec![]);
    }
}

#[test]
fn user_without_role_is_denied() {
    let t = table();
    let mut reg = CountdownRegistry::new();
    let (s, _) = begin_tag(&reaction(custom("archive")), &t, ROLE);
    let (s, a) = s.advance(TagEvent::RoleChecked(Ok(false)), &mut reg);
    assert!(matches!(a, TagAction::Finish(TagOutcome::Denied)));
    assert_eq!(s.stage, TagStage::Finished);
    let (_, a) = s.advance(TagEvent::Acknowledged(Ok(())), &mut reg);
    assert!(matches!(a, TagAction::Finish(TagOutcome::Ignored)));
    assert_eq!(reg.pending(GENERAL), vec![]);
}

#[test]
fn failed_role_check_counts_as_denial() {
    let t = table();
    let mut reg = CountdownRegistry::new();
    let (s, _) = begin_tag(&reaction(custom("archive")), &t, ROLE);
    let (s, a) = s.advance(TagEvent::RoleChecked(Err(discord("timeout"))), &mut reg);
    assert!(matches!(a, TagAction::Finish(TagOutcome::Failed(BotError::Discord(_)))));
    assert_eq!(s.stage, TagStage::Finished);
    assert_eq!(reg.pending(GENERAL), vec![]);
}

#[test]
fn reaction_outside_a_server_is_denied() {
    let t = table();
    let mut r = reaction(custom("archive"));
    r.guild_id = None;
    let (s, a) = begin_tag(&r, &t, ROLE);
    assert_eq!(s.stage, TagStage::Finished);
    assert!(matches!(a, TagAction::Finish(TagOutcome::Denied)));
}

#[test]
fn failed_message_fetch_aborts() {
    let t = table();
    let mut reg = CountdownRegistry::new();
    let (s, _) = begin_tag(&reaction(custom("archive")), &t, ROLE);
    let (s, _) = s.advance(TagEvent::RoleChecked(Ok(true)), &mut reg);
    let (s, a) = s.advance(TagEvent::MessageFetched(Err(discord("gone"))), &mut reg);
    assert!(matches!(a, TagAction::Finish(TagOutcome::Failed(_))));
    assert_eq!(s.stage, TagStage::Finished);
    assert_eq!(reg.pending(GENERAL), vec![]);
}

#[test]
fn failed_citation_registers_nothing() {
    let t = table();
    let mut reg = CountdownRegistry::new();
    let (s, _) = begin_tag(&reaction(custom("archive")), &t, ROLE);
    let (s, _) = s.advance(TagEvent::RoleChecked(Ok(true)), &mut reg);
    let (s, _) = s.advance(TagEvent::MessageFetched(Ok(fetched())), &mut reg);
    let (s, a) = s.advance(TagEvent::CitationSent(Err(discord("403"))), &mut reg);
    assert!(matches!(a, TagAction::Finish(TagOutcome::Failed(_))));
    let (_, a) = s.advance(TagEvent::Acknowledged(Ok(())), &mut reg);
    assert!(matches!(a, TagAction::Finish(TagOutcome::Ignored)));
    assert_eq!(reg.pending(GENERAL), vec![]);
}

#[test]
fn failed_acknowledgment_still_registers() {
    let t = table();
    let mut reg = CountdownRegistry::new();
    let (s, _) = begin_tag(&reaction(custom("trash")), &t, ROLE);
    let (s, _) = s.advance(TagEvent::RoleChecked(Ok(true)), &mut reg);
    let (s, a) = s.advance(TagEvent::MessageFetched(Ok(fetched())), &mut reg);
    assert!(matches!(a, TagAction::SendCitation { channel_id: 301, .. }));
    let (s, _) = s.advance(TagEvent::CitationSent(Ok(())), &mut reg);
    let (_, a) = s.advance(TagEvent::Acknowledged(Err(discord("no react"))), &mut reg);
    assert!(matches!(a, TagAction::Finish(TagOutcome::Tagged { newly_pending: true, acknowledged: Err(_) })));
    assert_eq!(reg.pending(GENERAL), vec![PendingEntry { message_id: MESSAGE, remaining: 0 }]);
}

#[test]
fn second_tag_of_same_message_starts_no_second_countdown() {
    let t = table();
    let mut reg = CountdownRegistry::new();
    for round in 0..2 {
        let (s, _) = begin_tag(&reaction(custom("archive")), &t, ROLE);
        let (s, _) = s.advance(TagEvent::RoleChecked(Ok(true)), &mut reg);
        let (s, _) = s.advance(TagEvent::MessageFetched(Ok(fetched())), &mut reg);
        let (s, _) = s.advance(TagEvent::CitationSent(Ok(())), &mut reg);
        let (_, a) = s.advance(TagEvent::Acknowledged(Ok(())), &mut reg);
        match a {
            TagAction::Finish(TagOutcome::Tagged { newly_pending, .. }) => assert_eq!(newly_pending, round == 0),
            _ => panic!("expected a tag"),
        }
    }
    assert_eq!(reg.pending(GENERAL), vec![PendingEntry { message_id: MESSAGE, remaining: 2 }]);
}

#[test]
fn answer_out_of_order_ends_the_session() {
    let t = table();
    let mut reg = CountdownRegistry::new();
    let (s, _) = begin_tag(&reaction(custom("archive")), &t, ROLE);
    let (s, a) = s.advance(TagEvent::Acknowledged(Ok(())), &mut reg);
    assert!(matches!(a, TagAction::Finish(TagOutcome::Ignored)));
    assert_eq!(s.stage, TagStage::Finished);
    assert_eq!(reg.pending(GENERAL), vec![]);
}

#[test]
fn error_messages_name_their_source() {
    assert_eq!(discord("boom").message(), "Error communicating with Discord API! boom");
    assert_eq!(BotError::Toml("bad key".to_string()).message(), "Error parsing configuration file! bad key");
    let io = BotError::Io { detail: "not found".to_string(), folder: Some("/srv/bot".to_string()) };
    assert_eq!(io.message(), "Error reading file. Looking in path \"/srv/bot\". not found");
    let io = BotError::Io { detail: "denied".to_string(), folder: None };
    assert_eq!(
        io.message(),
        "Error getting info about current folder! Make sure you have the correct permissions. denied"
    );
}

#[test]
fn log_records_carry_level_and_text() {
    let rec = discord("boom").log().unwrap();
    assert_eq!(rec.level, LogLevel::Error);
    assert_eq!(rec.text, "Error communicating with Discord API! boom");
    let rec = "Starting tag-bot.".to_string().log().unwrap();
    assert_eq!(rec.level, LogLevel::Info);
    assert_eq!(rec.text, "Starting tag-bot.");
    let ok: Result<u8, BotError> = Ok(1);
    assert!(ok.log().is_none());
    let err: Result<u8, BotError> = Err(discord("x"));
    assert_eq!(err.log().unwrap().text, "Error communicating with Discord API! x");
}
