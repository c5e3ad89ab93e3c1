use agentim::session::{Message, MessageRole, Session};
use agentim::strmap::StringMap;
use agentim::summary::fold_into_summary;

fn session() -> Session {
    Session::new("agent1".to_string(), "channel1".to_string(), "user1".to_string())
}

#[test]
fn test_session_creation() {
    let session = Session::new("agent1".to_string(), "channel1".to_string(), "user1".to_string());
    assert_eq!(session.agent_id, "agent1");
    assert_eq!(session.messages.len(), 0);
}

#[test]
fn test_add_message() {
    let mut session = session();
    session.add_message(MessageRole::User, "Hello".to_string());
    assert_eq!(session.messages.len(), 1);
}

#[test]
fn test_trim_history_preserves_system_messages_when_possible() {
    let mut session = session();
    session.add_message(MessageRole::System, "system".to_string());
    session.add_message(MessageRole::User, "u1".to_string());
    session.add_message(MessageRole::Assistant, "a1".to_string());
    session.add_message(MessageRole::User, "u2".to_string());
    session.add_message(MessageRole::Assistant, "a2".to_string());

    session.trim_history(3);

    assert_eq!(session.messages.len(), 3);
    assert_eq!(session.messages[0].role, MessageRole::System);
    assert_eq!(session.messages[1].content, "u2");
    assert_eq!(session.messages[2].content, "a2");
}

#[test]
fn test_trim_history_creates_summary_for_removed_messages() {
    let mut session = session();
    session.add_message(MessageRole::User, "u1".to_string());
    session.add_message(MessageRole::Assistant, "a1".to_string());
    session.add_message(MessageRole::User, "u2".to_string());
    session.add_message(MessageRole::Assistant, "a2".to_string());

    session.trim_history(2);
    let context = session.get_context(3);

    assert_eq!(context[0].role, MessageRole::System);
    assert!(context[0].content.starts_with("Earlier context summary:"));
    assert!(context[0].content.contains("[turn] u1 => a1"));
    assert_eq!(context[1].content, "u2");
    assert_eq!(context[2].content, "a2");
}

#[test]
fn test_trim_history_truncates_summary_on_fragment_boundaries() {
    let mut session = session();

    for index in 0..10 {
        let content = format!("turn-{index}-abcdefghijklmnopqrstuvwxyz0123456789");
        session.add_message(MessageRole::User, content.clone());
        session.add_message(MessageRole::Assistant, format!("reply-{content}"));
    }

    session.trim_history(2);
    let summary = session.metadata.get("history_summary").unwrap();
    let fragments = summary.split(" | ").collect::<Vec<_>>();

    assert!(summary.starts_with("[summary] "));
    assert!(fragments.len() > 1);
    assert!(fragments[0].contains("older fragment(s) omitted"));
    assert!(fragments[1..].iter().all(|fragment| fragment.starts_with("[turn] ")
        || fragment.starts_with("[user] ")
        || fragment.starts_with("[assistant] ")));
    assert!(!summary.starts_with("..."));
}

fn msg(id: &str, role: MessageRole, content: &str) -> Message {
    Message { id: id.to_string(), role, content: content.to_string(), timestamp: 0 }
}

#[test]
fn trim_to_zero_folds_everything_into_the_summary() {
    let mut s = session();
    s.messages = vec![msg("1", MessageRole::User, "hi\nthere"), msg("2", MessageRole::Assistant, "yo")];
    s.trim_history_at(0, 42);
    assert!(s.messages.is_empty());
    assert_eq!(s.updated_at, 42);
    assert_eq!(s.metadata.get("history_summary").unwrap(), "[turn] hi there => yo");
}

#[test]
fn trim_keeps_newest_system_messages_when_they_exceed_the_limit() {
    let mut s = session();
    s.messages = vec![
        msg("1", MessageRole::System, "s1"),
        msg("2", MessageRole::User, "u1"),
        msg("3", MessageRole::System, "s2"),
        msg("4", MessageRole::System, "s3"),
    ];
    s.trim_history_at(2, 7);
    let kept: Vec<&str> = s.messages.iter().map(|m| m.content.as_str()).collect();
    assert_eq!(kept, vec!["s2", "s3"]);
    assert_eq!(s.metadata.get("history_summary").unwrap(), "[user] u1");
}

#[test]
fn trim_within_limit_changes_only_the_clock() {
    let mut s = session();
    s.messages = vec![msg("1", MessageRole::User, "a")];
    s.trim_history_at(5, 99);
    assert_eq!(s.messages.len(), 1);
    assert_eq!(s.updated_at, 99);
    assert!(s.metadata.get("history_summary").is_none());
}

#[test]
fn context_without_summary_is_the_tail() {
    let mut s = session();
    s.messages = vec![msg("1", MessageRole::User, "a"), msg("2", MessageRole::Assistant, "b"), msg("3", MessageRole::User, "c")];
    let ctx = s.get_context(2);
    assert_eq!(ctx.len(), 2);
    assert_eq!(ctx[0].content, "b");
    assert_eq!(ctx[1].content, "c");
    assert!(s.get_context(0).is_empty());
}

#[test]
fn context_with_summary_spends_one_slot_on_it() {
    let mut s = session();
    s.messages = vec![msg("1", MessageRole::User, "a"), msg("2", MessageRole::Assistant, "b")];
    s.updated_at = 5;
    s.metadata.insert("history_summary".to_string(), "old".to_string());
    let ctx = s.get_context(2);
    assert_eq!(ctx.len(), 2);
    assert_eq!(ctx[0].id, "history-summary");
    assert_eq!(ctx[0].content, "Earlier context summary: old");
    assert_eq!(ctx[0].timestamp, 5);
    assert_eq!(ctx[1].content, "b");
}

#[test]
fn summary_folds_existing_marker_and_new_fragments() {
    let removed = vec![msg("1", MessageRole::User, "q"), msg("2", MessageRole::System, "sys"), msg("3", MessageRole::Assistant, "r")];
    let s = fold_into_summary(Some("[summary] 2 older fragment(s) omitted | [user] x"), &removed).unwrap();
    assert_eq!(s, "[summary] 2 older fragment(s) omitted | [user] x | [turn] q => r");
    assert!(fold_into_summary(None, &vec![msg("9", MessageRole::System, "only")]).is_none());
}

#[test]
fn summary_never_exceeds_six_hundred_characters() {
    let long = "x".repeat(250);
    let removed: Vec<Message> = (0..6).map(|i| msg(&i.to_string(), MessageRole::User, &long)).collect();
    let s = fold_into_summary(None, &removed).unwrap();
    assert!(s.chars().count() <= 600);
    assert!(s.starts_with("[summary] 4 older fragment(s) omitted | "));
}

#[test]
fn role_names_and_clear_history() {
    assert_eq!(MessageRole::User.name(), "user");
    assert_eq!(MessageRole::Assistant.name(), "assistant");
    assert_eq!(MessageRole::System.name(), "system");
    let mut s = session();
    s.add_message(MessageRole::User, "a".to_string());
    s.clear_history_at(3);
    assert!(s.messages.is_empty());
    assert_eq!(s.updated_at, 3);
    let mut m = StringMap::new();
    assert_eq!(m.insert("k".to_string(), "v".to_string()), None);
    assert_eq!(m.insert("k".to_string(), "w".to_string()), Some("v".to_string()));
    assert_eq!(m.len(), 1);
    assert_eq!(m.remove("k"), Some("w".to_string()));
    assert!(!m.contains_key("k"));
}
