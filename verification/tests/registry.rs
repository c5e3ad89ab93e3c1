use agentim::error::{webhook_error_status, AgentError};
use agentim::registry::{AgentIM, MessageHandlingOptions};
use agentim::session::{MessageRole, Session};

fn registry() -> AgentIM {
    let mut agentim = AgentIM::new();
    agentim.register_agent("default-agent".to_string()).unwrap();
    agentim.register_channel("discord-bot".to_string()).unwrap();
    agentim
}

#[test]
fn test_agentim_creation() {
    let agentim = AgentIM::new();
    assert_eq!(agentim.list_agents().len(), 0);
    assert_eq!(agentim.list_channels().len(), 0);
}

#[test]
fn test_register_agent() {
    let mut agentim = AgentIM::new();
    agentim.register_agent("agent1".to_string()).unwrap();
    assert_eq!(agentim.list_agents().len(), 1);
}

#[test]
fn test_create_session() {
    let mut agentim = AgentIM::new();
    agentim.register_agent("agent1".to_string()).unwrap();
    agentim.register_channel("ch1".to_string()).unwrap();

    let session_id = agentim
        .create_session("agent1".to_string(), "ch1".to_string(), "user1".to_string())
        .unwrap();

    let session = agentim.get_session(&session_id).unwrap();
    assert_eq!(session.agent_id, "agent1");
    assert_eq!(session.channel_id, "ch1");
}

#[test]
fn registering_twice_keeps_one_entry() {
    let mut agentim = AgentIM::new();
    agentim.register_agent("a".to_string()).unwrap();
    agentim.register_agent("a".to_string()).unwrap();
    agentim.register_agent("b".to_string()).unwrap();
    assert_eq!(agentim.list_agents(), vec!["a".to_string(), "b".to_string()]);
}

#[test]
fn unknown_ids_are_reported_by_kind() {
    let mut agentim = registry();
    assert!(matches!(agentim.get_agent("nope"), Err(AgentError::AgentNotFound(s)) if s == "nope"));
    assert!(matches!(agentim.get_channel("nope"), Err(AgentError::ChannelNotFound(s)) if s == "nope"));
    assert!(matches!(agentim.get_session("nope"), Err(AgentError::SessionNotFound(s)) if s == "nope"));
    assert!(matches!(agentim.delete_session("nope"), Err(AgentError::SessionNotFound(_))));
    let r = agentim.create_session("x".to_string(), "discord-bot".to_string(), "u".to_string());
    assert!(matches!(r, Err(AgentError::AgentNotFound(s)) if s == "x"));
    let r = agentim.create_session("default-agent".to_string(), "y".to_string(), "u".to_string());
    assert!(matches!(r, Err(AgentError::ChannelNotFound(s)) if s == "y"));
    assert_eq!(agentim.session_count(), 0);
}

#[test]
fn incoming_message_autocreates_session_and_uses_reply_target() {
    let mut agentim = registry();
    let turn = agentim
        .prepare_incoming("default-agent", "discord-bot", "user-1", Some("channel-42"), "ping".to_string(), 10,
            "s-1".to_string(), "m-1".to_string(), 100)
        .unwrap();
    assert_eq!(turn.session_id, "s-1");
    assert_eq!(turn.context.len(), 1);
    assert_eq!(turn.context[0].content, "ping");
    let response = format!("echo:{}", turn.context.last().unwrap().content);
    let reply = agentim.complete_incoming(turn, response, "m-2".to_string(), 101, None).unwrap();
    assert_eq!(reply.content, "echo:ping");
    assert_eq!(reply.channel_id, "discord-bot");
    assert_eq!(reply.target, "channel-42");

    let sessions = agentim.list_sessions();
    assert_eq!(sessions.len(), 1);
    assert_eq!(sessions[0].user_id, "user-1");
    assert_eq!(sessions[0].metadata.get("reply_target"), Some("channel-42".to_string()));
    assert_eq!(sessions[0].messages.len(), 2);
    assert_eq!(sessions[0].messages[0].role, MessageRole::User);
    assert_eq!(sessions[0].messages[1].role, MessageRole::Assistant);
    assert_eq!(sessions[0].messages[1].timestamp, 101);
}

#[test]
fn second_message_reuses_the_session_and_trims() {
    let mut agentim = registry();
    for i in 0..3 {
        let turn = agentim
            .prepare_incoming("default-agent", "discord-bot", "user-1", None, format!("q{i}"), 10,
                format!("s-{i}"), format!("u-{i}"), i)
            .unwrap();
        assert_eq!(turn.session_id, "s-0");
        agentim.complete_incoming(turn, format!("a{i}"), format!("a-{i}"), i, Some(2)).unwrap();
    }
    let s = agentim.get_session("s-0").unwrap();
    assert_eq!(s.messages.len(), 2);
    assert_eq!(s.messages[0].content, "q2");
    assert!(s.metadata.get("history_summary").unwrap().contains("[turn] q1 => a1"));
    let (channel, target) = agentim.reply_route("s-0").unwrap();
    assert_eq!(channel, "discord-bot");
    assert_eq!(target, "user-1");
}

#[test]
fn failed_turn_leaves_the_store_unchanged() {
    let mut agentim = registry();
    let turn = agentim
        .prepare_incoming("default-agent", "discord-bot", "u", None, "hello".to_string(), 10, "s".to_string(), "m".to_string(), 1)
        .unwrap();
    drop(turn);
    let s = agentim.get_session("s").unwrap();
    assert!(s.messages.is_empty());
    let turn = agentim.begin_turn("s", "again".to_string(), 10, "m2".to_string(), 2).unwrap();
    assert_eq!(turn.session.messages.len(), 1);
    assert!(agentim.get_session("s").unwrap().messages.is_empty());
}

#[test]
fn turn_needs_a_registered_agent() {
    let mut agentim = registry();
    let s = Session::from_parts("s".to_string(), "ghost".to_string(), "discord-bot".to_string(), "u".to_string(), 0);
    agentim.update_session("s", s).unwrap();
    let r = agentim.begin_turn("s", "hi".to_string(), 10, "m".to_string(), 1);
    assert!(matches!(r, Err(AgentError::AgentNotFound(x)) if x == "ghost"));
    let r = agentim.begin_turn("missing", "hi".to_string(), 10, "m".to_string(), 1);
    assert!(matches!(r, Err(AgentError::SessionNotFound(_))));
}

#[test]
fn reply_route_needs_a_registered_channel() {
    let mut agentim = registry();
    let s = Session::from_parts("s".to_string(), "default-agent".to_string(), "gone".to_string(), "u".to_string(), 0);
    agentim.update_session("s", s).unwrap();
    assert!(matches!(agentim.reply_route("s"), Err(AgentError::ChannelNotFound(x)) if x == "gone"));
}

#[test]
fn load_sessions_checks_every_session_before_storing() {
    let mut agentim = registry();
    let good = Session::from_parts("a".to_string(), "default-agent".to_string(), "discord-bot".to_string(), "u".to_string(), 0);
    let bad = Session::from_parts("b".to_string(), "default-agent".to_string(), "nowhere".to_string(), "u".to_string(), 0);
    let r = agentim.load_sessions(vec![good, bad]);
    assert!(matches!(r, Err(AgentError::ChannelNotFound(x)) if x == "nowhere"));
    assert_eq!(agentim.session_count(), 0);
    let good = Session::from_parts("a".to_string(), "default-agent".to_string(), "discord-bot".to_string(), "u".to_string(), 0);
    let again = Session::from_parts("a".to_string(), "default-agent".to_string(), "discord-bot".to_string(), "v".to_string(), 0);
    assert_eq!(agentim.load_sessions(vec![good, again]).unwrap(), 2);
    assert_eq!(agentim.session_count(), 1);
    assert_eq!(agentim.get_session("a").unwrap().user_id, "v");
}

#[test]
fn cleanup_removes_only_idle_sessions() {
    let mut agentim = registry();
    let old = Session::from_parts("old".to_string(), "default-agent".to_string(), "discord-bot".to_string(), "u".to_string(), 0);
    let new = Session::from_parts("new".to_string(), "default-agent".to_string(), "discord-bot".to_string(), "v".to_string(), 900_000_000_000);
    agentim.update_session("old", old).unwrap();
    agentim.update_session("new", new).unwrap();
    assert_eq!(agentim.cleanup_stale_sessions_at(300, 1_000_000_000_000), 1);
    assert!(agentim.get_session("old").is_err());
    assert!(agentim.get_session("new").is_ok());
    assert_eq!(agentim.cleanup_stale_sessions_at(300, 1_000_000_000_000), 0);
}

#[test]
fn cleanup_without_idle_time_removes_sessions_older_than_now() {
    let mut agentim = registry();
    for (id, t) in [("a", 5), ("b", 6)] {
        let s = Session::from_parts(id.to_string(), "default-agent".to_string(), "discord-bot".to_string(), id.to_string(), t);
        agentim.update_session(id, s).unwrap();
    }
    assert_eq!(agentim.cleanup_stale_sessions_at(0, 6), 1);
    assert_eq!(agentim.cleanup_stale_sessions_at(0, 7), 1);
    assert_eq!(agentim.session_count(), 0);
}

#[test]
fn cleanup_before_the_earliest_time_removes_nothing() {
    let mut agentim = registry();
    let s = Session::from_parts("a".to_string(), "default-agent".to_string(), "discord-bot".to_string(), "u".to_string(), i128::MIN);
    agentim.update_session("a", s).unwrap();
    assert_eq!(agentim.cleanup_stale_sessions_at(300, i128::MIN + 5), 0);
    assert_eq!(agentim.cleanup_stale_sessions_at(0, i128::MIN + 1), 1);
}

#[test]
fn ttl_cleanup_by_the_clock_evicts_old_sessions() {
    let mut agentim = registry();
    let s = Session::from_parts("s".to_string(), "default-agent".to_string(), "discord-bot".to_string(), "u".to_string(), 0);
    agentim.update_session("s", s).unwrap();
    assert_eq!(agentim.cleanup_stale_sessions(300), 1);
    assert_eq!(agentim.list_sessions().len(), 0);
}

#[test]
fn delete_and_trim_by_id() {
    let mut agentim = registry();
    let id = agentim.find_or_create_session("default-agent", "discord-bot", "u").unwrap();
    let same = agentim.find_or_create_session("default-agent", "discord-bot", "u").unwrap();
    assert_eq!(id, same);
    agentim.set_reply_target(&id, "t").unwrap();
    assert_eq!(agentim.reply_route(&id).unwrap().1, "t");
    agentim.trim_session_history(&id, 0).unwrap();
    agentim.delete_session(&id).unwrap();
    assert_eq!(agentim.session_count(), 0);
    assert!(matches!(agentim.trim_session_history(&id, 1), Err(AgentError::SessionNotFound(_))));
}

#[test]
fn default_message_handling_options() {
    let o = MessageHandlingOptions::default();
    assert_eq!(o.max_messages, None);
    assert_eq!(o.context_message_limit, 10);
    assert_eq!(o.agent_timeout_ms, None);
}

#[test]
fn error_status_and_text() {
    assert_eq!(webhook_error_status(&AgentError::TimeoutError("t".into())), 504);
    assert_eq!(webhook_error_status(&AgentError::ApiError("a".into())), 502);
    assert_eq!(webhook_error_status(&AgentError::HttpError("a".into())), 502);
    assert_eq!(webhook_error_status(&AgentError::ChannelError("a".into())), 502);
    assert_eq!(webhook_error_status(&AgentError::ConfigError("a".into())), 400);
    assert_eq!(AgentError::AgentNotFound("x".into()).message(), "Agent not found: x");
    assert_eq!(AgentError::Unknown("y".into()).message(), "Unknown error: y");
}
