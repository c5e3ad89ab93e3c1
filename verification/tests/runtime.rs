use agentim::agents::{cli_reply, CliAgent};
use agentim::backend::{
    build_bootstrap_prompt, into_agent_error, is_session_not_found, is_thread_not_found, latest_user_message,
    minimal_codex_config, parse_thread, parse_turn_id, plan_remote_session, rpc_error_message, AcpBackendConfig,
    Backend, ClientError, CodexBackendConfig, RemoteSessionPlan, finish_prompt,
};
use agentim::cliargs::{choose_credentials, wechatwork_credentials, Credentials, merge_vec, parse_compound_credentials, parse_env_overrides, parse_key_value_assignment, rule_agent_id, check_agent_type};
use agentim::config::{AgentType, ChannelType};
use agentim::error::AgentError;
use agentim::lease::{decide_acquire, decide_release, decide_renew, FileLeaseStore, LeaseRecord};
use agentim::listener::{checkpoint_after, cursor_offset, default_checkpoint_path, next_backoff, CycleOutcome, ListenerCheckpoint, ListenerRuntimeConfig};
use agentim::persistence::{AgentConfig, PersistenceConfig, SessionConfig};
use agentim::protocol::{
    append_session_update, gateway_error, gateway_step, request_step, turn_step, ContentPiece, EnvelopeSummary, GatewayAction,
    GatewayFrame, GatewayState, RequestStep, TurnEvent, TurnStep,
};
use agentim::session::{Message, MessageRole};
use agentim::store::{backup_path, rotation_plan, snapshot_candidates, FileSessionStore};
use agentim::strmap::StringMap;
use agentim::webhook::{challenge_reply, handled_reply, readiness, unauthorized};

fn msg(role: MessageRole, content: &str) -> Message {
    Message { id: content.to_string(), role, content: content.to_string(), timestamp: 0 }
}

#[test]
fn lease_store_allows_single_owner_and_failover() {
    let first = decide_acquire(None, "a", 1_000, 60);
    assert!(first.granted);
    let record = first.write.unwrap();
    assert_eq!(record.expires_at, 60_000_001_000);
    assert!(!decide_acquire(Some(&record), "b", 2_000, 60).granted);
    assert!(decide_acquire(Some(&record), "a", 2_000, 60).granted);
    assert!(!decide_acquire(Some(&record), "b", 60_000_000_999, 60).granted);
    let later = decide_acquire(Some(&record), "b", 60_000_001_000, 60);
    assert!(later.granted);
    assert_eq!(later.write.unwrap().owner, "b");
    assert!(!decide_renew(None, "a", 0, 60).granted);
    assert!(!decide_renew(Some(&record), "b", 2_000, 60).granted);
    assert!(decide_renew(Some(&record), "a", 2_000, 60).granted);
    assert!(decide_release(Some(&record), "a"));
    assert!(!decide_release(Some(&LeaseRecord { owner: "a".to_string(), expires_at: 0 }), "b"));
    assert!(!decide_release(None, "a"));
}

#[test]
fn lease_files_live_beside_the_state_file() {
    let s = FileLeaseStore::from_state_file("/var/lib/agentim/state.json");
    assert_eq!(s.base_dir(), "/var/lib/agentim/.agentim-leases");
    assert_eq!(s.lease_path("telegram"), "/var/lib/agentim/.agentim-leases/telegram.lease.json");
    assert_eq!(FileLeaseStore::from_state_file("state.json").base_dir(), ".agentim-leases");
    assert_eq!(FileLeaseStore::new("d".to_string()).base_dir(), "d");
}

#[test]
fn backups_rotate_oldest_first() {
    assert_eq!(backup_path("/tmp/s.json", 2), "/tmp/s.json.bak.2");
    let plan = rotation_plan("/tmp/s.json", 3);
    let pairs: Vec<(&str, &str)> = plan.iter().map(|(a, b)| (a.as_str(), b.as_str())).collect();
    assert_eq!(pairs, vec![
        ("/tmp/s.json.bak.2", "/tmp/s.json.bak.3"),
        ("/tmp/s.json.bak.1", "/tmp/s.json.bak.2"),
        ("/tmp/s.json", "/tmp/s.json.bak.1"),
    ]);
    assert_eq!(snapshot_candidates("/tmp/s.json", 2), vec!["/tmp/s.json", "/tmp/s.json.bak.1", "/tmp/s.json.bak.2"]);
    let store = FileSessionStore::new("x.json".to_string(), 1);
    assert_eq!(store.path(), "x.json");
    assert_eq!(store.backup_count(), 1);
    assert_eq!(store.rotation().len(), 1);
}

#[test]
fn listener_checkpoints_and_backoff() {
    assert_eq!(default_checkpoint_path(Some("state.json"), "telegram-polling"), Some("state.json.telegram-polling.checkpoint.json".to_string()));
    assert_eq!(default_checkpoint_path(None, "x"), None);
    assert_eq!(next_backoff(1000, CycleOutcome::Failed, 30_000), 2000);
    assert_eq!(next_backoff(16_000, CycleOutcome::Failed, 30_000), 30_000);
    assert_eq!(next_backoff(1000, CycleOutcome::Failed, 10), 1000);
    assert_eq!(next_backoff(8000, CycleOutcome::Completed(true), 30_000), 1000);
    assert_eq!(next_backoff(8000, CycleOutcome::Completed(false), 30_000), 8000);
    assert_eq!(next_backoff(u64::MAX, CycleOutcome::Failed, u64::MAX), u64::MAX);
    let c = ListenerCheckpoint { cursor: Some("41".to_string()) };
    assert_eq!(cursor_offset(&c), Some(Some(41)));
    assert_eq!(cursor_offset(&ListenerCheckpoint { cursor: Some("x".to_string()) }), None);
    assert_eq!(cursor_offset(&ListenerCheckpoint::default()), Some(None));
    let (cp, moved) = checkpoint_after(Some(41), Some(45));
    assert_eq!(cp.cursor.as_deref(), Some("45"));
    assert!(moved);
    assert!(!checkpoint_after(Some(41), Some(41)).1);
    let rt = ListenerRuntimeConfig::default();
    assert_eq!(rt.max_backoff_ms, 30_000);
    assert_eq!(rt.lease_ttl_seconds, 60);
    assert!(rt.lease_owner.starts_with("agentim-"));
}

#[test]
fn command_line_values() {
    assert_eq!(parse_compound_credentials("id:se:cret", "--feishu").unwrap(), ("id".to_string(), "se:cret".to_string()));
    assert_eq!(parse_compound_credentials("nocolon", "--feishu").unwrap_err(), "--feishu must be provided as <id>:<secret>");
    assert_eq!(parse_key_value_assignment("A=b=c", "--acp-env").unwrap(), ("A".to_string(), "b=c".to_string()));
    assert_eq!(parse_key_value_assignment(" =x", "--acp-env").unwrap_err(), "--acp-env requires a non-empty KEY");
    assert_eq!(parse_key_value_assignment("x", "--acp-env").unwrap_err(), "--acp-env must be provided as KEY=VALUE");
    let env = parse_env_overrides(&vec!["A=1".to_string(), "B=2".to_string(), "A=3".to_string()], "--acp-env").unwrap();
    assert_eq!(env.get("A"), Some("3".to_string()));
    assert_eq!(env.len(), 2);
    assert!(parse_env_overrides(&vec!["A=1".to_string(), "bad".to_string()], "--e").is_err());
    assert_eq!(merge_vec(vec![], vec!["c".to_string()]), vec!["c".to_string()]);
    assert_eq!(merge_vec(vec!["a".to_string()], vec!["c".to_string()]), vec!["a".to_string()]);
    assert_eq!(rule_agent_id("acp"), "rule-agent-acp");
    assert_eq!(check_agent_type("acp").unwrap(), AgentType::Acp);
    assert_eq!(check_agent_type("gpt").unwrap_err(), "Unknown agent type 'gpt'. Only 'acp' is supported.");
}

#[test]
fn names_and_configuration_records() {
    assert_eq!(AgentType::Acp.name(), "acp");
    assert_eq!(ChannelType::WeChatWork.name(), "wechatwork");
    assert_eq!(ChannelType::QQ.name(), "qq");
    let mut p = PersistenceConfig::new();
    p.add_agent(AgentConfig { id: "a".to_string(), agent_type: "acp".to_string(), model: None });
    p.add_session(SessionConfig { agent_id: "a".to_string(), channel_id: "c".to_string(), user_id: "u".to_string() });
    assert_eq!(p.agents.len(), 1);
    assert_eq!(p.sessions.len(), 1);
    assert!(p.channels.is_empty());
    assert_eq!(CliAgent::new("cli".to_string()).id(), "cli");
    assert_eq!(cli_reply("  hello \n"), "hello");
    assert_eq!(cli_reply(" SKIP "), "[CLI Agent: Message skipped]");
}

#[test]
fn backend_descriptions_and_prompts() {
    let acp = AcpBackendConfig { command: "acp".to_string(), args: vec![], cwd: ".".to_string(), env: StringMap::new() };
    assert_eq!(acp.describe(), "acp");
    let codex = CodexBackendConfig { command: "codex".to_string(), args: vec!["app-server".to_string(), "--x".to_string()], cwd: ".".to_string(), env: StringMap::new() };
    assert_eq!(codex.describe(), "codex app-server --x");
    let ms = vec![msg(MessageRole::User, "u1"), msg(MessageRole::Assistant, " a1 "), msg(MessageRole::System, "s")];
    assert_eq!(latest_user_message(&ms), "u1");
    assert_eq!(latest_user_message(&ms[1..]), "s");
    assert_eq!(latest_user_message(&[]), "");
    assert_eq!(
        build_bootstrap_prompt(&ms),
        "AgentIM is reconnecting an existing conversation. Continue naturally from the transcript below.\n\nUser: u1\n\nAssistant: a1\n\nSystem: s\n\nPlease answer the latest user message."
    );
    assert_eq!(build_bootstrap_prompt(&ms[..1]), "u1");
    assert!(minimal_codex_config("/tmp/project").contains("[projects.\"/tmp/project\"]\ntrust_level = \"trusted\""));
}

#[test]
fn backend_errors() {
    assert!(is_session_not_found(-32002, "x"));
    assert!(is_session_not_found(1, "Unknown SESSION id"));
    assert!(!is_session_not_found(1, "boom"));
    assert!(is_thread_not_found("No rollout found for thread"));
    assert!(is_thread_not_found("bad Thread ID"));
    assert!(!is_thread_not_found("other"));
    assert_eq!(rpc_error_message("m", Some("{\"a\":1}")), "m ({\"a\":1})");
    assert_eq!(rpc_error_message("m", None), "m");
    assert!(matches!(into_agent_error(Backend::Acp, ClientError::TransportClosed), AgentError::ApiError(m) if m == "ACP transport closed unexpectedly"));
    assert!(matches!(into_agent_error(Backend::Codex, ClientError::Rpc(-32601, "nope".to_string())), AgentError::ApiError(m) if m == "Codex RPC error -32601: nope"));
    assert!(matches!(into_agent_error(Backend::Codex, ClientError::Io("e".to_string())), AgentError::IoError(m) if m == "e"));
    assert!(ClientError::TransportClosed.is_transport());
    assert!(!ClientError::Protocol("p".to_string()).is_transport());
    assert!(matches!(plan_remote_session(Some("c".to_string()), Some("s".to_string()), true), RemoteSessionPlan::Cached(c) if c == "c"));
    assert!(matches!(plan_remote_session(None, Some("s".to_string()), true), RemoteSessionPlan::Load(s) if s == "s"));
    assert!(matches!(plan_remote_session(None, Some("s".to_string()), false), RemoteSessionPlan::Create));
    assert!(matches!(finish_prompt(Backend::Acp, "  ".to_string()), Err(ClientError::Protocol(m)) if m == "ACP prompt completed without any text response"));
    assert_eq!(parse_turn_id(None).unwrap_err(), "Codex turn/start response missing turn id");
    assert_eq!(parse_thread(false, None, None).err().unwrap(), "Codex response missing thread");
    assert_eq!(parse_thread(true, Some("t".to_string()), None).unwrap().id, "t");
}

fn envelope(id: Option<i64>, method: Option<&str>, error: bool, result: bool) -> EnvelopeSummary {
    EnvelopeSummary { has_id: id.is_some(), id_number: id, method: method.map(str::to_string), has_error: error, has_result: result }
}

#[test]
fn request_steps() {
    assert_eq!(request_step(&envelope(Some(3), Some("fs/read"), false, false), 3, true), RequestStep::RejectRequest);
    assert_eq!(request_step(&envelope(Some(2), None, false, true), 3, true), RequestStep::Ignore);
    assert_eq!(request_step(&envelope(Some(3), None, true, false), 3, true), RequestStep::Fail);
    assert_eq!(request_step(&envelope(Some(3), None, false, false), 3, true), RequestStep::MissingResult);
    assert_eq!(request_step(&envelope(Some(3), None, false, true), 3, true), RequestStep::Finish);
    assert_eq!(request_step(&envelope(None, Some("session/update"), false, false), 3, true), RequestStep::StreamUpdate);
    assert_eq!(request_step(&envelope(None, Some("session/update"), false, false), 3, false), RequestStep::Ignore);
    let mut buf = String::from("a");
    append_session_update(&mut buf, "s1", "s1", ContentPiece::Text("b".to_string()));
    append_session_update(&mut buf, "s2", "s1", ContentPiece::Text("x".to_string()));
    append_session_update(&mut buf, "s1", "s1", ContentPiece::Image);
    assert_eq!(buf, "ab[image]");
}

fn event(method: &str) -> TurnEvent {
    TurnEvent {
        has_id: false,
        method: Some(method.to_string()),
        thread_id: Some("th".to_string()),
        turn_id: Some("tu".to_string()),
        delta: None,
        item_type: None,
        item_text: None,
        turn_present: false,
        turn_object_id: None,
        turn_error: None,
        will_retry: None,
        error_message: None,
    }
}

#[test]
fn turn_steps_gather_the_reply() {
    let mut text = String::new();
    let mut e = event("item/agentMessage/delta");
    e.delta = Some("Hel".to_string());
    assert!(matches!(turn_step(&mut text, &e, "th", "tu"), TurnStep::Continue));
    e.delta = Some("lo".to_string());
    turn_step(&mut text, &e, "th", "tu");
    assert_eq!(text, "Hello");
    e.thread_id = Some("other".to_string());
    turn_step(&mut text, &e, "th", "tu");
    assert_eq!(text, "Hello");
    let mut done = event("item/completed");
    done.item_type = Some("agentMessage".to_string());
    done.item_text = Some("Hello world".to_string());
    turn_step(&mut text, &done, "th", "tu");
    assert_eq!(text, "Hello world");
    done.item_text = Some("Hi".to_string());
    turn_step(&mut text, &done, "th", "tu");
    assert_eq!(text, "Hello world");
    let mut fin = event("turn/completed");
    fin.turn_present = true;
    fin.turn_object_id = Some("tu".to_string());
    assert!(matches!(turn_step(&mut text, &fin, "th", "tu"), TurnStep::Completed));
    fin.turn_error = Some("{\"message\":\"x\"}".to_string());
    assert!(matches!(turn_step(&mut text, &fin, "th", "tu"), TurnStep::Failed(m) if m == "Codex turn failed: {\"message\":\"x\"}"));
    let mut empty = String::new();
    fin.turn_error = None;
    assert!(matches!(turn_step(&mut empty, &fin, "th", "tu"), TurnStep::Failed(m) if m == "Codex turn completed without any text response"));
    let mut err = event("error");
    err.will_retry = Some(true);
    assert!(matches!(turn_step(&mut empty, &err, "th", "tu"), TurnStep::Continue));
    err.will_retry = None;
    assert!(matches!(turn_step(&mut empty, &err, "th", "tu"), TurnStep::Failed(m) if m == "unknown Codex transport error"));
    let mut req = event("x");
    req.has_id = true;
    assert!(matches!(turn_step(&mut empty, &req, "th", "tu"), TurnStep::RejectRequest));
}

#[test]
fn gateway_steps() {
    let st = GatewayState { identified: false, last_sequence: None };
    let msg = GatewayFrame::Text { op: 0, s: Some(3), t: Some("MESSAGE_CREATE".to_string()) };
    assert_eq!(gateway_step(st, &msg).1, GatewayAction::Nothing);
    assert_eq!(gateway_step(st, &GatewayFrame::Tick).1, GatewayAction::Nothing);
    let (st, a) = gateway_step(st, &GatewayFrame::Text { op: 10, s: None, t: None });
    assert_eq!(a, GatewayAction::Identify);
    let (st, a) = gateway_step(st, &msg);
    assert_eq!(a, GatewayAction::HandleMessage);
    assert_eq!(st.last_sequence, Some(3));
    let (st, _) = gateway_step(st, &GatewayFrame::Binary { op: 0, s: Some(8) });
    assert_eq!(gateway_step(st, &GatewayFrame::Tick).1, GatewayAction::Heartbeat(Some(8)));
    assert_eq!(gateway_step(st, &GatewayFrame::Text { op: 1, s: None, t: None }).1, GatewayAction::Heartbeat(Some(8)));
    let (_, a) = gateway_step(st, &GatewayFrame::Text { op: 7, s: None, t: None });
    assert_eq!(gateway_error(a), Some("Discord gateway requested reconnect".to_string()));
    let (_, a) = gateway_step(st, &GatewayFrame::Text { op: 9, s: None, t: None });
    assert_eq!(gateway_error(a), Some("Discord gateway invalid session".to_string()));
    assert_eq!(gateway_step(st, &GatewayFrame::Ping).1, GatewayAction::Pong);
    assert_eq!(gateway_step(st, &GatewayFrame::Close).1, GatewayAction::Stop);
}

#[test]
fn webhook_answers() {
    assert!(unauthorized(Ok(())).is_none());
    let r = unauthorized(Err("no".to_string())).unwrap();
    assert_eq!((r.status, r.body.as_str()), (401, "no"));
    let r = handled_reply(Ok(None), Ok(()));
    assert_eq!((r.status, r.body.as_str()), (200, "ok"));
    let r = handled_reply(Ok(Some("ch".to_string())), Ok(()));
    assert_eq!((r.status, r.body.as_str()), (200, "ch"));
    let r = handled_reply(Ok(None), Err("disk".to_string()));
    assert_eq!((r.status, r.body.as_str()), (500, "disk"));
    let r = handled_reply(Err(AgentError::TimeoutError("slow".to_string())), Ok(()));
    assert_eq!((r.status, r.body.as_str()), (504, "Timeout: slow"));
    assert_eq!(readiness(true, 1, 1), (200, "ready".to_string()));
    assert_eq!(readiness(true, 0, 1), (503, "not_ready".to_string()));
    assert_eq!(readiness(false, 1, 1), (401, "unauthorized".to_string()));
    assert_eq!(agentim::webhook::feishu_challenge(b"{\"type\":\"url_verification\",\"challenge\":\"c1\"}"), Some("c1".to_string()));
    assert_eq!(agentim::webhook::feishu_challenge(b"{\"type\":\"event\",\"challenge\":\"c1\"}"), None);
}

#[test]
fn file_names_of_backups_and_leases() {
    assert_eq!(agentim::store::backup_file_name(Some("s.json".to_string()), 3), "s.json.bak.3");
    assert_eq!(agentim::store::backup_file_name(None, 1), "sessions.bak.1");
    assert_eq!(agentim::lease::lease_file_name("discord-gateway"), "discord-gateway.lease.json");
}

#[test]
fn challenge_and_terminal_replies_from_their_inputs() {
    let s = |x: &str| Some(Some(x.to_string()));
    assert_eq!(challenge_reply(s("url_verification"), s("c2")), Some("c2".to_string()));
    assert_eq!(challenge_reply(s("url_verification"), Some(None)), None);
    assert_eq!(challenge_reply(s("event_callback"), s("c2")), None);
    assert_eq!(challenge_reply(None, None), None);
    assert_eq!(agentim::agents::reply_for("Skip".to_string(), "skip"), "[CLI Agent: Message skipped]");
    assert_eq!(agentim::agents::reply_for("hello".to_string(), "hello"), "hello");
    assert_eq!(cli_reply("  SKIP \n"), "[CLI Agent: Message skipped]");
}

#[test]
fn isolated_codex_home_keeps_only_model_and_policy_keys() {
    use_keys(&["model_provider", "model", "approval_policy", "sandbox_mode", "model_providers", "sandbox_workspace_write"], true);
    use_keys(&["notify", "developer_instructions", "mcp_servers", "features", "projects", "Model"], false);
}

#[test]
fn sanitized_codex_config_removes_omx_runtime_sections() {
    let source = r#"
notify = ["node", "notify.js"]
developer_instructions = "omx"
model_provider = "crs"
model = "gpt-5.4"
approval_policy = "never"
sandbox_mode = "danger-full-access"

[features]
codex_hooks = true

[model_providers.crs]
name = "crs"
base_url = "https://example.com/v1"
wire_api = "responses"
requires_openai_auth = true
env_key = "CRS_OAI_KEY"

[mcp_servers.omx_state]
command = "node"
"#;

    let sanitized = agentim::backend::sanitize_codex_config(source, "/tmp/project").unwrap();
    assert!(sanitized.contains("model_provider = \"crs\""));
    assert!(sanitized.contains("base_url = \"https://example.com/v1\""));
    assert!(sanitized.contains("/tmp/project"));
    assert!(sanitized.contains("trust_level = \"trusted\""));
    assert!(!sanitized.contains("notify ="));
    assert!(!sanitized.contains("developer_instructions"));
    assert!(!sanitized.contains("mcp_servers"));
    assert!(!sanitized.contains("codex_hooks"));
}

#[test]
fn codex_config_refusals_and_key_order() {
    match agentim::backend::sanitize_codex_config("model = ", "/tmp/p") {
        Err(ClientError::Protocol(m)) => assert!(m.starts_with("invalid CODEX config: "), "{}", m),
        other => panic!("unexpected {:?}", other.is_ok()),
    }
    match agentim::backend::codex_config_outcome(Err("bad".to_string())) {
        Err(ClientError::Protocol(m)) => assert_eq!(m, "invalid CODEX config: bad"),
        _ => panic!("a parse error is refused"),
    }
    match agentim::backend::codex_config_outcome(Ok(None)) {
        Err(ClientError::Protocol(m)) => assert_eq!(m, "CODEX config must be a TOML table"),
        _ => panic!("a non-table is refused"),
    }
    let top: Vec<String> = ["notify", "model_providers", "sandbox_mode", "model", "projects", "model_provider"]
        .iter().map(|k| k.to_string()).collect();
    let kept = agentim::backend::codex_selected_keys(&top);
    assert_eq!(kept, vec!["model_provider", "model", "sandbox_mode", "model_providers"]);
    match agentim::backend::codex_config_outcome(Ok(Some(top))) {
        Ok(keys) => assert_eq!(keys, kept),
        _ => panic!("a table is accepted"),
    }
    let empty = agentim::backend::sanitize_codex_config("", "/w").unwrap();
    assert!(empty.contains("/w") && empty.contains("trust_level = \"trusted\""));
    assert!(!empty.contains("model"));
}

#[test]
fn saving_with_rotation_shifts_every_backup_by_one() {
    let path = "/tmp/state.json";
    let mut files: std::collections::HashMap<String, String> = std::collections::HashMap::new();
    files.insert(path.to_string(), "C0".to_string());
    files.insert(backup_path(path, 1), "C1".to_string());
    files.insert(backup_path(path, 3), "C3".to_string());
    for (from, to) in rotation_plan(path, 3) {
        if let Some(content) = files.remove(&from) {
            files.insert(to, content);
        }
    }
    files.insert(path.to_string(), "new".to_string());
    assert_eq!(files[path], "new");
    assert_eq!(files[&backup_path(path, 1)], "C0");
    assert_eq!(files[&backup_path(path, 2)], "C1");
    assert_eq!(files[&backup_path(path, 3)], "C3");
    assert_eq!(files.len(), 4);
}

fn use_keys(keys: &[&str], kept: bool) {
    for key in keys {
        assert_eq!(agentim::backend::keeps_codex_key(key), kept, "{}", key);
    }
}

#[test]
fn platform_credentials_from_halves_or_compound() {
    let s = |x: &str| Some(x.to_string());
    match choose_credentials(s("id"), s("secret"), s("other:pair"), "--qq-token").unwrap() {
        Credentials::Given(a, b) => assert_eq!((a.as_str(), b.as_str()), ("id", "secret")),
        _ => panic!("both halves should win"),
    }
    match choose_credentials(None, None, s("app:sec:ret"), "--feishu-token").unwrap() {
        Credentials::Given(a, b) => assert_eq!((a.as_str(), b.as_str()), ("app", "sec:ret")),
        _ => panic!("the compound value should be split at the first colon"),
    }
    assert!(matches!(choose_credentials(None, None, None, "--qq-token").unwrap(), Credentials::Absent));
    assert!(matches!(choose_credentials(s("id"), None, s("a:b"), "--qq-token").unwrap(), Credentials::Incomplete));
    assert!(matches!(choose_credentials(None, s("secret"), None, "--qq-token").unwrap(), Credentials::Incomplete));
    assert_eq!(
        choose_credentials(None, None, s("nocolon"), "--feishu-token").err().unwrap(),
        "--feishu-token must be provided as <id>:<secret>"
    );
}

#[test]
fn gateway_checkpoints_hold_the_last_sequence() {
    let cp = |c: Option<&str>| ListenerCheckpoint { cursor: c.map(|s| s.to_string()) };
    assert_eq!(agentim::listener::cursor_sequence(&cp(Some("42"))), Some(42));
    assert_eq!(agentim::listener::cursor_sequence(&cp(Some("+7"))), Some(7));
    assert_eq!(agentim::listener::cursor_sequence(&cp(Some("-1"))), None);
    assert_eq!(agentim::listener::cursor_sequence(&cp(Some("18446744073709551616"))), None);
    assert_eq!(agentim::listener::cursor_sequence(&cp(None)), None);
    let (next, moved) = agentim::listener::checkpoint_after_sequence(&cp(Some("41")), Some(42));
    assert_eq!((next.cursor.as_deref(), moved), (Some("42"), true));
    let (next, moved) = agentim::listener::checkpoint_after_sequence(&cp(Some("42")), Some(42));
    assert_eq!((next.cursor.as_deref(), moved), (Some("42"), false));
    let (next, moved) = agentim::listener::checkpoint_after_sequence(&cp(Some("42")), None);
    assert_eq!((next.cursor, moved), (None, true));
    let (_, moved) = agentim::listener::checkpoint_after_sequence(&cp(None), None);
    assert!(!moved);
}

#[test]
fn lease_ttls_and_agent_timeouts() {
    assert!(agentim::lease::lease_ttl_fits(1_000, 60));
    assert!(!agentim::lease::lease_ttl_fits(0, u64::MAX));
    assert!(!agentim::lease::lease_ttl_fits(i128::MAX - 59_999_999_999, 60));
    assert!(agentim::lease::lease_ttl_fits(i128::MAX - 60_000_000_000, 60));
    assert!(!agentim::lease::lease_ttl_fits(0, 9_223_372_036_854_776));
    let e = agentim::error::agent_timeout(1500);
    assert_eq!(e.message(), "Timeout: agent request exceeded 1500ms");
    assert_eq!(agentim::error::webhook_error_status(&e), 504);
}

#[test]
fn wechatwork_needs_all_three_credentials() {
    let s = |x: &str| Some(x.to_string());
    assert_eq!(
        wechatwork_credentials(s("corp"), s("1000"), s("sec")).unwrap(),
        Some(("corp".to_string(), "1000".to_string(), "sec".to_string()))
    );
    assert_eq!(wechatwork_credentials(None, None, None).unwrap(), None);
    assert_eq!(
        wechatwork_credentials(s("corp"), None, s("sec")).unwrap_err(),
        "WeChat Work requires --wechatwork-corp-id, --wechatwork-agent-id, and --wechatwork-secret"
    );
}
