use agentim::auth::{authorize_dingtalk_signature_at, authorize_webhook_at, dingtalk_signature, ReplayCache};
use agentim::webhook::{delivery_step, DeliveryAction, DeliveryEvent, DeliveryPhase};
use agentim::backend::{acp_step, AcpAction, AcpEvent, AcpPhase, ClientError};
use agentim::listener::{supervisor_step, SupervisorAction, SupervisorEvent, SupervisorPhase, SupervisorState};
use agentim::session::{Message, MessageRole, Session};
use agentim::store::{fallback_step, FallbackAction};
use agentim::error::AgentError;

fn msg(id: &str, role: MessageRole, content: &str) -> Message {
    Message { id: id.to_string(), role, content: content.to_string(), timestamp: 0 }
}

fn transcript() -> Vec<Message> {
    vec![
        msg("1", MessageRole::User, "hello"),
        msg("2", MessageRole::Assistant, "hi"),
        msg("3", MessageRole::User, "recovered"),
    ]
}

#[test]
fn acp_saved_session_that_is_gone_falls_back_to_a_new_one_with_the_transcript() {
    let ms = transcript();
    let begin = AcpEvent::Begin { cached: None, saved: Some("acp-session-1".to_string()), can_load: true };
    let (phase, action) = acp_step(AcpPhase::Start, begin, &ms);
    assert!(matches!(action, AcpAction::Load(ref id) if id == "acp-session-1"));
    let gone = ClientError::Rpc(-32002, "session not found".to_string());
    let (phase, action) = acp_step(phase, AcpEvent::Loaded(Err(gone)), &ms);
    assert!(matches!(action, AcpAction::Create));
    let (phase, action) = acp_step(phase, AcpEvent::Created(Ok("acp-session-2".to_string())), &ms);
    match action {
        AcpAction::Prompt(remote, text) => {
            assert_eq!(remote, "acp-session-2");
            assert!(text.starts_with("AgentIM is reconnecting an existing conversation"));
            assert!(text.contains("User: recovered"));
        }
        _ => panic!("a new session is prompted"),
    }
    let (phase, action) = acp_step(phase, AcpEvent::Prompted(Ok("answer".to_string())), &ms);
    assert!(matches!(action, AcpAction::Finish(ref t) if t == "answer"));
    assert!(matches!(phase, AcpPhase::Done));
}

#[test]
fn acp_known_session_gets_the_latest_message_and_one_retry() {
    let ms = transcript();
    let begin = AcpEvent::Begin { cached: Some("r1".to_string()), saved: None, can_load: true };
    let (phase, action) = acp_step(AcpPhase::Start, begin, &ms);
    assert!(matches!(action, AcpAction::Prompt(ref r, ref t) if r == "r1" && t == "recovered"));
    let gone = || ClientError::Rpc(-32002, "gone".to_string());
    let (phase, action) = acp_step(phase, AcpEvent::Prompted(Err(gone())), &ms);
    assert!(matches!(action, AcpAction::Replace));
    let (phase, _) = acp_step(phase, AcpEvent::Created(Ok("r2".to_string())), &ms);
    let (_, action) = acp_step(phase, AcpEvent::Prompted(Err(gone())), &ms);
    assert!(matches!(action, AcpAction::Fail(ClientError::Rpc(-32002, _))));
    let (_, action) = acp_step(AcpPhase::Loading("s".to_string()), AcpEvent::Loaded(Err(ClientError::TransportClosed)), &ms);
    assert!(matches!(action, AcpAction::Fail(ClientError::TransportClosed)));
    let (_, action) = acp_step(AcpPhase::Done, AcpEvent::Loaded(Ok(())), &ms);
    assert!(matches!(action, AcpAction::OutOfOrder));
}

#[test]
fn supervisor_runs_only_under_the_lease_and_saves_after_each_cycle() {
    let st = SupervisorState { phase: SupervisorPhase::Idle, backoff_ms: 1000 };
    let (st, a) = supervisor_step(st, true, 30_000, SupervisorEvent::Started);
    assert_eq!(a, SupervisorAction::AcquireLease);
    let (st, a) = supervisor_step(st, true, 30_000, SupervisorEvent::Lease(false));
    assert_eq!(a, SupervisorAction::Sleep(5000));
    let (st, a) = supervisor_step(st, true, 30_000, SupervisorEvent::Slept);
    assert_eq!(a, SupervisorAction::AcquireLease);
    let (st, a) = supervisor_step(st, true, 30_000, SupervisorEvent::Lease(true));
    assert_eq!(a, SupervisorAction::RunOnce);
    let (st, a) = supervisor_step(st, true, 30_000, SupervisorEvent::Ran(None));
    assert_eq!(a, SupervisorAction::Sleep(1000));
    let (st, a) = supervisor_step(st, true, 30_000, SupervisorEvent::Slept);
    assert_eq!((a, st.backoff_ms), (SupervisorAction::Reinitialize, 2000));
    let (st, a) = supervisor_step(st, true, 30_000, SupervisorEvent::Reinitialized);
    assert_eq!(a, SupervisorAction::AcquireLease);
    let (st, _) = supervisor_step(st, true, 30_000, SupervisorEvent::Lease(true));
    let (st, a) = supervisor_step(st, true, 30_000, SupervisorEvent::Ran(Some(true)));
    assert_eq!(a, SupervisorAction::PersistCheckpoint);
    let (st, a) = supervisor_step(st, true, 30_000, SupervisorEvent::Persisted);
    assert_eq!((a, st.backoff_ms), (SupervisorAction::RenewLease, 1000));
    let (_, a) = supervisor_step(st, true, 30_000, SupervisorEvent::Renewed);
    assert_eq!(a, SupervisorAction::AcquireLease);
    let idle = SupervisorState { phase: SupervisorPhase::Idle, backoff_ms: 1000 };
    let (st, a) = supervisor_step(idle, false, 30_000, SupervisorEvent::Started);
    assert_eq!(a, SupervisorAction::RunOnce);
    let (st, _) = supervisor_step(st, false, 30_000, SupervisorEvent::Ran(Some(false)));
    let (_, a) = supervisor_step(st, false, 30_000, SupervisorEvent::Persisted);
    assert_eq!(a, SupervisorAction::RunOnce);
    let (_, a) = supervisor_step(idle, false, 30_000, SupervisorEvent::Persisted);
    assert_eq!(a, SupervisorAction::OutOfOrder);
}

#[test]
fn snapshot_fallback_takes_the_first_that_loads() {
    assert!(matches!(fallback_step(0, 3, Ok(4)), FallbackAction::Restored(4)));
    assert!(matches!(fallback_step(0, 3, Err(AgentError::IoError("bad".to_string()))), FallbackAction::TryNext(1)));
    assert!(matches!(fallback_step(2, 3, Err(AgentError::IoError("bad".to_string()))), FallbackAction::GiveUp(AgentError::IoError(_))));
}

#[test]
fn trimming_twice_keeps_what_trimming_once_kept() {
    let mut s = Session::from_parts("s".to_string(), "a".to_string(), "c".to_string(), "u".to_string(), 0);
    for i in 0..6 {
        let role = if i % 2 == 0 { MessageRole::User } else { MessageRole::Assistant };
        s.add_message_at(role, format!("m{}", i), format!("id{}", i), i, i);
    }
    s.trim_history_at(3, 10);
    let once: Vec<String> = s.messages.iter().map(|m| m.id.clone()).collect();
    let meta = s.metadata.pairs();
    s.trim_history_at(3, 11);
    let twice: Vec<String> = s.messages.iter().map(|m| m.id.clone()).collect();
    assert_eq!(once, twice);
    assert_eq!(meta, s.metadata.pairs());
}

#[test]
fn trimming_twice_with_repeated_ids_keeps_what_trimming_once_kept() {
    let mut s = Session::from_parts("s".to_string(), "a".to_string(), "c".to_string(), "u".to_string(), 0);
    s.add_message_at(MessageRole::System, "rules".to_string(), "x".to_string(), 1, 1);
    s.add_message_at(MessageRole::User, "first".to_string(), "x".to_string(), 2, 2);
    s.add_message_at(MessageRole::User, "second".to_string(), "y".to_string(), 3, 3);
    s.add_message_at(MessageRole::User, "third".to_string(), "z".to_string(), 4, 4);
    s.trim_history_at(2, 10);
    let once: Vec<String> = s.messages.iter().map(|m| m.content.clone()).collect();
    assert_eq!(once, vec!["rules", "first", "third"]);
    let meta = s.metadata.pairs();
    s.trim_history_at(2, 11);
    let twice: Vec<String> = s.messages.iter().map(|m| m.content.clone()).collect();
    assert_eq!(once, twice);
    assert_eq!(meta, s.metadata.pairs());
}

#[test]
fn dingtalk_sign_is_accepted_within_the_hour() {
    let ts: i64 = 1_700_000_000_000;
    let sign = dingtalk_signature("sec", ts);
    let tss = ts.to_string();
    assert!(authorize_dingtalk_signature_at(Some("sec"), Some(tss.as_str()), None, None, Some(sign.as_str()), None, None, ts + 3_600_000).is_ok());
    assert!(authorize_dingtalk_signature_at(Some("sec"), Some(tss.as_str()), None, None, Some(sign.as_str()), None, None, ts + 3_600_001).is_err());
}

#[test]
fn delivery_stops_at_the_first_failure_and_saves_only_after_success() {
    let start = || DeliveryPhase::Handling { next: 0, count: 0 };
    let (p, a) = delivery_step(start(), DeliveryEvent::Start(2), true, None);
    assert!(matches!(a, DeliveryAction::Handle(0)));
    let (p, a) = delivery_step(p, DeliveryEvent::Handled(Ok(())), true, None);
    assert!(matches!(a, DeliveryAction::Handle(1)));
    let (p, a) = delivery_step(p, DeliveryEvent::Handled(Ok(())), true, None);
    assert!(matches!(a, DeliveryAction::Save));
    let (_, a) = delivery_step(p, DeliveryEvent::Saved(Ok(())), true, None);
    assert!(matches!(a, DeliveryAction::Answer(ref r) if r.status == 200 && r.body == "ok"));

    let (p, _) = delivery_step(start(), DeliveryEvent::Start(2), true, None);
    let (_, a) = delivery_step(p, DeliveryEvent::Handled(Err(AgentError::TimeoutError("slow".to_string()))), true, None);
    assert!(matches!(a, DeliveryAction::Answer(ref r) if r.status == 504 && r.body == "Timeout: slow"));

    let (p, a) = delivery_step(start(), DeliveryEvent::Start(0), true, Some("c".to_string()));
    assert!(matches!(a, DeliveryAction::Save));
    let (_, a) = delivery_step(p, DeliveryEvent::Saved(Err("disk full".to_string())), true, Some("c".to_string()));
    assert!(matches!(a, DeliveryAction::Answer(ref r) if r.status == 500 && r.body == "disk full"));

    let (_, a) = delivery_step(start(), DeliveryEvent::Start(0), false, Some("c".to_string()));
    assert!(matches!(a, DeliveryAction::Answer(ref r) if r.status == 200 && r.body == "c"));
    let (_, a) = delivery_step(DeliveryPhase::Saving, DeliveryEvent::Start(1), true, None);
    assert!(matches!(a, DeliveryAction::OutOfOrder));
}

#[test]
fn webhook_checks_shared_secret_before_signature_and_refuses_later_replays() {
    let body = b"{}";
    let ts = "1000";
    let payload = format!("{}\n{}\n", ts, "n1");
    let mut bytes = payload.into_bytes();
    bytes.extend_from_slice(body);
    let mut mac = <hmac::Hmac<sha2::Sha256> as hmac::Mac>::new_from_slice(b"k").unwrap();
    hmac::Mac::update(&mut mac, &bytes);
    let sig = hex::encode(hmac::Mac::finalize(mac).into_bytes());
    let mut cache = ReplayCache::new();
    let wrong = authorize_webhook_at(Some("s"), Some("x"), Some("k"), Some(ts), Some("n1"), Some(sig.as_str()), body, 1000, 300, &mut cache);
    assert_eq!(wrong.unwrap_err(), "missing or invalid x-agentim-secret");
    assert_eq!(cache.len(), 0);
    assert!(authorize_webhook_at(Some("s"), Some("s"), Some("k"), Some(ts), Some("n1"), Some(sig.as_str()), body, 1000, 300, &mut cache).is_ok());
    assert_eq!(
        authorize_webhook_at(Some("s"), Some("s"), Some("k"), Some(ts), Some("n1"), Some(sig.as_str()), body, 1250, 300, &mut cache).unwrap_err(),
        "replayed webhook request"
    );
    assert_eq!(
        authorize_webhook_at(Some("s"), Some("s"), Some("k"), Some(ts), Some("n1"), Some(sig.as_str()), body, 1301, 300, &mut cache).unwrap_err(),
        "signed webhook timestamp out of range"
    );
}

#[test]
fn second_find_or_create_returns_the_same_session() {
    let mut agentim = agentim::registry::AgentIM::new();
    agentim.register_agent("a".to_string()).unwrap();
    agentim.register_channel("c".to_string()).unwrap();
    let first = agentim.find_or_create_session_with("a", "c", "u", "id-1".to_string(), 1).unwrap();
    let second = agentim.find_or_create_session_with("a", "c", "u", "id-2".to_string(), 2).unwrap();
    assert_eq!((first.as_str(), second.as_str()), ("id-1", "id-1"));
    assert_eq!(agentim.session_count(), 1);
}
