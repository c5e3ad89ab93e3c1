use agentim::auth::{
    authorize_discord_interaction_signature, authorize_dingtalk_signature_at, check_feishu_token, authorize_feishu_verification_token,
    authorize_line_signature, authorize_metrics, authorize_shared, authorize_signed_webhook_at, authorize_slack_signature_at,
    dingtalk_signature, line_signature, verify_line_signature, verify_signature_with_secret, ReplayCache,
};
use agentim::error::AgentError;
use agentim::routing::{BotServerConfig, RoutingRule};
use base64::Engine;
use ed25519_dalek::Signer;
use hmac::Mac;

fn rule(channel: Option<&str>, user_prefix: Option<&str>, priority: i32, agent: &str) -> RoutingRule {
    RoutingRule {
        channel: channel.map(str::to_string),
        user_id: None,
        user_prefix: user_prefix.map(str::to_string),
        reply_target: None,
        reply_target_prefix: None,
        priority,
        agent_id: agent.to_string(),
    }
}

fn hmac_hex(key: &[u8], msg: &[u8]) -> String {
    let mut mac = hmac::Hmac::<sha2::Sha256>::new_from_slice(key).unwrap();
    mac.update(msg);
    hex::encode(mac.finalize().into_bytes())
}

fn hmac_b64(key: &[u8], msg: &[u8]) -> String {
    let mut mac = hmac::Hmac::<sha2::Sha256>::new_from_slice(key).unwrap();
    mac.update(msg);
    base64::engine::general_purpose::STANDARD.encode(mac.finalize().into_bytes())
}

#[test]
fn default_config_routes_everything_to_the_fallback() {
    let c = BotServerConfig::default();
    assert_eq!(c.telegram_agent_id, "default-agent");
    assert_eq!(c.webhook_max_skew_seconds, 300);
    assert_eq!(c.context_message_limit, 10);
    assert_eq!(c.resolve_agent("discord", "u", "t", "fallback"), "fallback");
}

#[test]
fn highest_priority_then_specificity_then_last_rule_wins() {
    let mut c = BotServerConfig::default();
    c.routing_rules = vec![
        rule(Some("discord"), None, 1, "channel-rule"),
        rule(Some("discord"), Some("vip-"), 1, "vip-rule"),
        rule(None, None, 0, "catch-all"),
    ];
    assert_eq!(c.resolve_agent("discord", "vip-7", "t", "fb"), "vip-rule");
    assert_eq!(c.resolve_agent("discord", "pleb", "t", "fb"), "channel-rule");
    assert_eq!(c.resolve_agent("slack", "vip-7", "t", "fb"), "catch-all");
    c.routing_rules.push(rule(Some("discord"), Some("vip-"), 1, "later-vip"));
    assert_eq!(c.resolve_agent("discord", "vip-7", "t", "fb"), "later-vip");
    c.routing_rules.push(rule(None, None, 5, "urgent"));
    assert_eq!(c.resolve_agent("discord", "vip-7", "t", "fb"), "urgent");
}

#[test]
fn rule_conditions_and_specificity() {
    let r = RoutingRule {
        channel: Some("line".to_string()),
        user_id: Some("u1".to_string()),
        user_prefix: Some("u".to_string()),
        reply_target: None,
        reply_target_prefix: Some("grp-".to_string()),
        priority: 0,
        agent_id: "a".to_string(),
    };
    assert_eq!(r.specificity(), 4);
    assert!(r.matches("line", "u1", "grp-9"));
    assert!(!r.matches("line", "u1", "room-9"));
    assert!(!r.matches("line", "u2", "grp-9"));
    assert!(!r.matches("slack", "u1", "grp-9"));
}

#[test]
fn shared_secret_must_match_when_configured() {
    assert!(authorize_shared(None, None).is_ok());
    assert!(authorize_shared(Some("s"), Some("s")).is_ok());
    assert_eq!(authorize_shared(Some("s"), None).unwrap_err(), "missing or invalid x-agentim-secret");
    assert!(authorize_shared(Some("s"), Some("t")).is_err());
    assert!(!authorize_metrics(None, Some("inspect"), None));
    assert!(authorize_metrics(None, Some("inspect"), Some("inspect")));
    assert!(authorize_metrics(Some("m"), Some("inspect"), Some("m")));
    assert!(!authorize_metrics(Some("m"), Some("inspect"), Some("inspect")));
    assert!(authorize_metrics(None, None, None));
}

#[test]
fn signed_webhook_accepts_once_and_rejects_replays() {
    let body = b"{\"hello\":1}";
    let sig = hmac_hex(b"k", b"1000\nn1\n{\"hello\":1}");
    let mut cache = ReplayCache::new();
    let prefixed = format!("sha256={sig}");
    assert!(authorize_signed_webhook_at(Some("k"), Some("1000"), Some("n1"), Some(prefixed.as_str()), body, 1100, 300, &mut cache).is_ok());
    assert_eq!(cache.len(), 1);
    assert!(cache.contains("1000:n1"));
    assert_eq!(
        authorize_signed_webhook_at(Some("k"), Some("1000"), Some("n1"), Some(sig.as_str()), body, 1100, 300, &mut cache).unwrap_err(),
        "replayed webhook request"
    );
    assert_eq!(
        authorize_signed_webhook_at(Some("k"), Some("1000"), Some("n2"), Some(sig.as_str()), body, 1100, 300, &mut cache).unwrap_err(),
        "invalid x-agentim-signature"
    );
}

#[test]
fn signed_webhook_errors_in_order() {
    let mut cache = ReplayCache::new();
    let b = b"x";
    let e = |r: Result<(), String>| r.unwrap_err();
    assert!(authorize_signed_webhook_at(None, None, None, None, b, 0, 300, &mut cache).is_ok());
    assert_eq!(e(authorize_signed_webhook_at(Some("k"), None, Some("n"), Some("s"), b, 0, 300, &mut cache)), "missing x-agentim-timestamp");
    assert_eq!(e(authorize_signed_webhook_at(Some("k"), Some("1"), None, Some("s"), b, 0, 300, &mut cache)), "missing x-agentim-nonce");
    assert_eq!(e(authorize_signed_webhook_at(Some("k"), Some("1"), Some("n"), None, b, 0, 300, &mut cache)), "missing x-agentim-signature");
    assert_eq!(e(authorize_signed_webhook_at(Some("k"), Some("one"), Some("n"), Some("s"), b, 0, 300, &mut cache)), "invalid x-agentim-timestamp");
    assert_eq!(e(authorize_signed_webhook_at(Some("k"), Some("1"), Some("n"), Some("s"), b, 1000, 300, &mut cache)), "signed webhook timestamp out of range");
    assert_eq!(e(authorize_signed_webhook_at(Some("k"), Some("1"), Some("n"), Some("zz"), b, 0, 300, &mut cache)), "invalid x-agentim-signature encoding");
}

#[test]
fn stale_records_leave_the_replay_cache() {
    let mut cache = ReplayCache::new();
    cache.insert("a".to_string(), 10);
    cache.insert("b".to_string(), 500);
    cache.insert("a".to_string(), 20);
    assert_eq!(cache.len(), 2);
    cache.prune(100);
    assert!(!cache.contains("a"));
    assert!(cache.contains("b"));
}

#[test]
fn slack_signatures() {
    let body = b"token=x&text=hi";
    let sig = format!("v0={}", hmac_hex(b"sec", b"v0:1000:token=x&text=hi"));
    assert_eq!(verify_signature_with_secret("sec", body, "1000", &sig).unwrap(), true);
    assert_eq!(verify_signature_with_secret("other", body, "1000", &sig).unwrap(), false);
    assert!(matches!(verify_signature_with_secret("sec", body, "1000", "abc"), Err(AgentError::ChannelError(m)) if m == "Slack signature must start with v0="));
    assert!(matches!(verify_signature_with_secret("sec", body, "1000", "v0=abc"), Err(AgentError::ChannelError(m)) if m.starts_with("Invalid Slack signature encoding: ")));
    assert!(authorize_slack_signature_at(Some("sec"), Some("1000"), Some(sig.as_str()), body, 1010, 300).is_ok());
    assert_eq!(authorize_slack_signature_at(Some("sec"), Some("1000"), Some(sig.as_str()), body, 5000, 300).unwrap_err(), "stale Slack request timestamp");
    assert_eq!(authorize_slack_signature_at(Some("sec"), None, Some(sig.as_str()), body, 0, 300).unwrap_err(), "missing x-slack-request-timestamp");
    assert_eq!(authorize_slack_signature_at(Some("sec"), Some("1000"), None, body, 1000, 300).unwrap_err(), "missing x-slack-signature");
    assert_eq!(authorize_slack_signature_at(Some("sec"), Some("1000"), Some("v0=00"), body, 1000, 300).unwrap_err(), "invalid Slack signature");
    assert!(authorize_slack_signature_at(None, None, None, body, 0, 300).is_ok());
}

#[test]
fn dingtalk_signatures() {
    let sign = hmac_b64(b"sec", b"1700000000000\nsec");
    assert_eq!(dingtalk_signature("sec", 1_700_000_000_000), sign);
    assert!(authorize_dingtalk_signature_at(Some("sec"), Some("1700000000000"), None, None, None, Some(sign.as_str()), None, 1_700_000_100_000).is_ok());
    assert_eq!(
        authorize_dingtalk_signature_at(Some("sec"), None, None, Some("1700000000000"), Some(sign.as_str()), None, None, 1_700_009_000_000).unwrap_err(),
        "stale DingTalk timestamp"
    );
    assert_eq!(authorize_dingtalk_signature_at(Some("sec"), None, None, None, None, None, None, 0).unwrap_err(), "missing DingTalk timestamp");
    assert_eq!(
        authorize_dingtalk_signature_at(Some("sec"), Some("1700000000000"), None, None, None, None, None, 1_700_000_000_000).unwrap_err(),
        "missing DingTalk sign"
    );
    assert_eq!(
        authorize_dingtalk_signature_at(Some("sec"), Some("1700000000000"), None, None, Some("!!"), None, None, 1_700_000_000_000).unwrap_err(),
        "invalid DingTalk sign"
    );
}

#[test]
fn line_signatures() {
    let body = b"{\"events\":[]}";
    let sig = hmac_b64(b"chan", body);
    assert_eq!(line_signature("chan", body), sig);
    assert!(verify_line_signature(Some("chan"), body, &sig));
    assert!(verify_line_signature(None, body, "whatever"));
    assert!(!verify_line_signature(Some("chan"), body, "nope"));
    assert!(authorize_line_signature(Some("chan"), Some(sig.as_str()), body).is_ok());
    assert_eq!(authorize_line_signature(Some("chan"), None, body).unwrap_err(), "missing x-line-signature");
    assert_eq!(authorize_line_signature(Some("chan"), Some("x"), body).unwrap_err(), "invalid x-line-signature");
}

#[test]
fn discord_interaction_signatures() {
    let key = ed25519_dalek::SigningKey::from_bytes(&[7u8; 32]);
    let public = hex::encode(key.verifying_key().to_bytes());
    let body = b"{\"type\":1}";
    let mut msg = b"1234".to_vec();
    msg.extend_from_slice(body);
    let sig = hex::encode(key.sign(&msg).to_bytes());
    assert!(authorize_discord_interaction_signature(Some(public.as_str()), Some("1234"), Some(sig.as_str()), body).is_ok());
    assert_eq!(authorize_discord_interaction_signature(Some(public.as_str()), Some("1235"), Some(sig.as_str()), body).unwrap_err(), "invalid x-signature-ed25519");
    assert_eq!(authorize_discord_interaction_signature(Some("zz"), Some("1"), Some(sig.as_str()), body).unwrap_err(), "invalid discord interaction public key encoding");
    assert_eq!(authorize_discord_interaction_signature(Some("abcd"), Some("1"), Some(sig.as_str()), body).unwrap_err(), "invalid discord interaction public key length");
    assert_eq!(authorize_discord_interaction_signature(Some(public.as_str()), Some("1"), Some("abcd"), body).unwrap_err(), "invalid x-signature-ed25519 length");
    assert_eq!(authorize_discord_interaction_signature(Some(public.as_str()), None, Some(sig.as_str()), body).unwrap_err(), "missing x-signature-timestamp");
    assert_eq!(authorize_discord_interaction_signature(Some(public.as_str()), Some("1"), None, body).unwrap_err(), "missing x-signature-ed25519");
    assert!(authorize_discord_interaction_signature(None, None, None, body).is_ok());
}

#[test]
fn feishu_verification_tokens() {
    assert!(authorize_feishu_verification_token(Some("tok"), b"{\"token\":\"tok\"}").is_ok());
    assert_eq!(authorize_feishu_verification_token(Some("tok"), b"{\"token\":\"bad\"}").unwrap_err(), "missing or invalid Feishu verification token");
    assert_eq!(authorize_feishu_verification_token(Some("tok"), b"{\"token\":5}").unwrap_err(), "missing or invalid Feishu verification token");
    assert_eq!(authorize_feishu_verification_token(Some("tok"), b"not json").unwrap_err(), "invalid feishu webhook payload");
    assert!(authorize_feishu_verification_token(None, b"not json").is_ok());
}

#[test]
fn feishu_tokens_from_the_field_lookup() {
    assert!(check_feishu_token("tok", Some(Some("tok".to_string()))).is_ok());
    assert_eq!(check_feishu_token("tok", Some(Some("other".to_string()))).unwrap_err(), "missing or invalid Feishu verification token");
    assert_eq!(check_feishu_token("tok", Some(None)).unwrap_err(), "missing or invalid Feishu verification token");
    assert_eq!(check_feishu_token("tok", None).unwrap_err(), "invalid feishu webhook payload");
}
