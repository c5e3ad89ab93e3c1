use vstd::prelude::*;
use crate::error::{AgentError, status_for, error_label, detail_of};
use crate::routing::{BotServerConfig, RoutingRule};
use crate::crypto::{field_view, json_top_string};

verus! {

/// An answer of the webhook server: status code and body.
pub struct Reply {
    pub status: u16,
    pub body: String,
}

/// A refused authentication is answered 401 with the reason.
pub fn unauthorized(check: Result<(), String>) -> (r: Option<Reply>)
    ensures
        check is Ok ==> r is None,
        check is Err ==> (r matches Some(x) && x.status == 401 && x.body == check->Err_0),
{
    match check {
        Ok(()) => None,
        Err(m) => Some(Reply { status: 401, body: m }),
    }
}

/// A body that does not parse is answered 400 with the parser's message.
pub fn bad_request(message: String) -> (r: Reply)
    ensures
        r.status == 400,
        r.body == message,
{
    Reply { status: 400, body: message }
}

/// The answer once a message was handled: `ok` (or the challenge to echo)
/// when it went through and the sessions were saved, 500 with the reason when
/// saving failed, and for a failed handling the status of its error with its
/// text.
pub fn handled_reply(handled: Result<Option<String>, AgentError>, persisted: Result<(), String>) -> (r: Reply)
    ensures
        handled is Ok && persisted is Ok ==> r.status == 200 && r.body@ == match handled { Ok(Some(x)) => x@, _ => "ok"@ },
        handled is Ok ==> (persisted matches Err(m) ==> r.status == 500 && r.body == m),
        handled is Err ==> r.status == status_for(handled->Err_0) && r.body@ == error_label(handled->Err_0) + detail_of(handled->Err_0)@,
{
    match handled {
        Ok(challenge) => match persisted {
            Ok(()) => match challenge {
                Some(c) => Reply { status: 200, body: c },
                None => Reply { status: 200, body: String::from_str("ok") },
            },
            Err(m) => Reply { status: 500, body: m },
        },
        Err(e) => {
            let status = crate::error::webhook_error_status(&e);
            Reply { status, body: e.message() }
        },
    }
}

/// What the health endpoint reports.
pub struct HealthResponse {
    pub status: String,
    pub agents: usize,
    pub channels: usize,
    pub sessions: usize,
}

/// The health report: the counts when authorized, else 401 with zeros.
pub fn health_response(authorized: bool, agents: usize, channels: usize, sessions: usize) -> (r: (u16, HealthResponse))
    ensures
        authorized ==> r.0 == 200 && r.1.status@ == "ok"@ && r.1.agents == agents && r.1.channels == channels && r.1.sessions == sessions,
        !authorized ==> r.0 == 401 && r.1.status@ == "unauthorized"@ && r.1.agents == 0 && r.1.channels == 0 && r.1.sessions == 0,
{
    if authorized {
        (200, HealthResponse { status: String::from_str("ok"), agents, channels, sessions })
    } else {
        (401, HealthResponse { status: String::from_str("unauthorized"), agents: 0, channels: 0, sessions: 0 })
    }
}

/// The readiness report: 401 when unauthorized, 200 `ready` when at least
/// one agent and one channel are registered, 503 `not_ready` otherwise.
pub fn readiness(authorized: bool, agents: usize, channels: usize) -> (r: (u16, String))
    ensures
        !authorized ==> r.0 == 401 && r.1@ == "unauthorized"@,
        authorized && agents > 0 && channels > 0 ==> r.0 == 200 && r.1@ == "ready"@,
        authorized && !(agents > 0 && channels > 0) ==> r.0 == 503 && r.1@ == "not_ready"@,
{
    if !authorized {
        (401, String::from_str("unauthorized"))
    } else if agents > 0 && channels > 0 {
        (200, String::from_str("ready"))
    } else {
        (503, String::from_str("not_ready"))
    }
}

/// The agent of each platform.
pub struct PlatformAgents {
    pub telegram: String,
    pub discord: String,
    pub feishu: String,
    pub qq: String,
    pub slack: String,
    pub dingtalk: String,
    pub line: String,
    pub wechatwork: String,
}

/// What the review endpoint reports: the registry and the configuration,
/// with secrets only as whether they are set.
pub struct ReviewResponse {
    pub agents: Vec<String>,
    pub channels: Vec<String>,
    pub sessions: usize,
    pub platform_agents: PlatformAgents,
    pub routing_rules: Vec<RoutingRule>,
    pub max_session_messages: Option<usize>,
    pub context_message_limit: usize,
    pub agent_timeout_ms: Option<u64>,
    pub state_backup_count: usize,
    pub persistence_enabled: bool,
    pub webhook_secret_enabled: bool,
    pub webhook_signing_enabled: bool,
    pub webhook_max_skew_seconds: i64,
    pub discord_interaction_public_key_enabled: bool,
    pub feishu_verification_token_enabled: bool,
    pub slack_signing_secret_enabled: bool,
    pub dingtalk_secret_enabled: bool,
}

fn copy_rules(rules: &Vec<RoutingRule>) -> (r: Vec<RoutingRule>)
    ensures
        r@.len() == rules@.len(),
        forall|i: int| 0 <= i < rules@.len() ==> #[trigger] r@[i] == rules@[i],
{
    let mut r: Vec<RoutingRule> = Vec::new();
    let mut i: usize = 0;
    while i < rules.len()
        invariant
            0 <= i <= rules@.len(),
            r@.len() == i,
            forall|j: int| 0 <= j < i ==> #[trigger] r@[j] == rules@[j],
        decreases rules@.len() - i,
    {
        let x = &rules[i];
        r.push(RoutingRule {
            channel: copy_opt(&x.channel),
            user_id: copy_opt(&x.user_id),
            user_prefix: copy_opt(&x.user_prefix),
            reply_target: copy_opt(&x.reply_target),
            reply_target_prefix: copy_opt(&x.reply_target_prefix),
            priority: x.priority,
            agent_id: x.agent_id.clone(),
        });
        i = i + 1;
    }
    r
}

fn copy_opt(o: &Option<String>) -> (r: Option<String>)
    ensures
        r == *o,
{
    match o {
        Some(s) => Some(s.clone()),
        None => None,
    }
}

/// The review report of an authorized request: the registry's agents,
/// channels and session count, and the configuration.
pub fn review_response(config: &BotServerConfig, agents: Vec<String>, channels: Vec<String>, sessions: usize) -> (r: ReviewResponse)
    ensures
        r.agents == agents,
        r.channels == channels,
        r.sessions == sessions,
        r.platform_agents.telegram == config.telegram_agent_id,
        r.platform_agents.discord == config.discord_agent_id,
        r.platform_agents.feishu == config.feishu_agent_id,
        r.platform_agents.qq == config.qq_agent_id,
        r.platform_agents.slack == config.slack_agent_id,
        r.platform_agents.dingtalk == config.dingtalk_agent_id,
        r.platform_agents.line == config.line_agent_id,
        r.platform_agents.wechatwork == config.wechatwork_agent_id,
        r.routing_rules@ == config.routing_rules@,
        r.max_session_messages == config.max_session_messages,
        r.context_message_limit == config.context_message_limit,
        r.agent_timeout_ms == config.agent_timeout_ms,
        r.state_backup_count == config.state_backup_count,
        r.persistence_enabled == config.state_file is Some,
        r.webhook_secret_enabled == config.webhook_secret is Some,
        r.webhook_signing_enabled == config.webhook_signing_secret is Some,
        r.webhook_max_skew_seconds == config.webhook_max_skew_seconds,
        r.discord_interaction_public_key_enabled == config.discord_interaction_public_key is Some,
        r.feishu_verification_token_enabled == config.feishu_verification_token is Some,
        r.slack_signing_secret_enabled == config.slack_signing_secret is Some,
        r.dingtalk_secret_enabled == config.dingtalk_secret is Some,
{
    let rules = copy_rules(&config.routing_rules);
    assert(rules@ =~= config.routing_rules@);
    ReviewResponse {
        agents,
        channels,
        sessions,
        platform_agents: PlatformAgents {
            telegram: config.telegram_agent_id.clone(),
            discord: config.discord_agent_id.clone(),
            feishu: config.feishu_agent_id.clone(),
            qq: config.qq_agent_id.clone(),
            slack: config.slack_agent_id.clone(),
            dingtalk: config.dingtalk_agent_id.clone(),
            line: config.line_agent_id.clone(),
            wechatwork: config.wechatwork_agent_id.clone(),
        },
        routing_rules: rules,
        max_session_messages: config.max_session_messages,
        context_message_limit: config.context_message_limit,
        agent_timeout_ms: config.agent_timeout_ms,
        state_backup_count: config.state_backup_count,
        persistence_enabled: config.state_file.is_some(),
        webhook_secret_enabled: config.webhook_secret.is_some(),
        webhook_signing_enabled: config.webhook_signing_secret.is_some(),
        webhook_max_skew_seconds: config.webhook_max_skew_seconds,
        discord_interaction_public_key_enabled: config.discord_interaction_public_key.is_some(),
        feishu_verification_token_enabled: config.feishu_verification_token.is_some(),
        slack_signing_secret_enabled: config.slack_signing_secret.is_some(),
        dingtalk_secret_enabled: config.dingtalk_secret.is_some(),
    }
}

/// The review report of an unauthorized request: empty, with the defaults
/// and the shared secret shown as set.
pub fn unauthorized_review() -> (r: ReviewResponse)
    ensures
        r.agents@.len() == 0,
        r.channels@.len() == 0,
        r.sessions == 0,
        r.platform_agents.telegram@.len() == 0,
        r.platform_agents.discord@.len() == 0,
        r.platform_agents.feishu@.len() == 0,
        r.platform_agents.qq@.len() == 0,
        r.platform_agents.slack@.len() == 0,
        r.platform_agents.dingtalk@.len() == 0,
        r.platform_agents.line@.len() == 0,
        r.platform_agents.wechatwork@.len() == 0,
        r.routing_rules@.len() == 0,
        r.max_session_messages is None,
        r.context_message_limit == 10,
        r.agent_timeout_ms is None,
        r.state_backup_count == 0,
        !r.persistence_enabled,
        r.webhook_secret_enabled,
        !r.webhook_signing_enabled,
        r.webhook_max_skew_seconds == 0,
        !r.discord_interaction_public_key_enabled,
        !r.feishu_verification_token_enabled,
        !r.slack_signing_secret_enabled,
        !r.dingtalk_secret_enabled,
{
    ReviewResponse {
        agents: Vec::new(),
        channels: Vec::new(),
        sessions: 0,
        platform_agents: PlatformAgents {
            telegram: String::new(),
            discord: String::new(),
            feishu: String::new(),
            qq: String::new(),
            slack: String::new(),
            dingtalk: String::new(),
            line: String::new(),
            wechatwork: String::new(),
        },
        routing_rules: Vec::new(),
        max_session_messages: None,
        context_message_limit: 10,
        agent_timeout_ms: None,
        state_backup_count: 0,
        persistence_enabled: false,
        webhook_secret_enabled: true,
        webhook_signing_enabled: false,
        webhook_max_skew_seconds: 0,
        discord_interaction_public_key_enabled: false,
        feishu_verification_token_enabled: false,
        slack_signing_secret_enabled: false,
        dingtalk_secret_enabled: false,
    }
}

/// The challenge to echo, given what a body holds under `type` and under
/// `challenge`: there when `type` is `url_verification` and `challenge` is a
/// string.
pub open spec fn challenge_of(kind: Option<Option<Seq<char>>>, challenge: Option<Option<Seq<char>>>) -> Option<Seq<char>> {
    if kind == Some(Some("url_verification"@)) {
        match challenge {
            Some(Some(c)) => Some(c),
            _ => None,
        }
    } else {
        None
    }
}

/// The challenge to echo, from the lookups of `type` and `challenge`; see
/// `challenge_of`.
pub fn challenge_reply(kind: Option<Option<String>>, challenge: Option<Option<String>>) -> (r: Option<String>)
    ensures
        crate::inbound::os(r) == challenge_of(field_view(kind), field_view(challenge)),
{
    let is_verification = match &kind {
        Some(Some(k)) => crate::text::str_eq(k.as_str(), "url_verification"),
        _ => false,
    };
    if !is_verification {
        return None;
    }
    match challenge {
        Some(Some(c)) => Some(c),
        _ => None,
    }
}

/// The challenge of a Feishu URL verification, when the body is one; see
/// `challenge_of`.
pub fn feishu_challenge(body: &[u8]) -> (r: Option<String>)
    ensures
        crate::inbound::os(r) == challenge_of(json_top_string(body@, "type"@), json_top_string(body@, "challenge"@)),
{
    let kind = crate::crypto::json_string_field(body, "type");
    let challenge = crate::crypto::json_string_field(body, "challenge");
    challenge_reply(kind, challenge)
}

/// Where the handling of a webhook's messages stands.
pub enum DeliveryPhase {
    /// Waiting for message `next` of `count` to be handled.
    Handling { next: usize, count: usize },
    /// Waiting for the sessions to be saved.
    Saving,
    /// The answer was given.
    Done,
}

/// What happened since the last step.
pub enum DeliveryEvent {
    /// The messages of the request were read: how many there are.
    Start(usize),
    /// A message was handled, or failed.
    Handled(Result<(), AgentError>),
    /// The sessions were saved, or saving failed with this text.
    Saved(Result<(), String>),
}

/// What to do next.
pub enum DeliveryAction {
    /// Hand message `i` to the registry and its agent.
    Handle(usize),
    /// Save the sessions to the state file.
    Save,
    /// Answer the request.
    Answer(Reply),
    /// The event does not belong to this phase.
    OutOfOrder,
}

/// The step of a webhook's handling. The messages are handled in order and
/// the first failure is the answer (nothing is saved then); once all went
/// through, the sessions are saved when there is a state file, and the
/// answer is `ok` (or the challenge), or 500 when saving failed; see
/// `handled_reply`.
pub open spec fn delivery_step_spec(phase: DeliveryPhase, ev: DeliveryEvent, save: bool, challenge: Option<String>)
    -> (DeliveryPhase, Option<int>, bool, Option<(u16, Seq<char>)>)
{
    match (phase, ev) {
        (DeliveryPhase::Handling { next, count }, DeliveryEvent::Start(n)) if next == 0 && count == 0 =>
            if n > 0 {
                (DeliveryPhase::Handling { next: 0, count: n }, Some(0), false, None)
            } else if save {
                (DeliveryPhase::Saving, None, true, None)
            } else {
                (DeliveryPhase::Done, None, false, Some(ok_answer(challenge)))
            },
        (DeliveryPhase::Handling { next, count }, DeliveryEvent::Handled(res)) => match res {
            Err(e) => (DeliveryPhase::Done, None, false, Some((status_for(e), error_label(e) + detail_of(e)@))),
            Ok(()) => if next + 1 < count {
                (DeliveryPhase::Handling { next: (next + 1) as usize, count }, Some(next + 1), false, None)
            } else if save {
                (DeliveryPhase::Saving, None, true, None)
            } else {
                (DeliveryPhase::Done, None, false, Some(ok_answer(challenge)))
            },
        },
        (DeliveryPhase::Saving, DeliveryEvent::Saved(res)) => match res {
            Ok(()) => (DeliveryPhase::Done, None, false, Some(ok_answer(challenge))),
            Err(m) => (DeliveryPhase::Done, None, false, Some((500u16, m@))),
        },
        _ => (DeliveryPhase::Done, None, false, None),
    }
}

/// The answer when everything went through: 200 with the challenge, or `ok`.
pub open spec fn ok_answer(challenge: Option<String>) -> (u16, Seq<char>) {
    match challenge {
        Some(c) => (200u16, c@),
        None => (200u16, "ok"@),
    }
}

/// The view of a delivery action: the message to handle, whether to save,
/// and the answer (status and body).
pub open spec fn delivery_action_view(a: DeliveryAction) -> (Option<int>, bool, Option<(u16, Seq<char>)>) {
    match a {
        DeliveryAction::Handle(i) => (Some(i as int), false, None),
        DeliveryAction::Save => (None, true, None),
        DeliveryAction::Answer(r) => (None, false, Some((r.status, r.body@))),
        DeliveryAction::OutOfOrder => (None, false, None),
    }
}

/// The step of a webhook's handling; see `delivery_step_spec`. The phase
/// starts as `Handling { next: 0, count: 0 }`; `save` says whether there is a
/// state file, `challenge` what to echo when everything went through.
pub fn delivery_step(phase: DeliveryPhase, ev: DeliveryEvent, save: bool, challenge: Option<String>)
    -> (r: (DeliveryPhase, DeliveryAction))
    ensures
        ({
            let s = delivery_step_spec(phase, ev, save, challenge);
            &&& r.0 == s.0
            &&& delivery_action_view(r.1) == (s.1, s.2, s.3)
            &&& s.0 is Done && s.3 is None ==> r.1 is OutOfOrder
        }),
{
    match (phase, ev) {
        (DeliveryPhase::Handling { next, count }, DeliveryEvent::Start(n)) if next == 0 && count == 0 =>
            if n > 0 {
                (DeliveryPhase::Handling { next: 0, count: n }, DeliveryAction::Handle(0))
            } else if save {
                (DeliveryPhase::Saving, DeliveryAction::Save)
            } else {
                (DeliveryPhase::Done, DeliveryAction::Answer(handled_reply(Ok(challenge), Ok(()))))
            },
        (DeliveryPhase::Handling { next, count }, DeliveryEvent::Handled(res)) => match res {
            Err(e) => (DeliveryPhase::Done, DeliveryAction::Answer(handled_reply(Err(e), Ok(())))),
            Ok(()) => if next < count && count - next > 1 {
                (DeliveryPhase::Handling { next: next + 1, count }, DeliveryAction::Handle(next + 1))
            } else if save {
                (DeliveryPhase::Saving, DeliveryAction::Save)
            } else {
                (DeliveryPhase::Done, DeliveryAction::Answer(handled_reply(Ok(challenge), Ok(()))))
            },
        },
        (DeliveryPhase::Saving, DeliveryEvent::Saved(res)) => (DeliveryPhase::Done, DeliveryAction::Answer(handled_reply(Ok(challenge), res))),
        _ => (DeliveryPhase::Done, DeliveryAction::OutOfOrder),
    }
}

/// Nothing is saved after a failed message, and the answer to a request
/// whose messages all went through comes only after the sessions were saved
/// when there is a state file.
pub proof fn lemma_delivery_order(phase: DeliveryPhase, ev: DeliveryEvent, save: bool, challenge: Option<String>)
    ensures
        ev is Handled && ev->Handled_0 is Err ==> !delivery_step_spec(phase, ev, save, challenge).2,
        save && (delivery_step_spec(phase, ev, save, challenge).3 matches Some(a) && a.0 == 200u16) ==> (phase is Saving && ev is Saved),
{
}

} // verus!

