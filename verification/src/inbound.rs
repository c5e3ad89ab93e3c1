use vstd::prelude::*;
use crate::text::{is_blank, str_blank, str_eq};
use crate::number::{i64_decimal, signed_decimal};
use crate::error::AgentError;

verus! {

/// The channel under which Discord messages are handled.
pub const DISCORD_CHANNEL_ID: &'static str = "discord-bot";
/// The channel under which Telegram messages are handled.
pub const TELEGRAM_CHANNEL_ID: &'static str = "telegram-bot";
/// The channel under which Slack messages are handled.
pub const SLACK_CHANNEL_ID: &'static str = "slack-bot";
/// The channel under which DingTalk messages are handled.
pub const DINGTALK_CHANNEL_ID: &'static str = "dingtalk-bot";
/// The channel under which Feishu messages are handled.
pub const FEISHU_CHANNEL_ID: &'static str = "feishu-bot";
/// The channel under which LINE messages are handled.
pub const LINE_CHANNEL_ID: &'static str = "line-bot";
/// The channel under which QQ messages are handled.
pub const QQ_CHANNEL_ID: &'static str = "qq-bot";
/// The channel under which WeChat Work messages are handled.
pub const WECHATWORK_CHANNEL_ID: &'static str = "wechatwork-bot";

/// A message to hand to the registry: who wrote it, where replies go, and
/// its text.
pub struct Inbound {
    pub user_id: String,
    pub reply_target: Option<String>,
    pub text: String,
}

/// The plain value of an inbound message.
pub struct InboundView {
    pub user_id: Seq<char>,
    pub reply_target: Option<Seq<char>>,
    pub text: Seq<char>,
}

/// The view of an optional string.
pub open spec fn os(o: Option<String>) -> Option<Seq<char>> {
    match o {
        Some(s) => Some(s@),
        None => None,
    }
}

impl View for Inbound {
    type V = InboundView;

    open spec fn view(&self) -> InboundView {
        InboundView { user_id: self.user_id@, reply_target: os(self.reply_target), text: self.text@ }
    }
}

/// The user and reply target by which routing rules pick an agent.
pub struct RouteKeys {
    pub user_id: String,
    pub reply_target: String,
}

fn copy_opt(o: &Option<String>) -> (r: Option<String>)
    ensures
        os(r) == os(*o),
{
    match o {
        Some(s) => Some(s.clone()),
        None => None,
    }
}

// ---------------------------------------------------------------- Discord

/// A Discord message as a webhook or the gateway delivers it.
#[derive(Clone, Debug)]
pub struct DiscordMessage {
    pub id: String,
    pub author: DiscordUser,
    pub content: String,
    pub channel_id: String,
}

/// The author of a Discord message.
#[derive(Clone, Debug)]
pub struct DiscordUser {
    pub id: String,
    pub username: String,
    pub bot: bool,
}

/// What is handled of a Discord message: nothing from bots or without
/// content; else the author's message, with replies to its channel.
pub open spec fn discord_inbound_spec(m: DiscordMessage) -> Option<InboundView> {
    if m.author.bot || m.content@.len() == 0 {
        None
    } else {
        Some(InboundView { user_id: m.author.id@, reply_target: Some(m.channel_id@), text: m.content@ })
    }
}

/// A Discord message is handed on exactly when it is not from a bot and
/// has content; what is handed on is its author's content, answered in its
/// channel.
pub proof fn lemma_discord_hands_on_content(m: DiscordMessage)
    ensures
        discord_inbound_spec(m) is Some <==> (!m.author.bot && m.content@.len() > 0),
        discord_inbound_spec(m) matches Some(i) ==> i.text == m.content@ && i.user_id == m.author.id@
            && i.reply_target == Some(m.channel_id@),
{
}

/// What is handled of a Discord message; see `discord_inbound_spec`.
pub fn discord_inbound(m: &DiscordMessage) -> (r: Option<Inbound>)
    ensures
        r matches Some(i) ==> discord_inbound_spec(*m) == Some(i@),
        r is None ==> discord_inbound_spec(*m) is None,
{
    let empty = crate::text::to_chars(m.content.as_str()).len() == 0;
    if m.author.bot || empty {
        None
    } else {
        Some(Inbound { user_id: m.author.id.clone(), reply_target: Some(m.channel_id.clone()), text: m.content.clone() })
    }
}

/// Discord messages are routed by author and channel.
pub fn discord_route(m: &DiscordMessage) -> (r: RouteKeys)
    ensures
        r.user_id@ == m.author.id@,
        r.reply_target@ == m.channel_id@,
{
    RouteKeys { user_id: m.author.id.clone(), reply_target: m.channel_id.clone() }
}

// ---------------------------------------------------------------- Telegram

/// A Telegram update.
#[derive(Clone, Debug)]
pub struct TelegramUpdate {
    pub update_id: i64,
    pub message: Option<TelegramMessage>,
}

/// A Telegram message.
#[derive(Clone, Debug)]
pub struct TelegramMessage {
    pub message_id: i64,
    pub chat: TelegramChat,
    pub text: Option<String>,
}

/// A Telegram chat.
#[derive(Clone, Debug)]
pub struct TelegramChat {
    pub id: i64,
}

/// What is handled of a Telegram update: a text message, from and back to
/// its chat (the chat id written as a number).
pub open spec fn telegram_inbound_spec(u: TelegramUpdate) -> Option<InboundView> {
    match u.message {
        Some(m) => match m.text {
            Some(t) => Some(InboundView {
                user_id: signed_decimal(m.chat.id as int),
                reply_target: Some(signed_decimal(m.chat.id as int)),
                text: t@,
            }),
            None => None,
        },
        None => None,
    }
}

/// A Telegram update is handled exactly when it carries a message with
/// text; the text handed on is that text, and the sender and the reply
/// target are both the chat.
pub proof fn lemma_telegram_hands_on_text(u: TelegramUpdate)
    ensures
        telegram_inbound_spec(u) is Some <==> (u.message matches Some(m) && m.text is Some),
        telegram_inbound_spec(u) matches Some(i) ==> (u.message matches Some(m) && m.text matches Some(t)
            && i.text == t@ && i.user_id == signed_decimal(m.chat.id as int) && i.reply_target == Some(i.user_id)),
{
}

/// What is handled of a Telegram update; see `telegram_inbound_spec`.
pub fn telegram_inbound(u: &TelegramUpdate) -> (r: Option<Inbound>)
    ensures
        r matches Some(i) ==> telegram_inbound_spec(*u) == Some(i@),
        r is None ==> telegram_inbound_spec(*u) is None,
{
    match &u.message {
        Some(m) => match &m.text {
            Some(t) => {
                let id = i64_decimal(m.chat.id);
                let user = crate::text::from_chars(id.as_slice());
                let target = crate::text::from_chars(id.as_slice());
                Some(Inbound { user_id: user, reply_target: Some(target), text: t.clone() })
            },
            None => None,
        },
        None => None,
    }
}

/// The polling offset after handling updates in order: one past the id of
/// the last of them, or the current offset when there are none.
pub open spec fn offset_after(current: Option<i64>, ids: Seq<i64>) -> Option<int> {
    if ids.len() == 0 {
        match current {
            Some(c) => Some(c as int),
            None => None,
        }
    } else {
        Some(ids.last() + 1)
    }
}

/// The polling offset after handling updates with these ids in order.
pub fn telegram_next_offset(current: Option<i64>, update_ids: &[i64]) -> (r: Option<i64>)
    requires
        forall|i: int| 0 <= i < update_ids@.len() ==> update_ids@[i] < i64::MAX,
    ensures
        match r {
            Some(x) => offset_after(current, update_ids@) == Some(x as int),
            None => offset_after(current, update_ids@) is None,
        },
{
    let n = update_ids.len();
    if n == 0 {
        current
    } else {
        Some(update_ids[n - 1] + 1)
    }
}

/// The largest of `ids`, plus one; none for no ids.
pub open spec fn max_plus_one(ids: Seq<i64>) -> Option<int>
    decreases ids.len(),
{
    if ids.len() == 0 {
        None
    } else {
        let last = ids.last() + 1;
        match max_plus_one(ids.drop_last()) {
            Some(m) => Some(if m >= last { m } else { last }),
            None => Some(last),
        }
    }
}

/// Long polling starts just past the largest pending update id: beyond
/// every pending id, and one past one of them; with none pending there is no
/// starting offset.
pub proof fn lemma_initial_offset_past_all(ids: Seq<i64>)
    ensures
        max_plus_one(ids) is None <==> ids.len() == 0,
        max_plus_one(ids) matches Some(m) ==> (forall|i: int| 0 <= i < ids.len() ==> #[trigger] ids[i] < m)
            && exists|i: int| 0 <= i < ids.len() && #[trigger] ids[i] + 1 == m,
    decreases ids.len(),
{
    if ids.len() > 0 {
        let p = ids.drop_last();
        lemma_initial_offset_past_all(p);
        let m = max_plus_one(ids)->0;
        assert forall|i: int| 0 <= i < ids.len() implies #[trigger] ids[i] < m by {
            if i < ids.len() - 1 { assert(ids[i] == p[i]); }
        }
        if max_plus_one(p) is Some {
            let mp = max_plus_one(p)->0;
            if mp >= ids.last() + 1 {
                let j = choose|j: int| 0 <= j < p.len() && #[trigger] p[j] + 1 == mp;
                assert(ids[j] == p[j]);
            } else {
                assert(ids[ids.len() - 1] + 1 == m);
            }
        } else {
            assert(ids[ids.len() - 1] + 1 == m);
        }
    }
}

/// Where long polling starts: past every update that was pending at start.
pub fn telegram_initial_offset(update_ids: &[i64]) -> (r: Option<i64>)
    requires
        forall|i: int| 0 <= i < update_ids@.len() ==> update_ids@[i] < i64::MAX,
    ensures
        match r {
            Some(x) => max_plus_one(update_ids@) == Some(x as int),
            None => max_plus_one(update_ids@) is None,
        },
{
    let mut best: Option<i64> = None;
    let mut i: usize = 0;
    while i < update_ids.len()
        invariant
            0 <= i <= update_ids@.len(),
            forall|k: int| 0 <= k < update_ids@.len() ==> update_ids@[k] < i64::MAX,
            match best {
                Some(x) => max_plus_one(update_ids@.subrange(0, i as int)) == Some(x as int),
                None => max_plus_one(update_ids@.subrange(0, i as int)) is None,
            },
        decreases update_ids@.len() - i,
    {
        assert(update_ids@.subrange(0, i + 1).drop_last() =~= update_ids@.subrange(0, i as int));
        let next = update_ids[i] + 1;
        best = match best {
            Some(b) => Some(if b >= next { b } else { next }),
            None => Some(next),
        };
        i = i + 1;
    }
    assert(update_ids@.subrange(0, update_ids@.len() as int) =~= update_ids@);
    best
}

// ---------------------------------------------------------------- Slack

/// A Slack event callback.
#[derive(Clone, Debug)]
pub struct SlackEvent {
    pub token: String,
    pub team_id: String,
    pub api_app_id: String,
    pub event: Option<SlackEventDetail>,
    pub event_type: String,
    pub challenge: Option<String>,
    pub event_id: String,
    pub event_time: i64,
}

/// The event inside a Slack callback.
#[derive(Clone, Debug)]
pub struct SlackEventDetail {
    pub detail_type: String,
    pub user: Option<String>,
    pub text: Option<String>,
    pub channel: Option<String>,
    pub channel_type: Option<String>,
    pub ts: Option<String>,
    pub thread_ts: Option<String>,
    pub bot_id: Option<String>,
}

/// A message that the Slack channel posts.
#[derive(Clone, Debug)]
pub struct SlackMessage {
    pub channel: String,
    pub text: String,
    pub thread_ts: Option<String>,
}

/// What a Slack callback asks for.
pub enum SlackAction {
    /// Answer the URL verification with this challenge.
    Challenge(String),
    /// Nothing to do.
    Ignore,
    /// Hand this message to the registry.
    Handle(Inbound),
}

/// What a Slack callback asks for: a challenge when it carries one; else a
/// message event that is not from a bot and has a user, text and channel,
/// with replies to its thread when it is in one, else to the channel.
pub open spec fn slack_action_spec(e: SlackEvent) -> Option<Result<Seq<char>, InboundView>> {
    match e.challenge {
        Some(c) => Some(Ok(c@)),
        None => match e.event {
            None => None,
            Some(d) => if d.detail_type@ != "message"@ || d.bot_id is Some {
                None
            } else {
                match (d.user, d.text, d.channel) {
                    (Some(u), Some(t), Some(c)) => Some(Err(InboundView {
                        user_id: u@,
                        reply_target: Some(match d.thread_ts { Some(ts) => ts@, None => c@ }),
                        text: t@,
                    })),
                    _ => None,
                }
            },
        },
    }
}

/// A Slack callback hands a message on only when it carries no challenge
/// and its event is of type `message`, not from a bot, with a user, a text
/// and a channel; the message handed on is that user's text, answered in
/// the thread when there is one, else in the channel. Any other event type
/// is ignored.
pub proof fn lemma_slack_handles_only_messages(e: SlackEvent)
    ensures
        slack_action_spec(e) matches Some(Err(i)) ==> {
            &&& e.challenge is None
            &&& e.event matches Some(d)
            &&& d.detail_type@ == "message"@
            &&& d.bot_id is None
            &&& d.user matches Some(u) && i.user_id == u@
            &&& d.text matches Some(t) && i.text == t@
            &&& d.channel matches Some(c) && i.reply_target == Some(if d.thread_ts is Some { d.thread_ts->0@ } else { c@ })
        },
        (e.challenge is None && e.event is Some && e.event->0.detail_type@ != "message"@) ==> slack_action_spec(e) is None,
        e.challenge matches Some(c) ==> slack_action_spec(e) == Some(Ok::<Seq<char>, InboundView>(c@)),
{
}

/// What a Slack callback asks for; see `slack_action_spec` (`Ok` stands for
/// a challenge, `Err` for a message to handle).
pub fn slack_action(e: &SlackEvent) -> (r: SlackAction)
    ensures
        match r {
            SlackAction::Challenge(c) => slack_action_spec(*e) == Some(Ok::<Seq<char>, InboundView>(c@)),
            SlackAction::Ignore => slack_action_spec(*e) is None,
            SlackAction::Handle(i) => slack_action_spec(*e) == Some(Err::<Seq<char>, InboundView>(i@)),
        },
{
    match &e.challenge {
        Some(c) => return SlackAction::Challenge(c.clone()),
        None => {},
    }
    let d = match &e.event {
        Some(d) => d,
        None => return SlackAction::Ignore,
    };
    if !str_eq(d.detail_type.as_str(), "message") || d.bot_id.is_some() {
        return SlackAction::Ignore;
    }
    match (&d.user, &d.text, &d.channel) {
        (Some(u), Some(t), Some(c)) => {
            let target = match &d.thread_ts {
                Some(ts) => ts.clone(),
                None => c.clone(),
            };
            SlackAction::Handle(Inbound { user_id: u.clone(), reply_target: Some(target), text: t.clone() })
        },
        _ => SlackAction::Ignore,
    }
}

/// Whether a Slack callback is a URL verification to answer at once.
pub fn slack_url_verification(e: &SlackEvent) -> (r: Option<String>)
    ensures
        match r {
            Some(c) => e.event_type@ == "url_verification"@ && (e.challenge matches Some(x) && x@ == c@),
            None => !(e.event_type@ == "url_verification"@ && e.challenge is Some),
        },
{
    if str_eq(e.event_type.as_str(), "url_verification") {
        match &e.challenge {
            Some(c) => Some(c.clone()),
            None => None,
        }
    } else {
        None
    }
}

/// Slack callbacks are routed by the event's user and channel (empty when
/// missing); a callback without an event has no keys.
pub fn slack_route(e: &SlackEvent) -> (r: Option<RouteKeys>)
    ensures
        match r {
            Some(k) => e.event matches Some(d) && k.user_id@ == match d.user { Some(u) => u@, None => Seq::<char>::empty() }
                && k.reply_target@ == match d.channel { Some(c) => c@, None => Seq::<char>::empty() },
            None => e.event is None,
        },
{
    match &e.event {
        Some(d) => {
            let u = match &d.user {
                Some(u) => u.clone(),
                None => String::new(),
            };
            let c = match &d.channel {
                Some(c) => c.clone(),
                None => String::new(),
            };
            Some(RouteKeys { user_id: u, reply_target: c })
        },
        None => None,
    }
}

// ---------------------------------------------------------------- DingTalk

/// A DingTalk outgoing webhook.
#[derive(Clone, Debug)]
pub struct DingTalkWebhook {
    pub conversation_id: String,
    pub at_user_ids: Option<Vec<String>>,
    pub chatbot_corp_id: Option<String>,
    pub chatbot_user_id: Option<String>,
    pub msgtype: String,
    pub text: DingTalkText,
    pub msgid: Option<String>,
    pub create_at: Option<i64>,
    pub conversation_type: Option<String>,
    pub sender_id: String,
    pub sender_nick: Option<String>,
    pub sender_corp_id: Option<String>,
    pub sender_staff_id: Option<String>,
    pub session_webhook_expired_time: Option<i64>,
    pub session_webhook: Option<String>,
    pub is_admin: Option<bool>,
}

/// The text of a DingTalk webhook.
#[derive(Clone, Debug)]
pub struct DingTalkText {
    pub content: Option<String>,
}

/// A message that a DingTalk robot sends.
#[derive(Clone, Debug)]
pub struct DingTalkOutMessage {
    pub msgtype: String,
    pub text: DingTalkOutText,
    pub at: Option<DingTalkAt>,
}

/// The text of an outgoing DingTalk message.
#[derive(Clone, Debug)]
pub struct DingTalkOutText {
    pub content: String,
}

/// Whom an outgoing DingTalk message mentions.
#[derive(Clone, Debug)]
pub struct DingTalkAt {
    pub at_user_ids: Option<Vec<String>>,
    pub is_at_all: Option<bool>,
}

/// What is handled of a DingTalk webhook: its text unless blank, from the
/// sender's staff id (else sender id), with replies to the conversation.
pub open spec fn dingtalk_inbound_spec(w: DingTalkWebhook) -> Option<InboundView> {
    let text = match w.text.content { Some(t) => t@, None => Seq::<char>::empty() };
    if is_blank(text) {
        None
    } else {
        Some(InboundView {
            user_id: match w.sender_staff_id { Some(s) => s@, None => w.sender_id@ },
            reply_target: Some(w.conversation_id@),
            text,
        })
    }
}

/// A DingTalk webhook is handed on only with a text that is not blank; what
/// is handed on is that text, from the sender's staff id when there is one
/// (else the sender id), answered in the conversation.
pub proof fn lemma_dingtalk_hands_on_text(w: DingTalkWebhook)
    ensures
        dingtalk_inbound_spec(w) matches Some(i) ==> (w.text.content is Some && i.text == w.text.content->0@
            && !is_blank(i.text) && i.reply_target == Some(w.conversation_id@)
            && i.user_id == (if w.sender_staff_id is Some { w.sender_staff_id->0@ } else { w.sender_id@ })),
        (w.text.content is Some && !is_blank(w.text.content->0@)) ==> dingtalk_inbound_spec(w) is Some,
{
}

/// What is handled of a DingTalk webhook; see `dingtalk_inbound_spec`.
pub fn dingtalk_inbound(w: &DingTalkWebhook) -> (r: Option<Inbound>)
    ensures
        r matches Some(i) ==> dingtalk_inbound_spec(*w) == Some(i@),
        r is None ==> dingtalk_inbound_spec(*w) is None,
{
    let text = match &w.text.content {
        Some(t) => t.clone(),
        None => String::new(),
    };
    if str_blank(text.as_str()) {
        return None;
    }
    let user = match &w.sender_staff_id {
        Some(s) => s.clone(),
        None => w.sender_id.clone(),
    };
    Some(Inbound { user_id: user, reply_target: Some(w.conversation_id.clone()), text })
}

/// DingTalk webhooks are routed by sender id and conversation.
pub fn dingtalk_route(w: &DingTalkWebhook) -> (r: RouteKeys)
    ensures
        r.user_id@ == w.sender_id@,
        r.reply_target@ == w.conversation_id@,
{
    RouteKeys { user_id: w.sender_id.clone(), reply_target: w.conversation_id.clone() }
}

/// The staff member that a DingTalk reply target mentions: the rest of a
/// target that starts with `staff:`.
pub fn dingtalk_mention(user_id: &str) -> (r: Option<Vec<String>>)
    ensures
        match r {
            Some(v) => v@.len() == 1 && crate::auth::strip_prefix_spec(user_id@, "staff:"@) == Some(v@[0]@),
            None => crate::auth::strip_prefix_spec(user_id@, "staff:"@) is None,
        },
{
    match crate::auth::strip_prefix(user_id, "staff:") {
        Some(rest) => {
            let mut v: Vec<String> = Vec::new();
            v.push(rest);
            Some(v)
        },
        None => None,
    }
}

/// Where a DingTalk robot posts: the configured webhook URL as it is; else,
/// with an access token, the robot endpoint with the token, and with a
/// secret also the timestamp (milliseconds) and its sign; else nowhere.
pub open spec fn dingtalk_url_spec(webhook_url: Option<Seq<char>>, access_token: Option<Seq<char>>, secret: Option<Seq<char>>, timestamp: i64) -> Option<Seq<char>> {
    match webhook_url {
        Some(u) => Some(u),
        None => match access_token {
            None => None,
            Some(t) => match secret {
                Some(sec) => Some("https://oapi.dingtalk.com/robot/send?access_token="@ + t + "&timestamp="@
                    + signed_decimal(timestamp as int) + "&sign="@
                    + crate::crypto::base64_standard_encode(crate::crypto::hmac_sha256(vstd::utf8::encode_utf8(sec),
                        crate::auth::dingtalk_string_to_sign(signed_decimal(timestamp as int), sec)))),
                None => Some("https://oapi.dingtalk.com/robot/send?access_token="@ + t),
            },
        },
    }
}

/// Where a DingTalk robot posts; see `dingtalk_url_spec`.
pub fn dingtalk_webhook_url(webhook_url: Option<&str>, access_token: Option<&str>, secret: Option<&str>, timestamp: i64) -> (r: Option<String>)
    ensures
        match r {
            Some(u) => dingtalk_url_spec(crate::auth::oview(webhook_url), crate::auth::oview(access_token), crate::auth::oview(secret), timestamp) == Some(u@),
            None => dingtalk_url_spec(crate::auth::oview(webhook_url), crate::auth::oview(access_token), crate::auth::oview(secret), timestamp) is None,
        },
{
    match webhook_url {
        Some(u) => Some(String::from_str(u)),
        None => match access_token {
            None => None,
            Some(t) => {
                let mut v = crate::text::to_chars("https://oapi.dingtalk.com/robot/send?access_token=");
                crate::text::append_str(&mut v, t);
                match secret {
                    Some(sec) => {
                        let sign = crate::auth::dingtalk_signature(sec, timestamp);
                        crate::text::append_str(&mut v, "&timestamp=");
                        let d = i64_decimal(timestamp);
                        crate::text::append_chars(&mut v, d.as_slice());
                        crate::text::append_str(&mut v, "&sign=");
                        crate::text::append_str(&mut v, sign.as_str());
                    },
                    None => {},
                }
                Some(crate::text::from_chars(v.as_slice()))
            },
        },
    }
}

/// How a DingTalk token is taken: a value that starts with `http://` or
/// `https://` is the robot's webhook URL, anything else its access token.
pub fn dingtalk_endpoint(token: &str) -> (r: (Option<String>, Option<String>))
    ensures
        (crate::text::has_prefix(token@, "https://"@) || crate::text::has_prefix(token@, "http://"@)) ==>
            os(r.0) == Some(token@) && r.1 is None,
        !(crate::text::has_prefix(token@, "https://"@) || crate::text::has_prefix(token@, "http://"@)) ==>
            r.0 is None && os(r.1) == Some(token@),
{
    if crate::text::str_starts_with(token, "https://") || crate::text::str_starts_with(token, "http://") {
        (Some(String::from_str(token)), None)
    } else {
        (None, Some(String::from_str(token)))
    }
}

// ---------------------------------------------------------------- Feishu

/// A Feishu message event.
#[derive(Clone, Debug)]
pub struct FeishuMessage {
    pub token: String,
    pub ts: String,
    pub uuid: String,
    pub event: FeishuEvent,
}

/// The event of a Feishu callback.
#[derive(Clone, Debug)]
pub struct FeishuEvent {
    pub message: FeishuMessageContent,
}

/// The message of a Feishu event.
#[derive(Clone, Debug)]
pub struct FeishuMessageContent {
    pub chat_id: String,
    pub sender_id: FeishuSender,
    pub content: String,
}

/// The sender of a Feishu message.
#[derive(Clone, Debug)]
pub struct FeishuSender {
    pub user_id: String,
}

/// A Feishu message is handled from and back to its sender.
pub fn feishu_inbound(m: &FeishuMessage) -> (r: Inbound)
    ensures
        r.user_id@ == m.event.message.sender_id.user_id@,
        os(r.reply_target) == Some(m.event.message.sender_id.user_id@),
        r.text@ == m.event.message.content@,
{
    let u = m.event.message.sender_id.user_id.clone();
    Inbound { user_id: u.clone(), reply_target: Some(u), text: m.event.message.content.clone() }
}

/// Feishu messages are routed by sender, twice.
pub fn feishu_route(m: &FeishuMessage) -> (r: RouteKeys)
    ensures
        r.user_id@ == m.event.message.sender_id.user_id@,
        r.reply_target@ == m.event.message.sender_id.user_id@,
{
    RouteKeys { user_id: m.event.message.sender_id.user_id.clone(), reply_target: m.event.message.sender_id.user_id.clone() }
}

// ---------------------------------------------------------------- LINE

/// A LINE webhook.
#[derive(Clone, Debug)]
pub struct LineWebhook {
    pub destination: Option<String>,
    pub events: Vec<LineEvent>,
}

/// An event of a LINE webhook.
#[derive(Clone, Debug)]
pub struct LineEvent {
    pub event_type: String,
    pub reply_token: Option<String>,
    pub timestamp: Option<i64>,
    pub source: Option<LineSource>,
    pub message: Option<LineMessage>,
}

/// Where a LINE event comes from.
#[derive(Clone, Debug)]
pub struct LineSource {
    pub source_type: String,
    pub user_id: Option<String>,
    pub group_id: Option<String>,
    pub room_id: Option<String>,
}

/// The message of a LINE event.
#[derive(Clone, Debug)]
pub struct LineMessage {
    pub id: Option<String>,
    pub message_type: String,
    pub text: Option<String>,
}

/// A LINE reply.
#[derive(Clone, Debug)]
pub struct LineReplyRequest {
    pub reply_token: String,
    pub messages: Vec<LineOutMessage>,
}

/// A LINE push.
#[derive(Clone, Debug)]
pub struct LinePushRequest {
    pub to: String,
    pub messages: Vec<LineOutMessage>,
}

/// A message that LINE sends.
#[derive(Clone, Debug)]
pub struct LineOutMessage {
    pub message_type: String,
    pub text: Option<String>,
}

/// The first of group, room and user that a LINE source names.
pub open spec fn line_target_spec(s: LineSource) -> Option<Seq<char>> {
    match s.group_id {
        Some(g) => Some(g@),
        None => match s.room_id {
            Some(r) => Some(r@),
            None => os(s.user_id),
        },
    }
}

/// A LINE event is handed on only when it is a message event carrying a
/// text message that is not blank and has a source; what is handed on is
/// that text.
pub proof fn lemma_line_hands_on_text(e: LineEvent)
    ensures
        line_event_inbound(e) matches Some(i) ==> (e.event_type@ == "message"@ && e.message is Some
            && e.message->0.message_type@ == "text"@ && e.message->0.text is Some
            && i.text == e.message->0.text->0@ && !is_blank(i.text) && e.source is Some),
{
}

/// What is handled of one LINE event: a text message that is not blank and
/// has a source; from its user (empty when unknown), with replies to its
/// group, else room, else user.
pub open spec fn line_event_inbound(e: LineEvent) -> Option<InboundView> {
    if e.event_type@ != "message"@ {
        None
    } else {
        match e.message {
            None => None,
            Some(m) => if m.message_type@ != "text"@ {
                None
            } else {
                match m.text {
                    None => None,
                    Some(t) => if is_blank(t@) {
                        None
                    } else {
                        match e.source {
                            None => None,
                            Some(s) => Some(InboundView {
                                user_id: match s.user_id { Some(u) => u@, None => Seq::<char>::empty() },
                                reply_target: line_target_spec(s),
                                text: t@,
                            }),
                        }
                    },
                }
            },
        }
    }
}

/// The messages handled of LINE events, in order.
pub open spec fn line_inbounds_spec(events: Seq<LineEvent>) -> Seq<InboundView>
    decreases events.len(),
{
    if events.len() == 0 {
        seq![]
    } else {
        let r = line_inbounds_spec(events.drop_last());
        match line_event_inbound(events.last()) {
            Some(i) => r.push(i),
            None => r,
        }
    }
}

fn line_target(s: &LineSource) -> (r: Option<String>)
    ensures
        os(r) == line_target_spec(*s),
{
    match &s.group_id {
        Some(g) => Some(g.clone()),
        None => match &s.room_id {
            Some(r) => Some(r.clone()),
            None => copy_opt(&s.user_id),
        },
    }
}

fn line_one(e: &LineEvent) -> (r: Option<Inbound>)
    ensures
        r matches Some(i) ==> line_event_inbound(*e) == Some(i@),
        r is None ==> line_event_inbound(*e) is None,
{
    if !str_eq(e.event_type.as_str(), "message") {
        return None;
    }
    let m = match &e.message {
        Some(m) => m,
        None => return None,
    };
    if !str_eq(m.message_type.as_str(), "text") {
        return None;
    }
    let t = match &m.text {
        Some(t) => t,
        None => return None,
    };
    if str_blank(t.as_str()) {
        return None;
    }
    let s = match &e.source {
        Some(s) => s,
        None => return None,
    };
    let user = match &s.user_id {
        Some(u) => u.clone(),
        None => String::new(),
    };
    Some(Inbound { user_id: user, reply_target: line_target(s), text: t.clone() })
}

/// The views of a list of inbound messages.
pub open spec fn inbound_views(v: Seq<Inbound>) -> Seq<InboundView> {
    v.map_values(|i: Inbound| i@)
}

/// The messages handled of a LINE webhook, in order; see
/// `line_event_inbound`.
pub fn line_inbounds(w: &LineWebhook) -> (r: Vec<Inbound>)
    ensures
        inbound_views(r@) == line_inbounds_spec(w.events@),
{
    let mut r: Vec<Inbound> = Vec::new();
    let mut i: usize = 0;
    while i < w.events.len()
        invariant
            0 <= i <= w.events@.len(),
            inbound_views(r@) == line_inbounds_spec(w.events@.subrange(0, i as int)),
        decreases w.events@.len() - i,
    {
        assert(w.events@.subrange(0, i + 1).drop_last() =~= w.events@.subrange(0, i as int));
        match line_one(&w.events[i]) {
            Some(m) => {
                let ghost before = inbound_views(r@);
                r.push(m);
                assert(inbound_views(r@) =~= before.push(r@.last()@));
            },
            None => {},
        }
        i = i + 1;
    }
    assert(w.events@.subrange(0, w.events@.len() as int) =~= w.events@);
    r
}

/// LINE webhooks are routed by the first event's source: its user and its
/// group, else room, else user (empty when missing); none without one.
pub fn line_route(w: &LineWebhook) -> (r: Option<RouteKeys>)
    ensures
        match r {
            Some(k) => w.events@.len() > 0 && (w.events@[0].source matches Some(s)
                && k.user_id@ == match s.user_id { Some(u) => u@, None => Seq::<char>::empty() }
                && k.reply_target@ == match line_target_spec(s) { Some(t) => t, None => Seq::<char>::empty() }),
            None => w.events@.len() == 0 || w.events@[0].source is None,
        },
{
    if w.events.len() == 0 {
        return None;
    }
    match &w.events[0].source {
        Some(s) => {
            let user = match &s.user_id {
                Some(u) => u.clone(),
                None => String::new(),
            };
            let target = match line_target(s) {
                Some(t) => t,
                None => String::new(),
            };
            Some(RouteKeys { user_id: user, reply_target: target })
        },
        None => None,
    }
}

/// A LINE text message.
pub fn line_text_message(text: &str) -> (r: LineOutMessage)
    ensures
        r.message_type@ == "text"@,
        os(r.text) == Some(text@),
{
    LineOutMessage { message_type: String::from_str("text"), text: Some(String::from_str(text)) }
}

// ---------------------------------------------------------------- QQ

/// A QQ channel message.
#[derive(Clone, Debug)]
pub struct QQMessage {
    pub id: String,
    pub author: QQUser,
    pub content: String,
    pub channel_id: String,
}

/// The author of a QQ message.
#[derive(Clone, Debug)]
pub struct QQUser {
    pub id: String,
    pub username: String,
}

/// A QQ message is handled from its author, with replies to its channel.
pub fn qq_inbound(m: &QQMessage) -> (r: Inbound)
    ensures
        r.user_id@ == m.author.id@,
        os(r.reply_target) == Some(m.channel_id@),
        r.text@ == m.content@,
{
    Inbound { user_id: m.author.id.clone(), reply_target: Some(m.channel_id.clone()), text: m.content.clone() }
}

/// QQ messages are routed by author and channel.
pub fn qq_route(m: &QQMessage) -> (r: RouteKeys)
    ensures
        r.user_id@ == m.author.id@,
        r.reply_target@ == m.channel_id@,
{
    RouteKeys { user_id: m.author.id.clone(), reply_target: m.channel_id.clone() }
}

// ---------------------------------------------------------------- WeChat Work

/// A WeChat Work callback message.
#[derive(Clone, Debug)]
pub struct WeChatWorkWebhook {
    pub to_user_name: String,
    pub from_user_name: String,
    pub create_time: i64,
    pub msg_type: String,
    pub content: Option<String>,
    pub msg_id: Option<String>,
    pub agent_id: Option<String>,
    pub chat_id: Option<String>,
}

/// A message that a WeChat Work application sends.
#[derive(Clone, Debug)]
pub struct WeChatWorkOutMessage {
    pub to_user: Option<String>,
    pub to_party: Option<String>,
    pub to_tag: Option<String>,
    pub msg_type: String,
    pub text: WeChatWorkText,
    pub agent_id: Option<String>,
}

/// The text of a WeChat Work message.
#[derive(Clone, Debug)]
pub struct WeChatWorkText {
    pub content: String,
}

/// The answer to an access token request.
#[derive(Clone, Debug)]
pub struct WeChatWorkTokenResponse {
    pub err_code: i64,
    pub err_msg: String,
    pub access_token: Option<String>,
    pub expires_in: Option<i64>,
}

/// What is handled of a WeChat Work callback: a text message that is not
/// blank, from its sender, with replies to its chat when it has one.
pub open spec fn wechatwork_inbound_spec(w: WeChatWorkWebhook) -> Option<InboundView> {
    let text = match w.content { Some(t) => t@, None => Seq::<char>::empty() };
    if w.msg_type@ != "text"@ || is_blank(text) {
        None
    } else {
        Some(InboundView { user_id: w.from_user_name@, reply_target: os(w.chat_id), text })
    }
}

/// A WeChat Work callback is handed on only when it is a text message whose
/// content is not blank; what is handed on is that content from its sender,
/// answered in its chat when it names one.
pub proof fn lemma_wechatwork_hands_on_text(w: WeChatWorkWebhook)
    ensures
        wechatwork_inbound_spec(w) matches Some(i) ==> (w.msg_type@ == "text"@ && w.content is Some
            && i.text == w.content->0@ && !is_blank(i.text) && i.user_id == w.from_user_name@ && i.reply_target == os(w.chat_id)),
        (w.msg_type@ == "text"@ && w.content is Some && !is_blank(w.content->0@)) ==> wechatwork_inbound_spec(w) is Some,
{
}

/// What is handled of a WeChat Work callback; see `wechatwork_inbound_spec`.
pub fn wechatwork_inbound(w: &WeChatWorkWebhook) -> (r: Option<Inbound>)
    ensures
        r matches Some(i) ==> wechatwork_inbound_spec(*w) == Some(i@),
        r is None ==> wechatwork_inbound_spec(*w) is None,
{
    if !str_eq(w.msg_type.as_str(), "text") {
        return None;
    }
    let text = match &w.content {
        Some(t) => t.clone(),
        None => String::new(),
    };
    if str_blank(text.as_str()) {
        return None;
    }
    Some(Inbound { user_id: w.from_user_name.clone(), reply_target: copy_opt(&w.chat_id), text })
}

/// WeChat Work callbacks are routed by sender and chat (the sender when
/// there is no chat).
pub fn wechatwork_route(w: &WeChatWorkWebhook) -> (r: RouteKeys)
    ensures
        r.user_id@ == w.from_user_name@,
        r.reply_target@ == match w.chat_id { Some(c) => c@, None => w.from_user_name@ },
{
    let target = match &w.chat_id {
        Some(c) => c.clone(),
        None => w.from_user_name.clone(),
    };
    RouteKeys { user_id: w.from_user_name.clone(), reply_target: target }
}

/// The access token of a WeChat Work token response: there when the error
/// code is 0 and a token came; else a `ChannelError` that says why.
pub fn wechatwork_access_token(resp: &WeChatWorkTokenResponse) -> (r: Result<String, AgentError>)
    ensures
        resp.err_code != 0 ==> (r matches Err(AgentError::ChannelError(m)) && m@ == "WeChat Work API error: "@ + resp.err_msg@),
        resp.err_code == 0 && resp.access_token is None ==>
            (r matches Err(AgentError::ChannelError(m)) && m@ == "WeChat Work token response missing access_token"@),
        resp.err_code == 0 && resp.access_token is Some ==> (r matches Ok(t) && os(resp.access_token) == Some(t@)),
{
    if resp.err_code != 0 {
        let mut m = crate::text::to_chars("WeChat Work API error: ");
        crate::text::append_str(&mut m, resp.err_msg.as_str());
        return Err(AgentError::ChannelError(crate::text::from_chars(m.as_slice())));
    }
    match &resp.access_token {
        Some(t) => Ok(t.clone()),
        None => Err(AgentError::ChannelError(String::from_str("WeChat Work token response missing access_token"))),
    }
}

} // verus!
