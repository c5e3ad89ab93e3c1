use agentim::inbound::{
    dingtalk_inbound, dingtalk_mention, dingtalk_route, discord_inbound, discord_route, feishu_inbound, line_inbounds, line_route,
    qq_inbound, slack_action, slack_route, slack_url_verification, telegram_inbound, telegram_initial_offset, telegram_next_offset,
    wechatwork_access_token, wechatwork_inbound, wechatwork_route, DingTalkText, DingTalkWebhook, DiscordMessage, DiscordUser,
    FeishuEvent, FeishuMessage, FeishuMessageContent, FeishuSender, LineEvent, LineMessage, LineSource, LineWebhook, QQMessage,
    QQUser, SlackAction, SlackEvent, SlackEventDetail, TelegramChat, TelegramMessage, TelegramUpdate, WeChatWorkTokenResponse,
    WeChatWorkWebhook, DISCORD_CHANNEL_ID,
};
use agentim::channel::PendingMessages;
use agentim::error::AgentError;

fn discord(bot: bool, content: &str) -> DiscordMessage {
    DiscordMessage {
        id: "m".to_string(),
        author: DiscordUser { id: "u1".to_string(), username: "n".to_string(), bot },
        content: content.to_string(),
        channel_id: "c9".to_string(),
    }
}

#[test]
fn discord_skips_bots_and_empty_messages() {
    assert!(discord_inbound(&discord(true, "hi")).is_none());
    assert!(discord_inbound(&discord(false, "")).is_none());
    let m = discord_inbound(&discord(false, "hi")).unwrap();
    assert_eq!((m.user_id.as_str(), m.reply_target.as_deref(), m.text.as_str()), ("u1", Some("c9"), "hi"));
    let k = discord_route(&discord(false, "hi"));
    assert_eq!((k.user_id.as_str(), k.reply_target.as_str()), ("u1", "c9"));
    assert_eq!(DISCORD_CHANNEL_ID, "discord-bot");
}

#[test]
fn telegram_updates_and_offsets() {
    let u = TelegramUpdate {
        update_id: 5,
        message: Some(TelegramMessage { message_id: 1, chat: TelegramChat { id: -42 }, text: Some("yo".to_string()) }),
    };
    let m = telegram_inbound(&u).unwrap();
    assert_eq!(m.user_id, "-42");
    assert_eq!(m.reply_target.as_deref(), Some("-42"));
    let no_text = TelegramUpdate {
        update_id: 6,
        message: Some(TelegramMessage { message_id: 1, chat: TelegramChat { id: 1 }, text: None }),
    };
    assert!(telegram_inbound(&no_text).is_none());
    assert_eq!(telegram_next_offset(Some(3), &[]), Some(3));
    assert_eq!(telegram_next_offset(None, &[7, 9]), Some(10));
    assert_eq!(telegram_initial_offset(&[9, 4, 7]), Some(10));
    assert_eq!(telegram_initial_offset(&[]), None);
}

fn slack(challenge: Option<&str>, detail: Option<SlackEventDetail>) -> SlackEvent {
    SlackEvent {
        token: "t".to_string(),
        team_id: "T".to_string(),
        api_app_id: "A".to_string(),
        event: detail,
        event_type: "event_callback".to_string(),
        challenge: challenge.map(str::to_string),
        event_id: "E".to_string(),
        event_time: 0,
    }
}

fn detail(thread: Option<&str>, bot: bool) -> SlackEventDetail {
    SlackEventDetail {
        detail_type: "message".to_string(),
        user: Some("U1".to_string()),
        text: Some("hello".to_string()),
        channel: Some("C1".to_string()),
        channel_type: None,
        ts: None,
        thread_ts: thread.map(str::to_string),
        bot_id: if bot { Some("B".to_string()) } else { None },
    }
}

#[test]
fn slack_events() {
    assert!(matches!(slack_action(&slack(Some("abc"), None)), SlackAction::Challenge(c) if c == "abc"));
    assert!(matches!(slack_action(&slack(None, None)), SlackAction::Ignore));
    assert!(matches!(slack_action(&slack(None, Some(detail(None, true)))), SlackAction::Ignore));
    match slack_action(&slack(None, Some(detail(Some("th.1"), false)))) {
        SlackAction::Handle(m) => {
            assert_eq!(m.user_id, "U1");
            assert_eq!(m.reply_target.as_deref(), Some("th.1"));
        },
        _ => panic!("expected a message"),
    }
    match slack_action(&slack(None, Some(detail(None, false)))) {
        SlackAction::Handle(m) => assert_eq!(m.reply_target.as_deref(), Some("C1")),
        _ => panic!("expected a message"),
    }
    let mut v = slack(Some("xyz"), None);
    v.event_type = "url_verification".to_string();
    assert_eq!(slack_url_verification(&v), Some("xyz".to_string()));
    assert_eq!(slack_url_verification(&slack(Some("xyz"), None)), None);
    assert!(slack_route(&slack(None, None)).is_none());
    let k = slack_route(&slack(None, Some(detail(None, false)))).unwrap();
    assert_eq!((k.user_id.as_str(), k.reply_target.as_str()), ("U1", "C1"));
}

fn dingtalk(text: Option<&str>, staff: Option<&str>) -> DingTalkWebhook {
    DingTalkWebhook {
        conversation_id: "conv".to_string(),
        at_user_ids: None,
        chatbot_corp_id: None,
        chatbot_user_id: None,
        msgtype: "text".to_string(),
        text: DingTalkText { content: text.map(str::to_string) },
        msgid: None,
        create_at: None,
        conversation_type: None,
        sender_id: "sender".to_string(),
        sender_nick: None,
        sender_corp_id: None,
        sender_staff_id: staff.map(str::to_string),
        session_webhook_expired_time: None,
        session_webhook: None,
        is_admin: None,
    }
}

#[test]
fn dingtalk_messages() {
    assert!(dingtalk_inbound(&dingtalk(None, None)).is_none());
    assert!(dingtalk_inbound(&dingtalk(Some("  \n"), None)).is_none());
    let m = dingtalk_inbound(&dingtalk(Some("hi"), Some("staff7"))).unwrap();
    assert_eq!((m.user_id.as_str(), m.reply_target.as_deref()), ("staff7", Some("conv")));
    let m = dingtalk_inbound(&dingtalk(Some("hi"), None)).unwrap();
    assert_eq!(m.user_id, "sender");
    let k = dingtalk_route(&dingtalk(Some("hi"), Some("staff7")));
    assert_eq!((k.user_id.as_str(), k.reply_target.as_str()), ("sender", "conv"));
    assert_eq!(dingtalk_mention("staff:abc"), Some(vec!["abc".to_string()]));
    assert_eq!(dingtalk_mention("abc"), None);
}

fn line_event(kind: &str, text: Option<&str>, group: Option<&str>) -> LineEvent {
    LineEvent {
        event_type: kind.to_string(),
        reply_token: None,
        timestamp: None,
        source: Some(LineSource {
            source_type: "user".to_string(),
            user_id: Some("L1".to_string()),
            group_id: group.map(str::to_string),
            room_id: None,
        }),
        message: Some(LineMessage { id: None, message_type: "text".to_string(), text: text.map(str::to_string) }),
    }
}

#[test]
fn line_events() {
    let w = LineWebhook {
        destination: None,
        events: vec![
            line_event("follow", Some("x"), None),
            line_event("message", Some("hello"), Some("G1")),
            line_event("message", Some("   "), None),
            line_event("message", Some("again"), None),
        ],
    };
    let ms = line_inbounds(&w);
    assert_eq!(ms.len(), 2);
    assert_eq!(ms[0].reply_target.as_deref(), Some("G1"));
    assert_eq!(ms[1].reply_target.as_deref(), Some("L1"));
    assert_eq!(ms[1].text, "again");
    let k = line_route(&w).unwrap();
    assert_eq!((k.user_id.as_str(), k.reply_target.as_str()), ("L1", "L1"));
    assert!(line_route(&LineWebhook { destination: None, events: vec![] }).is_none());
}

#[test]
fn feishu_qq_and_wechatwork_messages() {
    let f = FeishuMessage {
        token: "t".to_string(),
        ts: "1".to_string(),
        uuid: "u".to_string(),
        event: FeishuEvent {
            message: FeishuMessageContent { chat_id: "oc".to_string(), sender_id: FeishuSender { user_id: "F1".to_string() }, content: "hey".to_string() },
        },
    };
    let m = feishu_inbound(&f);
    assert_eq!((m.user_id.as_str(), m.reply_target.as_deref(), m.text.as_str()), ("F1", Some("F1"), "hey"));
    let q = QQMessage { id: "1".to_string(), author: QQUser { id: "Q1".to_string(), username: "n".to_string() }, content: "c".to_string(), channel_id: "ch".to_string() };
    let m = qq_inbound(&q);
    assert_eq!((m.user_id.as_str(), m.reply_target.as_deref()), ("Q1", Some("ch")));
    let mut w = WeChatWorkWebhook {
        to_user_name: "corp".to_string(),
        from_user_name: "W1".to_string(),
        create_time: 0,
        msg_type: "text".to_string(),
        content: Some("hi".to_string()),
        msg_id: None,
        agent_id: None,
        chat_id: None,
    };
    let m = wechatwork_inbound(&w).unwrap();
    assert_eq!((m.user_id.as_str(), m.reply_target.as_deref()), ("W1", None));
    assert_eq!(wechatwork_route(&w).reply_target, "W1");
    w.chat_id = Some("room".to_string());
    assert_eq!(wechatwork_route(&w).reply_target, "room");
    w.msg_type = "image".to_string();
    assert!(wechatwork_inbound(&w).is_none());
}

#[test]
fn wechatwork_tokens() {
    let ok = WeChatWorkTokenResponse { err_code: 0, err_msg: "ok".to_string(), access_token: Some("T".to_string()), expires_in: Some(7200) };
    assert_eq!(wechatwork_access_token(&ok).unwrap(), "T");
    let bad = WeChatWorkTokenResponse { err_code: 40013, err_msg: "invalid corpid".to_string(), access_token: None, expires_in: None };
    assert!(matches!(wechatwork_access_token(&bad), Err(AgentError::ChannelError(m)) if m == "WeChat Work API error: invalid corpid"));
    let none = WeChatWorkTokenResponse { err_code: 0, err_msg: "ok".to_string(), access_token: None, expires_in: None };
    assert!(matches!(wechatwork_access_token(&none), Err(AgentError::ChannelError(m)) if m == "WeChat Work token response missing access_token"));
}

#[test]
fn pending_messages_come_back_in_order_once() {
    let mut p = PendingMessages::new();
    p.add_pending_message("u".to_string(), "a".to_string());
    p.add_pending_message("v".to_string(), "x".to_string());
    p.add_pending_message("u".to_string(), "b".to_string());
    assert_eq!(p.get_pending_messages("u"), vec!["a".to_string(), "b".to_string()]);
    assert!(p.get_pending_messages("u").is_empty());
    assert_eq!(p.get_pending_messages("v"), vec!["x".to_string()]);
}

#[test]
fn gateway_query_replaces_version_and_encoding() {
    let p = |k: &str, v: &str| (k.to_string(), v.to_string());
    let q = agentim::protocol::gateway_query(vec![p("v", "9"), p("compress", "zlib-stream"), p("encoding", "etf")]);
    assert_eq!(q, vec![p("compress", "zlib-stream"), p("v", "10"), p("encoding", "json")]);
    assert_eq!(agentim::protocol::gateway_query(Vec::new()), vec![p("v", "10"), p("encoding", "json")]);
}
