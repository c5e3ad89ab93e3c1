use vstd::prelude::*;
use crate::strmap::StringMap;

verus! {

/// The kinds of agent backend.
#[derive(Clone, Copy, Debug, PartialEq, Eq, Structural)]
pub enum AgentType {
    Acp,
}

/// The name that `Display` gives an agent type.
pub open spec fn agent_type_name(t: AgentType) -> Seq<char> {
    match t {
        AgentType::Acp => "acp"@,
    }
}

impl AgentType {
    /// The lower-case name of the agent type.
    pub fn name(&self) -> (r: String)
        ensures
            r@ == agent_type_name(*self),
    {
        match self {
            AgentType::Acp => String::from_str("acp"),
        }
    }
}

/// The chat platforms.
#[derive(Clone, Copy, Debug, PartialEq, Eq, Structural)]
pub enum ChannelType {
    Telegram,
    Discord,
    Feishu,
    QQ,
    Slack,
    DingTalk,
    WeChatWork,
    Line,
}

/// The name that `Display` gives a channel type.
pub open spec fn channel_type_name(t: ChannelType) -> Seq<char> {
    match t {
        ChannelType::Telegram => "telegram"@,
        ChannelType::Discord => "discord"@,
        ChannelType::Feishu => "feishu"@,
        ChannelType::QQ => "qq"@,
        ChannelType::Slack => "slack"@,
        ChannelType::DingTalk => "dingtalk"@,
        ChannelType::WeChatWork => "wechatwork"@,
        ChannelType::Line => "line"@,
    }
}

impl ChannelType {
    /// The lower-case name of the channel type.
    pub fn name(&self) -> (r: String)
        ensures
            r@ == channel_type_name(*self),
    {
        match self {
            ChannelType::Telegram => String::from_str("telegram"),
            ChannelType::Discord => String::from_str("discord"),
            ChannelType::Feishu => String::from_str("feishu"),
            ChannelType::QQ => String::from_str("qq"),
            ChannelType::Slack => String::from_str("slack"),
            ChannelType::DingTalk => String::from_str("dingtalk"),
            ChannelType::WeChatWork => String::from_str("wechatwork"),
            ChannelType::Line => String::from_str("line"),
        }
    }
}

/// A channel's platform and the credentials that reach it.
pub struct ChannelConfig {
    pub channel_type: ChannelType,
    pub credentials: StringMap,
}

} // verus!
