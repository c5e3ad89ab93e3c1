use vstd::prelude::*;
use crate::text::{has_prefix, str_eq, str_starts_with};

verus! {

/// A rule that sends messages to an agent. Each condition that is set must
/// hold; the rule with the highest priority wins, then the most specific.
#[derive(Clone, Debug)]
pub struct RoutingRule {
    pub channel: Option<String>,
    pub user_id: Option<String>,
    pub user_prefix: Option<String>,
    pub reply_target: Option<String>,
    pub reply_target_prefix: Option<String>,
    pub priority: i32,
    pub agent_id: String,
}

/// An unset condition holds; a set one holds when it equals `x`.
pub open spec fn opt_is(o: Option<String>, x: Seq<char>) -> bool {
    match o {
        Some(v) => v@ == x,
        None => true,
    }
}

/// An unset condition holds; a set one holds when it is a prefix of `x`.
pub open spec fn opt_prefix(o: Option<String>, x: Seq<char>) -> bool {
    match o {
        Some(v) => has_prefix(x, v@),
        None => true,
    }
}

/// Every condition of the rule holds for this message.
pub open spec fn rule_matches(r: RoutingRule, channel: Seq<char>, user_id: Seq<char>, reply_target: Seq<char>) -> bool {
    &&& opt_is(r.channel, channel)
    &&& opt_is(r.user_id, user_id)
    &&& opt_prefix(r.user_prefix, user_id)
    &&& opt_is(r.reply_target, reply_target)
    &&& opt_prefix(r.reply_target_prefix, reply_target)
}

/// 1 when the condition is set, else 0.
pub open spec fn set_count(b: bool) -> int {
    if b { 1 } else { 0 }
}

/// The number of conditions that the rule sets.
pub open spec fn rule_specificity(r: RoutingRule) -> int {
    set_count(r.channel is Some) + set_count(r.user_id is Some) + set_count(r.user_prefix is Some)
        + set_count(r.reply_target is Some) + set_count(r.reply_target_prefix is Some)
}

/// `a` ranks at least as high as `b`: by priority, then by specificity.
pub open spec fn ranks_at_least(a: RoutingRule, b: RoutingRule) -> bool {
    a.priority > b.priority || (a.priority == b.priority && rule_specificity(a) >= rule_specificity(b))
}

/// The position of the winning rule: among the matching rules, one of the
/// highest rank, the last of them when several share it.
pub open spec fn best_rule(rules: Seq<RoutingRule>, channel: Seq<char>, user_id: Seq<char>, reply_target: Seq<char>) -> Option<int>
    decreases rules.len(),
{
    if rules.len() == 0 {
        None
    } else {
        let b = best_rule(rules.drop_last(), channel, user_id, reply_target);
        let last = rules.len() - 1;
        if rule_matches(rules.last(), channel, user_id, reply_target) {
            match b {
                Some(i) => if ranks_at_least(rules.last(), rules[i]) { Some(last) } else { Some(i) },
                None => Some(last),
            }
        } else {
            b
        }
    }
}

/// The agent that a message goes to: that of the winning rule, else the
/// fallback.
pub open spec fn resolved_agent(rules: Seq<RoutingRule>, channel: Seq<char>, user_id: Seq<char>, reply_target: Seq<char>, fallback: Seq<char>) -> Seq<char> {
    match best_rule(rules, channel, user_id, reply_target) {
        Some(i) => rules[i].agent_id@,
        None => fallback,
    }
}

/// The winning rule matches, ranks at least as high as every matching rule,
/// and strictly higher than every matching rule after it; there is no winner
/// only when no rule matches.
pub proof fn lemma_best_rule(rules: Seq<RoutingRule>, channel: Seq<char>, user_id: Seq<char>, reply_target: Seq<char>)
    ensures
        best_rule(rules, channel, user_id, reply_target) is None ==>
            forall|j: int| 0 <= j < rules.len() ==> !rule_matches(#[trigger] rules[j], channel, user_id, reply_target),
        best_rule(rules, channel, user_id, reply_target) matches Some(i) ==> {
            &&& 0 <= i < rules.len()
            &&& rule_matches(rules[i], channel, user_id, reply_target)
            &&& forall|j: int| 0 <= j < rules.len() && rule_matches(#[trigger] rules[j], channel, user_id, reply_target) ==> ranks_at_least(rules[i], rules[j])
            &&& forall|j: int| i < j < rules.len() && rule_matches(#[trigger] rules[j], channel, user_id, reply_target) ==> !ranks_at_least(rules[j], rules[i])
        },
    decreases rules.len(),
{
    if rules.len() > 0 {
        let p = rules.drop_last();
        lemma_best_rule(p, channel, user_id, reply_target);
        assert forall|j: int| 0 <= j < p.len() implies p[j] == #[trigger] rules[j] by {}
    }
}

/// The rule that wins sets no condition that the message breaks: its
/// channel, user and reply target are the message's when set, and the
/// message's user and reply target start with its prefixes when set; no rule
/// whose conditions all hold has a higher priority. When some rule's
/// conditions all hold, there is a winner.
pub proof fn lemma_winner_conditions_hold(rules: Seq<RoutingRule>, channel: Seq<char>, user_id: Seq<char>, reply_target: Seq<char>)
    ensures
        best_rule(rules, channel, user_id, reply_target) matches Some(i) ==> {
            &&& 0 <= i < rules.len()
            &&& rules[i].channel is Some ==> rules[i].channel->0@ == channel
            &&& rules[i].user_id is Some ==> rules[i].user_id->0@ == user_id
            &&& rules[i].user_prefix is Some ==> has_prefix(user_id, rules[i].user_prefix->0@)
            &&& rules[i].reply_target is Some ==> rules[i].reply_target->0@ == reply_target
            &&& rules[i].reply_target_prefix is Some ==> has_prefix(reply_target, rules[i].reply_target_prefix->0@)
            &&& forall|j: int| 0 <= j < rules.len()
                && (#[trigger] rules[j].channel is None || rules[j].channel->0@ == channel)
                && (rules[j].user_id is None || rules[j].user_id->0@ == user_id)
                && (rules[j].user_prefix is None || has_prefix(user_id, rules[j].user_prefix->0@))
                && (rules[j].reply_target is None || rules[j].reply_target->0@ == reply_target)
                && (rules[j].reply_target_prefix is None || has_prefix(reply_target, rules[j].reply_target_prefix->0@))
                ==> rules[j].priority <= rules[i].priority
        },
        (exists|j: int| 0 <= j < rules.len()
            && (#[trigger] rules[j].channel is None || rules[j].channel->0@ == channel)
            && (rules[j].user_id is None || rules[j].user_id->0@ == user_id)
            && (rules[j].user_prefix is None || has_prefix(user_id, rules[j].user_prefix->0@))
            && (rules[j].reply_target is None || rules[j].reply_target->0@ == reply_target)
            && (rules[j].reply_target_prefix is None || has_prefix(reply_target, rules[j].reply_target_prefix->0@)))
            ==> best_rule(rules, channel, user_id, reply_target) is Some,
{
    lemma_best_rule(rules, channel, user_id, reply_target);
    if best_rule(rules, channel, user_id, reply_target) is Some {
        let i = best_rule(rules, channel, user_id, reply_target)->0;
        assert forall|j: int| 0 <= j < rules.len()
            && (#[trigger] rules[j].channel is None || rules[j].channel->0@ == channel)
            && (rules[j].user_id is None || rules[j].user_id->0@ == user_id)
            && (rules[j].user_prefix is None || has_prefix(user_id, rules[j].user_prefix->0@))
            && (rules[j].reply_target is None || rules[j].reply_target->0@ == reply_target)
            && (rules[j].reply_target_prefix is None || has_prefix(reply_target, rules[j].reply_target_prefix->0@))
            implies rules[j].priority <= rules[i].priority by {
            assert(rule_matches(rules[j], channel, user_id, reply_target));
        }
    }
    if exists|j: int| 0 <= j < rules.len()
            && (#[trigger] rules[j].channel is None || rules[j].channel->0@ == channel)
            && (rules[j].user_id is None || rules[j].user_id->0@ == user_id)
            && (rules[j].user_prefix is None || has_prefix(user_id, rules[j].user_prefix->0@))
            && (rules[j].reply_target is None || rules[j].reply_target->0@ == reply_target)
            && (rules[j].reply_target_prefix is None || has_prefix(reply_target, rules[j].reply_target_prefix->0@)) {
        let j = choose|j: int| 0 <= j < rules.len()
            && (#[trigger] rules[j].channel is None || rules[j].channel->0@ == channel)
            && (rules[j].user_id is None || rules[j].user_id->0@ == user_id)
            && (rules[j].user_prefix is None || has_prefix(user_id, rules[j].user_prefix->0@))
            && (rules[j].reply_target is None || rules[j].reply_target->0@ == reply_target)
            && (rules[j].reply_target_prefix is None || has_prefix(reply_target, rules[j].reply_target_prefix->0@));
        assert(rule_matches(rules[j], channel, user_id, reply_target));
    }
}

impl RoutingRule {
    /// Whether every condition of the rule holds for this message.
    pub fn matches(&self, channel: &str, user_id: &str, reply_target: &str) -> (r: bool)
        ensures
            r == rule_matches(*self, channel@, user_id@, reply_target@),
    {
        let c = match &self.channel {
            Some(v) => str_eq(v.as_str(), channel),
            None => true,
        };
        let u = match &self.user_id {
            Some(v) => str_eq(v.as_str(), user_id),
            None => true,
        };
        let up = match &self.user_prefix {
            Some(v) => str_starts_with(user_id, v.as_str()),
            None => true,
        };
        let t = match &self.reply_target {
            Some(v) => str_eq(v.as_str(), reply_target),
            None => true,
        };
        let tp = match &self.reply_target_prefix {
            Some(v) => str_starts_with(reply_target, v.as_str()),
            None => true,
        };
        c && u && up && t && tp
    }

    /// The number of conditions that the rule sets (0 to 5).
    pub fn specificity(&self) -> (r: i32)
        ensures
            r == rule_specificity(*self),
            0 <= r <= 5,
    {
        let mut n: i32 = 0;
        if self.channel.is_some() {
            n = n + 1;
        }
        if self.user_id.is_some() {
            n = n + 1;
        }
        if self.user_prefix.is_some() {
            n = n + 1;
        }
        if self.reply_target.is_some() {
            n = n + 1;
        }
        if self.reply_target_prefix.is_some() {
            n = n + 1;
        }
        n
    }
}

/// How the webhook server routes, limits and authenticates.
#[derive(Clone, Debug)]
pub struct BotServerConfig {
    pub telegram_agent_id: String,
    pub discord_agent_id: String,
    pub feishu_agent_id: String,
    pub qq_agent_id: String,
    pub slack_agent_id: String,
    pub dingtalk_agent_id: String,
    pub line_agent_id: String,
    pub wechatwork_agent_id: String,
    pub routing_rules: Vec<RoutingRule>,
    pub max_session_messages: Option<usize>,
    pub context_message_limit: usize,
    pub agent_timeout_ms: Option<u64>,
    pub state_file: Option<String>,
    pub state_backup_count: usize,
    pub webhook_secret: Option<String>,
    pub webhook_signing_secret: Option<String>,
    pub webhook_max_skew_seconds: i64,
    pub discord_interaction_public_key: Option<String>,
    pub feishu_verification_token: Option<String>,
    pub slack_signing_secret: Option<String>,
    pub dingtalk_secret: Option<String>,
    pub line_channel_secret: Option<String>,
    pub session_ttl_seconds: Option<u64>,
    pub metrics_secret: Option<String>,
}

impl BotServerConfig {
    /// The agent that a message goes to: that of the matching rule with the
    /// highest (priority, specificity), the last such rule on a tie, else
    /// `fallback`.
    pub fn resolve_agent<'a>(&'a self, channel: &str, user_id: &str, reply_target: &str, fallback: &'a str) -> (r: &'a str)
        ensures
            r@ == resolved_agent(self.routing_rules@, channel@, user_id@, reply_target@, fallback@),
    {
        let rules = &self.routing_rules;
        let mut best: Option<usize> = None;
        let mut i: usize = 0;
        while i < rules.len()
            invariant
                0 <= i <= rules@.len(),
                best_rule(rules@.subrange(0, i as int), channel@, user_id@, reply_target@) == match best {
                    Some(b) => Some(b as int),
                    None => None::<int>,
                },
                best matches Some(b) ==> b < i,
            decreases rules@.len() - i,
        {
            let ghost pre = rules@.subrange(0, i as int);
            assert(rules@.subrange(0, i + 1).drop_last() =~= pre);
            if rules[i].matches(channel, user_id, reply_target) {
                match best {
                    Some(b) => {
                        let pi = rules[i].priority;
                        let pb = rules[b].priority;
                        let si = rules[i].specificity();
                        let sb = rules[b].specificity();
                        if pi > pb || (pi == pb && si >= sb) {
                            best = Some(i);
                        }
                    },
                    None => {
                        best = Some(i);
                    },
                }
            }
            i = i + 1;
        }
        assert(rules@.subrange(0, rules@.len() as int) =~= rules@);
        match best {
            Some(b) => rules[b].agent_id.as_str(),
            None => fallback,
        }
    }
}

impl Default for BotServerConfig {
    /// Every platform goes to `default-agent`; no rules, limits, state file
    /// or secrets; a context of 10 messages and a skew of 300 seconds.
    fn default() -> (r: Self)
        ensures
            r.telegram_agent_id@ == "default-agent"@,
            r.discord_agent_id@ == "default-agent"@,
            r.feishu_agent_id@ == "default-agent"@,
            r.qq_agent_id@ == "default-agent"@,
            r.slack_agent_id@ == "default-agent"@,
            r.dingtalk_agent_id@ == "default-agent"@,
            r.line_agent_id@ == "default-agent"@,
            r.wechatwork_agent_id@ == "default-agent"@,
            r.routing_rules@.len() == 0,
            r.max_session_messages is None,
            r.context_message_limit == 10,
            r.agent_timeout_ms is None,
            r.state_file is None,
            r.state_backup_count == 0,
            r.webhook_secret is None,
            r.webhook_signing_secret is None,
            r.webhook_max_skew_seconds == 300,
            r.discord_interaction_public_key is None,
            r.feishu_verification_token is None,
            r.slack_signing_secret is None,
            r.dingtalk_secret is None,
            r.line_channel_secret is None,
            r.session_ttl_seconds is None,
            r.metrics_secret is None,
    {
        BotServerConfig {
            telegram_agent_id: String::from_str("default-agent"),
            discord_agent_id: String::from_str("default-agent"),
            feishu_agent_id: String::from_str("default-agent"),
            qq_agent_id: String::from_str("default-agent"),
            slack_agent_id: String::from_str("default-agent"),
            dingtalk_agent_id: String::from_str("default-agent"),
            line_agent_id: String::from_str("default-agent"),
            wechatwork_agent_id: String::from_str("default-agent"),
            routing_rules: Vec::new(),
            max_session_messages: None,
            context_message_limit: 10,
            agent_timeout_ms: None,
            state_file: None,
            state_backup_count: 0,
            webhook_secret: None,
            webhook_signing_secret: None,
            webhook_max_skew_seconds: 300,
            discord_interaction_public_key: None,
            feishu_verification_token: None,
            slack_signing_secret: None,
            dingtalk_secret: None,
            line_channel_secret: None,
            session_ttl_seconds: None,
            metrics_secret: None,
        }
    }
}

} // verus!
