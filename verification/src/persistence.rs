use vstd::prelude::*;

verus! {

/// A configured agent.
#[derive(Clone, Debug)]
pub struct AgentConfig {
    pub id: String,
    pub agent_type: String,
    pub model: Option<String>,
}

/// A configured channel.
#[derive(Clone, Debug)]
pub struct ChannelConfig {
    pub id: String,
    pub channel_type: String,
}

/// A configured session.
#[derive(Clone, Debug)]
pub struct SessionConfig {
    pub agent_id: String,
    pub channel_id: String,
    pub user_id: String,
}

/// The agents, channels and sessions that a configuration file lists.
pub struct PersistenceConfig {
    pub agents: Vec<AgentConfig>,
    pub channels: Vec<ChannelConfig>,
    pub sessions: Vec<SessionConfig>,
}

impl PersistenceConfig {
    /// An empty configuration.
    pub fn new() -> (r: Self)
        ensures
            r.agents@.len() == 0,
            r.channels@.len() == 0,
            r.sessions@.len() == 0,
    {
        PersistenceConfig { agents: Vec::new(), channels: Vec::new(), sessions: Vec::new() }
    }

    /// Adds an agent at the end.
    pub fn add_agent(&mut self, agent: AgentConfig)
        ensures
            final(self).agents@ == old(self).agents@.push(agent),
            final(self).channels@ == old(self).channels@,
            final(self).sessions@ == old(self).sessions@,
    {
        self.agents.push(agent);
    }

    /// Adds a channel at the end.
    pub fn add_channel(&mut self, channel: ChannelConfig)
        ensures
            final(self).channels@ == old(self).channels@.push(channel),
            final(self).agents@ == old(self).agents@,
            final(self).sessions@ == old(self).sessions@,
    {
        self.channels.push(channel);
    }

    /// Adds a session at the end.
    pub fn add_session(&mut self, session: SessionConfig)
        ensures
            final(self).sessions@ == old(self).sessions@.push(session),
            final(self).agents@ == old(self).agents@,
            final(self).channels@ == old(self).channels@,
    {
        self.sessions.push(session);
    }
}

impl Default for PersistenceConfig {
    /// An empty configuration.
    fn default() -> (r: Self)
        ensures
            r.agents@.len() == 0,
            r.channels@.len() == 0,
            r.sessions@.len() == 0,
    {
        PersistenceConfig::new()
    }
}

} // verus!
