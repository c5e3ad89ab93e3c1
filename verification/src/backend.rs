use vstd::prelude::*;
use crate::error::AgentError;
use crate::session::{Message, MessageRole, Session};
use crate::strmap::StringMap;
use crate::text::{join_spec, trim_spec, is_blank, str_blank, to_chars, from_chars, trim_chars, join_chars, str_eq};

verus! {

/// The views of a list of strings.
pub open spec fn arg_views(args: Seq<String>) -> Seq<Seq<char>> {
    args.map_values(|a: String| a@)
}

/// How a backend is described: the command, followed by its arguments
/// separated by spaces when there are any.
pub open spec fn describe_spec(command: Seq<char>, args: Seq<Seq<char>>) -> Seq<char> {
    if args.len() == 0 { command } else { command + seq![' '] + join_spec(args, seq![' ']) }
}

fn describe_command(command: &str, args: &Vec<String>) -> (r: String)
    ensures
        r@ == describe_spec(command@, arg_views(args@)),
{
    if args.len() == 0 {
        return String::from_str(command);
    }
    let mut parts: Vec<Vec<char>> = Vec::new();
    let mut i: usize = 0;
    while i < args.len()
        invariant
            0 <= i <= args@.len(),
            parts@.map_values(|p: Vec<char>| p@) == arg_views(args@).subrange(0, i as int),
        decreases args@.len() - i,
    {
        let ghost before = parts@.map_values(|p: Vec<char>| p@);
        parts.push(to_chars(args[i].as_str()));
        assert(parts@.map_values(|p: Vec<char>| p@) =~= before.push(args@[i as int]@));
        assert(arg_views(args@).subrange(0, i + 1) =~= arg_views(args@).subrange(0, i as int).push(args@[i as int]@));
        i = i + 1;
    }
    assert(arg_views(args@).subrange(0, args@.len() as int) =~= arg_views(args@));
    let mut v = to_chars(command);
    v.push(' ');
    let joined = join_chars(&parts, &[' ']);
    crate::text::append_chars(&mut v, joined.as_slice());
    assert(seq![' '] =~= [' ']@);
    from_chars(v.as_slice())
}

/// How to start an ACP agent process.
pub struct AcpBackendConfig {
    pub command: String,
    pub args: Vec<String>,
    pub cwd: String,
    pub env: StringMap,
}

impl AcpBackendConfig {
    /// The command line of the backend, for logs and session metadata.
    pub fn describe(&self) -> (r: String)
        ensures
            r@ == describe_spec(self.command@, arg_views(self.args@)),
    {
        describe_command(self.command.as_str(), &self.args)
    }
}

/// How to start a Codex app server.
pub struct CodexBackendConfig {
    pub command: String,
    pub args: Vec<String>,
    pub cwd: String,
    pub env: StringMap,
}

impl CodexBackendConfig {
    /// The command line of the backend, for logs and session metadata.
    pub fn describe(&self) -> (r: String)
        ensures
            r@ == describe_spec(self.command@, arg_views(self.args@)),
    {
        describe_command(self.command.as_str(), &self.args)
    }
}

/// The position of the last message from the user.
pub open spec fn last_user_index(ms: Seq<Message>) -> Option<int>
    decreases ms.len(),
{
    if ms.len() == 0 {
        None
    } else if ms.last().role == MessageRole::User {
        Some(ms.len() - 1)
    } else {
        last_user_index(ms.drop_last())
    }
}

/// The text to prompt with: the last message from the user, else the last
/// message, else nothing.
pub open spec fn latest_user_spec(ms: Seq<Message>) -> Seq<char> {
    match last_user_index(ms) {
        Some(i) => ms[i].content@,
        None => if ms.len() > 0 { ms.last().content@ } else { Seq::empty() },
    }
}

/// The text to prompt with; see `latest_user_spec`.
pub fn latest_user_message(messages: &[Message]) -> (r: String)
    ensures
        r@ == latest_user_spec(messages@),
{
    let n = messages.len();
    let mut i = n;
    assert(messages@.subrange(0, n as int) =~= messages@);
    while i > 0
        invariant
            i <= n == messages@.len(),
            last_user_index(messages@) == last_user_index(messages@.subrange(0, i as int)),
        decreases i,
    {
        let ghost pre = messages@.subrange(0, i as int);
        assert(pre.drop_last() =~= messages@.subrange(0, i - 1));
        assert(pre.last() == messages@[i - 1]);
        if messages[i - 1].role == MessageRole::User {
            return messages[i - 1].content.clone();
        }
        i = i - 1;
    }
    assert(messages@.subrange(0, 0) =~= Seq::<Message>::empty());
    if n > 0 {
        messages[n - 1].content.clone()
    } else {
        String::new()
    }
}

/// The label of a role in a transcript.
pub open spec fn role_label(r: MessageRole) -> Seq<char> {
    match r {
        MessageRole::User => "User"@,
        MessageRole::Assistant => "Assistant"@,
        MessageRole::System => "System"@,
    }
}

/// Each message as `Role: text` (the text trimmed), followed by a blank
/// line.
pub open spec fn transcript(ms: Seq<Message>) -> Seq<char>
    decreases ms.len(),
{
    if ms.len() == 0 {
        Seq::empty()
    } else {
        transcript(ms.drop_last()) + role_label(ms.last().role) + ": "@ + trim_spec(ms.last().content@) + "\n\n"@
    }
}

/// The opening of a prompt that replays a conversation.
pub open spec fn bootstrap_head() -> Seq<char> {
    "AgentIM is reconnecting an existing conversation. Continue naturally from the transcript below.\n\n"@
}

/// The close of a prompt that replays a conversation.
pub open spec fn bootstrap_tail() -> Seq<char> {
    "Please answer the latest user message."@
}

/// The prompt for a fresh remote session: the latest user message alone for
/// one message or none, else the whole transcript between an opening and a
/// request to answer.
pub open spec fn bootstrap_spec(ms: Seq<Message>) -> Seq<char> {
    if ms.len() <= 1 { latest_user_spec(ms) } else { bootstrap_head() + transcript(ms) + bootstrap_tail() }
}

fn role_label_text(r: MessageRole) -> (s: &'static str)
    ensures
        s@ == role_label(r),
{
    match r {
        MessageRole::User => "User",
        MessageRole::Assistant => "Assistant",
        MessageRole::System => "System",
    }
}

/// The prompt for a fresh remote session; see `bootstrap_spec`.
pub fn build_bootstrap_prompt(messages: &[Message]) -> (r: String)
    ensures
        r@ == bootstrap_spec(messages@),
{
    if messages.len() <= 1 {
        return latest_user_message(messages);
    }
    let mut v = to_chars("AgentIM is reconnecting an existing conversation. Continue naturally from the transcript below.\n\n");
    let ghost head = v@;
    let mut i: usize = 0;
    while i < messages.len()
        invariant
            0 <= i <= messages@.len(),
            v@ == head + transcript(messages@.subrange(0, i as int)),
        decreases messages@.len() - i,
    {
        let ghost before = v@;
        assert(messages@.subrange(0, i + 1).drop_last() =~= messages@.subrange(0, i as int));
        crate::text::append_str(&mut v, role_label_text(messages[i].role));
        crate::text::append_str(&mut v, ": ");
        let t = trim_chars(to_chars(messages[i].content.as_str()).as_slice());
        crate::text::append_chars(&mut v, t.as_slice());
        crate::text::append_str(&mut v, "\n\n");
        assert(v@ =~= before + role_label(messages@[i as int].role) + ": "@ + trim_spec(messages@[i as int].content@) + "\n\n"@);
        i = i + 1;
    }
    assert(messages@.subrange(0, messages@.len() as int) =~= messages@);
    crate::text::append_str(&mut v, "Please answer the latest user message.");
    from_chars(v.as_slice())
}

/// The prompt to send: the replayed conversation to a fresh remote session,
/// the latest user message to one that knows it.
pub fn prompt_for(fresh: bool, messages: &[Message]) -> (r: String)
    ensures
        r@ == if fresh { bootstrap_spec(messages@) } else { latest_user_spec(messages@) },
{
    if fresh { build_bootstrap_prompt(messages) } else { latest_user_message(messages) }
}

/// The metadata key under which a session keeps its remote ACP session.
pub open spec fn acp_session_key() -> Seq<char> { "acp_session_id"@ }

/// Who the ACP agent says it is.
pub struct AgentInfo {
    pub name: String,
    pub title: Option<String>,
    pub version: String,
}

/// How a session records its remote ACP session: the remote id, the backend,
/// and `title@version` of the agent (its name when it has no title).
pub open spec fn acp_metadata(m: Map<Seq<char>, Seq<char>>, backend: Seq<char>, remote_id: Seq<char>, info: Option<(Seq<char>, Option<Seq<char>>, Seq<char>)>) -> Map<Seq<char>, Seq<char>> {
    let m1 = m.insert(acp_session_key(), remote_id).insert("acp_backend"@, backend);
    match info {
        Some((name, title, version)) => m1.insert("acp_agent"@, match title { Some(t) => t, None => name } + seq!['@'] + version),
        None => m1,
    }
}

/// The plain value of agent info.
pub open spec fn info_view(i: Option<&AgentInfo>) -> Option<(Seq<char>, Option<Seq<char>>, Seq<char>)> {
    match i {
        Some(x) => Some((x.name@, match x.title { Some(t) => Some(t@), None => None }, x.version@)),
        None => None,
    }
}

/// Records the remote ACP session in the session's metadata; see
/// `acp_metadata`.
pub fn apply_acp_session_metadata(session: &mut Session, backend_description: &str, remote_session_id: &str, agent_info: Option<&AgentInfo>)
    ensures
        final(session).metadata@ == acp_metadata(old(session).metadata@, backend_description@, remote_session_id@, info_view(agent_info)),
        final(session).messages@ == old(session).messages@,
        final(session).id == old(session).id,
        final(session).agent_id == old(session).agent_id,
        final(session).channel_id == old(session).channel_id,
        final(session).user_id == old(session).user_id,
        final(session).created_at == old(session).created_at,
        final(session).updated_at == old(session).updated_at,
{
    let _ = session.metadata.insert(String::from_str("acp_session_id"), String::from_str(remote_session_id));
    let _ = session.metadata.insert(String::from_str("acp_backend"), String::from_str(backend_description));
    match agent_info {
        Some(info) => {
            let mut v = match &info.title {
                Some(t) => to_chars(t.as_str()),
                None => to_chars(info.name.as_str()),
            };
            v.push('@');
            crate::text::append_str(&mut v, info.version.as_str());
            let text = from_chars(v.as_slice());
            assert(text@ == match info_view(agent_info) {
                Some((name, title, version)) => (match title { Some(t) => t, None => name }) + seq!['@'] + version,
                None => Seq::<char>::empty(),
            });
            let _ = session.metadata.insert(String::from_str("acp_agent"), text);
        },
        None => {},
    }
}

/// A Codex thread: its id and, when the server tells, its file.
pub struct ThreadInfo {
    pub id: String,
    pub path: Option<String>,
}

/// How a session records its Codex thread: the thread id, the backend, and
/// the thread's path when known.
pub open spec fn codex_metadata(m: Map<Seq<char>, Seq<char>>, backend: Seq<char>, id: Seq<char>, path: Option<Seq<char>>) -> Map<Seq<char>, Seq<char>> {
    let m1 = m.insert("codex_thread_id"@, id).insert("codex_backend"@, backend);
    match path {
        Some(p) => m1.insert("codex_thread_path"@, p),
        None => m1,
    }
}

/// Records the Codex thread in the session's metadata; see `codex_metadata`.
pub fn apply_codex_session_metadata(session: &mut Session, backend_description: &str, thread: &ThreadInfo)
    ensures
        final(session).metadata@ == codex_metadata(old(session).metadata@, backend_description@, thread.id@,
            match thread.path { Some(p) => Some(p@), None => None }),
        final(session).messages@ == old(session).messages@,
        final(session).id == old(session).id,
        final(session).agent_id == old(session).agent_id,
        final(session).channel_id == old(session).channel_id,
        final(session).user_id == old(session).user_id,
        final(session).created_at == old(session).created_at,
        final(session).updated_at == old(session).updated_at,
{
    let _ = session.metadata.insert(String::from_str("codex_thread_id"), thread.id.clone());
    let _ = session.metadata.insert(String::from_str("codex_backend"), String::from_str(backend_description));
    match &thread.path {
        Some(p) => {
            let _ = session.metadata.insert(String::from_str("codex_thread_path"), p.clone());
        },
        None => {},
    }
}

/// What a Codex response holds about a thread: `thread` and its `id` must be
/// there.
pub fn parse_thread(thread_present: bool, id: Option<String>, path: Option<String>) -> (r: Result<ThreadInfo, String>)
    ensures
        !thread_present ==> (r matches Err(e) && e@ == "Codex response missing thread"@),
        thread_present && id is None ==> (r matches Err(e) && e@ == "Codex thread response missing id"@),
        thread_present && id is Some ==> (r matches Ok(t) && Some(t.id) == id && t.path == path),
{
    if !thread_present {
        return Err(String::from_str("Codex response missing thread"));
    }
    match id {
        Some(i) => Ok(ThreadInfo { id: i, path }),
        None => Err(String::from_str("Codex thread response missing id")),
    }
}

/// The turn id of a `turn/start` response, which must be there.
pub fn parse_turn_id(id: Option<String>) -> (r: Result<String, String>)
    ensures
        id is Some ==> r == Ok::<String, String>(id->0),
        id is None ==> (r matches Err(e) && e@ == "Codex turn/start response missing turn id"@),
{
    match id {
        Some(i) => Ok(i),
        None => Err(String::from_str("Codex turn/start response missing turn id")),
    }
}

/// The message of an RPC error: with its data, `message (data)`.
pub fn rpc_error_message(message: &str, data: Option<&str>) -> (r: String)
    ensures
        r@ == match data { Some(d) => message@ + " ("@ + d@ + ")"@, None => message@ },
{
    match data {
        Some(d) => {
            let mut v = to_chars(message);
            crate::text::append_str(&mut v, " (");
            crate::text::append_str(&mut v, d);
            crate::text::append_str(&mut v, ")");
            from_chars(v.as_slice())
        },
        None => String::from_str(message),
    }
}

/// The RPC code for a resource that the ACP agent does not have.
pub const ACP_RESOURCE_NOT_FOUND_CODE: i32 = -32002;

/// An ACP error says the remote session is gone: its code, or a message that
/// mentions a session in any case.
pub open spec fn acp_session_gone(code: i32, message: Seq<char>) -> bool {
    code == ACP_RESOURCE_NOT_FOUND_CODE || crate::text::occurs_in(crate::text::ascii_lower_seq(message), "session"@)
}

/// Whether an ACP RPC error says the remote session is gone.
pub fn is_session_not_found(code: i32, message: &str) -> (r: bool)
    ensures
        r == acp_session_gone(code, message@),
{
    if code == ACP_RESOURCE_NOT_FOUND_CODE {
        return true;
    }
    let lower = crate::text::lower_ascii_chars(to_chars(message).as_slice());
    crate::text::chars_contain(lower.as_slice(), to_chars("session").as_slice())
}

/// A Codex error says the thread is gone: a message that mentions a missing
/// rollout or a thread id, in any case.
pub open spec fn codex_thread_gone(message: Seq<char>) -> bool {
    crate::text::occurs_in(crate::text::ascii_lower_seq(message), "no rollout found"@)
        || crate::text::occurs_in(crate::text::ascii_lower_seq(message), "thread id"@)
}

/// Whether a Codex RPC error says the thread is gone.
pub fn is_thread_not_found(message: &str) -> (r: bool)
    ensures
        r == codex_thread_gone(message@),
{
    let lower = crate::text::lower_ascii_chars(to_chars(message).as_slice());
    crate::text::chars_contain(lower.as_slice(), to_chars("no rollout found").as_slice())
        || crate::text::chars_contain(lower.as_slice(), to_chars("thread id").as_slice())
}

/// Which backend a client error comes from.
#[derive(Clone, Copy, Debug)]
pub enum Backend {
    Acp,
    Codex,
}

/// The name of a backend in messages.
pub open spec fn backend_name(b: Backend) -> Seq<char> {
    match b {
        Backend::Acp => "ACP"@,
        Backend::Codex => "Codex"@,
    }
}

fn backend_text(b: Backend) -> (s: &'static str)
    ensures
        s@ == backend_name(b),
{
    match b {
        Backend::Acp => "ACP",
        Backend::Codex => "Codex",
    }
}

/// What goes wrong while talking to a backend.
#[derive(Debug)]
pub enum ClientError {
    TransportClosed,
    Protocol(String),
    Serialization(String),
    Io(String),
    Rpc(i32, String),
}

impl ClientError {
    /// The connection itself failed: worth one reconnect.
    pub fn is_transport(&self) -> (r: bool)
        ensures
            r == (self is TransportClosed || self is Io),
    {
        match self {
            ClientError::TransportClosed => true,
            ClientError::Io(_) => true,
            _ => false,
        }
    }
}

/// The error that a failed exchange with a backend becomes.
pub fn into_agent_error(backend: Backend, e: ClientError) -> (r: AgentError)
    ensures
        match e {
            ClientError::TransportClosed => r matches AgentError::ApiError(m) && m@ == backend_name(backend) + " transport closed unexpectedly"@,
            ClientError::Protocol(m) => r == AgentError::ApiError(m),
            ClientError::Serialization(m) => r == AgentError::SerializationError(m),
            ClientError::Io(m) => r == AgentError::IoError(m),
            ClientError::Rpc(code, m) => r matches AgentError::ApiError(x)
                && x@ == backend_name(backend) + " RPC error "@ + crate::number::signed_decimal(code as int) + ": "@ + m@,
        },
{
    match e {
        ClientError::TransportClosed => {
            let mut v = to_chars(backend_text(backend));
            crate::text::append_str(&mut v, " transport closed unexpectedly");
            let m = from_chars(v.as_slice());
            assert(m@ == backend_name(backend) + " transport closed unexpectedly"@);
            AgentError::ApiError(m)
        },
        ClientError::Protocol(m) => AgentError::ApiError(m),
        ClientError::Serialization(m) => AgentError::SerializationError(m),
        ClientError::Io(m) => AgentError::IoError(m),
        ClientError::Rpc(code, m) => {
            let mut v = to_chars(backend_text(backend));
            crate::text::append_str(&mut v, " RPC error ");
            let d = crate::number::i64_decimal(code as i64);
            crate::text::append_chars(&mut v, d.as_slice());
            crate::text::append_str(&mut v, ": ");
            crate::text::append_str(&mut v, m.as_str());
            let x = from_chars(v.as_slice());
            assert(x@ == backend_name(backend) + " RPC error "@ + crate::number::signed_decimal(code as int) + ": "@ + m@);
            AgentError::ApiError(x)
        },
    }
}

/// Where the remote session of a turn comes from.
pub enum RemoteSessionPlan {
    /// The connection knows it already.
    Cached(String),
    /// Load the one the session saved.
    Load(String),
    /// Create a new one.
    Create,
}

/// Where the remote session comes from: the connection's own, else the saved
/// one when the backend can load sessions, else a new one.
pub fn plan_remote_session(cached: Option<String>, saved: Option<String>, can_load: bool) -> (r: RemoteSessionPlan)
    ensures
        cached is Some ==> r == RemoteSessionPlan::Cached(cached->0),
        cached is None && saved is Some && can_load ==> r == RemoteSessionPlan::Load(saved->0),
        cached is None && !(saved is Some && can_load) ==> r is Create,
{
    match cached {
        Some(c) => RemoteSessionPlan::Cached(c),
        None => match saved {
            Some(s) => if can_load { RemoteSessionPlan::Load(s) } else { RemoteSessionPlan::Create },
            None => RemoteSessionPlan::Create,
        },
    }
}

/// The reply of a prompt, which must have some text.
pub fn finish_prompt(backend: Backend, text: String) -> (r: Result<String, ClientError>)
    ensures
        !is_blank(text@) ==> r == Ok::<String, ClientError>(text),
        is_blank(text@) ==> (r matches Err(ClientError::Protocol(m)) && m@ == match backend {
            Backend::Acp => "ACP prompt completed without any text response"@,
            Backend::Codex => "Codex turn completed without any text response"@,
        }),
{
    if str_blank(text.as_str()) {
        match backend {
            Backend::Acp => Err(ClientError::Protocol(String::from_str("ACP prompt completed without any text response"))),
            Backend::Codex => Err(ClientError::Protocol(String::from_str("Codex turn completed without any text response"))),
        }
    } else {
        Ok(text)
    }
}

/// The Codex configuration written when there is none to copy: a fixed model
/// and policy, and the working directory trusted.
pub open spec fn minimal_codex_config_spec(cwd: Seq<char>) -> Seq<char> {
    "model = \"gpt-5.4\"\napproval_policy = \"never\"\nsandbox_mode = \"danger-full-access\"\napprovals_reviewer = \"user\"\n\n[projects.\""@
        + cwd + "\"]\ntrust_level = \"trusted\"\n"@
}

/// The Codex configuration written when there is none to copy.
pub fn minimal_codex_config(cwd: &str) -> (r: String)
    ensures
        r@ == minimal_codex_config_spec(cwd@),
{
    let mut v = to_chars("model = \"gpt-5.4\"\napproval_policy = \"never\"\nsandbox_mode = \"danger-full-access\"\napprovals_reviewer = \"user\"\n\n[projects.\"");
    crate::text::append_str(&mut v, cwd);
    crate::text::append_str(&mut v, "\"]\ntrust_level = \"trusted\"\n");
    from_chars(v.as_slice())
}

/// Whether an isolated Codex home keeps a top-level key of the user's Codex
/// configuration: the model and provider settings, the approval and sandbox
/// policies, and the provider tables; nothing else (notifications, MCP
/// servers, features, instructions) is copied.
pub open spec fn codex_key_kept(k: Seq<char>) -> bool {
    k == "model_provider"@
        || k == "model"@
        || k == "preferred_auth_method"@
        || k == "personality"@
        || k == "approval_policy"@
        || k == "sandbox_mode"@
        || k == "approvals_reviewer"@
        || k == "model_reasoning_effort"@
        || k == "model_context_window"@
        || k == "model_auto_compact_token_limit"@
        || k == "sandbox_workspace_write"@
        || k == "model_providers"@
}

/// Whether an isolated Codex home keeps this top-level configuration key;
/// see `codex_key_kept`.
pub fn keeps_codex_key(key: &str) -> (r: bool)
    ensures
        r == codex_key_kept(key@),
{
    str_eq(key, "model_provider")
        || str_eq(key, "model")
        || str_eq(key, "preferred_auth_method")
        || str_eq(key, "personality")
        || str_eq(key, "approval_policy")
        || str_eq(key, "sandbox_mode")
        || str_eq(key, "approvals_reviewer")
        || str_eq(key, "model_reasoning_effort")
        || str_eq(key, "model_context_window")
        || str_eq(key, "model_auto_compact_token_limit")
        || str_eq(key, "sandbox_workspace_write")
        || str_eq(key, "model_providers")
}

/// The top-level keys an isolated Codex home keeps, in the order they are
/// copied: those of `codex_key_kept`.
pub open spec fn codex_kept_keys() -> Seq<Seq<char>> {
    seq![
        "model_provider"@, "model"@, "preferred_auth_method"@, "personality"@, "approval_policy"@,
        "sandbox_mode"@, "approvals_reviewer"@, "model_reasoning_effort"@, "model_context_window"@,
        "model_auto_compact_token_limit"@, "sandbox_workspace_write"@, "model_providers"@,
    ]
}

/// The entries of `list` that occur in `present`, in the order of `list`.
pub open spec fn present_in(list: Seq<Seq<char>>, present: Seq<Seq<char>>) -> Seq<Seq<char>>
    decreases list.len(),
{
    if list.len() == 0 {
        seq![]
    } else {
        let r = present_in(list.drop_last(), present);
        if present.contains(list.last()) { r.push(list.last()) } else { r }
    }
}

/// The keys copied from a configuration whose top-level table has the keys
/// `top`: the kept keys that it has, in the fixed order of `codex_kept_keys`.
pub open spec fn codex_selected(top: Seq<Seq<char>>) -> Seq<Seq<char>> {
    present_in(codex_kept_keys(), top)
}

proof fn lemma_present_in(list: Seq<Seq<char>>, present: Seq<Seq<char>>)
    ensures
        forall|k: Seq<char>| #[trigger] present_in(list, present).contains(k) <==> list.contains(k) && present.contains(k),
    decreases list.len(),
{
    if list.len() > 0 {
        let p = list.drop_last();
        lemma_present_in(p, present);
        let r = present_in(p, present);
        assert forall|k: Seq<char>| #[trigger] present_in(list, present).contains(k) <==> list.contains(k) && present.contains(k) by {
            if list.contains(k) && present.contains(k) {
                let i = choose|i: int| 0 <= i < list.len() && list[i] == k;
                if i < list.len() - 1 {
                    assert(p[i] == k);
                    assert(r.contains(k));
                    let j = choose|j: int| 0 <= j < r.len() && r[j] == k;
                    assert(present_in(list, present)[j] == k);
                } else {
                    assert(present_in(list, present)[present_in(list, present).len() - 1] == k);
                }
            }
            if present_in(list, present).contains(k) {
                let j = choose|j: int| 0 <= j < present_in(list, present).len() && present_in(list, present)[j] == k;
                if j < r.len() {
                    assert(r[j] == k);
                    assert(r.contains(k));
                    let i = choose|i: int| 0 <= i < p.len() && p[i] == k;
                    assert(list[i] == k);
                } else {
                    assert(list[list.len() - 1] == k);
                }
            }
        }
    }
}

/// Whether `k` is among the views of `keys`.
fn has_key(keys: &Vec<String>, k: &str) -> (r: bool)
    ensures
        r == arg_views(keys@).contains(k@),
{
    let mut i: usize = 0;
    while i < keys.len()
        invariant
            0 <= i <= keys.len(),
            forall|j: int| 0 <= j < i ==> keys@[j]@ != k@,
        decreases keys.len() - i,
    {
        if str_eq(keys[i].as_str(), k) {
            assert(arg_views(keys@)[i as int] == k@);
            return true;
        }
        i = i + 1;
    }
    assert forall|j: int| 0 <= j < arg_views(keys@).len() implies arg_views(keys@)[j] != k@ by {
        assert(arg_views(keys@)[j] == keys@[j]@);
    }
    false
}

/// The keys to copy from a configuration whose top-level table has the keys
/// `top`: exactly those of them that `keeps_codex_key` accepts, in the fixed
/// order of `codex_kept_keys`.
pub fn codex_selected_keys(top: &Vec<String>) -> (r: Vec<String>)
    ensures
        arg_views(r@) == codex_selected(arg_views(top@)),
        forall|k: Seq<char>| #[trigger] arg_views(r@).contains(k) <==> codex_key_kept(k) && arg_views(top@).contains(k),
{
    let names: Vec<&str> = vec![
        "model_provider", "model", "preferred_auth_method", "personality", "approval_policy",
        "sandbox_mode", "approvals_reviewer", "model_reasoning_effort", "model_context_window",
        "model_auto_compact_token_limit", "sandbox_workspace_write", "model_providers",
    ];
    let ghost list = codex_kept_keys();
    assert(names@.len() == list.len());
    assert(forall|j: int| 0 <= j < list.len() ==> #[trigger] names@[j]@ == list[j]);
    let ghost ks = arg_views(top@);
    let mut r: Vec<String> = Vec::new();
    let mut i: usize = 0;
    while i < names.len()
        invariant
            0 <= i <= names.len(),
            names@.len() == list.len(),
            list == codex_kept_keys(),
            ks == arg_views(top@),
            forall|j: int| 0 <= j < list.len() ==> #[trigger] names@[j]@ == list[j],
            arg_views(r@) == present_in(list.subrange(0, i as int), ks),
        decreases names.len() - i,
    {
        let name = names[i];
        assert(list.subrange(0, i + 1).drop_last() == list.subrange(0, i as int));
        if has_key(top, name) {
            let ghost before = r@;
            r.push(String::from_str(name));
            assert(arg_views(r@) =~= arg_views(before).push(name@));
        }
        i = i + 1;
    }
    assert(list.subrange(0, list.len() as int) == list);
    proof {
        lemma_present_in(list, ks);
        assert forall|k: Seq<char>| codex_key_kept(k) <==> #[trigger] list.contains(k) by {
            if codex_key_kept(k) {
                if k == "model_provider"@ { assert(list[0] == k); }
                else if k == "model"@ { assert(list[1] == k); }
                else if k == "preferred_auth_method"@ { assert(list[2] == k); }
                else if k == "personality"@ { assert(list[3] == k); }
                else if k == "approval_policy"@ { assert(list[4] == k); }
                else if k == "sandbox_mode"@ { assert(list[5] == k); }
                else if k == "approvals_reviewer"@ { assert(list[6] == k); }
                else if k == "model_reasoning_effort"@ { assert(list[7] == k); }
                else if k == "model_context_window"@ { assert(list[8] == k); }
                else if k == "model_auto_compact_token_limit"@ { assert(list[9] == k); }
                else if k == "sandbox_workspace_write"@ { assert(list[10] == k); }
                else { assert(list[11] == k); }
            }
            if list.contains(k) {
                let j = choose|j: int| 0 <= j < list.len() && list[j] == k;
                assert(0 <= j < 12);
            }
        }
    }
    r
}


/// What the `toml` crate reads in `source` as a document: `Err` with the text
/// of its error when the text does not parse, `Ok(None)` when what it parsed
/// is not a table, and `Ok(Some(keys))` with the keys of the top-level table.
pub uninterp spec fn toml_top_table_keys(source: Seq<char>) -> Result<Option<Seq<Seq<char>>>, Seq<char>>;

/// A result of `toml_top_keys`, taken by the views of its strings.
pub open spec fn top_keys_view(r: Result<Option<Vec<String>>, String>) -> Result<Option<Seq<Seq<char>>>, Seq<char>> {
    match r {
        Err(e) => Err(e@),
        Ok(None) => Ok(None),
        Ok(Some(keys)) => Ok(Some(arg_views(keys@))),
    }
}

/// Calls `str::parse::<toml::Value>`, the error's `to_string`, `Value::as_table`
/// and the table's `keys`; the contract names what they give back together.
#[verifier::external_body]
fn toml_top_keys(source: &str) -> (r: Result<Option<Vec<String>>, String>)
    ensures
        top_keys_view(r) == toml_top_table_keys(source@),
{
    match source.parse::<toml::Value>() {
        Err(e) => Err(e.to_string()),
        Ok(value) => Ok(match value.as_table() {
            Some(table) => Some(table.keys().cloned().collect()),
            None => None,
        }),
    }
}

/// The text that the `toml` crate renders for a table holding the entries of
/// `source`'s top-level table under `keys`, and under `section` a table whose
/// `entry` is a table with `field` set to the string `value`.
pub uninterp spec fn toml_rendered(source: Seq<char>, keys: Seq<Seq<char>>, section: Seq<char>, entry: Seq<char>, field: Seq<char>, value: Seq<char>) -> Seq<char>;

/// Parses `source` again with the `toml` crate, copies the values under
/// `keys` into a new `toml::map::Map`, adds the section, and renders it with
/// `Value::to_string`. The contract names the text; it says nothing of the
/// order of the keys in it, which is the crate's map's own.
#[verifier::external_body]
fn toml_render_selected(source: &str, keys: &Vec<String>, section: &str, entry: &str, field: &str, value: &str) -> (r: String)
    requires
        toml_top_table_keys(source@) matches Ok(Some(_)),
    ensures
        r@ == toml_rendered(source@, arg_views(keys@), section@, entry@, field@, value@),
{
    let parsed = source.parse::<toml::Value>().expect("parsed before");
    let table = parsed.as_table().expect("a table");
    let mut root = toml::map::Map::new();
    for key in keys {
        if let Some(v) = table.get(key.as_str()) { root.insert(key.clone(), v.clone()); }
    }
    let mut inner = toml::map::Map::new();
    inner.insert(field.to_string(), toml::Value::String(value.to_string()));
    let mut outer = toml::map::Map::new();
    outer.insert(entry.to_string(), toml::Value::Table(inner));
    root.insert(section.to_string(), toml::Value::Table(outer));
    toml::Value::Table(root).to_string()
}

/// What reading a Codex configuration's top-level keys leads to: the keys to
/// copy, or the error that refuses the configuration.
pub open spec fn codex_outcome_spec(top: Result<Option<Seq<Seq<char>>>, Seq<char>>) -> Result<Seq<Seq<char>>, Seq<char>> {
    match top {
        Err(e) => Err("invalid CODEX config: "@ + e),
        Ok(None) => Err("CODEX config must be a TOML table"@),
        Ok(Some(keys)) => Ok(codex_selected(keys)),
    }
}

/// Turns what the `toml` crate read of a Codex configuration into the keys
/// to copy (see `codex_selected_keys`), or into the protocol error that
/// refuses it: "invalid CODEX config: " and the parser's message when the
/// text does not parse, and "CODEX config must be a TOML table" when its top
/// level is not a table.
pub fn codex_config_outcome(top: Result<Option<Vec<String>>, String>) -> (r: Result<Vec<String>, ClientError>)
    ensures
        match codex_outcome_spec(top_keys_view(top)) {
            Ok(keys) => r matches Ok(v) && arg_views(v@) == keys,
            Err(m) => r matches Err(ClientError::Protocol(e)) && e@ == m,
        },
{
    match top {
        Err(e) => {
            let mut v = to_chars("invalid CODEX config: ");
            crate::text::append_str(&mut v, e.as_str());
            Err(ClientError::Protocol(from_chars(v.as_slice())))
        }
        Ok(None) => Err(ClientError::Protocol(String::from_str("CODEX config must be a TOML table"))),
        Ok(Some(keys)) => Ok(codex_selected_keys(&keys)),
    }
}

/// What sanitizing a Codex configuration gives: the refusal of
/// `codex_outcome_spec`, or the `toml` crate's rendering of the kept entries
/// of `source` with the working directory `cwd` trusted under `projects`.
pub open spec fn sanitize_spec(source: Seq<char>, cwd: Seq<char>) -> Result<Seq<char>, Seq<char>> {
    match codex_outcome_spec(toml_top_table_keys(source)) {
        Err(m) => Err(m),
        Ok(keys) => Ok(toml_rendered(source, keys, "projects"@, cwd, "trust_level"@, "trusted"@)),
    }
}

/// The configuration of an isolated Codex home made from the user's: only
/// the top-level entries that `keeps_codex_key` accepts are copied, in the
/// order of `codex_kept_keys`, and the working directory `cwd` is marked
/// trusted under `projects`; a text that does not parse as a TOML table is
/// refused with a protocol error.
pub fn sanitize_codex_config(source: &str, cwd: &str) -> (r: Result<String, ClientError>)
    ensures
        match sanitize_spec(source@, cwd@) {
            Ok(text) => r matches Ok(s) && s@ == text,
            Err(m) => r matches Err(ClientError::Protocol(e)) && e@ == m,
        },
{
    let top = toml_top_keys(source);
    let keys = match codex_config_outcome(top) {
        Ok(keys) => keys,
        Err(e) => return Err(e),
    };
    Ok(toml_render_selected(source, &keys, "projects", cwd, "trust_level", "trusted"))
}

/// Where getting an answer from an ACP backend for one conversation stands.
pub enum AcpPhase {
    /// Nothing asked yet.
    Start,
    /// Waiting for `session/load` of this saved remote session.
    Loading(String),
    /// Waiting for `session/new`; `retry` when the new session replaces one
    /// that expired while it was prompted.
    Creating { retry: bool },
    /// Waiting for `session/prompt` on `remote`; `retry` on the second try.
    Prompting { remote: String, retry: bool },
    /// The answer or the failure was given.
    Done,
}

/// What happened since the last step.
pub enum AcpEvent {
    /// The conversation asks for an answer: the remote session the
    /// connection knows for it, the one it saved, and whether the backend
    /// can load sessions.
    Begin { cached: Option<String>, saved: Option<String>, can_load: bool },
    /// `session/load` answered.
    Loaded(Result<(), ClientError>),
    /// `session/new` answered with the new remote session.
    Created(Result<String, ClientError>),
    /// `session/prompt` answered with the reply text.
    Prompted(Result<String, ClientError>),
}

/// What to do next.
pub enum AcpAction {
    /// Ask `session/load` for this remote session.
    Load(String),
    /// Ask `session/new`.
    Create,
    /// Forget the conversation's remote session (in the connection and in
    /// the session's metadata), then ask `session/new`.
    Replace,
    /// Prompt this remote session with this text.
    Prompt(String, String),
    /// Answer with this reply.
    Finish(String),
    /// Fail with this error.
    Fail(ClientError),
    /// The event does not belong to this phase.
    OutOfOrder,
}

/// An action, its texts taken by their views.
pub enum AcpActionView {
    Load(Seq<char>),
    Create,
    Replace,
    Prompt(Seq<char>, Seq<char>),
    Finish(Seq<char>),
    Fail(ClientError),
    OutOfOrder,
}

/// The view of an action.
pub open spec fn acp_action_view(a: AcpAction) -> AcpActionView {
    match a {
        AcpAction::Load(s) => AcpActionView::Load(s@),
        AcpAction::Create => AcpActionView::Create,
        AcpAction::Replace => AcpActionView::Replace,
        AcpAction::Prompt(r, t) => AcpActionView::Prompt(r@, t@),
        AcpAction::Finish(t) => AcpActionView::Finish(t@),
        AcpAction::Fail(e) => AcpActionView::Fail(e),
        AcpAction::OutOfOrder => AcpActionView::OutOfOrder,
    }
}

/// The error says the remote ACP session is gone.
pub open spec fn acp_gone(e: ClientError) -> bool {
    e matches ClientError::Rpc(code, m) && acp_session_gone(code, m@)
}

/// The step of an ACP exchange. A conversation first uses the remote
/// session its connection knows (prompted with the latest user message),
/// else loads the saved one when the backend can, else creates one. A load
/// that fails because the session is gone falls back to a new session; a
/// new session is prompted with the whole transcript. A prompt that fails
/// because the session is gone is retried once on a replacement session,
/// again with the whole transcript. Any other error ends the exchange.
pub open spec fn acp_step_spec(phase: AcpPhase, ev: AcpEvent, ms: Seq<Message>) -> (AcpPhase, AcpActionView) {
    match (phase, ev) {
        (AcpPhase::Start, AcpEvent::Begin { cached, saved, can_load }) => match cached {
            Some(c) => (AcpPhase::Prompting { remote: c, retry: false }, AcpActionView::Prompt(c@, latest_user_spec(ms))),
            None => match saved {
                Some(sv) => if can_load {
                    (AcpPhase::Loading(sv), AcpActionView::Load(sv@))
                } else {
                    (AcpPhase::Creating { retry: false }, AcpActionView::Create)
                },
                None => (AcpPhase::Creating { retry: false }, AcpActionView::Create),
            },
        },
        (AcpPhase::Loading(sv), AcpEvent::Loaded(res)) => match res {
            Ok(()) => (AcpPhase::Prompting { remote: sv, retry: false }, AcpActionView::Prompt(sv@, latest_user_spec(ms))),
            Err(e) => if acp_gone(e) {
                (AcpPhase::Creating { retry: false }, AcpActionView::Create)
            } else {
                (AcpPhase::Done, AcpActionView::Fail(e))
            },
        },
        (AcpPhase::Creating { retry }, AcpEvent::Created(res)) => match res {
            Ok(id) => (AcpPhase::Prompting { remote: id, retry }, AcpActionView::Prompt(id@, bootstrap_spec(ms))),
            Err(e) => (AcpPhase::Done, AcpActionView::Fail(e)),
        },
        (AcpPhase::Prompting { remote, retry }, AcpEvent::Prompted(res)) => match res {
            Ok(t) => (AcpPhase::Done, AcpActionView::Finish(t@)),
            Err(e) => if !retry && acp_gone(e) {
                (AcpPhase::Creating { retry: true }, AcpActionView::Replace)
            } else {
                (AcpPhase::Done, AcpActionView::Fail(e))
            },
        },
        _ => (AcpPhase::Done, AcpActionView::OutOfOrder),
    }
}

fn gone(e: &ClientError) -> (r: bool)
    ensures
        r == acp_gone(*e),
{
    match e {
        ClientError::Rpc(code, m) => is_session_not_found(*code, m.as_str()),
        _ => false,
    }
}

/// The step of an ACP exchange; see `acp_step_spec`.
pub fn acp_step(phase: AcpPhase, ev: AcpEvent, messages: &[Message]) -> (r: (AcpPhase, AcpAction))
    ensures
        (r.0, acp_action_view(r.1)) == acp_step_spec(phase, ev, messages@),
{
    match (phase, ev) {
        (AcpPhase::Start, AcpEvent::Begin { cached, saved, can_load }) => match cached {
            Some(c) => {
                let text = prompt_for(false, messages);
                let remote = c.clone();
                (AcpPhase::Prompting { remote: c, retry: false }, AcpAction::Prompt(remote, text))
            },
            None => match saved {
                Some(sv) => if can_load {
                    let id = sv.clone();
                    (AcpPhase::Loading(sv), AcpAction::Load(id))
                } else {
                    (AcpPhase::Creating { retry: false }, AcpAction::Create)
                },
                None => (AcpPhase::Creating { retry: false }, AcpAction::Create),
            },
        },
        (AcpPhase::Loading(sv), AcpEvent::Loaded(res)) => match res {
            Ok(()) => {
                let text = prompt_for(false, messages);
                let remote = sv.clone();
                (AcpPhase::Prompting { remote: sv, retry: false }, AcpAction::Prompt(remote, text))
            },
            Err(e) => if gone(&e) {
                (AcpPhase::Creating { retry: false }, AcpAction::Create)
            } else {
                (AcpPhase::Done, AcpAction::Fail(e))
            },
        },
        (AcpPhase::Creating { retry }, AcpEvent::Created(res)) => match res {
            Ok(id) => {
                let text = prompt_for(true, messages);
                let remote = id.clone();
                (AcpPhase::Prompting { remote: id, retry }, AcpAction::Prompt(remote, text))
            },
            Err(e) => (AcpPhase::Done, AcpAction::Fail(e)),
        },
        (AcpPhase::Prompting { remote, retry }, AcpEvent::Prompted(res)) => match res {
            Ok(t) => (AcpPhase::Done, AcpAction::Finish(t)),
            Err(e) => if !retry && gone(&e) {
                (AcpPhase::Creating { retry: true }, AcpAction::Replace)
            } else {
                (AcpPhase::Done, AcpAction::Fail(e))
            },
        },
        _ => (AcpPhase::Done, AcpAction::OutOfOrder),
    }
}

/// A saved remote session that the backend no longer has is not given up:
/// the exchange goes on with a new session, which is prompted with the whole
/// transcript.
pub proof fn lemma_acp_gone_load_falls_back(saved: String, e: ClientError, id: String, ms: Seq<Message>)
    requires
        acp_gone(e),
    ensures
        acp_step_spec(AcpPhase::Loading(saved), AcpEvent::Loaded(Err(e)), ms)
            == (AcpPhase::Creating { retry: false }, AcpActionView::Create),
        acp_step_spec(AcpPhase::Creating { retry: false }, AcpEvent::Created(Ok(id)), ms)
            == (AcpPhase::Prompting { remote: id, retry: false }, AcpActionView::Prompt(id@, bootstrap_spec(ms))),
{
}

} // verus!


