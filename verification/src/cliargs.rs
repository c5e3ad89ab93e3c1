use vstd::prelude::*;
use crate::strmap::StringMap;
use crate::text::{is_blank, str_blank, to_chars, from_chars, sub_chars};

verus! {

/// The position of the first `c` in `s`.
pub open spec fn first_index(s: Seq<char>, c: char) -> Option<int> {
    if exists|i: int| 0 <= i < s.len() && s[i] == c {
        Some(choose|i: int| 0 <= i < s.len() && s[i] == c && forall|j: int| 0 <= j < i ==> s[j] != c)
    } else {
        None
    }
}

/// The text before and after the first `c` in `s` (`str::split_once`).
pub open spec fn split_once_spec(s: Seq<char>, c: char) -> Option<(Seq<char>, Seq<char>)> {
    match first_index(s, c) {
        Some(i) => Some((s.subrange(0, i), s.subrange(i + 1, s.len() as int))),
        None => None,
    }
}

/// The text before and after the first `c` in `s`.
pub fn split_once(s: &str, c: char) -> (r: Option<(String, String)>)
    ensures
        match r {
            Some((a, b)) => split_once_spec(s@, c) == Some((a@, b@)),
            None => split_once_spec(s@, c) is None,
        },
{
    let v = to_chars(s);
    let mut i: usize = 0;
    while i < v.len()
        invariant
            v@ == s@,
            0 <= i <= v@.len(),
            forall|j: int| 0 <= j < i ==> v@[j] != c,
        decreases v@.len() - i,
    {
        if v[i] == c {
            let ghost k = choose|k: int| 0 <= k < s@.len() && s@[k] == c && forall|j: int| 0 <= j < k ==> s@[j] != c;
            proof {
                if k < i {
                } else if k > i {
                    assert(s@[i as int] == c);
                }
            }
            let a = sub_chars(v.as_slice(), 0, i);
            let b = sub_chars(v.as_slice(), i + 1, v.len());
            return Some((from_chars(a.as_slice()), from_chars(b.as_slice())));
        }
        i = i + 1;
    }
    None
}

/// The CLI value when given, else the configured one.
pub fn merge_option(cli: Option<String>, config: Option<String>) -> (r: Option<String>)
    ensures
        r == match cli { Some(c) => Some(c), None => config },
{
    match cli {
        Some(c) => Some(c),
        None => config,
    }
}

/// The CLI list when it is not empty, else the configured one.
pub fn merge_vec(cli: Vec<String>, config: Vec<String>) -> (r: Vec<String>)
    ensures
        r@ == if cli@.len() == 0 { config@ } else { cli@ },
{
    if cli.len() == 0 { config } else { cli }
}

/// The CLI map when it is not empty, else the configured one.
pub fn merge_map(cli: StringMap, config: StringMap) -> (r: StringMap)
    ensures
        r@ == if cli@.dom().len() == 0 { config@ } else { cli@ },
{
    if cli.len() == 0 { config } else { cli }
}

/// The result of reading `<id>:<secret>` from a flag: the text around the
/// first colon.
pub open spec fn compound_spec(value: Seq<char>, flag_name: Seq<char>) -> Result<(Seq<char>, Seq<char>), Seq<char>> {
    match split_once_spec(value, ':') {
        Some(p) => Ok(p),
        None => Err(flag_name + " must be provided as <id>:<secret>"@),
    }
}

/// Reads `<id>:<secret>` from a flag; the error names the flag.
pub fn parse_compound_credentials(value: &str, flag_name: &str) -> (r: Result<(String, String), String>)
    ensures
        match r {
            Ok((a, b)) => compound_spec(value@, flag_name@) == Ok::<(Seq<char>, Seq<char>), Seq<char>>((a@, b@)),
            Err(e) => compound_spec(value@, flag_name@) == Err::<(Seq<char>, Seq<char>), Seq<char>>(e@),
        },
{
    match split_once(value, ':') {
        Some(p) => Ok(p),
        None => {
            let mut m = to_chars(flag_name);
            crate::text::append_str(&mut m, " must be provided as <id>:<secret>");
            Err(from_chars(m.as_slice()))
        },
    }
}

/// How a platform's two credentials were given.
pub enum Credentials {
    /// Both halves: the id and the secret.
    Given(String, String),
    /// Neither half, nor a compound value.
    Absent,
    /// Only one of the two halves.
    Incomplete,
}

/// The view of a choice of credentials: `Some(Some(pair))` for a pair,
/// `Some(None)` for none, `None` when only one half was given.
pub open spec fn credentials_view(c: Credentials) -> Option<Option<(Seq<char>, Seq<char>)>> {
    match c {
        Credentials::Given(a, b) => Some(Some((a@, b@))),
        Credentials::Absent => Some(None),
        Credentials::Incomplete => None,
    }
}

/// The credentials of a platform given as two flags and as one compound
/// `<id>:<secret>` flag: both halves win; the compound value counts only
/// when neither half is given; one half alone is incomplete.
pub open spec fn credentials_spec(id: Option<Seq<char>>, secret: Option<Seq<char>>, compound: Option<Seq<char>>,
    flag_name: Seq<char>) -> Result<Option<Option<(Seq<char>, Seq<char>)>>, Seq<char>>
{
    match (id, secret) {
        (Some(a), Some(b)) => Ok(Some(Some((a, b)))),
        (None, None) => match compound {
            Some(c) => match compound_spec(c, flag_name) {
                Ok(p) => Ok(Some(Some(p))),
                Err(e) => Err(e),
            },
            None => Ok(Some(None)),
        },
        _ => Ok(None),
    }
}

/// The credentials of a platform from its flags; see `credentials_spec`.
pub fn choose_credentials(id: Option<String>, secret: Option<String>, compound: Option<String>, flag_name: &str)
    -> (r: Result<Credentials, String>)
    ensures
        match r {
            Ok(c) => credentials_spec(crate::inbound::os(id), crate::inbound::os(secret), crate::inbound::os(compound), flag_name@)
                == Ok::<Option<Option<(Seq<char>, Seq<char>)>>, Seq<char>>(credentials_view(c)),
            Err(e) => credentials_spec(crate::inbound::os(id), crate::inbound::os(secret), crate::inbound::os(compound), flag_name@)
                == Err::<Option<Option<(Seq<char>, Seq<char>)>>, Seq<char>>(e@),
        },
{
    match (id, secret) {
        (Some(a), Some(b)) => Ok(Credentials::Given(a, b)),
        (None, None) => match compound {
            Some(c) => match parse_compound_credentials(c.as_str(), flag_name) {
                Ok((a, b)) => Ok(Credentials::Given(a, b)),
                Err(e) => Err(e),
            },
            None => Ok(Credentials::Absent),
        },
        _ => Ok(Credentials::Incomplete),
    }
}

/// The WeChat Work credentials: all three of corp id, agent id and secret,
/// or none of them; anything in between is an error that names the flags.
pub open spec fn wechatwork_spec(corp_id: Option<Seq<char>>, agent_id: Option<Seq<char>>, secret: Option<Seq<char>>)
    -> Result<Option<(Seq<char>, Seq<char>, Seq<char>)>, Seq<char>>
{
    match (corp_id, agent_id, secret) {
        (Some(c), Some(a), Some(s)) => Ok(Some((c, a, s))),
        (None, None, None) => Ok(None),
        _ => Err("WeChat Work requires --wechatwork-corp-id, --wechatwork-agent-id, and --wechatwork-secret"@),
    }
}

/// The WeChat Work credentials from their flags; see `wechatwork_spec`.
pub fn wechatwork_credentials(corp_id: Option<String>, agent_id: Option<String>, secret: Option<String>)
    -> (r: Result<Option<(String, String, String)>, String>)
    ensures
        match r {
            Ok(Some((c, a, s))) => wechatwork_spec(crate::inbound::os(corp_id), crate::inbound::os(agent_id), crate::inbound::os(secret))
                == Ok::<Option<(Seq<char>, Seq<char>, Seq<char>)>, Seq<char>>(Some((c@, a@, s@))),
            Ok(None) => wechatwork_spec(crate::inbound::os(corp_id), crate::inbound::os(agent_id), crate::inbound::os(secret))
                == Ok::<Option<(Seq<char>, Seq<char>, Seq<char>)>, Seq<char>>(None),
            Err(e) => wechatwork_spec(crate::inbound::os(corp_id), crate::inbound::os(agent_id), crate::inbound::os(secret))
                == Err::<Option<(Seq<char>, Seq<char>, Seq<char>)>, Seq<char>>(e@),
        },
{
    match (corp_id, agent_id, secret) {
        (Some(c), Some(a), Some(s)) => Ok(Some((c, a, s))),
        (None, None, None) => Ok(None),
        _ => Err(String::from_str("WeChat Work requires --wechatwork-corp-id, --wechatwork-agent-id, and --wechatwork-secret")),
    }
}

/// The result of reading `KEY=VALUE` from a flag: the text around the first
/// `=`, with a key that is not blank.
pub open spec fn assignment_spec(value: Seq<char>, flag_name: Seq<char>) -> Result<(Seq<char>, Seq<char>), Seq<char>> {
    match split_once_spec(value, '=') {
        Some((k, v)) => if is_blank(k) {
            Err(flag_name + " requires a non-empty KEY"@)
        } else {
            Ok((k, v))
        },
        None => Err(flag_name + " must be provided as KEY=VALUE"@),
    }
}

/// Reads `KEY=VALUE` from a flag; the error names the flag.
pub fn parse_key_value_assignment(value: &str, flag_name: &str) -> (r: Result<(String, String), String>)
    ensures
        match r {
            Ok((a, b)) => assignment_spec(value@, flag_name@) == Ok::<(Seq<char>, Seq<char>), Seq<char>>((a@, b@)),
            Err(e) => assignment_spec(value@, flag_name@) == Err::<(Seq<char>, Seq<char>), Seq<char>>(e@),
        },
{
    match split_once(value, '=') {
        Some((k, v)) => {
            if str_blank(k.as_str()) {
                let mut m = to_chars(flag_name);
                crate::text::append_str(&mut m, " requires a non-empty KEY");
                Err(from_chars(m.as_slice()))
            } else {
                Ok((k, v))
            }
        },
        None => {
            let mut m = to_chars(flag_name);
            crate::text::append_str(&mut m, " must be provided as KEY=VALUE");
            Err(from_chars(m.as_slice()))
        },
    }
}

/// The environment that `KEY=VALUE` flags set, later ones winning; the first
/// malformed flag is reported.
pub open spec fn env_spec(values: Seq<String>, flag_name: Seq<char>) -> Result<Map<Seq<char>, Seq<char>>, Seq<char>>
    decreases values.len(),
{
    if values.len() == 0 {
        Ok(Map::empty())
    } else {
        match env_spec(values.drop_last(), flag_name) {
            Err(e) => Err(e),
            Ok(m) => match assignment_spec(values.last()@, flag_name) {
                Err(e) => Err(e),
                Ok((k, v)) => Ok(m.insert(k, v)),
            },
        }
    }
}

/// Reads the `KEY=VALUE` flags into an environment; see `env_spec`.
pub fn parse_env_overrides(values: &Vec<String>, flag_name: &str) -> (r: Result<StringMap, String>)
    ensures
        match r {
            Ok(m) => env_spec(values@, flag_name@) == Ok::<Map<Seq<char>, Seq<char>>, Seq<char>>(m@),
            Err(e) => env_spec(values@, flag_name@) == Err::<Map<Seq<char>, Seq<char>>, Seq<char>>(e@),
        },
{
    let mut env = StringMap::new();
    let mut i: usize = 0;
    while i < values.len()
        invariant
            0 <= i <= values@.len(),
            env_spec(values@.subrange(0, i as int), flag_name@) == Ok::<Map<Seq<char>, Seq<char>>, Seq<char>>(env@),
        decreases values@.len() - i,
    {
        assert(values@.subrange(0, i + 1).drop_last() =~= values@.subrange(0, i as int));
        match parse_key_value_assignment(values[i].as_str(), flag_name) {
            Ok((k, v)) => {
                let _ = env.insert(k, v);
            },
            Err(e) => {
                proof { lemma_env_err_extends(values@, flag_name@, (i + 1) as int); }
                return Err(e);
            },
        }
        i = i + 1;
    }
    assert(values@.subrange(0, values@.len() as int) =~= values@);
    Ok(env)
}

proof fn lemma_env_err_extends(values: Seq<String>, flag_name: Seq<char>, k: int)
    requires
        0 <= k <= values.len(),
        env_spec(values.subrange(0, k), flag_name) is Err,
    ensures
        env_spec(values, flag_name) == env_spec(values.subrange(0, k), flag_name),
    decreases values.len() - k,
{
    if k < values.len() {
        assert(values.subrange(0, k + 1).drop_last() =~= values.subrange(0, k));
        lemma_env_err_extends(values, flag_name, k + 1);
    } else {
        assert(values.subrange(0, k) =~= values);
    }
}

/// The id under which the agent that routing rules name by type is
/// registered: `rule-agent-{type}`.
pub fn rule_agent_id(agent_type: &str) -> (r: String)
    ensures
        r@ == "rule-agent-"@ + agent_type@,
{
    let mut m = to_chars("rule-agent-");
    crate::text::append_str(&mut m, agent_type);
    from_chars(m.as_slice())
}

/// The agent types that can be built.
pub fn check_agent_type(agent_type: &str) -> (r: Result<crate::config::AgentType, String>)
    ensures
        agent_type@ == "acp"@ ==> r == Ok::<crate::config::AgentType, String>(crate::config::AgentType::Acp),
        agent_type@ != "acp"@ ==> (r matches Err(e) && e@ == "Unknown agent type '"@ + agent_type@ + "'. Only 'acp' is supported."@),
{
    if crate::text::str_eq(agent_type, "acp") {
        Ok(crate::config::AgentType::Acp)
    } else {
        let mut m = to_chars("Unknown agent type '");
        crate::text::append_str(&mut m, agent_type);
        crate::text::append_str(&mut m, "'. Only 'acp' is supported.");
        Err(from_chars(m.as_slice()))
    }
}

} // verus!
