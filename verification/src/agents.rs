use vstd::prelude::*;
use crate::text::{trim_spec, to_chars, from_chars, trim_chars, str_eq};

verus! {

/// An agent that is a person at the terminal.
pub struct CliAgent {
    id: String,
}

impl CliAgent {
    /// A terminal agent under `id`.
    pub fn new(id: String) -> (r: Self)
        ensures
            r.id_view() == id@,
    {
        CliAgent { id }
    }

    /// The agent's id.
    pub closed spec fn id_view(&self) -> Seq<char> {
        self.id@
    }

    /// The agent's id.
    pub fn id(&self) -> (r: &str)
        ensures
            r@ == self.id_view(),
    {
        self.id.as_str()
    }
}

/// What `str::to_lowercase` gives for `s`.
pub uninterp spec fn lowercased(s: Seq<char>) -> Seq<char>;

/// Calls `str::to_lowercase` (full Unicode case mapping); the contract names
/// its result.
#[verifier::external_body]
fn to_lowercase(s: &str) -> (r: String)
    ensures
        r@ == lowercased(s@),
{
    s.to_lowercase()
}

/// The reply that a line typed at the terminal gives: the line trimmed, or a
/// note that the message was skipped when it says `skip` in any case.
pub open spec fn cli_reply_spec(input: Seq<char>) -> Seq<char> {
    let t = trim_spec(input);
    if lowercased(t) == "skip"@ { "[CLI Agent: Message skipped]"@ } else { t }
}

/// The reply for a trimmed line, given the line in lower case: a note that
/// the message was skipped for `skip`, else the line.
pub fn reply_for(trimmed: String, lowered: &str) -> (r: String)
    ensures
        r@ == if lowered@ == "skip"@ { "[CLI Agent: Message skipped]"@ } else { trimmed@ },
{
    if str_eq(lowered, "skip") {
        String::from_str("[CLI Agent: Message skipped]")
    } else {
        trimmed
    }
}

/// The reply that a line typed at the terminal gives; see `cli_reply_spec`.
pub fn cli_reply(input: &str) -> (r: String)
    ensures
        r@ == cli_reply_spec(input@),
{
    let t = from_chars(trim_chars(to_chars(input).as_slice()).as_slice());
    let lower = to_lowercase(t.as_str());
    reply_for(t, lower.as_str())
}

} // verus!
