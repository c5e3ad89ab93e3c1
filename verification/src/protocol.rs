use vstd::prelude::*;
use vstd::utf8::encode_utf8;
use crate::text::{is_blank, str_blank, str_eq, to_chars, from_chars};

verus! {

/// What a line from a JSON-RPC peer holds, as far as the client decides on
/// it.
pub struct EnvelopeSummary {
    /// The line has an `id`.
    pub has_id: bool,
    /// The `id`, when it is an integer.
    pub id_number: Option<i64>,
    /// The `method`, for requests and notifications.
    pub method: Option<String>,
    /// The line carries an `error`.
    pub has_error: bool,
    /// The line carries a `result`.
    pub has_result: bool,
}

/// What the client does with a line while it waits for its response.
#[derive(Clone, Copy, Debug, PartialEq, Eq, Structural)]
pub enum RequestStep {
    /// A request from the peer: refuse it, keep waiting.
    RejectRequest,
    /// Not for us: keep waiting.
    Ignore,
    /// Our response, an error: fail with it.
    Fail,
    /// Our response without a result: fail, the payload is missing.
    MissingResult,
    /// Our response: read its result.
    Finish,
    /// A streamed session update while a prompt runs: read it.
    StreamUpdate,
}

/// The decision on one line while request `request_id` waits; `streaming`
/// when `session/update` notifications feed the reply.
pub open spec fn request_step_spec(e: EnvelopeSummary, request_id: i64, streaming: bool) -> RequestStep {
    if e.has_id {
        if e.method is Some {
            RequestStep::RejectRequest
        } else if e.id_number != Some(request_id) {
            RequestStep::Ignore
        } else if e.has_error {
            RequestStep::Fail
        } else if !e.has_result {
            RequestStep::MissingResult
        } else {
            RequestStep::Finish
        }
    } else {
        match e.method {
            Some(m) => if m@ == "session/update"@ && streaming { RequestStep::StreamUpdate } else { RequestStep::Ignore },
            None => RequestStep::Ignore,
        }
    }
}

/// The decision on one line while request `request_id` waits; see
/// `request_step_spec`.
pub fn request_step(e: &EnvelopeSummary, request_id: i64, streaming: bool) -> (r: RequestStep)
    ensures
        r == request_step_spec(*e, request_id, streaming),
{
    if e.has_id {
        if e.method.is_some() {
            RequestStep::RejectRequest
        } else {
            let matches = match e.id_number {
                Some(n) => n == request_id,
                None => false,
            };
            if !matches {
                RequestStep::Ignore
            } else if e.has_error {
                RequestStep::Fail
            } else if !e.has_result {
                RequestStep::MissingResult
            } else {
                RequestStep::Finish
            }
        }
    } else {
        match &e.method {
            Some(m) => if str_eq(m.as_str(), "session/update") && streaming { RequestStep::StreamUpdate } else { RequestStep::Ignore },
            None => RequestStep::Ignore,
        }
    }
}

/// The message of a response that lacks its result.
pub fn missing_result_message(backend: crate::backend::Backend, method: &str) -> (r: String)
    ensures
        r@ == crate::backend::backend_name(backend) + " response for '"@ + method@ + "' is missing a result payload"@,
{
    let mut v = match backend {
        crate::backend::Backend::Acp => to_chars("ACP"),
        crate::backend::Backend::Codex => to_chars("Codex"),
    };
    crate::text::append_str(&mut v, " response for '");
    crate::text::append_str(&mut v, method);
    crate::text::append_str(&mut v, "' is missing a result payload");
    from_chars(v.as_slice())
}

/// A piece of content that an ACP agent streams.
pub enum ContentPiece {
    Text(String),
    ResourceLink(String),
    Image,
    Audio,
    Resource,
    Other,
}

/// The text that a piece adds to the reply: the text, the link's URI, or a
/// placeholder for what cannot be shown.
pub open spec fn piece_text(p: ContentPiece) -> Seq<char> {
    match p {
        ContentPiece::Text(t) => t@,
        ContentPiece::ResourceLink(u) => u@,
        ContentPiece::Image => "[image]"@,
        ContentPiece::Audio => "[audio]"@,
        ContentPiece::Resource => "[resource]"@,
        ContentPiece::Other => "[unsupported-content]"@,
    }
}

/// Appends what a streamed piece adds to the reply, when the update belongs
/// to the session that the prompt runs in.
pub fn append_session_update(buffer: &mut String, update_session: &str, expected_session: &str, piece: ContentPiece)
    ensures
        final(buffer)@ == if update_session@ == expected_session@ { old(buffer)@ + piece_text(piece) } else { old(buffer)@ },
{
    if !str_eq(update_session, expected_session) {
        return;
    }
    let mut v = to_chars(buffer.as_str());
    match piece {
        ContentPiece::Text(t) => crate::text::append_str(&mut v, t.as_str()),
        ContentPiece::ResourceLink(u) => crate::text::append_str(&mut v, u.as_str()),
        ContentPiece::Image => crate::text::append_str(&mut v, "[image]"),
        ContentPiece::Audio => crate::text::append_str(&mut v, "[audio]"),
        ContentPiece::Resource => crate::text::append_str(&mut v, "[resource]"),
        ContentPiece::Other => crate::text::append_str(&mut v, "[unsupported-content]"),
    }
    *buffer = from_chars(v.as_slice());
}

/// What a line from the Codex server holds while a turn runs.
pub struct TurnEvent {
    pub has_id: bool,
    pub method: Option<String>,
    /// `params.threadId`, when a string.
    pub thread_id: Option<String>,
    /// `params.turnId`, when a string.
    pub turn_id: Option<String>,
    /// `params.delta`, when a string.
    pub delta: Option<String>,
    /// `params.item.type`, when a string.
    pub item_type: Option<String>,
    /// `params.item.text`, when a string.
    pub item_text: Option<String>,
    /// `params.turn` is there.
    pub turn_present: bool,
    /// `params.turn.id`, when a string.
    pub turn_object_id: Option<String>,
    /// `params.turn.error` as JSON text, when there and not null.
    pub turn_error: Option<String>,
    /// `params.willRetry`, when a boolean.
    pub will_retry: Option<bool>,
    /// `params.error.message`, when a string.
    pub error_message: Option<String>,
}

/// What the client does with a line while a turn runs.
pub enum TurnStep {
    /// A request from the server: refuse it, keep waiting.
    RejectRequest,
    /// Keep waiting (the reply text may have grown).
    Continue,
    /// The turn failed with this message.
    Failed(String),
    /// The turn completed; the reply is the text gathered.
    Completed,
}

/// The view of an optional string.
pub open spec fn ov(o: Option<String>) -> Option<Seq<char>> {
    match o {
        Some(s) => Some(s@),
        None => None,
    }
}

/// The event is about this thread and turn.
pub open spec fn event_is_for(e: TurnEvent, thread_id: Seq<char>, turn_id: Seq<char>) -> bool {
    ov(e.thread_id) == Some(thread_id) && ov(e.turn_id) == Some(turn_id)
}

/// The outcome of one line of a running turn: the step, and the reply text
/// afterwards. Deltas of this turn append to the text; a completed agent
/// message of this turn replaces it when the text is blank or not longer
/// (in bytes) than the message; completion of this turn ends it, failed when
/// the turn carries an error or the text is blank; an error notification of
/// this turn that will not be retried fails it.
pub open spec fn turn_step_spec(text: Seq<char>, e: TurnEvent, thread_id: Seq<char>, turn_id: Seq<char>) -> (Option<Result<(), Seq<char>>>, bool, Seq<char>) {
    if e.has_id {
        (None, e.method is Some, text)
    } else {
        match e.method {
            None => (None, false, text),
            Some(m) => if m@ == "item/agentMessage/delta"@ {
                if event_is_for(e, thread_id, turn_id) {
                    (None, false, match e.delta { Some(d) => text + d@, None => text })
                } else {
                    (None, false, text)
                }
            } else if m@ == "item/completed"@ {
                if event_is_for(e, thread_id, turn_id) && ov(e.item_type) == Some("agentMessage"@) {
                    match e.item_text {
                        Some(t) => if is_blank(text) || encode_utf8(t@).len() >= encode_utf8(text).len() {
                            (None, false, t@)
                        } else {
                            (None, false, text)
                        },
                        None => (None, false, text),
                    }
                } else {
                    (None, false, text)
                }
            } else if m@ == "turn/completed"@ {
                if ov(e.thread_id) != Some(thread_id) || !e.turn_present || ov(e.turn_object_id) != Some(turn_id) {
                    (None, false, text)
                } else {
                    match e.turn_error {
                        Some(err) => (Some(Err("Codex turn failed: "@ + err@)), false, text),
                        None => if is_blank(text) {
                            (Some(Err("Codex turn completed without any text response"@)), false, text)
                        } else {
                            (Some(Ok(())), false, text)
                        },
                    }
                }
            } else if m@ == "error"@ {
                if event_is_for(e, thread_id, turn_id) && e.will_retry != Some(true) {
                    (Some(Err(match e.error_message { Some(x) => x@, None => "unknown Codex transport error"@ })), false, text)
                } else {
                    (None, false, text)
                }
            } else {
                (None, false, text)
            },
        }
    }
}

/// What one line of a running turn may do. Only a server request is
/// refused. The turn completes only on `turn/completed` for this thread and
/// this turn, without an error and with reply text gathered, and the text
/// is then left as it was. The text changes only on a delta or a completed
/// agent message of this thread and this turn; a delta appends exactly its
/// piece.
pub proof fn lemma_turn_step_laws(text: Seq<char>, e: TurnEvent, thread_id: Seq<char>, turn_id: Seq<char>)
    ensures ({
        let (done, reject, t2) = turn_step_spec(text, e, thread_id, turn_id);
        &&& reject <==> (e.has_id && e.method is Some)
        &&& done == Some(Ok::<(), Seq<char>>(())) ==> {
            &&& !e.has_id && e.method is Some && e.method->0@ == "turn/completed"@
            &&& e.thread_id is Some && e.thread_id->0@ == thread_id
            &&& e.turn_present && e.turn_object_id is Some && e.turn_object_id->0@ == turn_id
            &&& e.turn_error is None && !is_blank(text) && t2 == text
        }
        &&& t2 != text ==> {
            &&& !e.has_id && e.method is Some
            &&& (e.method->0@ == "item/agentMessage/delta"@ || e.method->0@ == "item/completed"@)
            &&& e.thread_id is Some && e.thread_id->0@ == thread_id && e.turn_id is Some && e.turn_id->0@ == turn_id
        }
        &&& (!e.has_id && e.method is Some && e.method->0@ == "item/agentMessage/delta"@ && e.thread_id is Some
            && e.thread_id->0@ == thread_id && e.turn_id is Some && e.turn_id->0@ == turn_id && e.delta is Some)
            ==> t2 == text + e.delta->0@
    }),
{
}

fn opt_is(o: &Option<String>, x: &str) -> (r: bool)
    ensures
        r == (ov(*o) == Some(x@)),
{
    match o {
        Some(s) => str_eq(s.as_str(), x),
        None => false,
    }
}

/// Handles one line of a running turn; see `turn_step_spec` (its first part
/// is `Some` for `Failed` and `Completed`, its second says whether to reject
/// a request).
pub fn turn_step(text: &mut String, e: &TurnEvent, thread_id: &str, turn_id: &str) -> (r: TurnStep)
    ensures
        ({
            let (end, reject, t) = turn_step_spec(old(text)@, *e, thread_id@, turn_id@);
            &&& final(text)@ == t
            &&& match r {
                TurnStep::RejectRequest => end is None && reject,
                TurnStep::Continue => end is None && !reject,
                TurnStep::Failed(m) => end == Some(Err::<(), Seq<char>>(m@)),
                TurnStep::Completed => end == Some(Ok::<(), Seq<char>>(())),
            }
        }),
{
    if e.has_id {
        if e.method.is_some() {
            return TurnStep::RejectRequest;
        }
        return TurnStep::Continue;
    }
    let m = match &e.method {
        Some(m) => m,
        None => return TurnStep::Continue,
    };
    let for_turn = opt_is(&e.thread_id, thread_id) && opt_is(&e.turn_id, turn_id);
    if str_eq(m.as_str(), "item/agentMessage/delta") {
        if for_turn {
            match &e.delta {
                Some(d) => {
                    let mut v = to_chars(text.as_str());
                    crate::text::append_str(&mut v, d.as_str());
                    *text = from_chars(v.as_slice());
                    assert(text@ == old(text)@ + d@);
                },
                None => {},
            }
        }
        TurnStep::Continue
    } else if str_eq(m.as_str(), "item/completed") {
        if for_turn && opt_is(&e.item_type, "agentMessage") {
            match &e.item_text {
                Some(t) => {
                    let blank = str_blank(text.as_str());
                    let tl = t.as_str().as_bytes().len();
                    let xl = text.as_str().as_bytes().len();
                    assert(tl == encode_utf8(t@).len());
                    assert(xl == encode_utf8(text@).len());
                    if blank || tl >= xl {
                        *text = t.clone();
                    }
                },
                None => {},
            }
        }
        TurnStep::Continue
    } else if str_eq(m.as_str(), "turn/completed") {
        if !opt_is(&e.thread_id, thread_id) || !e.turn_present || !opt_is(&e.turn_object_id, turn_id) {
            return TurnStep::Continue;
        }
        match &e.turn_error {
            Some(err) => {
                let mut v = to_chars("Codex turn failed: ");
                crate::text::append_str(&mut v, err.as_str());
                TurnStep::Failed(from_chars(v.as_slice()))
            },
            None => {
                if str_blank(text.as_str()) {
                    TurnStep::Failed(String::from_str("Codex turn completed without any text response"))
                } else {
                    TurnStep::Completed
                }
            },
        }
    } else if str_eq(m.as_str(), "error") {
        let retry = match e.will_retry {
            Some(b) => b,
            None => false,
        };
        if for_turn && !retry {
            match &e.error_message {
                Some(x) => TurnStep::Failed(x.clone()),
                None => TurnStep::Failed(String::from_str("unknown Codex transport error")),
            }
        } else {
            TurnStep::Continue
        }
    } else {
        TurnStep::Continue
    }
}

/// A frame from the Discord gateway, or the heartbeat timer.
pub enum GatewayFrame {
    /// A text frame: opcode, sequence number and event name.
    Text { op: u64, s: Option<u64>, t: Option<String> },
    /// A binary frame: opcode and sequence number.
    Binary { op: u64, s: Option<u64> },
    Ping,
    Close,
    /// The connection ended.
    End,
    /// Another kind of frame.
    Other,
    /// The heartbeat interval elapsed.
    Tick,
}

/// What the gateway loop does next.
#[derive(Clone, Copy, Debug, PartialEq, Eq, Structural)]
pub enum GatewayAction {
    Nothing,
    /// Answer the ping.
    Pong,
    /// The hello came: identify and start the heartbeat.
    Identify,
    /// Send a heartbeat with this sequence number.
    Heartbeat(Option<u64>),
    /// Hand the message of this dispatch to the registry.
    HandleMessage,
    /// The connection is over; reconnect.
    Stop,
    /// The gateway asked to reconnect.
    Reconnect,
    /// The gateway refused the session.
    InvalidSession,
}

/// Where a gateway connection stands.
#[derive(Clone, Copy, Debug)]
pub struct GatewayState {
    pub identified: bool,
    pub last_sequence: Option<u64>,
}

/// The sequence number after a frame: the frame's, when it carries one.
pub open spec fn next_sequence(last: Option<u64>, s: Option<u64>) -> Option<u64> {
    match s {
        Some(x) => Some(x),
        None => last,
    }
}

/// The step of the gateway loop. Before the hello (opcode 10), frames are
/// only waited through, pings answered, and a close ends it. After it: the
/// timer and opcode 1 send a heartbeat with the last sequence number seen,
/// a `MESSAGE_CREATE` dispatch (opcode 0) is handled, opcodes 7 and 9 end
/// the connection with an error, binary frames only move the sequence.
pub open spec fn gateway_step_spec(st: GatewayState, f: GatewayFrame) -> (GatewayState, GatewayAction) {
    match f {
        GatewayFrame::Ping => (st, GatewayAction::Pong),
        GatewayFrame::Close => (st, GatewayAction::Stop),
        GatewayFrame::End => (st, GatewayAction::Stop),
        GatewayFrame::Other => (st, GatewayAction::Nothing),
        GatewayFrame::Tick => if st.identified { (st, GatewayAction::Heartbeat(st.last_sequence)) } else { (st, GatewayAction::Nothing) },
        GatewayFrame::Binary { op, s } => if !st.identified {
            if op == 10 { (GatewayState { identified: true, ..st }, GatewayAction::Identify) } else { (st, GatewayAction::Nothing) }
        } else {
            (GatewayState { last_sequence: next_sequence(st.last_sequence, s), ..st }, GatewayAction::Nothing)
        },
        GatewayFrame::Text { op, s, t } => if !st.identified {
            if op == 10 { (GatewayState { identified: true, ..st }, GatewayAction::Identify) } else { (st, GatewayAction::Nothing) }
        } else {
            let st2 = GatewayState { last_sequence: next_sequence(st.last_sequence, s), ..st };
            if op == 0 && ov(t) == Some("MESSAGE_CREATE"@) {
                (st2, GatewayAction::HandleMessage)
            } else if op == 1 {
                (st2, GatewayAction::Heartbeat(st2.last_sequence))
            } else if op == 7 {
                (st2, GatewayAction::Reconnect)
            } else if op == 9 {
                (st2, GatewayAction::InvalidSession)
            } else {
                (st2, GatewayAction::Nothing)
            }
        },
    }
}

/// The step of the gateway loop; see `gateway_step_spec`.
pub fn gateway_step(st: GatewayState, f: &GatewayFrame) -> (r: (GatewayState, GatewayAction))
    ensures
        r.0.identified == gateway_step_spec(st, *f).0.identified,
        r.0.last_sequence == gateway_step_spec(st, *f).0.last_sequence,
        r.1 == gateway_step_spec(st, *f).1,
{
    match f {
        GatewayFrame::Ping => (st, GatewayAction::Pong),
        GatewayFrame::Close => (st, GatewayAction::Stop),
        GatewayFrame::End => (st, GatewayAction::Stop),
        GatewayFrame::Other => (st, GatewayAction::Nothing),
        GatewayFrame::Tick => if st.identified { (st, GatewayAction::Heartbeat(st.last_sequence)) } else { (st, GatewayAction::Nothing) },
        GatewayFrame::Binary { op, s } => if !st.identified {
            if *op == 10 { (GatewayState { identified: true, last_sequence: st.last_sequence }, GatewayAction::Identify) } else { (st, GatewayAction::Nothing) }
        } else {
            let seq = match s { Some(x) => Some(*x), None => st.last_sequence };
            (GatewayState { identified: st.identified, last_sequence: seq }, GatewayAction::Nothing)
        },
        GatewayFrame::Text { op, s, t } => if !st.identified {
            if *op == 10 { (GatewayState { identified: true, last_sequence: st.last_sequence }, GatewayAction::Identify) } else { (st, GatewayAction::Nothing) }
        } else {
            let seq = match s { Some(x) => Some(*x), None => st.last_sequence };
            let st2 = GatewayState { identified: st.identified, last_sequence: seq };
            let create = match t {
                Some(name) => str_eq(name.as_str(), "MESSAGE_CREATE"),
                None => false,
            };
            if *op == 0 && create {
                (st2, GatewayAction::HandleMessage)
            } else if *op == 1 {
                (st2, GatewayAction::Heartbeat(seq))
            } else if *op == 7 {
                (st2, GatewayAction::Reconnect)
            } else if *op == 9 {
                (st2, GatewayAction::InvalidSession)
            } else {
                (st2, GatewayAction::Nothing)
            }
        },
    }
}

/// The error that ends a gateway connection, for the actions that end it
/// with one.
pub fn gateway_error(a: GatewayAction) -> (r: Option<String>)
    ensures
        a is Reconnect ==> (r matches Some(m) && m@ == "Discord gateway requested reconnect"@),
        a is InvalidSession ==> (r matches Some(m) && m@ == "Discord gateway invalid session"@),
        !(a is Reconnect || a is InvalidSession) ==> r is None,
{
    match a {
        GatewayAction::Reconnect => Some(String::from_str("Discord gateway requested reconnect")),
        GatewayAction::InvalidSession => Some(String::from_str("Discord gateway invalid session")),
        _ => None,
    }
}

/// No message is handled before the gateway said hello, and every heartbeat
/// carries the last sequence number seen.
pub proof fn lemma_gateway_order(st: GatewayState, f: GatewayFrame)
    ensures
        !st.identified ==> gateway_step_spec(st, f).1 != GatewayAction::HandleMessage,
        !st.identified ==> !(gateway_step_spec(st, f).1 is Heartbeat),
        gateway_step_spec(st, f).1 matches GatewayAction::Heartbeat(s) ==> s == gateway_step_spec(st, f).0.last_sequence,
{
}

/// A step hands a message to the registry exactly for a text dispatch
/// (opcode 0) named `MESSAGE_CREATE` after the hello; other dispatch names,
/// such as `READY`, hand nothing on. After the hello a text or binary frame
/// that carries a sequence number makes it the last one seen, and a frame
/// without one keeps the last one.
pub proof fn lemma_gateway_handles_message_create(st: GatewayState, f: GatewayFrame)
    ensures
        gateway_step_spec(st, f).1 == GatewayAction::HandleMessage <==> (st.identified && f is Text && f->Text_op == 0
            && f->Text_t is Some && f->Text_t->0@ == "MESSAGE_CREATE"@),
        st.identified && f is Text ==> gateway_step_spec(st, f).0.last_sequence
            == (if f->Text_s is Some { f->Text_s } else { st.last_sequence }),
        st.identified && f is Binary ==> gateway_step_spec(st, f).0.last_sequence
            == (if f->Binary_s is Some { f->Binary_s } else { st.last_sequence }),
{
}

/// Query parameters, taken by their views.
pub open spec fn params_view(pairs: Seq<(String, String)>) -> Seq<(Seq<char>, Seq<char>)> {
    pairs.map_values(|p: (String, String)| (p.0@, p.1@))
}

/// The parameters of a gateway URL that are kept: all but `v` and
/// `encoding`, in order.
pub open spec fn kept_params(pairs: Seq<(Seq<char>, Seq<char>)>) -> Seq<(Seq<char>, Seq<char>)>
    decreases pairs.len(),
{
    if pairs.len() == 0 {
        Seq::empty()
    } else {
        let rest = kept_params(pairs.drop_last());
        let p = pairs.last();
        if p.0 != "v"@ && p.0 != "encoding"@ { rest.push(p) } else { rest }
    }
}

/// The query of the gateway URL to connect to: the parameters it came with,
/// but for `v` and `encoding`, then `v=10` and `encoding=json`.
pub open spec fn gateway_query_spec(pairs: Seq<(Seq<char>, Seq<char>)>) -> Seq<(Seq<char>, Seq<char>)> {
    kept_params(pairs) + seq![("v"@, "10"@), ("encoding"@, "json"@)]
}

/// The query of the gateway URL to connect to, from the parameters that the
/// URL came with; see `gateway_query_spec`.
pub fn gateway_query(pairs: Vec<(String, String)>) -> (r: Vec<(String, String)>)
    ensures
        params_view(r@) == gateway_query_spec(params_view(pairs@)),
{
    let mut out: Vec<(String, String)> = Vec::new();
    let mut i: usize = 0;
    while i < pairs.len()
        invariant
            0 <= i <= pairs@.len(),
            params_view(out@) == kept_params(params_view(pairs@).take(i as int)),
        decreases pairs@.len() - i,
    {
        let (k, v) = &pairs[i];
        let ghost taken = params_view(pairs@).take(i + 1);
        assert(taken.drop_last() =~= params_view(pairs@).take(i as int));
        assert(taken.last() == (k@, v@));
        if !str_eq(k.as_str(), "v") && !str_eq(k.as_str(), "encoding") {
            out.push((k.clone(), v.clone()));
            assert(params_view(out@) =~= kept_params(params_view(pairs@).take(i as int)).push((k@, v@)));
        }
        i = i + 1;
    }
    assert(params_view(pairs@).take(pairs@.len() as int) =~= params_view(pairs@));
    let ghost kept = params_view(out@);
    out.push((String::from_str("v"), String::from_str("10")));
    out.push((String::from_str("encoding"), String::from_str("json")));
    assert(params_view(out@) =~= kept + seq![("v"@, "10"@), ("encoding"@, "json"@)]);
    out
}

} // verus!

