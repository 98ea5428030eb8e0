//! Lines of bounded length, and the requests in flight.

use vstd::prelude::*;

use crate::mcp::json::{
    integer_in, json_in, member, parse_json, text_in, text_member, Json, JsonModel,
};
use crate::mcp::protocol::{
    failure, key_of, keys_tell_requests_apart, optional_id, IdModel, McpId, McpRequest, McpResponse,
};
use crate::text::{same_text, texts};

verus! {

/// Bytes of the longest line.
pub const MAX_STDIO_MESSAGE_BYTES: usize = 1_048_576;

/// Requests that may be in flight at once.
pub const MAX_IN_FLIGHT: usize = 16;

/// The byte that ends a line.
pub const NEWLINE: u8 = 0x0a;

/// The byte that may stand before the end of a line.
pub const CARRIAGE_RETURN: u8 = 0x0d;

/// A line of the input.
#[derive(Clone, Debug, PartialEq, Eq)]
pub enum Line {
    /// There is none.
    Eof,
    /// One of bounded length.
    Message(Vec<u8>),
    /// One that is too long.
    Oversized,
}

/// A line as a mathematical value.
pub enum LineModel {
    Eof,
    Message(Seq<u8>),
    Oversized,
}

impl View for Line {
    type V = LineModel;

    open spec fn view(&self) -> LineModel {
        match self {
            Line::Eof => LineModel::Eof,
            Line::Message(bytes) => LineModel::Message(bytes@),
            Line::Oversized => LineModel::Oversized,
        }
    }
}

/// A line without the carriage return at its end.
pub open spec fn trimmed(bytes: Seq<u8>) -> Seq<u8> {
    if bytes.len() > 0 && bytes.last() == CARRIAGE_RETURN {
        bytes.drop_last()
    } else {
        bytes
    }
}

/// Drops the carriage return at the end of a line.
pub fn trim_cr(message: &mut Vec<u8>)
    ensures
        final(message)@ == trimmed(old(message)@),
{
    if message.len() > 0 && message[message.len() - 1] == CARRIAGE_RETURN {
        let _ = message.pop();
        assert(message@ =~= old(message)@.drop_last());
    }
}

/// The line with these bytes before its end.
pub open spec fn line_of(bytes: Seq<u8>) -> LineModel {
    if bytes.len() > MAX_STDIO_MESSAGE_BYTES {
        LineModel::Oversized
    } else {
        LineModel::Message(trimmed(bytes))
    }
}

/// How many bytes stand before the first end of a line, or all if there is none.
pub open spec fn line_end(bytes: Seq<u8>) -> int
    decreases bytes.len(),
{
    if bytes.len() == 0 || bytes[0] == NEWLINE {
        0
    } else {
        1 + line_end(bytes.drop_first())
    }
}

proof fn lemma_line_end(bytes: Seq<u8>, at: int)
    requires
        0 <= at <= bytes.len(),
        forall|i: int| 0 <= i < at ==> bytes[i] != NEWLINE,
        at < bytes.len() ==> bytes[at] == NEWLINE,
    ensures
        line_end(bytes) == at,
    decreases bytes.len(),
{
    if at > 0 {
        let rest = bytes.drop_first();
        assert forall|i: int| 0 <= i < at - 1 implies rest[i] != NEWLINE by {
            assert(rest[i] == bytes[i + 1]);
        }
        lemma_line_end(rest, at - 1);
    }
}

/// The part of a line that was read.
pub struct LineBuffer {
    message: Vec<u8>,
    oversized: bool,
    read: Ghost<Seq<u8>>,
}

impl LineBuffer {
    /// The bytes of the line that were read.
    pub closed spec fn view(&self) -> Seq<u8> {
        self.read@
    }

    /// The bytes are kept as long as they are not too many.
    pub closed spec fn wf(&self) -> bool {
        &&& self.oversized == (self.read@.len() > MAX_STDIO_MESSAGE_BYTES)
        &&& self.message@ == (if self.oversized {
            Seq::empty()
        } else {
            self.read@
        })
    }

    /// Before a line.
    pub fn new() -> (r: LineBuffer)
        ensures
            r.wf(),
            r@ == Seq::<u8>::empty(),
    {
        let r = LineBuffer { message: Vec::new(), oversized: false, read: Ghost(Seq::empty()) };
        assert(r.message@ =~= Seq::empty());
        r
    }

    /// Takes bytes of the input: those up to the first end of a line, if there is one. Returns how
    /// many were taken, and the line once its end was.
    pub fn feed(&mut self, bytes: &[u8]) -> (r: (usize, Option<Line>))
        requires
            old(self).wf(),
        ensures
            final(self).wf(),
            ({
                let end = line_end(bytes@);
                let read = old(self)@ + bytes@.take(end);
                if end < bytes@.len() {
                    &&& r.0 == end + 1
                    &&& r.1 matches Some(line) && line@ == line_of(read)
                    &&& final(self)@ == Seq::<u8>::empty()
                } else {
                    &&& r.0 == bytes@.len()
                    &&& r.1 is None
                    &&& final(self)@ == read
                }
            }),
    {
        let mut end: usize = 0;
        while end < bytes.len() && bytes[end] != NEWLINE
            invariant
                end <= bytes@.len(),
                forall|i: int| 0 <= i < end ==> bytes@[i] != NEWLINE,
            decreases bytes@.len() - end,
        {
            end = end + 1;
        }
        let ghost before = self.read@;
        let ghost content = bytes@.take(end as int);
        proof {
            lemma_line_end(bytes@, end as int);
        }
        if !self.oversized {
            if end > MAX_STDIO_MESSAGE_BYTES - self.message.len() {
                self.oversized = true;
                self.message = Vec::new();
                assert(self.message@ =~= Seq::empty());
            } else {
                let mut i: usize = 0;
                while i < end
                    invariant
                        i <= end <= bytes@.len(),
                        !self.oversized,
                        self.message@ =~= before + bytes@.take(i as int),
                        self.read@ == before,
                    decreases end - i,
                {
                    self.message.push(bytes[i]);
                    i = i + 1;
                }
            }
        }
        proof {
            self.read@ = before + content;
        }
        if end == bytes.len() {
            return (end, None);
        }
        let line = self.take_line();
        (end + 1, Some(line))
    }

    fn take_line(&mut self) -> (r: Line)
        requires
            old(self).wf(),
        ensures
            final(self).wf(),
            final(self)@ == Seq::<u8>::empty(),
            r@ == line_of(old(self)@),
    {
        let oversized = self.oversized;
        let mut message: Vec<u8> = Vec::new();
        std::mem::swap(&mut message, &mut self.message);
        self.oversized = false;
        proof {
            self.read@ = Seq::empty();
        }
        assert(self.message@ =~= Seq::empty());
        if oversized {
            Line::Oversized
        } else {
            trim_cr(&mut message);
            Line::Message(message)
        }
    }

    /// Takes the end of the input.
    pub fn finish(&mut self) -> (r: Line)
        requires
            old(self).wf(),
        ensures
            final(self).wf(),
            final(self)@ == Seq::<u8>::empty(),
            r@ == (if old(self)@.len() == 0 {
                LineModel::Eof
            } else {
                line_of(old(self)@)
            }),
    {
        if self.message.len() == 0 && !self.oversized {
            assert(self.read@ =~= Seq::empty());
            return Line::Eof;
        }
        self.take_line()
    }
}

/// It does not matter how a line is cut: reading two pieces one after the other gives the same as
/// reading them at once, as long as the first one has no end of a line.
pub proof fn cutting_a_line_changes_nothing(first: Seq<u8>, second: Seq<u8>)
    requires
        line_end(first) == first.len(),
    ensures
        line_end(first + second) == first.len() + line_end(second),
        (first + second).take(line_end(first + second)) == first + second.take(line_end(second)),
    decreases first.len(),
{
    let both = first + second;
    lemma_line_end_bounds(second);
    if first.len() == 0 {
        assert(both =~= second);
        assert(first + second.take(line_end(second)) =~= second.take(line_end(second)));
    } else {
        let rest = first.drop_first();
        assert(both[0] == first[0]);
        lemma_line_end_bounds(rest);
        assert(both.drop_first() =~= rest + second);
        cutting_a_line_changes_nothing(rest, second);
        assert(both.take(line_end(both)) =~= first + second.take(line_end(second)));
    }
}

proof fn lemma_line_end_bounds(bytes: Seq<u8>)
    ensures
        0 <= line_end(bytes) <= bytes.len(),
        line_end(bytes) < bytes.len() ==> bytes[line_end(bytes)] == NEWLINE,
    decreases bytes.len(),
{
    if bytes.len() > 0 && bytes[0] != NEWLINE {
        lemma_line_end_bounds(bytes.drop_first());
    }
}

/// The requests in flight, by key.
pub struct InFlight {
    keys: Vec<String>,
}

impl InFlight {
    /// The keys of the requests in flight.
    pub closed spec fn view(&self) -> Seq<Seq<char>> {
        texts(self.keys@)
    }

    /// No request is in flight twice, and no more are than may be.
    pub closed spec fn wf(&self) -> bool {
        &&& self@.no_duplicates()
        &&& self@.len() <= MAX_IN_FLIGHT
    }

    /// No request is in flight.
    pub fn new() -> (r: InFlight)
        ensures
            r.wf(),
            r@ == Seq::<Seq<char>>::empty(),
    {
        let r = InFlight { keys: Vec::new() };
        assert(r@ =~= Seq::empty());
        r
    }

    fn position(&self, key: &str) -> (r: usize)
        ensures
            r <= self@.len(),
            r < self@.len() ==> self@[r as int] == key@,
            self@.contains(key@) <==> r < self@.len(),
            self@.len() == self.keys@.len(),
    {
        let mut i: usize = 0;
        while i < self.keys.len()
            invariant
                i <= self.keys@.len(),
                forall|k: int| 0 <= k < i ==> #[trigger] self@[k] != key@,
            decreases self.keys@.len() - i,
        {
            if same_text(self.keys[i].as_str(), key) {
                assert(self@[i as int] == key@);
                return i;
            }
            i = i + 1;
        }
        i
    }

    /// Whether a request is in flight.
    pub fn holds(&self, key: &str) -> (r: bool)
        ensures
            r == self@.contains(key@),
    {
        self.position(key) < self.keys.len()
    }

    /// Puts a request in flight. One that is in flight already is refused, and so is one too many.
    pub fn start(&mut self, id: &McpId) -> (r: Result<String, McpResponse>)
        requires
            old(self).wf(),
        ensures
            final(self).wf(),
            ({
                let key = key_of(id@);
                match r {
                    Ok(same) => {
                        &&& !old(self)@.contains(key)
                        &&& old(self)@.len() < MAX_IN_FLIGHT
                        &&& same@ == key
                        &&& final(self)@ == old(self)@.push(key)
                    },
                    Err(response) => {
                        &&& final(self)@ == old(self)@
                        &&& if old(self)@.contains(key) {
                            response@ == failure(
                                Some(id@),
                                -32600,
                                "duplicate in-flight request id"@,
                            )
                        } else {
                            old(self)@.len() >= MAX_IN_FLIGHT && response@ == failure(
                                Some(id@),
                                -32000,
                                "too many in-flight requests"@,
                            )
                        }
                    },
                }
            }),
    {
        let key = id.key();
        if self.holds(key.as_str()) {
            return Err(
                McpResponse::error(
                    Some(id.duplicate()),
                    -32600,
                    "duplicate in-flight request id",
                    None,
                ),
            );
        }
        if self.keys.len() >= MAX_IN_FLIGHT {
            return Err(
                McpResponse::error(
                    Some(id.duplicate()),
                    -32000,
                    "too many in-flight requests",
                    None,
                ),
            );
        }
        let ghost before = self@;
        self.keys.push(key.clone());
        proof {
            assert(self@ =~= before.push(key@));
            assert forall|i: int, j: int| 0 <= i < j < self@.len() implies self@[i] != self@[j] by {
                if j == before.len() {
                    assert(before.contains(before[i]));
                }
            }
        }
        Ok(key)
    }

    /// Ends a request that was in flight.
    pub fn end(&mut self, key: &str)
        requires
            old(self).wf(),
        ensures
            final(self).wf(),
            !final(self)@.contains(key@),
            forall|other: Seq<char>|
                other != key@ ==> (#[trigger] final(self)@.contains(other) <==> old(
                    self,
                )@.contains(other)),
    {
        let at: usize = self.position(key);
        let ghost before = self@;
        if at < self.keys.len() {
            let _ = self.keys.remove(at);
            proof {
                let after = self@;
                assert(after =~= before.remove(at as int));
                assert forall|i: int, j: int| 0 <= i < j < after.len() implies after[i]
                    != after[j] by {
                    let p = if i < at { i } else { i + 1 };
                    let q = if j < at { j } else { j + 1 };
                    assert(after[i] == before[p]);
                    assert(after[j] == before[q]);
                }
                assert forall|i: int| 0 <= i < after.len() implies after[i] != key@ by {
                    let p = if i < at { i } else { i + 1 };
                    assert(after[i] == before[p]);
                    assert(before[at as int] == key@);
                }
                assert forall|other: Seq<char>| other != key@ implies (
                #[trigger] after.contains(other) <==> before.contains(other)) by {
                    if before.contains(other) {
                        let k = before.index_of(other);
                        if k < at {
                            assert(after[k] == other);
                        } else {
                            assert(after[k - 1] == other);
                        }
                    }
                    if after.contains(other) {
                        let k = after.index_of(other);
                        let p = if k < at { k } else { k + 1 };
                        assert(before[p] == other);
                    }
                }
            }
        }
    }
}

/// A request that is given up: a notification of its own kind.
pub open spec fn is_cancellation(value: JsonModel) -> bool {
    &&& text_member(value, "jsonrpc"@) == Some("2.0"@)
    &&& member(value, "id"@) is None
    &&& text_member(value, "method"@) == Some("notifications/cancelled"@)
}

/// Whether a message gives a request up.
pub fn is_cancel_notification(value: &Json) -> (r: bool)
    ensures
        r == is_cancellation(value@),
{
    value.has_text("jsonrpc", "2.0") && value.get("id").is_none() && value.has_text(
        "method",
        "notifications/cancelled",
    )
}

/// The identifier that a value is.
pub open spec fn id_in(value: JsonModel) -> Option<IdModel> {
    match integer_in(value) {
        Some(n) => Some(IdModel::Number(n)),
        None => match text_in(value) {
            Some(text) => Some(IdModel::Text(text)),
            None => None,
        },
    }
}

/// The request that a message gives up.
pub open spec fn cancelled_id(value: JsonModel) -> Option<IdModel> {
    match member(value, "params"@) {
        Some(params) => match member(params, "requestId"@) {
            Some(found) => id_in(found),
            None => None,
        },
        None => None,
    }
}

/// The key of the request that a message gives up.
pub fn cancelled_key(value: &Json) -> (r: Option<String>)
    ensures
        match cancelled_id(value@) {
            Some(id) => r matches Some(key) && key@ == key_of(id),
            None => r is None,
        },
{
    let params = match value.get("params") {
        Some(params) => params,
        None => return None,
    };
    let found = match params.get("requestId") {
        Some(found) => found,
        None => return None,
    };
    match found.as_integer() {
        Some(n) => Some(McpId::Number(n).key()),
        None => match found.as_text() {
            Some(text) => Some(McpId::Text(text.to_owned()).key()),
            None => None,
        },
    }
}

/// What a line leads to.
#[derive(Debug, PartialEq, Eq)]
pub enum MessageAction {
    /// A response at once.
    Respond(McpResponse),
    /// The end of a request in flight.
    Cancel(String),
    /// Nothing.
    Ignore,
    /// A request in flight.
    Start {
        /// Its key.
        key: String,
        /// The request.
        request: McpRequest,
    },
}

/// What a line leads to: what is no JSON, or no request, is answered with an error; what gives a
/// request up does so if it is in flight; other notifications are ignored; a request is put in
/// flight.
pub open spec fn is_routed(
    before: Seq<Seq<char>>,
    after: Seq<Seq<char>>,
    value: Option<JsonModel>,
    request: Option<McpRequest>,
    r: MessageAction,
) -> bool {
    match value {
        None => after == before && (r matches MessageAction::Respond(response) && response@
            == failure(None, -32700, "invalid JSON"@)),
        Some(message) => if is_cancellation(message) {
            after == before && match cancelled_id(message) {
                Some(id) => if before.contains(key_of(id)) {
                    r matches MessageAction::Cancel(key) && key@ == key_of(id)
                } else {
                    r is Ignore
                },
                None => r is Ignore,
            }
        } else {
            match request {
                None => after == before && (r matches MessageAction::Respond(response) && response@
                    == failure(None, -32600, "invalid JSON-RPC request"@)),
                Some(request) => match optional_id(request.id) {
                    None => after == before && r is Ignore,
                    Some(id) => {
                        let key = key_of(id);
                        if before.contains(key) {
                            after == before && (r matches MessageAction::Respond(response)
                                && response@ == failure(
                                Some(id),
                                -32600,
                                "duplicate in-flight request id"@,
                            ))
                        } else if before.len() >= MAX_IN_FLIGHT {
                            after == before && (r matches MessageAction::Respond(response)
                                && response@ == failure(
                                Some(id),
                                -32000,
                                "too many in-flight requests"@,
                            ))
                        } else {
                            after == before.push(key) && (r matches MessageAction::Start {
                                key: same,
                                request: kept,
                            } && same@ == key && kept == request)
                        }
                    },
                },
            }
        },
    }
}

/// Says what a line leads to, given its JSON and the request that this is, if they could be read.
pub fn route_message(
    in_flight: &mut InFlight,
    value: Option<&Json>,
    request: Option<McpRequest>,
) -> (r: MessageAction)
    requires
        old(in_flight).wf(),
    ensures
        final(in_flight).wf(),
        is_routed(
            old(in_flight)@,
            final(in_flight)@,
            match value {
                Some(json) => Some(json@),
                None => None,
            },
            request,
            r,
        ),
{
    let message = match value {
        Some(message) => message,
        None => {
            return MessageAction::Respond(McpResponse::error(None, -32700, "invalid JSON", None));
        },
    };
    if is_cancel_notification(message) {
        return match cancelled_key(message) {
            Some(key) => {
                if in_flight.holds(key.as_str()) {
                    MessageAction::Cancel(key)
                } else {
                    MessageAction::Ignore
                }
            },
            None => MessageAction::Ignore,
        };
    }
    let request = match request {
        Some(request) => request,
        None => {
            return MessageAction::Respond(
                McpResponse::error(None, -32600, "invalid JSON-RPC request", None),
            );
        },
    };
    let started = match &request.id {
        Some(id) => in_flight.start(id),
        None => return MessageAction::Ignore,
    };
    match started {
        Ok(key) => MessageAction::Start { key, request },
        Err(response) => MessageAction::Respond(response),
    }
}

/// Says what a line leads to, given its bytes and the request that it holds, if that could be read.
pub fn take_message(in_flight: &mut InFlight, bytes: &Vec<u8>, request: Option<McpRequest>) -> (r:
    MessageAction)
    requires
        old(in_flight).wf(),
    ensures
        final(in_flight).wf(),
        is_routed(old(in_flight)@, final(in_flight)@, json_in(bytes@), request, r),
{
    match parse_json(bytes) {
        Some(value) => route_message(in_flight, Some(&value), request),
        None => route_message(in_flight, None, request),
    }
}

/// The response to a line that is too long.
pub fn oversized_response() -> (r: McpResponse)
    ensures
        r@ == failure(None, -32600, "MCP stdio message exceeds size limit"@),
{
    McpResponse::error(None, -32600, "MCP stdio message exceeds size limit", None)
}

/// Giving one request up never ends another one: the key that is cancelled is that of the request
/// alone.
pub proof fn cancellation_is_precise(value: JsonModel, other: IdModel)
    requires
        cancelled_id(value) is Some,
        cancelled_id(value) != Some(other),
    ensures
        key_of(cancelled_id(value)->0) != key_of(other),
{
    keys_tell_requests_apart(cancelled_id(value)->0, other);
}

} // verus!
