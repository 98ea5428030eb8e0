//! The local transport: endpoint names, bounded frames and the order of an exchange.

use vstd::prelude::*;
use vstd::utf8::{char_is_scalar, encode_utf8};

use crate::search::ranking::{occurs_at, starts_with_text};
use crate::text::{chars_of, in_a_row, same_text};

verus! {

/// Bytes of the largest payload.
pub const MAX_TRANSPORT_FRAME_BYTES: usize = 1_048_576;

/// Bytes of the length in front of a payload.
pub const FRAME_PREFIX_BYTES: usize = 4;

/// What a client sends once it has the answer.
pub const RESPONSE_ACK: u8 = 0xac;

/// Bytes of the longest endpoint name.
pub const MAX_PIPE_NAME_BYTES: usize = 256;

/// Bytes of the longest identity.
pub const MAX_SID_BYTES: usize = 184;

/// The code of a pipe whose instances are all in use.
pub const ERROR_PIPE_BUSY: u32 = 231;

/// The code of a pipe that is not there.
pub const ERROR_FILE_NOT_FOUND: u32 = 2;

/// The code of a pipe without data.
pub const ERROR_NO_DATA: u32 = 232;

/// The code of a pipe with a client.
pub const ERROR_PIPE_CONNECTED: u32 = 535;

/// The code of a pipe that waits for a client.
pub const ERROR_PIPE_LISTENING: u32 = 536;

/// Why a frame is refused.
#[derive(Clone, Copy, Debug, PartialEq, Eq, Structural)]
pub enum TransportFrameError {
    /// The payload is too large.
    TooLarge,
    /// The length and the payload do not fit.
    Incomplete,
}

/// Why an exchange failed.
#[derive(Clone, Copy, Debug, PartialEq, Eq)]
pub enum WindowsPipeError {
    /// A native operation failed.
    Io {
        /// The operation.
        operation: &'static str,
        /// Its code.
        code: u32,
    },
    /// A frame was refused.
    Frame(TransportFrameError),
    /// The client is somebody else.
    Unauthorized,
    /// The time is over.
    DeadlineExceeded,
    /// The caller gave up.
    Cancelled,
    /// The endpoint name is none.
    InvalidEndpoint,
    /// The protocol above failed.
    Protocol(&'static str),
}

/// Result of an exchange.
pub type WindowsPipeResult<T> = Result<T, WindowsPipeError>;

/// A native failure.
pub fn last_io(operation: &'static str, code: u32) -> (r: WindowsPipeError)
    ensures
        r matches WindowsPipeError::Io { operation: name, code: number } && name@ == operation@
            && number == code,
{
    WindowsPipeError::Io { operation, code }
}

/// The name of the endpoint of a logon session.
pub open spec fn pipe_name_of(logon_sid: Seq<char>) -> Seq<char> {
    "\\\\.\\pipe\\LocalSearch\\Agent\\v1\\"@ + logon_sid
}

/// The name of the endpoint of a logon session.
pub fn default_pipe_name(logon_sid: &str) -> (r: String)
    ensures
        r@ == pipe_name_of(logon_sid@),
{
    let mut r = "\\\\.\\pipe\\LocalSearch\\Agent\\v1\\".to_owned();
    r.append(logon_sid);
    r
}

/// A text holds a character.
fn holds_char(text: &str, wanted: char) -> (r: bool)
    ensures
        r == text@.contains(wanted),
{
    let chars = chars_of(text);
    let mut i: usize = 0;
    while i < chars.len()
        invariant
            i <= chars@.len(),
            chars@ == text@,
            forall|k: int| 0 <= k < i ==> text@[k] != wanted,
        decreases chars@.len() - i,
    {
        if chars[i] == wanted {
            assert(text@[i as int] == wanted);
            return true;
        }
        i = i + 1;
    }
    false
}

/// The name of an endpoint: under one of two prefixes, bounded, without a zero.
pub open spec fn is_pipe_name(name: Seq<char>) -> bool {
    &&& occurs_at(name, "\\\\.\\pipe\\LocalSearch\\Agent\\v1\\"@, 0) || occurs_at(
        name,
        "\\\\.\\pipe\\LocalSearch\\WinFS\\v1\\"@,
        0,
    )
    &&& encode_utf8(name).len() <= MAX_PIPE_NAME_BYTES
    &&& !name.contains('\0')
}

/// Checks the name of an endpoint.
pub fn validate_pipe_name(pipe_name: &str) -> (r: WindowsPipeResult<()>)
    ensures
        match r {
            Ok(()) => is_pipe_name(pipe_name@),
            Err(error) => !is_pipe_name(pipe_name@) && error == WindowsPipeError::InvalidEndpoint,
        },
{
    if !(starts_with_text(pipe_name, "\\\\.\\pipe\\LocalSearch\\Agent\\v1\\") || starts_with_text(
        pipe_name,
        "\\\\.\\pipe\\LocalSearch\\WinFS\\v1\\",
    )) || pipe_name.as_bytes().len() > MAX_PIPE_NAME_BYTES || holds_char(pipe_name, '\0') {
        return Err(WindowsPipeError::InvalidEndpoint);
    }
    Ok(())
}

/// An identity that may be written into an access list: bounded, without a zero or brackets.
pub open spec fn is_sid(sid: Seq<char>) -> bool {
    &&& sid.len() > 0
    &&& encode_utf8(sid).len() <= MAX_SID_BYTES
    &&& !sid.contains('\0')
    &&& !sid.contains('(')
    &&& !sid.contains(')')
}

/// Checks an endpoint name and the identity that may use it.
pub fn validate_endpoint(pipe_name: &str, authorized_logon_sid: &str) -> (r: WindowsPipeResult<()>)
    ensures
        match r {
            Ok(()) => is_pipe_name(pipe_name@) && is_sid(authorized_logon_sid@),
            Err(error) => !(is_pipe_name(pipe_name@) && is_sid(authorized_logon_sid@)) && error
                == WindowsPipeError::InvalidEndpoint,
        },
{
    match validate_pipe_name(pipe_name) {
        Ok(()) => {},
        Err(error) => return Err(error),
    }
    if authorized_logon_sid.is_empty() || authorized_logon_sid.as_bytes().len() > MAX_SID_BYTES
        || holds_char(authorized_logon_sid, '\0') || holds_char(authorized_logon_sid, ')')
        || holds_char(authorized_logon_sid, '(') {
        return Err(WindowsPipeError::InvalidEndpoint);
    }
    Ok(())
}

/// The access list that lets one identity use an endpoint.
pub fn security_descriptor(logon_sid: &str) -> (r: String)
    ensures
        r@ == "D:P(A;;0x12019b;;;"@ + logon_sid@ + ")"@,
{
    in_a_row("D:P(A;;0x12019b;;;", logon_sid, ")")
}

/// The UTF-16 code units of a character: one below 0x10000, and a surrogate pair from there on.
pub open spec fn units_of(c: char) -> Seq<u16> {
    let code = c as u32;
    if code < 0x10000 {
        seq![code as u16]
    } else {
        seq![
            (0xd800 + (code - 0x10000) / 0x400) as u16,
            (0xdc00 + (code - 0x10000) % 0x400) as u16,
        ]
    }
}

/// The UTF-16 code units of a text, character by character.
pub open spec fn utf16_units(text: Seq<char>) -> Seq<u16>
    decreases text.len(),
{
    if text.len() == 0 {
        Seq::empty()
    } else {
        utf16_units(text.drop_last()) + units_of(text.last())
    }
}

fn encode_utf16(text: &str) -> (r: Vec<u16>)
    ensures
        r@ == utf16_units(text@),
{
    let chars = chars_of(text);
    let mut r: Vec<u16> = Vec::new();
    let mut i: usize = 0;
    while i < chars.len()
        invariant
            i <= chars@.len(),
            chars@ == text@,
            r@ == utf16_units(text@.take(i as int)),
        decreases chars@.len() - i,
    {
        let ghost before = r@;
        let code: u32 = chars[i] as u32;
        if code < 0x10000 {
            r.push(code as u16);
        } else {
            r.push((0xd800 + (code - 0x10000) / 0x400) as u16);
            r.push((0xdc00 + (code - 0x10000) % 0x400) as u16);
        }
        i = i + 1;
        proof {
            let next = text@.take(i as int);
            assert(next.drop_last() =~= text@.take(i - 1));
            let c = text@[i - 1];
            char_is_scalar(c);
            if code >= 0x10000 {
                assert(0 <= (code - 0x10000) / 0x400 < 0x400);
                assert(0 <= (code - 0x10000) % 0x400 < 0x400);
                assert(r@ =~= before.push((0xd800 + (code - 0x10000) / 0x400) as u16).push(
                    (0xdc00 + (code - 0x10000) % 0x400) as u16,
                ));
            }
            assert(r@ =~= before + units_of(c));
        }
    }
    assert(text@.take(i as int) =~= text@);
    r
}

/// The code units of a text with a zero behind them.
pub fn wide_null(value: &str) -> (r: Vec<u16>)
    ensures
        r@ == utf16_units(value@).push(0),
{
    let mut r = encode_utf16(value);
    r.push(0);
    r
}

/// Checks that an exchange was not given up and that its time is not over.
pub fn check_transport(cancelled: bool, elapsed_ns: u128, deadline_ns: u128) -> (r:
    WindowsPipeResult<()>)
    ensures
        match r {
            Ok(()) => !cancelled && elapsed_ns < deadline_ns,
            Err(error) => if cancelled {
                error == WindowsPipeError::Cancelled
            } else {
                elapsed_ns >= deadline_ns && error == WindowsPipeError::DeadlineExceeded
            },
        },
{
    if cancelled {
        Err(WindowsPipeError::Cancelled)
    } else if elapsed_ns >= deadline_ns {
        Err(WindowsPipeError::DeadlineExceeded)
    } else {
        Ok(())
    }
}

/// How long a client waits before it tries to connect again: at most ten milliseconds, at most
/// what is left, but at least one.
pub fn retry_wait_ms(remaining_ms: u128) -> (r: u32)
    ensures
        r == (if remaining_ms > 10 {
            10
        } else if remaining_ms == 0 {
            1
        } else {
            remaining_ms as u32
        }),
{
    if remaining_ms > 10 {
        10
    } else if remaining_ms == 0 {
        1
    } else {
        remaining_ms as u32
    }
}

/// Whether a client that could not connect tries again.
pub fn connect_failed(code: u32) -> (r: WindowsPipeResult<()>)
    ensures
        match r {
            Ok(()) => code == ERROR_PIPE_BUSY || code == ERROR_FILE_NOT_FOUND,
            Err(error) => code != ERROR_PIPE_BUSY && code != ERROR_FILE_NOT_FOUND && (
            error matches WindowsPipeError::Io { operation, code: number } && operation@
                == "connect_pipe"@ && number == code),
        },
{
    if code != ERROR_PIPE_BUSY && code != ERROR_FILE_NOT_FOUND {
        return Err(last_io("connect_pipe", code));
    }
    Ok(())
}

/// Whether a server that did not connect a client has one nevertheless, or waits on.
pub fn accept_failed(code: u32) -> (r: WindowsPipeResult<bool>)
    ensures
        match r {
            Ok(connected) => if connected {
                code == ERROR_PIPE_CONNECTED
            } else {
                code == ERROR_PIPE_LISTENING || code == ERROR_NO_DATA
            },
            Err(error) => code != ERROR_PIPE_CONNECTED && code != ERROR_PIPE_LISTENING && code
                != ERROR_NO_DATA && (error matches WindowsPipeError::Io {
                operation,
                code: number,
            } && operation@ == "accept_pipe_client"@ && number == code),
        },
{
    if code == ERROR_PIPE_CONNECTED {
        return Ok(true);
    }
    if code != ERROR_PIPE_LISTENING && code != ERROR_NO_DATA {
        return Err(last_io("accept_pipe_client", code));
    }
    Ok(false)
}

/// Whether reading or writing that failed is tried again.
pub fn transfer_failed(operation: &'static str, code: u32) -> (r: WindowsPipeResult<()>)
    ensures
        match r {
            Ok(()) => code == ERROR_NO_DATA,
            Err(error) => code != ERROR_NO_DATA && (error matches WindowsPipeError::Io {
                operation: name,
                code: number,
            } && name@ == operation@ && number == code),
        },
{
    if code == ERROR_NO_DATA {
        return Ok(());
    }
    Err(last_io(operation, code))
}

/// The length that the first four bytes of a frame give, least significant first.
pub open spec fn declared_length(frame: Seq<u8>) -> nat {
    (frame[0] + 0x100 * frame[1] + 0x1_0000 * frame[2] + 0x100_0000 * frame[3]) as nat
}

/// What is wrong with a frame; nothing if its payload has the length that it declares and is not
/// too large.
pub open spec fn frame_fault(frame: Seq<u8>) -> Option<TransportFrameError> {
    if frame.len() < FRAME_PREFIX_BYTES {
        Some(TransportFrameError::Incomplete)
    } else if declared_length(frame) > MAX_TRANSPORT_FRAME_BYTES {
        Some(TransportFrameError::TooLarge)
    } else if frame.len() - FRAME_PREFIX_BYTES != declared_length(frame) {
        Some(TransportFrameError::Incomplete)
    } else {
        None
    }
}

fn read_length(frame: &Vec<u8>) -> (r: u64)
    requires
        frame@.len() >= FRAME_PREFIX_BYTES,
    ensures
        r == declared_length(frame@),
{
    (frame[0] as u64) + 0x100 * (frame[1] as u64) + 0x1_0000 * (frame[2] as u64) + 0x100_0000 * (
    frame[3] as u64)
}

/// Checks a whole frame.
pub fn validate_encoded_frame(frame: &Vec<u8>) -> (r: WindowsPipeResult<()>)
    ensures
        match r {
            Ok(()) => frame_fault(frame@) is None,
            Err(error) => frame_fault(frame@) matches Some(fault) && error
                == WindowsPipeError::Frame(fault),
        },
{
    if frame.len() < FRAME_PREFIX_BYTES {
        return Err(WindowsPipeError::Frame(TransportFrameError::Incomplete));
    }
    let length: u64 = read_length(frame);
    if length > MAX_TRANSPORT_FRAME_BYTES as u64 {
        return Err(WindowsPipeError::Frame(TransportFrameError::TooLarge));
    }
    if (frame.len() - FRAME_PREFIX_BYTES) as u64 != length {
        return Err(WindowsPipeError::Frame(TransportFrameError::Incomplete));
    }
    Ok(())
}

/// How many bytes a frame that was read in part still needs: first those of its length, then those
/// of its payload. Nothing if the payload is too large.
pub open spec fn still_needed(received: Seq<u8>) -> Option<int> {
    if received.len() < FRAME_PREFIX_BYTES {
        Some(FRAME_PREFIX_BYTES - received.len())
    } else if declared_length(received) > MAX_TRANSPORT_FRAME_BYTES {
        None
    } else {
        Some(FRAME_PREFIX_BYTES + declared_length(received) - received.len())
    }
}

/// A frame that is read piece by piece has been read exactly when it is a valid frame.
pub proof fn complete_frames_are_valid(received: Seq<u8>)
    ensures
        still_needed(received) == Some(0int) <==> frame_fault(received) is None,
        still_needed(received) is None <==> frame_fault(received) == Some(
            TransportFrameError::TooLarge,
        ),
{
}

/// Reading what is needed, and no more, never changes the length that a frame declares.
pub proof fn reading_keeps_the_length(received: Seq<u8>, more: Seq<u8>)
    requires
        received.len() >= FRAME_PREFIX_BYTES,
    ensures
        declared_length(received + more) == declared_length(received),
        still_needed(received) matches Some(n) ==> still_needed(received + more) == Some(
            n - more.len(),
        ),
{
    let both = received + more;
    assert(both[0] == received[0]);
    assert(both[1] == received[1]);
    assert(both[2] == received[2]);
    assert(both[3] == received[3]);
}

/// A reader gets back the frame that was written: having read any part of a valid frame it wants
/// more exactly when something is missing, and never more than the rest of the frame.
pub proof fn a_written_frame_is_read_back(frame: Seq<u8>, n: int)
    requires
        frame_fault(frame) is None,
        0 <= n <= frame.len(),
    ensures
        still_needed(frame.subrange(0, n)) matches Some(wanted) && 0 <= wanted <= frame.len() - n
            && (wanted == 0 <==> frame.subrange(0, n) == frame),
{
    let part = frame.subrange(0, n);
    if n >= FRAME_PREFIX_BYTES {
        assert(part[0] == frame[0]);
        assert(part[1] == frame[1]);
        assert(part[2] == frame[2]);
        assert(part[3] == frame[3]);
    }
    if n == frame.len() {
        assert(part =~= frame);
    }
}

fn needed(received: &Vec<u8>) -> (r: WindowsPipeResult<usize>)
    requires
        still_needed(received@) matches Some(n) ==> n >= 0,
    ensures
        match r {
            Ok(n) => still_needed(received@) == Some(n as int),
            Err(error) => still_needed(received@) is None && error == WindowsPipeError::Frame(
                TransportFrameError::TooLarge,
            ),
        },
{
    if received.len() < FRAME_PREFIX_BYTES {
        return Ok(FRAME_PREFIX_BYTES - received.len());
    }
    let length: u64 = read_length(received);
    if length > MAX_TRANSPORT_FRAME_BYTES as u64 {
        return Err(WindowsPipeError::Frame(TransportFrameError::TooLarge));
    }
    Ok(FRAME_PREFIX_BYTES + length as usize - received.len())
}

fn copy_from(bytes: &Vec<u8>, start: usize) -> (r: Vec<u8>)
    requires
        start <= bytes@.len(),
    ensures
        r@ == bytes@.skip(start as int),
{
    let mut r: Vec<u8> = Vec::new();
    let mut i: usize = start;
    while i < bytes.len()
        invariant
            start <= i <= bytes@.len(),
            r@ =~= bytes@.subrange(start as int, i as int),
        decreases bytes@.len() - i,
    {
        r.push(bytes[i]);
        i = i + 1;
    }
    assert(r@ =~= bytes@.skip(start as int));
    r
}

/// Where an exchange stands on the side of the client.
#[derive(Clone, Copy, Debug, PartialEq, Eq, Structural)]
pub enum ClientStage {
    /// Before the connection.
    Connecting,
    /// The request is written.
    Writing,
    /// The answer is read.
    Reading,
    /// The acknowledgement is written.
    Acknowledging,
    /// All is done.
    Done,
}

/// What a client does next.
#[derive(Clone, Debug, PartialEq, Eq)]
pub enum PipeAction {
    /// Connect.
    Connect,
    /// Write some of these bytes.
    Write(Vec<u8>),
    /// Read at most so many bytes.
    Read(usize),
    /// Nothing.
    Finish,
}

/// An exchange on the side of the client.
pub struct RoundTrip {
    request: Vec<u8>,
    written: usize,
    received: Vec<u8>,
    stage: ClientStage,
}

/// An exchange as a mathematical value.
pub struct RoundTripModel {
    pub request: Seq<u8>,
    pub written: nat,
    pub received: Seq<u8>,
    pub stage: ClientStage,
}

/// The action of an exchange, as a mathematical value.
pub open spec fn is_client_action(r: WindowsPipeResult<PipeAction>, m: RoundTripModel) -> bool {
    match m.stage {
        ClientStage::Connecting => r == Ok::<PipeAction, WindowsPipeError>(PipeAction::Connect),
        ClientStage::Writing => r matches Ok(PipeAction::Write(bytes)) && bytes@ == m.request.skip(
            m.written as int,
        ),
        ClientStage::Reading => match still_needed(m.received) {
            Some(n) => r matches Ok(PipeAction::Read(count)) && count == n,
            None => r matches Err(error) && error == WindowsPipeError::Frame(
                TransportFrameError::TooLarge,
            ),
        },
        ClientStage::Acknowledging => r matches Ok(PipeAction::Write(bytes)) && bytes@ == seq![
            RESPONSE_ACK,
        ],
        ClientStage::Done => r == Ok::<PipeAction, WindowsPipeError>(PipeAction::Finish),
    }
}

/// The exchange after some bytes were written.
pub open spec fn client_wrote(m: RoundTripModel, count: nat) -> RoundTripModel {
    if m.stage == ClientStage::Writing {
        let written = m.written + count;
        RoundTripModel {
            written,
            stage: if written == m.request.len() {
                ClientStage::Reading
            } else {
                ClientStage::Writing
            },
            ..m
        }
    } else if count > 0 {
        RoundTripModel { stage: ClientStage::Done, ..m }
    } else {
        m
    }
}

/// The exchange after some bytes were read.
pub open spec fn client_read(m: RoundTripModel, bytes: Seq<u8>) -> RoundTripModel {
    let received = m.received + bytes;
    RoundTripModel {
        received,
        stage: if still_needed(received) == Some(0int) {
            ClientStage::Acknowledging
        } else {
            ClientStage::Reading
        },
        ..m
    }
}

/// The server once some bytes of the request were read.
pub open spec fn server_read(m: ServingModel, bytes: Seq<u8>) -> ServingModel {
    let received = m.received + bytes;
    ServingModel {
        received,
        stage: if still_needed(received) == Some(0int) {
            ServerStage::Identifying
        } else {
            ServerStage::Reading
        },
        ..m
    }
}

/// The server once some bytes of the answer were written.
pub open spec fn server_wrote(m: ServingModel, count: nat) -> ServingModel {
    let written = m.written + count;
    ServingModel {
        written,
        stage: if written == m.response.len() {
            ServerStage::Confirming
        } else {
            ServerStage::Writing
        },
        ..m
    }
}

/// Begins an exchange: checks the endpoint name, then the request.
pub fn round_trip_frame_cancellable(pipe_name: &str, encoded: Vec<u8>) -> (r: WindowsPipeResult<
    RoundTrip,
>)
    ensures
        match r {
            Ok(exchange) => {
                &&& is_pipe_name(pipe_name@)
                &&& frame_fault(encoded@) is None
                &&& exchange.wf()
                &&& exchange@ == (RoundTripModel {
                    request: encoded@,
                    written: 0,
                    received: Seq::empty(),
                    stage: ClientStage::Connecting,
                })
            },
            Err(error) => if !is_pipe_name(pipe_name@) {
                error == WindowsPipeError::InvalidEndpoint
            } else {
                frame_fault(encoded@) matches Some(fault) && error == WindowsPipeError::Frame(fault)
            },
        },
{
    match validate_pipe_name(pipe_name) {
        Ok(()) => {},
        Err(error) => return Err(error),
    }
    match validate_encoded_frame(&encoded) {
        Ok(()) => {},
        Err(error) => return Err(error),
    }
    let exchange = RoundTrip {
        request: encoded,
        written: 0,
        received: Vec::new(),
        stage: ClientStage::Connecting,
    };
    assert(exchange@.received =~= Seq::empty());
    Ok(exchange)
}

impl RoundTrip {
    /// The exchange as a mathematical value.
    pub closed spec fn view(&self) -> RoundTripModel {
        RoundTripModel {
            request: self.request@,
            written: self.written as nat,
            received: self.received@,
            stage: self.stage,
        }
    }

    /// The request is a valid frame, written in part while it is written; nothing is read beyond
    /// the end of the answer, and the answer is complete once it is acknowledged.
    pub closed spec fn wf(&self) -> bool {
        &&& frame_fault(self.request@) is None
        &&& self.written <= self.request@.len()
        &&& self.stage == ClientStage::Connecting ==> self.written == 0
        &&& (self.stage == ClientStage::Connecting || self.stage == ClientStage::Writing)
            ==> self.received@.len() == 0
        &&& self.stage == ClientStage::Writing ==> self.written < self.request@.len()
        &&& still_needed(self.received@) matches Some(n) ==> n >= 0
        &&& self.stage == ClientStage::Reading ==> still_needed(self.received@) != Some(0int)
        &&& (self.stage == ClientStage::Acknowledging || self.stage == ClientStage::Done)
            ==> frame_fault(self.received@) is None
    }

    /// What the client does next.
    pub fn next_action(&self) -> (r: WindowsPipeResult<PipeAction>)
        requires
            self.wf(),
        ensures
            is_client_action(r, self@),
    {
        match self.stage {
            ClientStage::Connecting => Ok(PipeAction::Connect),
            ClientStage::Writing => Ok(PipeAction::Write(copy_from(&self.request, self.written))),
            ClientStage::Reading => match needed(&self.received) {
                Ok(count) => Ok(PipeAction::Read(count)),
                Err(error) => Err(error),
            },
            ClientStage::Acknowledging => {
                let bytes = vec![RESPONSE_ACK];
                assert(bytes@ =~= seq![RESPONSE_ACK]);
                Ok(PipeAction::Write(bytes))
            },
            ClientStage::Done => Ok(PipeAction::Finish),
        }
    }

    /// The client is connected.
    pub fn connected(&mut self)
        requires
            old(self).wf(),
            old(self)@.stage == ClientStage::Connecting,
        ensures
            final(self).wf(),
            final(self)@ == (RoundTripModel { stage: ClientStage::Writing, ..old(self)@ }),
    {
        self.stage = ClientStage::Writing;
    }

    /// Some bytes were written.
    pub fn wrote(&mut self, count: usize)
        requires
            old(self).wf(),
            old(self)@.stage == ClientStage::Writing || old(self)@.stage
                == ClientStage::Acknowledging,
            old(self)@.stage == ClientStage::Writing ==> count <= old(self)@.request.len() - old(
                self,
            )@.written,
        ensures
            final(self).wf(),
            final(self)@ == client_wrote(old(self)@, count as nat),
    {
        if self.stage == ClientStage::Writing {
            self.written = self.written + count;
            if self.written == self.request.len() {
                self.stage = ClientStage::Reading;
            }
        } else if count > 0 {
            self.stage = ClientStage::Done;
        }
    }

    /// Some bytes were read.
    pub fn read(&mut self, bytes: Vec<u8>)
        requires
            old(self).wf(),
            old(self)@.stage == ClientStage::Reading,
            still_needed(old(self)@.received) matches Some(n) && bytes@.len() <= n,
        ensures
            final(self).wf(),
            final(self)@ == client_read(old(self)@, bytes@),
    {
        let mut bytes = bytes;
        let ghost before = self.received@;
        let ghost more = bytes@;
        self.received.append(&mut bytes);
        proof {
            if before.len() >= FRAME_PREFIX_BYTES {
                reading_keeps_the_length(before, more);
            } else {
                assert(self.received@.len() <= FRAME_PREFIX_BYTES);
            }
            complete_frames_are_valid(self.received@);
        }
        let complete = match needed(&self.received) {
            Ok(0) => true,
            _ => false,
        };
        if complete {
            self.stage = ClientStage::Acknowledging;
        }
    }

    /// The answer, once all is done: a valid frame.
    pub fn into_frame(self) -> (r: Vec<u8>)
        requires
            self.wf(),
            self@.stage == ClientStage::Done,
        ensures
            r@ == self@.received,
            frame_fault(r@) is None,
    {
        self.received
    }
}

/// Where an exchange stands on the side of the server.
#[derive(Clone, Copy, Debug, PartialEq, Eq, Structural)]
pub enum ServerStage {
    /// The request is read.
    Reading,
    /// The client is to be identified.
    Identifying,
    /// The request may be handled.
    Handling,
    /// The answer is written.
    Writing,
    /// The acknowledgement is read.
    Confirming,
    /// All is done.
    Done,
}

/// An exchange on the side of the server.
pub struct Serving {
    authorized: String,
    received: Vec<u8>,
    response: Vec<u8>,
    written: usize,
    stage: ServerStage,
}

/// An exchange on the side of the server as a mathematical value.
pub struct ServingModel {
    pub authorized: Seq<char>,
    pub received: Seq<u8>,
    pub response: Seq<u8>,
    pub written: nat,
    pub stage: ServerStage,
}

impl Serving {
    /// The exchange as a mathematical value.
    pub closed spec fn view(&self) -> ServingModel {
        ServingModel {
            authorized: self.authorized@,
            received: self.received@,
            response: self.response@,
            written: self.written as nat,
            stage: self.stage,
        }
    }

    /// Nothing is read beyond the end of the request; a request is complete before its client is
    /// identified, and an answer is a valid frame before it is written.
    pub closed spec fn wf(&self) -> bool {
        &&& still_needed(self.received@) matches Some(n) ==> n >= 0
        &&& self.stage == ServerStage::Reading ==> still_needed(self.received@) != Some(0int)
        &&& self.stage != ServerStage::Reading ==> frame_fault(self.received@) is None
        &&& self.written <= self.response@.len()
        &&& self.stage == ServerStage::Writing ==> self.written < self.response@.len()
            && frame_fault(self.response@) is None
    }

    /// An exchange with a client that connected.
    pub fn begin(authorized_logon_sid: &str) -> (r: Serving)
        ensures
            r.wf(),
            r@ == (ServingModel {
                authorized: authorized_logon_sid@,
                received: Seq::empty(),
                response: Seq::empty(),
                written: 0,
                stage: ServerStage::Reading,
            }),
    {
        let r = Serving {
            authorized: authorized_logon_sid.to_owned(),
            received: Vec::new(),
            response: Vec::new(),
            written: 0,
            stage: ServerStage::Reading,
        };
        assert(r@.received =~= Seq::empty());
        assert(r@.response =~= Seq::empty());
        r
    }

    /// How many bytes of the request are still to be read.
    pub fn to_read(&self) -> (r: WindowsPipeResult<usize>)
        requires
            self.wf(),
        ensures
            match r {
                Ok(n) => still_needed(self@.received) == Some(n as int),
                Err(error) => still_needed(self@.received) is None && error
                    == WindowsPipeError::Frame(TransportFrameError::TooLarge),
            },
    {
        needed(&self.received)
    }

    /// Some bytes of the request were read.
    pub fn read(&mut self, bytes: Vec<u8>)
        requires
            old(self).wf(),
            old(self)@.stage == ServerStage::Reading,
            still_needed(old(self)@.received) matches Some(n) && bytes@.len() <= n,
        ensures
            final(self).wf(),
            final(self)@ == server_read(old(self)@, bytes@),
    {
        let mut bytes = bytes;
        let ghost before = self.received@;
        let ghost more = bytes@;
        self.received.append(&mut bytes);
        proof {
            if before.len() >= FRAME_PREFIX_BYTES {
                reading_keeps_the_length(before, more);
            } else {
                assert(self.received@.len() <= FRAME_PREFIX_BYTES);
            }
            complete_frames_are_valid(self.received@);
        }
        let complete = match needed(&self.received) {
            Ok(0) => true,
            _ => false,
        };
        if complete {
            self.stage = ServerStage::Identifying;
        }
    }

    /// Identifies the client: only the authorized identity is served.
    pub fn identify(&mut self, actual: &str) -> (r: WindowsPipeResult<()>)
        requires
            old(self).wf(),
            old(self)@.stage == ServerStage::Identifying,
        ensures
            final(self).wf(),
            match r {
                Ok(()) => actual@ == old(self)@.authorized && final(self)@ == (ServingModel {
                    stage: ServerStage::Handling,
                    ..old(self)@
                }),
                Err(error) => actual@ != old(self)@.authorized && error
                    == WindowsPipeError::Unauthorized && final(self)@ == old(self)@,
            },
    {
        if same_text(actual, self.authorized.as_str()) {
            self.stage = ServerStage::Handling;
            Ok(())
        } else {
            Err(WindowsPipeError::Unauthorized)
        }
    }

    /// The request, once its client was identified: a valid frame.
    pub fn request(&self) -> (r: &Vec<u8>)
        requires
            self.wf(),
            self@.stage == ServerStage::Handling,
        ensures
            r@ == self@.received,
            frame_fault(r@) is None,
    {
        &self.received
    }

    /// Takes the answer. One that is no valid frame is not written.
    pub fn respond(&mut self, encoded: Vec<u8>) -> (r: WindowsPipeResult<()>)
        requires
            old(self).wf(),
            old(self)@.stage == ServerStage::Handling,
        ensures
            final(self).wf(),
            match r {
                Ok(()) => frame_fault(encoded@) is None && final(self)@ == (ServingModel {
                    response: encoded@,
                    written: 0,
                    stage: ServerStage::Writing,
                    ..old(self)@
                }),
                Err(error) => (frame_fault(encoded@) matches Some(fault) && error
                    == WindowsPipeError::Frame(fault)) && final(self)@ == old(self)@,
            },
    {
        match validate_encoded_frame(&encoded) {
            Ok(()) => {},
            Err(error) => return Err(error),
        }
        self.response = encoded;
        self.written = 0;
        self.stage = ServerStage::Writing;
        Ok(())
    }

    /// What is left to be written.
    pub fn to_write(&self) -> (r: Vec<u8>)
        requires
            self.wf(),
        ensures
            r@ == self@.response.skip(self@.written as int),
    {
        copy_from(&self.response, self.written)
    }

    /// Some bytes of the answer were written.
    pub fn wrote(&mut self, count: usize)
        requires
            old(self).wf(),
            old(self)@.stage == ServerStage::Writing,
            count <= old(self)@.response.len() - old(self)@.written,
        ensures
            final(self).wf(),
            final(self)@ == server_wrote(old(self)@, count as nat),
    {
        self.written = self.written + count;
        if self.written == self.response.len() {
            self.stage = ServerStage::Confirming;
        }
    }

    /// Takes the acknowledgement of the client.
    pub fn confirm(&mut self, acknowledgement: u8) -> (r: WindowsPipeResult<()>)
        requires
            old(self).wf(),
            old(self)@.stage == ServerStage::Confirming,
        ensures
            final(self).wf(),
            match r {
                Ok(()) => acknowledgement == RESPONSE_ACK && final(self)@ == (ServingModel {
                    stage: ServerStage::Done,
                    ..old(self)@
                }),
                Err(error) => acknowledgement != RESPONSE_ACK && error == WindowsPipeError::Frame(
                    TransportFrameError::Incomplete,
                ) && final(self)@ == old(self)@,
            },
    {
        if acknowledgement != RESPONSE_ACK {
            return Err(WindowsPipeError::Frame(TransportFrameError::Incomplete));
        }
        self.stage = ServerStage::Done;
        Ok(())
    }
}

/// The endpoint of a logon session is a valid one, if the identity is short and has no zero.
pub proof fn default_endpoints_are_valid(logon_sid: Seq<char>)
    requires
        encode_utf8(pipe_name_of(logon_sid)).len() <= MAX_PIPE_NAME_BYTES,
        !logon_sid.contains('\0'),
    ensures
        is_pipe_name(pipe_name_of(logon_sid)),
{
    reveal_strlit("\\\\.\\pipe\\LocalSearch\\Agent\\v1\\");
    let prefix = "\\\\.\\pipe\\LocalSearch\\Agent\\v1\\"@;
    let name = pipe_name_of(logon_sid);
    assert(name.subrange(0, prefix.len() as int) =~= prefix);
    assert forall|i: int| 0 <= i < name.len() implies name[i] != '\0' by {
        if i >= prefix.len() {
            assert(name[i] == logon_sid[i - prefix.len()]);
            assert(logon_sid.contains(logon_sid[i - prefix.len()]));
        }
    }
}

/// A frame is its length, least significant byte first, followed by the payload: any payload that is
/// not too large makes a valid frame, and nothing else may follow or be missing.
pub proof fn frames_are_length_and_payload(payload: Seq<u8>, extra: Seq<u8>)
    requires
        payload.len() <= u32::MAX,
    ensures
        ({
            let n = payload.len();
            let prefix = seq![
                (n % 256) as u8,
                (n / 256 % 256) as u8,
                (n / 65_536 % 256) as u8,
                (n / 16_777_216) as u8,
            ];
            &&& declared_length(prefix + payload) == n
            &&& n <= MAX_TRANSPORT_FRAME_BYTES ==> frame_fault(prefix + payload) is None
            &&& n > MAX_TRANSPORT_FRAME_BYTES ==> frame_fault(prefix + payload) == Some(
                TransportFrameError::TooLarge,
            )
            &&& n <= MAX_TRANSPORT_FRAME_BYTES && extra.len() > 0 ==> frame_fault(
                prefix + payload + extra,
            ) == Some(TransportFrameError::Incomplete)
            &&& 0 < n <= MAX_TRANSPORT_FRAME_BYTES ==> frame_fault(prefix + payload.drop_last())
                == Some(TransportFrameError::Incomplete)
        }),
        payload.len() < 4 ==> frame_fault(payload) == Some(TransportFrameError::Incomplete),
{
    let n = payload.len();
    let prefix = seq![
        (n % 256) as u8,
        (n / 256 % 256) as u8,
        (n / 65_536 % 256) as u8,
        (n / 16_777_216) as u8,
    ];
    let a = prefix + payload;
    let b = a + extra;
    assert(n / 16_777_216 < 256);
    assert(a[0] == prefix[0] && a[1] == prefix[1] && a[2] == prefix[2] && a[3] == prefix[3]);
    assert(b[0] == prefix[0] && b[1] == prefix[1] && b[2] == prefix[2] && b[3] == prefix[3]);
    if n > 0 {
        let c = prefix + payload.drop_last();
        assert(c[0] == prefix[0] && c[1] == prefix[1] && c[2] == prefix[2] && c[3] == prefix[3]);
    }
}

/// A client writes its whole request before it reads, reads the whole answer before it
/// acknowledges, and is done once it has acknowledged.
pub proof fn clients_take_their_turns(m: RoundTripModel, count: nat, bytes: Seq<u8>)
    ensures
        m.stage == ClientStage::Writing ==> ({
            let next = client_wrote(m, count);
            &&& next.written == m.written + count
            &&& next.stage == ClientStage::Reading <==> m.written + count == m.request.len()
            &&& next.stage == ClientStage::Writing <==> m.written + count != m.request.len()
            &&& next.request == m.request && next.received == m.received
        }),
        m.stage == ClientStage::Acknowledging ==> (client_wrote(m, count).stage
            == ClientStage::Done <==> count > 0),
        ({
            let next = client_read(m, bytes);
            &&& next.received == m.received + bytes
            &&& next.stage == ClientStage::Acknowledging <==> frame_fault(m.received + bytes)
                is None
            &&& next.stage == ClientStage::Acknowledging || next.stage == ClientStage::Reading
            &&& next.request == m.request
        }),
{
    complete_frames_are_valid(m.received + bytes);
}

/// Sessions have different endpoints.
pub proof fn sessions_have_different_endpoints(a: Seq<char>, b: Seq<char>)
    ensures
        pipe_name_of(a) == pipe_name_of(b) ==> a == b,
{
    let prefix = "\\\\.\\pipe\\LocalSearch\\Agent\\v1\\"@;
    if pipe_name_of(a) == pipe_name_of(b) {
        assert((prefix + a).skip(prefix.len() as int) =~= a);
        assert((prefix + b).skip(prefix.len() as int) =~= b);
    }
}

/// An identity may be used exactly when it is short enough, not empty, and cannot end the entry
/// that it is written into.
pub proof fn identities_cannot_end_their_entry(sid: Seq<char>)
    ensures
        is_sid(sid) ==> sid.len() > 0 && forall|i: int|
            0 <= i < sid.len() ==> #[trigger] sid[i] != '(' && sid[i] != ')' && sid[i] != '\0',
        sid.len() == 0 ==> !is_sid(sid),
        sid.contains('(') || sid.contains(')') || sid.contains('\0') ==> !is_sid(sid),
{
    if is_sid(sid) {
        assert forall|i: int| 0 <= i < sid.len() implies #[trigger] sid[i] != '(' && sid[i] != ')'
            && sid[i] != '\0' by {
            assert(sid.contains(sid[i]));
        }
    }
}

/// What a client sends next completes what it has sent; once the whole request is sent it reads,
/// and it acknowledges what it read by one byte before it is done.
pub proof fn clients_send_what_is_left(r: WindowsPipeResult<PipeAction>, m: RoundTripModel)
    requires
        is_client_action(r, m),
        m.written <= m.request.len(),
    ensures
        m.stage == ClientStage::Writing ==> (r matches Ok(PipeAction::Write(bytes))
            && m.request.take(m.written as int) + bytes@ == m.request),
        m.stage == ClientStage::Acknowledging ==> (r matches Ok(PipeAction::Write(bytes))
            && bytes@.len() == 1),
        r == Ok::<PipeAction, WindowsPipeError>(PipeAction::Finish) <==> m.stage
            == ClientStage::Done,
        r == Ok::<PipeAction, WindowsPipeError>(PipeAction::Connect) <==> m.stage
            == ClientStage::Connecting,
        r matches Ok(PipeAction::Read(count)) ==> m.stage == ClientStage::Reading,
        r is Err ==> m.stage == ClientStage::Reading,
{
    if m.stage == ClientStage::Writing {
        let rest = m.request.skip(m.written as int);
        assert(m.request.take(m.written as int) + rest =~= m.request);
    }
}

/// A server reads the whole request before it asks who sent it, and writes the whole answer before
/// it waits for the client to confirm it; neither loses a byte.
pub proof fn servers_take_their_turns(m: ServingModel, count: nat, bytes: Seq<u8>)
    ensures
        ({
            let next = server_read(m, bytes);
            &&& next.received == m.received + bytes
            &&& next.stage == ServerStage::Identifying <==> frame_fault(m.received + bytes) is None
            &&& next.stage == ServerStage::Identifying || next.stage == ServerStage::Reading
            &&& next.authorized == m.authorized && next.response == m.response && next.written
                == m.written
        }),
        ({
            let next = server_wrote(m, count);
            &&& next.written == m.written + count
            &&& next.stage == ServerStage::Confirming <==> m.written + count == m.response.len()
            &&& next.stage == ServerStage::Confirming || next.stage == ServerStage::Writing
            &&& next.authorized == m.authorized && next.response == m.response && next.received
                == m.received
        }),
{
    complete_frames_are_valid(m.received + bytes);
}

} // verus!
