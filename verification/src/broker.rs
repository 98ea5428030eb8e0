//! The metadata broker: which requests it serves, and the scans that it streams.

use vstd::prelude::*;
use vstd::utf8::encode_utf8;

use crate::catalog::{
    event_models, CheckpointModel, EventModel, FilesystemEvent, ProviderCheckpoint,
    VolumeDescriptor,
};
use crate::ids::VolumeId;
use crate::platform::{reports, PlatformError, PlatformErrorKind, PlatformResult};
use crate::provider::{ChangeBatch, FilesystemProvider, ScanSummary};
use crate::text::{same_text, texts};

verus! {

/// Scans that may be active at once.
pub const MAX_ACTIVE_SCANS: usize = 4;

/// Changes that a scan may be ahead of its reader.
pub const SCAN_QUEUE_EVENTS: usize = 256;

/// Requests whose identifiers are remembered.
pub const REPLAY_WINDOW_REQUESTS: usize = 4_096;

/// Longest identifier that is sent back.
pub const MAX_ECHOED_ID_BYTES: usize = 64;

/// Why a request is refused.
#[derive(Clone, Copy, Debug, PartialEq, Eq, Structural)]
pub enum BrokerErrorCode {
    /// The request is malformed.
    InvalidRequest,
    /// The protocol is not spoken.
    UnsupportedProtocolVersion,
    /// The encoding is not spoken.
    UnsupportedCodecVersion,
    /// The identifier was used before.
    ReplayRejected,
    /// The caller gave up.
    Cancelled,
    /// The time is over.
    DeadlineExceeded,
    /// There is no such thing.
    NotFound,
    /// The caller may not do this.
    PermissionDenied,
    /// The source cannot do this.
    Unsupported,
    /// The source is not there now.
    Unavailable,
    /// Change history is missing.
    SourceHistoryGap,
    /// A bound was reached.
    ResourceExhausted,
    /// A broken assumption.
    Internal,
}

/// How a request breaks the contract.
#[derive(Clone, Copy, Debug, PartialEq, Eq, Structural)]
pub enum BrokerContractError {
    /// Another protocol.
    UnsupportedProtocolVersion,
    /// Another encoding.
    UnsupportedCodecVersion,
    /// Anything else.
    InvalidRequest,
}

/// A refusal.
#[derive(Clone, Copy, Debug, PartialEq, Eq)]
pub struct ServiceError {
    /// Why.
    pub code: BrokerErrorCode,
    /// What is said of it.
    pub message: &'static str,
}

/// A refusal with this code and message.
pub open spec fn refuses(error: ServiceError, code: BrokerErrorCode, message: Seq<char>) -> bool {
    error.code == code && error.message@ == message
}

/// The code of a platform failure.
pub open spec fn broker_code(kind: PlatformErrorKind) -> BrokerErrorCode {
    match kind {
        PlatformErrorKind::PermissionDenied => BrokerErrorCode::PermissionDenied,
        PlatformErrorKind::Unsupported => BrokerErrorCode::Unsupported,
        PlatformErrorKind::InvalidCheckpoint => BrokerErrorCode::Unsupported,
        PlatformErrorKind::Unavailable => BrokerErrorCode::Unavailable,
        PlatformErrorKind::Io => BrokerErrorCode::Unavailable,
        PlatformErrorKind::SourceHistoryGap => BrokerErrorCode::SourceHistoryGap,
        PlatformErrorKind::ResourceExhausted => BrokerErrorCode::ResourceExhausted,
        PlatformErrorKind::Cancelled => BrokerErrorCode::Cancelled,
        PlatformErrorKind::Internal => BrokerErrorCode::Internal,
    }
}

/// What is said of every platform failure, whatever its details.
pub open spec fn is_platform_refusal(error: ServiceError, kind: PlatformErrorKind) -> bool {
    refuses(error, broker_code(kind), "filesystem metadata operation failed"@)
}

/// The refusal of a platform failure. It does not repeat the details.
pub fn platform_error(error: &PlatformError) -> (r: ServiceError)
    ensures
        is_platform_refusal(r, error.kind),
{
    let code = match error.kind {
        PlatformErrorKind::PermissionDenied => BrokerErrorCode::PermissionDenied,
        PlatformErrorKind::Unsupported => BrokerErrorCode::Unsupported,
        PlatformErrorKind::InvalidCheckpoint => BrokerErrorCode::Unsupported,
        PlatformErrorKind::Unavailable => BrokerErrorCode::Unavailable,
        PlatformErrorKind::Io => BrokerErrorCode::Unavailable,
        PlatformErrorKind::SourceHistoryGap => BrokerErrorCode::SourceHistoryGap,
        PlatformErrorKind::ResourceExhausted => BrokerErrorCode::ResourceExhausted,
        PlatformErrorKind::Cancelled => BrokerErrorCode::Cancelled,
        PlatformErrorKind::Internal => BrokerErrorCode::Internal,
    };
    ServiceError { code, message: "filesystem metadata operation failed" }
}

/// The refusal of a request that breaks the contract.
pub fn contract_failure(error: BrokerContractError) -> (r: ServiceError)
    ensures
        refuses(
            r,
            match error {
                BrokerContractError::UnsupportedProtocolVersion => {
                    BrokerErrorCode::UnsupportedProtocolVersion
                },
                BrokerContractError::UnsupportedCodecVersion => {
                    BrokerErrorCode::UnsupportedCodecVersion
                },
                BrokerContractError::InvalidRequest => BrokerErrorCode::InvalidRequest,
            },
            "broker request contract rejected"@,
        ),
{
    let code = match error {
        BrokerContractError::UnsupportedProtocolVersion => {
            BrokerErrorCode::UnsupportedProtocolVersion
        },
        BrokerContractError::UnsupportedCodecVersion => BrokerErrorCode::UnsupportedCodecVersion,
        BrokerContractError::InvalidRequest => BrokerErrorCode::InvalidRequest,
    };
    ServiceError { code, message: "broker request contract rejected" }
}

/// The identifier that an answer carries: that of the request unless it is too long.
pub fn echoed_request_id(request_id: &str) -> (r: String)
    ensures
        r@ == (if encode_utf8(request_id@).len() <= MAX_ECHOED_ID_BYTES {
            request_id@
        } else {
            Seq::empty()
        }),
{
    if request_id.as_bytes().len() <= MAX_ECHOED_ID_BYTES {
        request_id.to_owned()
    } else {
        String::new()
    }
}

/// Nanoseconds of a number of milliseconds.
pub open spec fn deadline_ns(deadline_ms: u32) -> int {
    deadline_ms * 1_000_000
}

/// Checks that a request was not given up and that its time is not over.
pub fn check_request(cancelled: bool, elapsed_ns: u128, deadline_ms: u32) -> (r: Result<
    (),
    ServiceError,
>)
    ensures
        match r {
            Ok(()) => !cancelled && elapsed_ns < deadline_ns(deadline_ms),
            Err(error) => if cancelled {
                refuses(error, BrokerErrorCode::Cancelled, "broker request cancelled"@)
            } else {
                elapsed_ns >= deadline_ns(deadline_ms) && refuses(
                    error,
                    BrokerErrorCode::DeadlineExceeded,
                    "broker request deadline exceeded"@,
                )
            },
        },
{
    if cancelled {
        Err(
            ServiceError {
                code: BrokerErrorCode::Cancelled,
                message: "broker request cancelled",
            },
        )
    } else if elapsed_ns >= (deadline_ms as u128) * 1_000_000 {
        Err(
            ServiceError {
                code: BrokerErrorCode::DeadlineExceeded,
                message: "broker request deadline exceeded",
            },
        )
    } else {
        Ok(())
    }
}

/// The identifiers of the last requests.
pub struct ReplayWindow {
    capacity: usize,
    order: Vec<String>,
}

/// A window as a mathematical value: the identifiers, oldest first.
pub struct WindowModel {
    pub capacity: nat,
    pub order: Seq<Seq<char>>,
}

/// The window with one more identifier; the oldest goes once the capacity is exceeded.
pub open spec fn remembered(m: WindowModel, id: Seq<char>) -> WindowModel {
    let longer = m.order.push(id);
    WindowModel {
        order: if longer.len() > m.capacity {
            longer.drop_first()
        } else {
            longer
        },
        ..m
    }
}

impl ReplayWindow {
    /// The window as a mathematical value.
    pub closed spec fn view(&self) -> WindowModel {
        WindowModel { capacity: self.capacity as nat, order: texts(self.order@) }
    }

    /// No identifier is held twice, and no more than the capacity.
    pub closed spec fn wf(&self) -> bool {
        &&& texts(self.order@).no_duplicates()
        &&& self.order@.len() <= self.capacity
    }

    /// An empty window.
    pub fn new(capacity: usize) -> (r: ReplayWindow)
        ensures
            r.wf(),
            r@ == (WindowModel { capacity: capacity as nat, order: Seq::empty() }),
    {
        let r = ReplayWindow { capacity, order: Vec::new() };
        assert(texts(r.order@) =~= Seq::empty());
        r
    }

    fn holds(&self, request_id: &str) -> (r: bool)
        ensures
            r == self@.order.contains(request_id@),
    {
        let mut i: usize = 0;
        while i < self.order.len()
            invariant
                i <= self.order@.len(),
                forall|k: int| 0 <= k < i ==> #[trigger] texts(self.order@)[k] != request_id@,
            decreases self.order@.len() - i,
        {
            if same_text(self.order[i].as_str(), request_id) {
                assert(texts(self.order@)[i as int] == request_id@);
                return true;
            }
            i = i + 1;
        }
        false
    }

    /// Takes the identifier of a request. One that the window holds is refused and changes
    /// nothing.
    pub fn accept(&mut self, request_id: &str) -> (r: Result<(), ()>)
        requires
            old(self).wf(),
        ensures
            final(self).wf(),
            r is Err <==> old(self)@.order.contains(request_id@),
            final(self)@ == (if r is Ok {
                remembered(old(self)@, request_id@)
            } else {
                old(self)@
            }),
    {
        if self.holds(request_id) {
            return Err(());
        }
        let ghost before = texts(self.order@);
        self.order.push(request_id.to_owned());
        let ghost longer = before.push(request_id@);
        proof {
            assert(texts(self.order@) =~= longer);
            assert forall|i: int, j: int| 0 <= i < j < longer.len() implies longer[i]
                != longer[j] by {
                if j == before.len() {
                    assert(before.contains(before[i]));
                }
            }
        }
        if self.order.len() > self.capacity {
            let _ = self.order.remove(0);
            proof {
                let shorter = longer.drop_first();
                assert(texts(self.order@) =~= shorter);
                assert forall|i: int, j: int| 0 <= i < j < shorter.len() implies shorter[i]
                    != shorter[j] by {
                    assert(shorter[i] == longer[i + 1]);
                    assert(shorter[j] == longer[j + 1]);
                }
            }
        }
        Ok(())
    }
}

/// A request that was just accepted is remembered, so that it is a replay when it comes again, as
/// long as the window has any room.
pub proof fn accepted_request_is_not_replayed(m: WindowModel, id: Seq<char>)
    requires
        m.capacity > 0,
        m.order.len() <= m.capacity,
    ensures
        remembered(m, id).order.contains(id),
{
    let after = remembered(m, id).order;
    assert(after.last() == id);
    assert(after[after.len() - 1] == id);
}

/// Accepting a request forgets at most the oldest one.
pub proof fn only_the_oldest_request_is_forgotten(m: WindowModel, id: Seq<char>, other: Seq<char>)
    requires
        m.order.contains(other),
        m.order.len() > 0,
        m.order[0] != other,
    ensures
        remembered(m, id).order.contains(other),
{
    let k = m.order.index_of(other);
    let longer = m.order.push(id);
    assert(longer[k] == other);
    if longer.len() > m.capacity {
        assert(longer.drop_first()[k - 1] == other);
    }
}

/// How a scan ended.
pub enum TerminalModel {
    Completed { checkpoint: CheckpointModel, emitted_events: u64 },
    Failed { kind: PlatformErrorKind, operation: Seq<char>, detail: Seq<char> },
}

/// How a scan ended, as a mathematical value.
pub open spec fn terminal_model(result: PlatformResult<ScanSummary>) -> TerminalModel {
    match result {
        Ok(summary) => TerminalModel::Completed {
            checkpoint: summary.checkpoint@,
            emitted_events: summary.emitted_events,
        },
        Err(error) => TerminalModel::Failed {
            kind: error.kind,
            operation: error.operation@,
            detail: error.detail@,
        },
    }
}

/// How a scan ended, if it did.
pub open spec fn optional_terminal(result: Option<PlatformResult<ScanSummary>>) -> Option<
    TerminalModel,
> {
    match result {
        Some(result) => Some(terminal_model(result)),
        None => None,
    }
}

/// An active scan.
struct ActiveScan {
    scan_id: u64,
    pending_terminal: Option<PlatformResult<ScanSummary>>,
}

/// An active scan as a mathematical value: how it ended, if its reader was not told yet.
pub struct ScanModel {
    pub scan_id: u64,
    pub pending_terminal: Option<TerminalModel>,
}

impl View for ActiveScan {
    type V = ScanModel;

    closed spec fn view(&self) -> ScanModel {
        ScanModel {
            scan_id: self.scan_id,
            pending_terminal: optional_terminal(self.pending_terminal),
        }
    }
}

/// A scan with this number is active.
pub open spec fn is_active(scans: Seq<ScanModel>, scan_id: u64) -> bool {
    exists|i: int| 0 <= i < scans.len() && (#[trigger] scans[i]).scan_id == scan_id
}

/// No two active scans share a number.
pub open spec fn distinct_scans(scans: Seq<ScanModel>) -> bool {
    forall|i: int, j: int|
        0 <= i < j < scans.len() ==> (#[trigger] scans[i]).scan_id != (#[trigger] scans[j]).scan_id
}

/// The number after this one; after the largest comes 0.
pub open spec fn next_number(scan_id: u64) -> u64 {
    if scan_id == u64::MAX {
        0
    } else {
        (scan_id + 1) as u64
    }
}

/// The number that is `n` steps after this one.
pub open spec fn number_after(scan_id: u64, n: nat) -> u64
    decreases n,
{
    if n == 0 {
        scan_id
    } else {
        next_number(number_after(scan_id, (n - 1) as nat))
    }
}

/// The number is the first free one, `n` steps after the given one.
pub open spec fn is_next_free(scans: Seq<ScanModel>, from: u64, n: nat, scan_id: u64) -> bool {
    &&& n <= scans.len()
    &&& scan_id == number_after(from, n)
    &&& !is_active(scans, scan_id)
    &&& forall|k: nat| k < n ==> is_active(scans, #[trigger] number_after(from, k))
}

proof fn lemma_number_after(scan_id: u64, n: nat)
    requires
        n <= u64::MAX,
    ensures
        number_after(scan_id, n) as int == if scan_id + n <= u64::MAX {
            scan_id + n
        } else {
            scan_id + n - u64::MAX - 1
        },
    decreases n,
{
    if n > 0 {
        lemma_number_after(scan_id, (n - 1) as nat);
    }
}

/// Fewer numbers in a row are in use than scans are active, or as many.
proof fn lemma_numbers_in_use(scans: Seq<ScanModel>, scan_id: u64, n: nat)
    requires
        n <= u64::MAX,
        forall|k: nat| k < n ==> is_active(scans, #[trigger] number_after(scan_id, k)),
    ensures
        n <= scans.len(),
{
    let ids = Seq::new(scans.len(), |i: int| scans[i].scan_id);
    let used = Seq::new(n, |k: int| number_after(scan_id, k as nat));
    assert(used.no_duplicates()) by {
        assert forall|i: int, j: int| 0 <= i < n && 0 <= j < n && i != j implies used[i]
            != used[j] by {
            lemma_number_after(scan_id, i as nat);
            lemma_number_after(scan_id, j as nat);
        }
    }
    used.unique_seq_to_set();
    ids.lemma_cardinality_of_set();
    assert(used.to_set().subset_of(ids.to_set())) by {
        assert forall|x: u64| used.to_set().contains(x) implies ids.to_set().contains(x) by {
            let k = used.index_of(x);
            assert(used[k] == number_after(scan_id, k as nat));
            let i = choose|i: int| 0 <= i < scans.len() && (#[trigger] scans[i]).scan_id == x;
            assert(ids[i] == x);
        }
    }
    vstd::set_lib::lemma_len_subset(used.to_set(), ids.to_set());
}

/// The first active scan with a number.
pub open spec fn position_of_scan(scans: Seq<ScanModel>, scan_id: u64) -> int
    decreases scans.len(),
{
    if scans.len() == 0 || scans[0].scan_id == scan_id {
        0
    } else {
        1 + position_of_scan(scans.drop_first(), scan_id)
    }
}

proof fn lemma_position_of_scan(scans: Seq<ScanModel>, scan_id: u64, at: int)
    requires
        0 <= at <= scans.len(),
        forall|i: int| 0 <= i < at ==> (#[trigger] scans[i]).scan_id != scan_id,
        at < scans.len() ==> scans[at].scan_id == scan_id,
    ensures
        position_of_scan(scans, scan_id) == at,
        is_active(scans, scan_id) <==> at < scans.len(),
    decreases scans.len(),
{
    if at > 0 {
        let rest = scans.drop_first();
        assert(scans[0].scan_id != scan_id);
        assert forall|i: int| 0 <= i < at - 1 implies (#[trigger] rest[i]).scan_id != scan_id by {
            assert(rest[i] == scans[i + 1]);
        }
        lemma_position_of_scan(rest, scan_id, at - 1);
    }
    if at < scans.len() {
        assert(scans[at].scan_id == scan_id);
    }
}

/// Requests and scans of the broker.
pub struct BrokerState {
    replay: ReplayWindow,
    scans: Vec<ActiveScan>,
    next_scan_id: u64,
}

/// Requests and scans as a mathematical value.
pub struct BrokerModel {
    pub replay: WindowModel,
    pub scans: Seq<ScanModel>,
    pub next_scan_id: u64,
}

/// The broker once it took a request: one that keeps the contract is remembered, unless it was
/// seen before.
pub open spec fn admitted(
    m: BrokerModel,
    request_id: Seq<char>,
    contract: Option<BrokerContractError>,
) -> BrokerModel {
    if contract is None && !m.replay.order.contains(request_id) {
        BrokerModel { replay: remembered(m.replay, request_id), ..m }
    } else {
        m
    }
}

/// Why a request is refused; nothing if it is not.
pub open spec fn admission_refusal(
    m: BrokerModel,
    request_id: Seq<char>,
    contract: Option<BrokerContractError>,
    cancelled: bool,
) -> Option<(BrokerErrorCode, Seq<char>)> {
    match contract {
        Some(BrokerContractError::UnsupportedProtocolVersion) => Some(
            (
                BrokerErrorCode::UnsupportedProtocolVersion,
                "broker request contract rejected"@,
            ),
        ),
        Some(BrokerContractError::UnsupportedCodecVersion) => Some(
            (BrokerErrorCode::UnsupportedCodecVersion, "broker request contract rejected"@),
        ),
        Some(BrokerContractError::InvalidRequest) => Some(
            (BrokerErrorCode::InvalidRequest, "broker request contract rejected"@),
        ),
        None => if m.replay.order.contains(request_id) {
            Some(
                (
                    BrokerErrorCode::ReplayRejected,
                    "request identifier was replayed or replay state is unavailable"@,
                ),
            )
        } else if cancelled {
            Some((BrokerErrorCode::Cancelled, "broker request cancelled"@))
        } else {
            None
        },
    }
}

/// What is said of an unknown scan.
pub open spec fn is_unknown_scan(error: ServiceError) -> bool {
    refuses(error, BrokerErrorCode::NotFound, "scan is not active"@)
}

/// A page of a scan.
#[derive(Clone, Debug, PartialEq, Eq)]
pub struct ScanPage {
    /// Changes.
    pub events: Vec<FilesystemEvent>,
    /// Where to read changes from, once the scan is complete.
    pub checkpoint: Option<ProviderCheckpoint>,
    /// Whether the scan is complete.
    pub complete: bool,
    /// Whether there is more to read.
    pub has_more: bool,
}

/// A page as a mathematical value.
pub struct PageModel {
    pub events: Seq<EventModel>,
    pub checkpoint: Option<CheckpointModel>,
    pub complete: bool,
    pub has_more: bool,
}

impl View for ScanPage {
    type V = PageModel;

    open spec fn view(&self) -> PageModel {
        PageModel {
            events: event_models(self.events@),
            checkpoint: match self.checkpoint {
                Some(checkpoint) => Some(checkpoint@),
                None => None,
            },
            complete: self.complete,
            has_more: self.has_more,
        }
    }
}

/// What the queue of a scan holds next.
#[derive(Debug, PartialEq, Eq)]
pub enum QueueMessage {
    /// A change.
    Event(FilesystemEvent),
    /// The end of the scan.
    Terminal(PlatformResult<ScanSummary>),
    /// Nothing yet.
    Empty,
    /// Nothing any more.
    Disconnected,
}

/// A page that is being read.
pub struct PageReader {
    scan_id: u64,
    maximum: u16,
    events: Vec<FilesystemEvent>,
    terminal: Option<PlatformResult<ScanSummary>>,
    idle: bool,
}

/// A page that is being read, as a mathematical value.
pub struct PageReaderModel {
    pub scan_id: u64,
    pub maximum: nat,
    pub events: Seq<EventModel>,
    pub terminal: Option<TerminalModel>,
    pub idle: bool,
}

/// The page takes another message.
pub open spec fn wants(m: PageReaderModel) -> bool {
    m.events.len() < m.maximum && m.terminal is None && !m.idle
}

/// The page after a message.
pub open spec fn after_message(m: PageReaderModel, message: QueueMessage) -> PageReaderModel {
    match message {
        QueueMessage::Event(event) => PageReaderModel { events: m.events.push(event@), ..m },
        QueueMessage::Terminal(result) => PageReaderModel {
            terminal: Some(terminal_model(result)),
            ..m
        },
        QueueMessage::Empty => PageReaderModel { idle: true, ..m },
        QueueMessage::Disconnected => PageReaderModel {
            terminal: Some(
                TerminalModel::Failed {
                    kind: PlatformErrorKind::Internal,
                    operation: "scan_worker"@,
                    detail: "scan producer stopped without terminal state"@,
                },
            ),
            ..m
        },
    }
}

impl PageReader {
    /// The page as a mathematical value.
    pub closed spec fn view(&self) -> PageReaderModel {
        PageReaderModel {
            scan_id: self.scan_id,
            maximum: self.maximum as nat,
            events: event_models(self.events@),
            terminal: optional_terminal(self.terminal),
            idle: self.idle,
        }
    }

    /// Whether the page takes another message.
    pub fn wants_message(&self) -> (r: bool)
        ensures
            r == wants(self@),
    {
        self.events.len() < self.maximum as usize && self.terminal.is_none() && !self.idle
    }

    /// Takes a message from the queue.
    pub fn take_message(&mut self, message: QueueMessage)
        requires
            wants(old(self)@),
        ensures
            final(self)@ == after_message(old(self)@, message),
            final(self)@.events.len() <= final(self)@.maximum,
    {
        match message {
            QueueMessage::Event(event) => {
                let ghost before = event_models(self.events@);
                let ghost model = event@;
                self.events.push(event);
                assert(event_models(self.events@) =~= before.push(model));
            },
            QueueMessage::Terminal(result) => {
                self.terminal = Some(result);
            },
            QueueMessage::Empty => {
                self.idle = true;
            },
            QueueMessage::Disconnected => {
                self.terminal = Some(
                    Err(
                        PlatformError::new(
                            PlatformErrorKind::Internal,
                            "scan_worker",
                            "scan producer stopped without terminal state",
                        ),
                    ),
                );
            },
        }
    }
}

/// The outcome of a page: the end of a scan is told on a page of its own, after every change, and
/// ends the scan.
pub open spec fn is_page_outcome(
    before: BrokerModel,
    after: BrokerModel,
    page: PageReaderModel,
    r: Result<ScanPage, ServiceError>,
) -> bool {
    let at = position_of_scan(before.scans, page.scan_id);
    let partial = PageModel {
        events: page.events,
        checkpoint: None,
        complete: false,
        has_more: true,
    };
    match page.terminal {
        Some(terminal) => if page.events.len() > 0 {
            &&& after == (BrokerModel {
                scans: before.scans.update(
                    at,
                    ScanModel { scan_id: page.scan_id, pending_terminal: Some(terminal) },
                ),
                ..before
            })
            &&& r matches Ok(shown) && shown@ == partial
        } else {
            &&& after == (BrokerModel { scans: before.scans.remove(at), ..before })
            &&& match terminal {
                TerminalModel::Completed { checkpoint, .. } => r matches Ok(shown) && shown@ == (
                PageModel {
                    events: Seq::empty(),
                    checkpoint: Some(checkpoint),
                    complete: true,
                    has_more: false,
                }),
                TerminalModel::Failed { kind, .. } => r matches Err(error) && is_platform_refusal(
                    error,
                    kind,
                ),
            }
        },
        None => after == before && (r matches Ok(shown) && shown@ == partial),
    }
}

impl BrokerState {
    /// Requests and scans as a mathematical value.
    pub closed spec fn view(&self) -> BrokerModel {
        BrokerModel {
            replay: self.replay@,
            scans: Seq::new(self.scans@.len(), |i: int| self.scans@[i]@),
            next_scan_id: self.next_scan_id,
        }
    }

    /// The replay window holds no identifier twice, no more scans are active than may be, and no
    /// two of them share a number.
    pub closed spec fn wf(&self) -> bool {
        &&& self.replay.wf()
        &&& self.scans@.len() <= MAX_ACTIVE_SCANS
        &&& distinct_scans(self@.scans)
    }

    /// No two active scans share a number.
    pub proof fn active_scans_are_distinct(&self)
        requires
            self.wf(),
        ensures
            distinct_scans(self@.scans),
    {
    }

    /// A broker without requests and scans.
    pub fn new() -> (r: BrokerState)
        ensures
            r.wf(),
            r@ == (BrokerModel {
                replay: WindowModel {
                    capacity: REPLAY_WINDOW_REQUESTS as nat,
                    order: Seq::empty(),
                },
                scans: Seq::empty(),
                next_scan_id: 1,
            }),
    {
        let r = BrokerState {
            replay: ReplayWindow::new(REPLAY_WINDOW_REQUESTS),
            scans: Vec::new(),
            next_scan_id: 1,
        };
        assert(r@.scans =~= Seq::empty());
        r
    }

    /// Takes a request: one that breaks the contract, was seen before or was given up is refused,
    /// in this order. Only a request that keeps the contract is remembered.
    pub fn begin_request(
        &mut self,
        request_id: &str,
        contract: Option<BrokerContractError>,
        cancelled: bool,
    ) -> (r: Result<(), ServiceError>)
        requires
            old(self).wf(),
        ensures
            final(self).wf(),
            final(self)@ == admitted(old(self)@, request_id@, contract),
            match r {
                Ok(()) => admission_refusal(old(self)@, request_id@, contract, cancelled) is None,
                Err(error) => admission_refusal(old(self)@, request_id@, contract, cancelled)
                    matches Some((code, message)) && refuses(error, code, message),
            },
    {
        if let Some(error) = contract {
            return Err(contract_failure(error));
        }
        let ghost scans = self@.scans;
        match self.replay.accept(request_id) {
            Ok(()) => {},
            Err(()) => {
                return Err(
                    ServiceError {
                        code: BrokerErrorCode::ReplayRejected,
                        message: "request identifier was replayed or replay state is unavailable",
                    },
                );
            },
        }
        assert(self@.scans =~= scans);
        if cancelled {
            return Err(
                ServiceError {
                    code: BrokerErrorCode::Cancelled,
                    message: "broker request cancelled",
                },
            );
        }
        Ok(())
    }

    /// Opens a scan, if another one may be active, and gives it the next number that no active
    /// scan has.
    pub fn open_scan(&mut self) -> (r: Result<u64, ServiceError>)
        requires
            old(self).wf(),
        ensures
            final(self).wf(),
            match r {
                Ok(scan_id) => {
                    &&& old(self)@.scans.len() < MAX_ACTIVE_SCANS
                    &&& exists|n: nat| #[trigger]
                        is_next_free(old(self)@.scans, old(self)@.next_scan_id, n, scan_id)
                    &&& final(self)@ == (BrokerModel {
                        scans: old(self)@.scans.push(ScanModel { scan_id, pending_terminal: None }),
                        next_scan_id: next_number(scan_id),
                        ..old(self)@
                    })
                },
                Err(error) => old(self)@.scans.len() >= MAX_ACTIVE_SCANS && refuses(
                    error,
                    BrokerErrorCode::ResourceExhausted,
                    "active scan limit reached"@,
                ) && final(self)@ == old(self)@,
            },
    {
        if self.scans.len() >= MAX_ACTIVE_SCANS {
            return Err(
                ServiceError {
                    code: BrokerErrorCode::ResourceExhausted,
                    message: "active scan limit reached",
                },
            );
        }
        let ghost before = self@.scans;
        let ghost first = self.next_scan_id;
        let ghost mut n: nat = 0;
        let mut scan_id: u64 = self.next_scan_id;
        let mut at: usize = self.find_scan(scan_id);
        while at < self.scans.len()
            invariant
                is_active(before, scan_id) <==> at < self.scans@.len(),
                before == self@.scans,
                before.len() == self.scans@.len(),
                before.len() <= MAX_ACTIVE_SCANS,
                scan_id == number_after(first, n),
                n <= before.len(),
                forall|k: nat| k < n ==> is_active(before, #[trigger] number_after(first, k)),
            decreases before.len() - n,
        {
            scan_id = scan_id.wrapping_add(1);
            proof {
                n = n + 1;
                lemma_numbers_in_use(before, first, n);
            }
            at = self.find_scan(scan_id);
        }
        assert(number_after(first, n) == scan_id && !is_active(before, scan_id));
        self.next_scan_id = scan_id.wrapping_add(1);
        let scan = ActiveScan { scan_id, pending_terminal: None };
        let ghost model = scan@;
        self.scans.push(scan);
        proof {
            assert(self@.scans =~= before.push(model));
            assert forall|i: int, j: int| 0 <= i < j < self@.scans.len() implies (
            #[trigger] self@.scans[i]).scan_id != (#[trigger] self@.scans[j]).scan_id by {
                assert(self@.scans[i] == before[i]);
                if j < before.len() {
                    assert(self@.scans[j] == before[j]);
                }
            }
        }
        proof {
            assert(is_next_free(before, old(self)@.next_scan_id, n, scan_id));
        }
        Ok(scan_id)
    }

    fn find_scan(&self, scan_id: u64) -> (r: usize)
        ensures
            r <= self.scans@.len(),
            r == position_of_scan(self@.scans, scan_id),
            is_active(self@.scans, scan_id) <==> r < self.scans@.len(),
            r < self.scans@.len() ==> self.scans@[r as int].scan_id == scan_id,
    {
        let mut i: usize = 0;
        while i < self.scans.len() && self.scans[i].scan_id != scan_id
            invariant
                i <= self.scans@.len(),
                forall|k: int| 0 <= k < i ==> (#[trigger] self@.scans[k]).scan_id != scan_id,
            decreases self.scans@.len() - i,
        {
            i = i + 1;
        }
        proof {
            lemma_position_of_scan(self@.scans, scan_id, i as int);
        }
        i
    }

    /// Begins a page of a scan. The end of the scan, if it was not told yet, is taken along.
    pub fn begin_page(&mut self, scan_id: u64, maximum_events: u16) -> (r: Result<
        PageReader,
        ServiceError,
    >)
        requires
            old(self).wf(),
        ensures
            final(self).wf(),
            match r {
                Ok(page) => {
                    let at = position_of_scan(old(self)@.scans, scan_id);
                    &&& is_active(old(self)@.scans, scan_id)
                    &&& page@ == (PageReaderModel {
                        scan_id,
                        maximum: maximum_events as nat,
                        events: Seq::empty(),
                        terminal: old(self)@.scans[at].pending_terminal,
                        idle: false,
                    })
                    &&& final(self)@ == (BrokerModel {
                        scans: old(self)@.scans.update(
                            at,
                            ScanModel { scan_id, pending_terminal: None },
                        ),
                        ..old(self)@
                    })
                },
                Err(error) => !is_active(old(self)@.scans, scan_id) && is_unknown_scan(error)
                    && final(self)@ == old(self)@,
            },
    {
        let at: usize = self.find_scan(scan_id);
        if at == self.scans.len() {
            return Err(
                ServiceError { code: BrokerErrorCode::NotFound, message: "scan is not active" },
            );
        }
        let ghost before = self@.scans;
        let mut scan = self.scans.remove(at);
        assert(before[at as int] == scan@);
        let terminal = scan.pending_terminal.take();
        let ghost model = scan@;
        self.scans.insert(at, scan);
        assert(self@.scans =~= before.update(at as int, model));
        let page = PageReader {
            scan_id,
            maximum: maximum_events,
            events: Vec::new(),
            terminal,
            idle: false,
        };
        assert(event_models(page.events@) =~= Seq::empty());
        Ok(page)
    }

    /// Ends a page. Nothing else happens to the scan between its beginning and its end.
    pub fn finish_page(&mut self, page: PageReader) -> (r: Result<ScanPage, ServiceError>)
        requires
            old(self).wf(),
            is_active(old(self)@.scans, page@.scan_id),
        ensures
            final(self).wf(),
            is_page_outcome(old(self)@, final(self)@, page@, r),
    {
        let at: usize = self.find_scan(page.scan_id);
        let ghost before = self@.scans;
        let events = page.events;
        if let Some(result) = page.terminal {
            if events.len() > 0 {
                let _ = self.scans.remove(at);
                let scan = ActiveScan { scan_id: page.scan_id, pending_terminal: Some(result) };
                let ghost model = scan@;
                self.scans.insert(at, scan);
                proof {
                    assert(before[at as int].scan_id == page.scan_id);
                    assert(self@.scans =~= before.update(at as int, model));
                    lemma_distinct_after_update(before, at as int, model);
                }
                return Ok(ScanPage { events, checkpoint: None, complete: false, has_more: true });
            }
            let _ = self.scans.remove(at);
            assert(self@.scans =~= before.remove(at as int));
            assert(event_models(events@) =~= Seq::empty());
            return match result {
                Ok(summary) => Ok(
                    ScanPage {
                        events,
                        checkpoint: Some(summary.checkpoint),
                        complete: true,
                        has_more: false,
                    },
                ),
                Err(error) => Err(platform_error(&error)),
            };
        }
        Ok(ScanPage { events, checkpoint: None, complete: false, has_more: true })
    }

    /// Gives up a scan.
    pub fn cancel_scan(&mut self, scan_id: u64) -> (r: Result<(), ServiceError>)
        requires
            old(self).wf(),
        ensures
            final(self).wf(),
            match r {
                Ok(()) => is_active(old(self)@.scans, scan_id) && final(self)@ == (BrokerModel {
                    scans: old(self)@.scans.remove(position_of_scan(old(self)@.scans, scan_id)),
                    ..old(self)@
                }),
                Err(error) => !is_active(old(self)@.scans, scan_id) && is_unknown_scan(error)
                    && final(self)@ == old(self)@,
            },
    {
        let at: usize = self.find_scan(scan_id);
        if at == self.scans.len() {
            return Err(
                ServiceError { code: BrokerErrorCode::NotFound, message: "scan is not active" },
            );
        }
        let ghost before = self@.scans;
        let _ = self.scans.remove(at);
        assert(self@.scans =~= before.remove(at as int));
        Ok(())
    }
}

/// A page that shows changes never says that the scan is complete, and a page that says so ends
/// the scan: its number is free again.
pub proof fn completion_is_told_once(
    before: BrokerModel,
    after: BrokerModel,
    page: PageReaderModel,
    r: Result<ScanPage, ServiceError>,
)
    requires
        is_page_outcome(before, after, page, r),
        is_active(before.scans, page.scan_id),
        distinct_scans(before.scans),
    ensures
        r matches Ok(shown) ==> (shown@.complete ==> shown@.events.len() == 0),
        r matches Ok(shown) ==> (shown@.complete <==> !is_active(after.scans, page.scan_id)),
        r is Err ==> !is_active(after.scans, page.scan_id),
{
    let k = choose|k: int|
        0 <= k < before.scans.len() && (#[trigger] before.scans[k]).scan_id == page.scan_id;
    assert forall|i: int| 0 <= i < k implies (#[trigger] before.scans[i]).scan_id
        != page.scan_id by {
        assert(before.scans[i].scan_id != before.scans[k].scan_id);
    }
    lemma_position_of_scan(before.scans, page.scan_id, k);
    if page.terminal is Some {
        if page.events.len() > 0 {
            assert(after.scans[k].scan_id == page.scan_id);
        } else {
            let rest = before.scans.remove(k);
            assert forall|i: int| 0 <= i < rest.len() implies (#[trigger] rest[i]).scan_id
                != page.scan_id by {
                if i < k {
                    assert(rest[i] == before.scans[i]);
                } else {
                    assert(rest[i] == before.scans[i + 1]);
                    assert(before.scans[k].scan_id != before.scans[i + 1].scan_id);
                }
            }
        }
    }
}

/// The page after these messages.
pub open spec fn after_messages(page: PageReaderModel, messages: Seq<QueueMessage>) ->
    PageReaderModel
    decreases messages.len(),
{
    if messages.len() == 0 {
        page
    } else {
        after_message(after_messages(page, messages.drop_last()), messages.last())
    }
}

/// Each message was taken while the page wanted one, and then the page wanted no more.
pub open spec fn is_taken(page: PageReaderModel, messages: Seq<QueueMessage>) -> bool {
    &&& forall|n: int|
        0 <= n < messages.len() ==> wants(after_messages(page, #[trigger] messages.take(n)))
    &&& !wants(after_messages(page, messages))
}

/// The changes among these messages, in order.
pub open spec fn changes_in(messages: Seq<QueueMessage>) -> Seq<EventModel>
    decreases messages.len(),
{
    if messages.len() == 0 {
        Seq::empty()
    } else {
        match messages.last() {
            QueueMessage::Event(event) => changes_in(messages.drop_last()).push(event@),
            _ => changes_in(messages.drop_last()),
        }
    }
}

/// The message ends the scan.
pub open spec fn is_end(message: QueueMessage) -> bool {
    message is Terminal || message is Disconnected
}

/// A page of a scan is read: it begins, takes messages from the queue while it wants some, and
/// ends.
pub open spec fn is_page_read(
    before: BrokerModel,
    after: BrokerModel,
    scan_id: u64,
    maximum: nat,
    messages: Seq<QueueMessage>,
    r: Result<ScanPage, ServiceError>,
) -> bool {
    let at = position_of_scan(before.scans, scan_id);
    let begun = BrokerModel {
        scans: before.scans.update(at, ScanModel { scan_id, pending_terminal: None }),
        ..before
    };
    let page = PageReaderModel {
        scan_id,
        maximum,
        events: Seq::empty(),
        terminal: before.scans[at].pending_terminal,
        idle: false,
    };
    &&& is_active(before.scans, scan_id)
    &&& is_taken(page, messages)
    &&& is_page_outcome(begun, after, after_messages(page, messages), r)
}

/// The changes that a page shows; a failure shows none.
pub open spec fn shown_changes(r: Result<ScanPage, ServiceError>) -> Seq<EventModel> {
    match r {
        Ok(shown) => shown@.events,
        Err(_) => Seq::empty(),
    }
}

proof fn lemma_after_messages(page: PageReaderModel, messages: Seq<QueueMessage>)
    requires
        page.events.len() == 0,
        !page.idle,
        forall|n: int|
            0 <= n < messages.len() ==> wants(after_messages(page, #[trigger] messages.take(n))),
    ensures
        ({
            let m = after_messages(page, messages);
            &&& m.scan_id == page.scan_id
            &&& m.maximum == page.maximum
            &&& m.events == changes_in(messages)
            &&& m.events.len() <= page.maximum
            &&& page.terminal is Some ==> messages.len() == 0
            &&& messages.len() == 0 ==> m == page
            &&& m.terminal is Some && page.terminal is None ==> messages.len() > 0 && is_end(
                messages.last(),
            )
            &&& forall|i: int|
                0 <= i < messages.len() && is_end(#[trigger] messages[i]) ==> i == messages.len()
                    - 1
        }),
    decreases messages.len(),
{
    if messages.len() > 0 {
        let before = messages.drop_last();
        assert forall|n: int| 0 <= n < before.len() implies wants(
            after_messages(page, #[trigger] before.take(n)),
        ) by {
            assert(before.take(n) =~= messages.take(n));
        }
        lemma_after_messages(page, before);
        assert(messages.take(messages.len() - 1) =~= before);
        assert(wants(after_messages(page, before)));
        if page.terminal is Some {
            assert(messages.take(0) =~= Seq::empty());
            assert(wants(after_messages(page, messages.take(0))));
        }
        assert forall|i: int| 0 <= i < messages.len() && is_end(#[trigger] messages[i]) implies i
            == messages.len() - 1 by {
            if i < messages.len() - 1 {
                assert(before[i] == messages[i]);
                assert(i == before.len() - 1);
                assert(before.last() == messages[i]);
                assert(after_messages(page, before).terminal is Some);
            }
        }
    }
}

/// A page shows exactly the changes that it took from the queue, in order and at most as many as
/// asked for. It is complete exactly when it carries the checkpoint and says that there is no
/// more, and then shows no change. The scan is active until it is complete or has failed, and no
/// longer; the end of the queue is the last message that is taken from it, and a failure leaves no
/// change untold.
pub proof fn page_shows_what_it_took(
    before: BrokerModel,
    after: BrokerModel,
    scan_id: u64,
    maximum: nat,
    messages: Seq<QueueMessage>,
    r: Result<ScanPage, ServiceError>,
)
    requires
        distinct_scans(before.scans),
        is_page_read(before, after, scan_id, maximum, messages, r),
    ensures
        shown_changes(r) == changes_in(messages),
        shown_changes(r).len() <= maximum,
        r matches Ok(shown) ==> (shown@.complete <==> shown@.checkpoint is Some),
        r matches Ok(shown) ==> (shown@.complete <==> !shown@.has_more),
        r matches Ok(shown) ==> (shown@.complete ==> shown@.events.len() == 0),
        is_active(after.scans, scan_id) <==> (r matches Ok(shown) && !shown@.complete),
        distinct_scans(after.scans),
        forall|i: int|
            0 <= i < messages.len() && is_end(#[trigger] messages[i]) ==> i == messages.len() - 1,
        before.scans[position_of_scan(before.scans, scan_id)].pending_terminal is Some
            ==> messages.len() == 0,
        !is_active(after.scans, scan_id)
            ==> before.scans[position_of_scan(before.scans, scan_id)].pending_terminal is Some || (
        messages.len() > 0 && is_end(messages.last())),
{
    let k = choose|k: int|
        0 <= k < before.scans.len() && (#[trigger] before.scans[k]).scan_id == scan_id;
    assert forall|i: int| 0 <= i < k implies (#[trigger] before.scans[i]).scan_id != scan_id by {
        assert(before.scans[i].scan_id != before.scans[k].scan_id);
    }
    lemma_position_of_scan(before.scans, scan_id, k);
    let begun = BrokerModel {
        scans: before.scans.update(k, ScanModel { scan_id, pending_terminal: None }),
        ..before
    };
    let page = PageReaderModel {
        scan_id,
        maximum,
        events: Seq::empty(),
        terminal: before.scans[k].pending_terminal,
        idle: false,
    };
    lemma_after_messages(page, messages);
    lemma_distinct_after_update(before.scans, k, begun.scans[k]);
    assert(begun.scans[k].scan_id == scan_id);
    completion_is_told_once(begun, after, after_messages(page, messages), r);
    assert forall|i: int| 0 <= i < k implies (#[trigger] begun.scans[i]).scan_id != scan_id by {
        assert(begun.scans[i] == before.scans[i]);
    }
    lemma_position_of_scan(begun.scans, scan_id, k);
    let told = after_messages(page, messages);
    if told.terminal is Some {
        if told.events.len() > 0 {
            lemma_distinct_after_update(
                begun.scans,
                k,
                ScanModel { scan_id, pending_terminal: told.terminal },
            );
        } else {
            lemma_distinct_after_remove(begun.scans, k);
        }
    }
}

proof fn lemma_distinct_after_update(scans: Seq<ScanModel>, at: int, scan: ScanModel)
    requires
        distinct_scans(scans),
        0 <= at < scans.len(),
        scan.scan_id == scans[at].scan_id,
    ensures
        distinct_scans(scans.update(at, scan)),
{
    let next = scans.update(at, scan);
    assert forall|i: int, j: int| 0 <= i < j < next.len() implies (#[trigger] next[i]).scan_id != (
    #[trigger] next[j]).scan_id by {
        assert(scans[i].scan_id != scans[j].scan_id);
    }
}

proof fn lemma_distinct_after_remove(scans: Seq<ScanModel>, at: int)
    requires
        distinct_scans(scans),
        0 <= at < scans.len(),
    ensures
        distinct_scans(scans.remove(at)),
{
    let next = scans.remove(at);
    assert forall|i: int, j: int| 0 <= i < j < next.len() implies (#[trigger] next[i]).scan_id != (
    #[trigger] next[j]).scan_id by {
        let a = if i < at {
            i
        } else {
            i + 1
        };
        let b = if j < at {
            j
        } else {
            j + 1
        };
        assert(next[i] == scans[a] && next[j] == scans[b]);
        assert(scans[a].scan_id != scans[b].scan_id);
    }
}

/// One page of a scan that was read.
pub struct PageRead {
    pub maximum: nat,
    pub messages: Seq<QueueMessage>,
    pub result: Result<ScanPage, ServiceError>,
}

/// The pages of a scan, read one after the other.
pub open spec fn are_pages_read(scan_id: u64, states: Seq<BrokerModel>, pages: Seq<PageRead>) ->
    bool {
    &&& states.len() == pages.len() + 1
    &&& forall|i: int|
        0 <= i < pages.len() ==> is_page_read(
            #[trigger] states[i],
            states[i + 1],
            scan_id,
            pages[i].maximum,
            pages[i].messages,
            pages[i].result,
        )
}

/// All messages that the pages took from the queue, in order.
pub open spec fn all_messages(pages: Seq<PageRead>) -> Seq<QueueMessage>
    decreases pages.len(),
{
    if pages.len() == 0 {
        Seq::empty()
    } else {
        all_messages(pages.drop_last()) + pages.last().messages
    }
}

/// All changes that the pages show, in order.
pub open spec fn all_shown(pages: Seq<PageRead>) -> Seq<EventModel>
    decreases pages.len(),
{
    if pages.len() == 0 {
        Seq::empty()
    } else {
        all_shown(pages.drop_last()) + shown_changes(pages.last().result)
    }
}

proof fn lemma_changes_in_both(a: Seq<QueueMessage>, b: Seq<QueueMessage>)
    ensures
        changes_in(a + b) == changes_in(a) + changes_in(b),
    decreases b.len(),
{
    if b.len() == 0 {
        assert(a + b =~= a);
        assert(changes_in(a) + changes_in(b) =~= changes_in(a));
    } else {
        lemma_changes_in_both(a, b.drop_last());
        assert((a + b).drop_last() =~= a + b.drop_last());
        assert(changes_in(a + b) =~= changes_in(a) + changes_in(b));
    }
}

/// The pages of a scan carry all changes of its queue, in order and each once: together they show
/// what they took, whatever their sizes. Nothing is taken after the end, and once a page was
/// complete or failed, the end was taken and the scan is not active any more, so that the next
/// request for a page finds no scan.
pub proof fn pages_carry_every_change(
    scan_id: u64,
    states: Seq<BrokerModel>,
    pages: Seq<PageRead>,
)
    requires
        distinct_scans(states[0].scans),
        is_active(states[0].scans, scan_id),
        states[0].scans[position_of_scan(states[0].scans, scan_id)].pending_terminal is None,
        are_pages_read(scan_id, states, pages),
    ensures
        all_shown(pages) == changes_in(all_messages(pages)),
        distinct_scans(states.last().scans),
        forall|i: int|
            0 <= i < all_messages(pages).len() && is_end(#[trigger] all_messages(pages)[i]) ==> i
                == all_messages(pages).len() - 1,
        is_active(states.last().scans, scan_id) <==> (pages.len() > 0 ==> (
        pages.last().result matches Ok(shown) && !shown@.complete)),
        ({
            let scans = states.last().scans;
            let ended = all_messages(pages).len() > 0 && is_end(all_messages(pages).last());
            &&& !is_active(scans, scan_id) ==> ended
            &&& is_active(scans, scan_id) ==> (scans[position_of_scan(
                scans,
                scan_id,
            )].pending_terminal is Some <==> ended)
        }),
    decreases pages.len(),
{
    if pages.len() > 0 {
        let earlier = pages.drop_last();
        let before = states.drop_last();
        assert forall|i: int| 0 <= i < earlier.len() implies is_page_read(
            #[trigger] before[i],
            before[i + 1],
            scan_id,
            earlier[i].maximum,
            earlier[i].messages,
            earlier[i].result,
        ) by {
            assert(before[i] == states[i] && before[i + 1] == states[i + 1]);
        }
        assert(before[0] == states[0]);
        pages_carry_every_change(scan_id, before, earlier);
        let n = pages.len() - 1;
        let page = pages[n];
        let m = states[n];
        assert(before.last() == m);
        assert(is_page_read(
            states[n],
            states[n + 1],
            scan_id,
            pages[n].maximum,
            pages[n].messages,
            pages[n].result,
        ));
        let next = states[n + 1];
        page_shows_what_it_took(m, next, scan_id, page.maximum, page.messages, page.result);
        lemma_changes_in_both(all_messages(earlier), page.messages);
        if is_active(next.scans, scan_id) {
            lemma_pending_after(m, next, scan_id, page.maximum, page.messages, page.result);
        }
        let all = all_messages(pages);
        let old = all_messages(earlier);
        assert(all == old + page.messages);
        assert forall|i: int| 0 <= i < all.len() && is_end(#[trigger] all[i]) implies i
            == all.len() - 1 by {
            if i < old.len() {
                assert(old[i] == all[i]);
                assert(i == old.len() - 1);
            } else {
                assert(page.messages[i - old.len()] == all[i]);
            }
        }
        if page.messages.len() == 0 {
            assert(all =~= old);
        } else {
            assert(all.last() == page.messages.last());
        }
    }
}

/// After a page the end of the scan waits to be told exactly if it was taken and the page does not
/// tell it.
proof fn lemma_pending_after(
    before: BrokerModel,
    after: BrokerModel,
    scan_id: u64,
    maximum: nat,
    messages: Seq<QueueMessage>,
    r: Result<ScanPage, ServiceError>,
)
    requires
        distinct_scans(before.scans),
        is_page_read(before, after, scan_id, maximum, messages, r),
        is_active(after.scans, scan_id),
    ensures
        after.scans[position_of_scan(after.scans, scan_id)].pending_terminal is Some <==> {
            ||| before.scans[position_of_scan(before.scans, scan_id)].pending_terminal is Some
            ||| messages.len() > 0 && is_end(messages.last())
        },
{
    let k = choose|k: int|
        0 <= k < before.scans.len() && (#[trigger] before.scans[k]).scan_id == scan_id;
    assert forall|i: int| 0 <= i < k implies (#[trigger] before.scans[i]).scan_id != scan_id by {
        assert(before.scans[i].scan_id != before.scans[k].scan_id);
    }
    lemma_position_of_scan(before.scans, scan_id, k);
    let begun = before.scans.update(k, ScanModel { scan_id, pending_terminal: None });
    let page = PageReaderModel {
        scan_id,
        maximum,
        events: Seq::empty(),
        terminal: before.scans[k].pending_terminal,
        idle: false,
    };
    lemma_after_messages(page, messages);
    page_shows_what_it_took(before, after, scan_id, maximum, messages, r);
    assert forall|i: int| 0 <= i < k implies (#[trigger] begun[i]).scan_id != scan_id by {
        assert(begun[i] == before.scans[i]);
    }
    lemma_position_of_scan(begun, scan_id, k);
    assert forall|i: int| 0 <= i < k implies (#[trigger] after.scans[i]).scan_id != scan_id by {
        assert(after.scans[i] == before.scans[i]);
    }
    lemma_position_of_scan(after.scans, scan_id, k);
}

/// The volume to scan.
pub fn find_volume(volumes: &Vec<VolumeDescriptor>, volume_id: VolumeId) -> (r: Result<
    usize,
    ServiceError,
>)
    ensures
        match r {
            Ok(i) => {
                &&& i < volumes@.len()
                &&& volumes@[i as int].volume_id == volume_id
                &&& forall|k: int| 0 <= k < i ==> (#[trigger] volumes@[k]).volume_id != volume_id
            },
            Err(error) => {
                &&& refuses(error, BrokerErrorCode::NotFound, "volume is unavailable"@)
                &&& forall|k: int|
                    0 <= k < volumes@.len() ==> (#[trigger] volumes@[k]).volume_id != volume_id
            },
        },
{
    let mut i: usize = 0;
    while i < volumes.len()
        invariant
            i <= volumes@.len(),
            forall|k: int| 0 <= k < i ==> (#[trigger] volumes@[k]).volume_id != volume_id,
        decreases volumes@.len() - i,
    {
        if volumes[i].volume_id == volume_id {
            return Ok(i);
        }
        i = i + 1;
    }
    Err(ServiceError { code: BrokerErrorCode::NotFound, message: "volume is unavailable" })
}

/// The answer to a request for volumes.
pub fn volumes_answer(result: PlatformResult<Vec<VolumeDescriptor>>) -> (r: Result<
    Vec<VolumeDescriptor>,
    ServiceError,
>)
    ensures
        match result {
            Ok(volumes) => r == Ok::<Vec<VolumeDescriptor>, ServiceError>(volumes),
            Err(failure) => r matches Err(error) && is_platform_refusal(error, failure.kind),
        },
{
    match result {
        Ok(volumes) => Ok(volumes),
        Err(failure) => Err(platform_error(&failure)),
    }
}

/// The volumes of a provider, as it reports them. Whatever failure it reports, its details are
/// not repeated.
pub fn discover_volumes<P: FilesystemProvider>(provider: &P) -> (r: Result<
    Vec<VolumeDescriptor>,
    ServiceError,
>)
    ensures
        exists|result: PlatformResult<Vec<VolumeDescriptor>>| #[trigger]
            call_ensures(P::discover_volumes, (provider,), result) && match result {
                Ok(volumes) => r == Ok::<Vec<VolumeDescriptor>, ServiceError>(volumes),
                Err(failure) => r matches Err(error) && is_platform_refusal(error, failure.kind),
            },
{
    volumes_answer(provider.discover_volumes())
}

/// The answer to a request for changes.
pub fn changes_answer(events: Vec<FilesystemEvent>, result: PlatformResult<ChangeBatch>) -> (r:
    Result<(Vec<FilesystemEvent>, ChangeBatch), ServiceError>)
    ensures
        match result {
            Ok(batch) => r == Ok::<(Vec<FilesystemEvent>, ChangeBatch), ServiceError>(
                (events, batch),
            ),
            Err(failure) => r matches Err(error) && is_platform_refusal(error, failure.kind),
        },
{
    match result {
        Ok(batch) => Ok((events, batch)),
        Err(failure) => Err(platform_error(&failure)),
    }
}

/// The changes since a checkpoint, as the provider reports them into an empty list. Whatever
/// failure it reports, its details are not repeated.
pub fn read_changes<P: FilesystemProvider>(
    provider: &P,
    checkpoint: &ProviderCheckpoint,
    maximum_events: u16,
) -> (r: Result<(Vec<FilesystemEvent>, ChangeBatch), ServiceError>)
    ensures
        exists|events: &mut Vec<FilesystemEvent>, result: PlatformResult<ChangeBatch>|
            events@.len() == 0 && #[trigger] call_ensures(
                P::read_changes,
                (provider, checkpoint, maximum_events as u32, events),
                result,
            ) && match result {
                Ok(batch) => r matches Ok((reported, shown)) && reported@ == final(events)@ && shown
                    == batch,
                Err(failure) => r matches Err(error) && is_platform_refusal(error, failure.kind),
            },
{
    let mut events: Vec<FilesystemEvent> = Vec::new();
    let result = provider.read_changes(checkpoint, maximum_events as u32, &mut events);
    changes_answer(events, result)
}

/// What a scan that could not put a change into its queue does.
#[derive(Clone, Copy, Debug, PartialEq, Eq, Structural)]
pub enum SendOutcome {
    /// The change is in the queue.
    Sent,
    /// The queue is full.
    Full,
    /// Nobody reads the queue.
    Disconnected,
}

/// Checks that a scan was not given up before it puts a change into its queue.
pub fn check_scan(cancelled: bool) -> (r: PlatformResult<()>)
    ensures
        match r {
            Ok(()) => !cancelled,
            Err(error) => cancelled && reports(
                error,
                PlatformErrorKind::Cancelled,
                "scan_queue"@,
                "scan was cancelled"@,
            ),
        },
{
    if cancelled {
        return Err(
            PlatformError::new(PlatformErrorKind::Cancelled, "scan_queue", "scan was cancelled"),
        );
    }
    Ok(())
}

/// Whether the change is in the queue, or is tried again because the queue is full.
pub fn after_send(outcome: SendOutcome) -> (r: PlatformResult<bool>)
    ensures
        match r {
            Ok(sent) => outcome != SendOutcome::Disconnected && sent == (outcome
                == SendOutcome::Sent),
            Err(error) => outcome == SendOutcome::Disconnected && reports(
                error,
                PlatformErrorKind::Cancelled,
                "scan_queue"@,
                "scan consumer disconnected"@,
            ),
        },
{
    match outcome {
        SendOutcome::Sent => Ok(true),
        SendOutcome::Full => Ok(false),
        SendOutcome::Disconnected => Err(
            PlatformError::new(
                PlatformErrorKind::Cancelled,
                "scan_queue",
                "scan consumer disconnected",
            ),
        ),
    }
}

/// An operation that the broker serves.
#[derive(Clone, Copy, Debug, PartialEq, Eq, Structural)]
pub enum BrokerOperationName {
    /// What the broker can do.
    BrokerGetCapabilities,
    /// The volumes.
    DiscoverVolumes,
    /// A new scan.
    StartScan,
    /// A page of a scan.
    ReadScanPage,
    /// The end of a scan.
    CancelScan,
    /// Changes.
    ReadChanges,
}

/// Every operation that the broker serves. None of them reads or writes content.
pub fn allowed_operations() -> (r: Vec<BrokerOperationName>)
    ensures
        r@ == seq![
            BrokerOperationName::BrokerGetCapabilities,
            BrokerOperationName::DiscoverVolumes,
            BrokerOperationName::StartScan,
            BrokerOperationName::ReadScanPage,
            BrokerOperationName::CancelScan,
            BrokerOperationName::ReadChanges,
        ],
{
    vec![
        BrokerOperationName::BrokerGetCapabilities,
        BrokerOperationName::DiscoverVolumes,
        BrokerOperationName::StartScan,
        BrokerOperationName::ReadScanPage,
        BrokerOperationName::CancelScan,
        BrokerOperationName::ReadChanges,
    ]
}

/// The window holds what was accepted last, as far as its capacity goes: the newest is the last
/// one, the others keep their order, and only the oldest makes room.
pub proof fn the_window_slides(m: WindowModel, id: Seq<char>)
    requires
        m.order.len() <= m.capacity,
        m.capacity > 0,
    ensures
        ({
            let next = remembered(m, id);
            &&& next.capacity == m.capacity
            &&& next.order.len() <= m.capacity
            &&& next.order.last() == id
            &&& m.order.len() < m.capacity ==> next.order.drop_last() == m.order
            &&& m.order.len() == m.capacity ==> next.order.drop_last() == m.order.drop_first()
        }),
{
    let next = remembered(m, id);
    if m.order.len() < m.capacity {
        assert(next.order.drop_last() =~= m.order);
    } else {
        assert(next.order.drop_last() =~= m.order.drop_first());
    }
}

/// A failure keeps what the caller has to know: whether it was refused, whether it can be tried
/// again, whether history is lost. What the caller cannot use is told as not supported.
pub proof fn failures_keep_their_meaning(kind: PlatformErrorKind)
    ensures
        broker_code(kind) == BrokerErrorCode::PermissionDenied <==> kind
            == PlatformErrorKind::PermissionDenied,
        broker_code(kind) == BrokerErrorCode::SourceHistoryGap <==> kind
            == PlatformErrorKind::SourceHistoryGap,
        broker_code(kind) == BrokerErrorCode::Cancelled <==> kind == PlatformErrorKind::Cancelled,
        broker_code(kind) == BrokerErrorCode::ResourceExhausted <==> kind
            == PlatformErrorKind::ResourceExhausted,
        broker_code(kind) == BrokerErrorCode::Unavailable <==> kind
            == PlatformErrorKind::Unavailable || kind == PlatformErrorKind::Io,
        broker_code(kind) == BrokerErrorCode::Unsupported <==> kind
            == PlatformErrorKind::Unsupported || kind == PlatformErrorKind::InvalidCheckpoint,
        broker_code(kind) == BrokerErrorCode::Internal <==> kind == PlatformErrorKind::Internal,
{
}

/// A scan is found where it stands: at its own place if it is active, and behind the last one if it
/// is not.
pub proof fn scans_are_found_where_they_stand(scans: Seq<ScanModel>, scan_id: u64)
    ensures
        ({
            let at = position_of_scan(scans, scan_id);
            &&& 0 <= at <= scans.len()
            &&& is_active(scans, scan_id) <==> at < scans.len()
            &&& at < scans.len() ==> scans[at].scan_id == scan_id
        }),
    decreases scans.len(),
{
    if scans.len() > 0 && scans[0].scan_id != scan_id {
        let rest = scans.drop_first();
        scans_are_found_where_they_stand(rest, scan_id);
        let at = position_of_scan(rest, scan_id);
        if at < rest.len() {
            assert(scans[at + 1] == rest[at]);
        }
        if is_active(scans, scan_id) {
            let i = choose|i: int| 0 <= i < scans.len() && (#[trigger] scans[i]).scan_id == scan_id;
            assert(rest[i - 1].scan_id == scan_id);
        }
        if is_active(rest, scan_id) {
            let i = choose|i: int| 0 <= i < rest.len() && (#[trigger] rest[i]).scan_id == scan_id;
            assert(scans[i + 1].scan_id == scan_id);
        }
    }
}

/// A page takes messages until it is full, told of the end, or finds the queue empty; a change is
/// appended, and a producer that stops without a word has failed.
pub proof fn pages_take_what_comes(m: PageReaderModel, message: QueueMessage)
    requires
        wants(m),
    ensures
        ({
            let next = after_message(m, message);
            &&& next.scan_id == m.scan_id && next.maximum == m.maximum
            &&& message matches QueueMessage::Event(event) ==> next.events.len() == m.events.len()
                + 1 && next.events.last() == event@ && next.events.drop_last() == m.events && (
            wants(next) <==> next.events.len() < m.maximum)
            &&& !(message is Event) ==> next.events == m.events && !wants(next)
            &&& message matches QueueMessage::Terminal(Ok(summary)) ==> next.terminal == Some(
                TerminalModel::Completed {
                    checkpoint: summary.checkpoint@,
                    emitted_events: summary.emitted_events,
                },
            )
            &&& message matches QueueMessage::Terminal(Err(error)) ==> (next.terminal matches Some(
                TerminalModel::Failed { kind, .. },
            ) && kind == error.kind)
            &&& message is Disconnected ==> (next.terminal matches Some(
                TerminalModel::Failed { kind, .. },
            ) && kind == PlatformErrorKind::Internal)
            &&& message is Empty ==> next.terminal is None
        }),
{
    if let QueueMessage::Event(event) = message {
        assert(after_message(m, message).events.drop_last() =~= m.events);
    }
}

/// A deadline is in milliseconds.
pub proof fn deadlines_are_milliseconds(deadline_ms: u32, more: u32)
    ensures
        deadline_ns(deadline_ms) == 1_000 * (1_000 * deadline_ms),
        deadline_ms < more ==> deadline_ns(deadline_ms) < deadline_ns(more),
        deadline_ns(0) == 0,
{
}

/// Numbers of scans are counted up, and start again after the largest one: the number that is
/// taken is free, and every one between it and where the search started is in use.
pub proof fn scan_numbers_are_counted_up(
    scans: Seq<ScanModel>,
    from: u64,
    n: nat,
    scan_id: u64,
    k: nat,
)
    requires
        is_next_free(scans, from, n, scan_id),
        n <= u64::MAX,
        k <= u64::MAX,
    ensures
        scan_id as int == (from + n) % 0x1_0000_0000_0000_0000,
        forall|i: int| 0 <= i < scans.len() ==> (#[trigger] scans[i]).scan_id != scan_id,
        k < n ==> exists|i: int|
            0 <= i < scans.len() && (#[trigger] scans[i]).scan_id as int == (from + k)
                % 0x1_0000_0000_0000_0000,
{
    lemma_number_after(from, n);
    lemma_number_after(from, k);
    if k < n {
        assert(is_active(scans, number_after(from, k)));
    }
}

/// A request is taken once: as long as the window remembers it, it is refused when it comes again,
/// also if it was given up the first time. One that breaks the contract is refused and forgotten.
/// A request that is not refused keeps the contract and is new, and another one may follow.
pub proof fn requests_are_taken_once(
    m: BrokerModel,
    id: Seq<char>,
    other: Seq<char>,
    contract: Option<BrokerContractError>,
    cancelled: bool,
    again: bool,
)
    requires
        m.replay.order.len() <= m.replay.capacity,
        m.replay.capacity > 0,
    ensures
        admission_refusal(m, id, contract, cancelled) is None <==> contract is None && !cancelled
            && !m.replay.order.contains(id),
        contract is None ==> (admission_refusal(admitted(m, id, contract), id, None, again)
            matches Some((code, _)) && code == BrokerErrorCode::ReplayRejected),
        contract is Some ==> admitted(m, id, contract) == m,
        admitted(m, id, contract).scans == m.scans && admitted(m, id, contract).next_scan_id
            == m.next_scan_id,
        other != id && !m.replay.order.contains(other) ==> admission_refusal(
            admitted(m, id, contract),
            other,
            None,
            false,
        ) is None,
{
    the_window_slides(m.replay, id);
    let next = admitted(m, id, contract);
    if contract is None && !m.replay.order.contains(id) {
        assert(next.replay.order.last() == id);
        assert(next.replay.order.contains(id));
        if other != id && !m.replay.order.contains(other) && next.replay.order.contains(other) {
            let order = next.replay.order;
            let i = order.index_of(other);
            assert(i < order.len() - 1);
            assert(order.drop_last()[i] == other);
            if m.replay.order.len() == m.replay.capacity {
                assert(m.replay.order[i + 1] == other);
            } else {
                assert(m.replay.order[i] == other);
            }
        }
    }
}

} // verus!
