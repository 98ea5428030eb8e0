use localsearch::broker::{
    after_send, allowed_operations, changes_answer, check_request, check_scan, discover_volumes,
    echoed_request_id, find_volume, platform_error, read_changes, volumes_answer, BrokerContractError,
    BrokerErrorCode, BrokerState, QueueMessage, ReplayWindow, SendOutcome, MAX_ACTIVE_SCANS,
    SCAN_QUEUE_EVENTS,
};
use localsearch::catalog::{
    FileLinkSnapshot, FilesystemEvent, ProviderCheckpoint, VolumeDescriptor,
};
use localsearch::ids::{FileId128, FileKey, FileLinkId, VolumeId};
use localsearch::platform::{PlatformError, PlatformErrorKind, PlatformResult};
use localsearch::provider::{
    ChangeBatch, ChangeTrackingMode, FilesystemProvider, InitialScanMode, PlatformCapabilities,
    PlatformFamily, PrivilegeModel, ScanSummary,
};
use localsearch::transport::{
    accept_failed, check_transport, connect_failed, default_pipe_name, last_io, retry_wait_ms,
    round_trip_frame_cancellable, security_descriptor, transfer_failed, validate_encoded_frame,
    validate_endpoint, validate_pipe_name, wide_null, PipeAction, Serving, TransportFrameError,
    WindowsPipeError, MAX_TRANSPORT_FRAME_BYTES, RESPONSE_ACK,
};

fn volume() -> VolumeDescriptor {
    VolumeDescriptor {
        volume_id: VolumeId::from_u128(44),
        display_name: None,
        mount_points: vec!["L:\\".to_owned()],
        filesystem: Some("NTFS".to_owned()),
        removable: false,
        local: true,
    }
}

fn checkpoint() -> ProviderCheckpoint {
    ProviderCheckpoint {
        provider_id: "test".to_owned(),
        format_version: 1,
        volume_id: VolumeId::from_u128(44),
        opaque: vec![1],
    }
}

fn event(value: u128) -> FilesystemEvent {
    FilesystemEvent::ObjectRemoved {
        object_key: FileKey::new(VolumeId::from_u128(44), FileId128::from_u128(value)),
    }
}

struct FakeProvider {
    failure: Option<PlatformErrorKind>,
}

impl FakeProvider {
    fn check(&self) -> PlatformResult<()> {
        match self.failure {
            Some(kind) => Err(PlatformError::new(kind, "fake", "secret path")),
            None => Ok(()),
        }
    }
}

impl FilesystemProvider for FakeProvider {
    fn capabilities(&self) -> PlatformCapabilities {
        PlatformCapabilities {
            platform: PlatformFamily::Windows,
            initial_scan: InitialScanMode::FilesystemCrawl,
            change_tracking: ChangeTrackingMode::SnapshotOnly,
            privilege_model: PrivilegeModel::CurrentUser,
            stable_object_ids: true,
            hard_links: true,
            persistent_history: false,
        }
    }
    fn discover_volumes(&self) -> PlatformResult<Vec<VolumeDescriptor>> {
        self.check()?;
        Ok(vec![volume()])
    }
    fn initial_scan(
        &self,
        _volume: &VolumeDescriptor,
        _events: &mut Vec<FilesystemEvent>,
    ) -> PlatformResult<ScanSummary> {
        self.check()?;
        Ok(ScanSummary { checkpoint: checkpoint(), emitted_events: 0 })
    }
    fn read_changes(
        &self,
        checkpoint: &ProviderCheckpoint,
        maximum_events: u32,
        events: &mut Vec<FilesystemEvent>,
    ) -> PlatformResult<ChangeBatch> {
        self.check()?;
        for value in 0..maximum_events {
            events.push(event(u128::from(value)));
        }
        Ok(ChangeBatch {
            checkpoint: checkpoint.clone(),
            emitted_events: maximum_events,
            has_more: true,
        })
    }
    fn reconcile(
        &self,
        volume: &VolumeDescriptor,
        events: &mut Vec<FilesystemEvent>,
    ) -> PlatformResult<ScanSummary> {
        self.initial_scan(volume, events)
    }
}

#[test]
fn replay_unknown_version_and_missing_scan_fail_closed() {
    let mut state = BrokerState::new();
    assert!(state.begin_request("replay-1", None, false).is_ok());
    assert_eq!(
        state.begin_request("replay-1", None, false).expect_err("replay").code,
        BrokerErrorCode::ReplayRejected
    );
    assert_eq!(
        state
            .begin_request(
                "version-1",
                Some(BrokerContractError::UnsupportedProtocolVersion),
                false
            )
            .expect_err("version")
            .code,
        BrokerErrorCode::UnsupportedProtocolVersion
    );
    assert!(state.begin_request("missing-1", None, false).is_ok());
    assert_eq!(
        state.begin_page(99, 1).err().expect("missing scan").code,
        BrokerErrorCode::NotFound
    );
}

#[test]
fn refused_requests_are_not_remembered() {
    let mut state = BrokerState::new();
    assert!(state
        .begin_request("a", Some(BrokerContractError::InvalidRequest), false)
        .is_err());
    assert!(state.begin_request("a", None, false).is_ok());
    assert_eq!(
        state.begin_request("b", None, true).expect_err("cancelled").code,
        BrokerErrorCode::Cancelled
    );
    assert_eq!(
        state
            .begin_request("c", Some(BrokerContractError::UnsupportedCodecVersion), false)
            .expect_err("codec")
            .code,
        BrokerErrorCode::UnsupportedCodecVersion
    );
}

#[test]
fn the_oldest_request_is_forgotten_first() {
    let mut window = ReplayWindow::new(2);
    assert!(window.accept("a").is_ok());
    assert!(window.accept("b").is_ok());
    assert!(window.accept("a").is_err());
    assert!(window.accept("c").is_ok());
    assert!(window.accept("b").is_err());
    assert!(window.accept("a").is_ok());
}

#[test]
fn broker_contract_has_no_content_or_path_operation() {
    let mut state = BrokerState::new();
    assert!(state.begin_request("caps-1", None, false).is_ok());
    let encoded = format!("{:?}", allowed_operations()).to_lowercase();
    for forbidden in ["content", "path", "write", "execute", "admin", "search"] {
        assert!(!encoded.contains(forbidden));
    }

    // Metadata events carry canonical names but never file bytes.
    let link = FilesystemEvent::LinkObserved {
        link: FileLinkSnapshot {
            file_link_id: FileLinkId::from_u128(1),
            object_key: FileKey::new(VolumeId::from_u128(44), FileId128::from_u128(1)),
            parent_key: None,
            name: "metadata-only".to_owned(),
        },
    };
    let shown = format!("{link:?}").to_lowercase();
    assert!(shown.contains("metadata-only"));
    assert!(!shown.contains("content"));
}

/// Reports the same number of files again and again.
struct StreamProvider {
    files: u32,
}

impl StreamProvider {
    fn checkpoint(&self, cursor: u8) -> ProviderCheckpoint {
        ProviderCheckpoint { opaque: vec![cursor], ..checkpoint() }
    }

    fn emit(&self, count: u32, events: &mut Vec<FilesystemEvent>) {
        for value in 0..count {
            events.push(event(u128::from(value) + 1));
        }
    }
}

impl FilesystemProvider for StreamProvider {
    fn capabilities(&self) -> PlatformCapabilities {
        PlatformCapabilities {
            platform: PlatformFamily::Windows,
            initial_scan: InitialScanMode::FastMetadataEnumeration,
            change_tracking: ChangeTrackingMode::PersistentObjectJournal,
            privilege_model: PrivilegeModel::OptionalBroker,
            stable_object_ids: true,
            hard_links: true,
            persistent_history: true,
        }
    }
    fn discover_volumes(&self) -> PlatformResult<Vec<VolumeDescriptor>> {
        Ok(vec![volume()])
    }
    fn initial_scan(
        &self,
        _volume: &VolumeDescriptor,
        events: &mut Vec<FilesystemEvent>,
    ) -> PlatformResult<ScanSummary> {
        self.emit(self.files, events);
        Ok(ScanSummary {
            checkpoint: self.checkpoint(1),
            emitted_events: u64::from(self.files),
        })
    }
    fn read_changes(
        &self,
        _checkpoint: &ProviderCheckpoint,
        maximum_events: u32,
        events: &mut Vec<FilesystemEvent>,
    ) -> PlatformResult<ChangeBatch> {
        let emitted = maximum_events.min(self.files);
        self.emit(emitted, events);
        Ok(ChangeBatch {
            checkpoint: self.checkpoint(2),
            emitted_events: emitted,
            has_more: emitted < self.files,
        })
    }
    fn reconcile(
        &self,
        volume: &VolumeDescriptor,
        events: &mut Vec<FilesystemEvent>,
    ) -> PlatformResult<ScanSummary> {
        self.initial_scan(volume, events)
    }
}

#[test]
fn bounded_queue_streams_more_than_capacity_through_portable_provider() {
    let provider = StreamProvider { files: 600 };
    assert!(provider.capabilities().persistent_history);
    let discovered = discover_volumes(&provider).expect("volumes");
    assert_eq!(discovered.len(), 1);
    assert_eq!(discovered[0], volume());

    let mut state = BrokerState::new();
    let scan = state.open_scan().expect("scan");
    let mut produced = Vec::new();
    let summary = provider.initial_scan(&volume(), &mut produced).expect("scan");
    let emitted_events = summary.emitted_events;
    let mut waiting = produced.into_iter();
    let mut next = waiting.next();
    let mut terminal = Some(summary);
    let mut queue: Vec<FilesystemEvent> = Vec::new();
    let mut events = Vec::new();
    let mut checkpoint = None;
    let mut filled = false;
    while checkpoint.is_none() {
        while let Some(change) = next.take() {
            check_scan(false).expect("running");
            let outcome = if queue.len() < SCAN_QUEUE_EVENTS {
                SendOutcome::Sent
            } else {
                SendOutcome::Full
            };
            if after_send(outcome).expect("connected") {
                queue.push(change);
                next = waiting.next();
            } else {
                filled = true;
                next = Some(change);
                break;
            }
        }
        let mut page = state.begin_page(scan, 64).expect("page");
        while page.wants_message() {
            page.take_message(if !queue.is_empty() {
                QueueMessage::Event(queue.remove(0))
            } else if next.is_some() {
                QueueMessage::Empty
            } else {
                match terminal.take() {
                    Some(summary) => QueueMessage::Terminal(Ok(summary)),
                    None => QueueMessage::Empty,
                }
            });
        }
        let page = state.finish_page(page).expect("page");
        events.extend(page.events);
        checkpoint = page.checkpoint;
    }
    assert!(filled);
    assert_eq!(events.len(), 600);
    assert_eq!(emitted_events, 600);
    let checkpoint = checkpoint.expect("checkpoint");
    assert_eq!(checkpoint.opaque, [1]);

    let (changes, batch) = read_changes(&provider, &checkpoint, 10).expect("changes");
    assert_eq!(changes.len(), 10);
    assert_eq!(batch.emitted_events, 10);
    assert!(batch.has_more);
}

#[test]
fn pages_end_a_scan_only_after_its_changes() {
    let mut state = BrokerState::new();
    let scan = state.open_scan().expect("scan");
    let mut page = state.begin_page(scan, 2).expect("page");
    page.take_message(QueueMessage::Event(event(1)));
    assert!(page.wants_message());
    page.take_message(QueueMessage::Event(event(2)));
    assert!(!page.wants_message());
    let shown = state.finish_page(page).expect("page");
    assert_eq!(shown.events.len(), 2);
    assert!(!shown.complete && shown.has_more);

    let mut page = state.begin_page(scan, 2).expect("page");
    page.take_message(QueueMessage::Event(event(3)));
    page.take_message(QueueMessage::Terminal(Ok(ScanSummary {
        checkpoint: checkpoint(),
        emitted_events: 3,
    })));
    let shown = state.finish_page(page).expect("page");
    assert_eq!(shown.events.len(), 1);
    assert!(!shown.complete && shown.has_more);

    let page = state.begin_page(scan, 2).expect("page");
    assert!(!page.wants_message());
    let shown = state.finish_page(page).expect("page");
    assert!(shown.events.is_empty() && shown.complete && !shown.has_more);
    assert_eq!(shown.checkpoint, Some(checkpoint()));
    assert!(state.begin_page(scan, 2).is_err());
}

#[test]
fn an_idle_queue_ends_a_page_and_a_lost_one_the_scan() {
    let mut state = BrokerState::new();
    let scan = state.open_scan().expect("scan");
    let mut page = state.begin_page(scan, 2).expect("page");
    page.take_message(QueueMessage::Empty);
    let shown = state.finish_page(page).expect("page");
    assert!(shown.events.is_empty() && shown.has_more);
    let mut page = state.begin_page(scan, 2).expect("page");
    page.take_message(QueueMessage::Disconnected);
    assert_eq!(
        state.finish_page(page).expect_err("lost").code,
        BrokerErrorCode::Internal
    );
    assert!(state.cancel_scan(scan).is_err());
}

#[test]
fn scans_are_bounded_and_can_be_given_up() {
    let mut state = BrokerState::new();
    let mut scans = Vec::new();
    for _ in 0..MAX_ACTIVE_SCANS {
        scans.push(state.open_scan().expect("scan"));
    }
    assert_eq!(
        state.open_scan().expect_err("one too many").code,
        BrokerErrorCode::ResourceExhausted
    );
    assert!(state.cancel_scan(scans[0]).is_ok());
    assert!(state.cancel_scan(scans[0]).is_err());
    assert!(state.open_scan().is_ok());
}

#[test]
fn failures_do_not_repeat_their_details() {
    let provider = FakeProvider { failure: Some(PlatformErrorKind::PermissionDenied) };
    let error = discover_volumes(&provider).expect_err("denied");
    assert_eq!(error.code, BrokerErrorCode::PermissionDenied);
    assert!(!error.message.contains("secret"));
    assert_eq!(
        read_changes(&provider, &checkpoint(), 3).expect_err("denied").code,
        BrokerErrorCode::PermissionDenied
    );
    let io = PlatformError::new(PlatformErrorKind::Io, "read", "secret");
    assert_eq!(platform_error(&io).code, BrokerErrorCode::Unavailable);
    assert!(volumes_answer(Err(io.clone())).is_err());
    assert!(changes_answer(Vec::new(), Err(io)).is_err());
}

#[test]
fn volumes_and_changes_pass_through() {
    let provider = FakeProvider { failure: None };
    let volumes = discover_volumes(&provider).expect("volumes");
    assert_eq!(volumes, vec![volume()]);
    assert_eq!(find_volume(&volumes, VolumeId::from_u128(44)).expect("volume"), 0);
    assert_eq!(
        find_volume(&volumes, VolumeId::from_u128(45)).expect_err("unknown").code,
        BrokerErrorCode::NotFound
    );
    let (events, batch) = read_changes(&provider, &checkpoint(), 10).expect("changes");
    assert_eq!(events.len(), 10);
    assert_eq!(batch.emitted_events, 10);
    assert!(batch.has_more);
}

#[test]
fn requests_have_a_deadline() {
    assert!(check_request(false, 1, 5_000).is_ok());
    assert_eq!(
        check_request(true, 1, 5_000).expect_err("cancelled").code,
        BrokerErrorCode::Cancelled
    );
    assert_eq!(
        check_request(false, 5_000_000_001, 5_000).expect_err("late").code,
        BrokerErrorCode::DeadlineExceeded
    );
    assert_eq!(echoed_request_id("short"), "short");
    assert!(echoed_request_id(&"x".repeat(65)).len() <= 64);
}

#[test]
fn scans_notice_that_nobody_listens() {
    assert!(check_scan(false).is_ok());
    assert_eq!(check_scan(true).expect_err("cancelled").kind, PlatformErrorKind::Cancelled);
    assert_eq!(after_send(SendOutcome::Sent), Ok(true));
    assert_eq!(after_send(SendOutcome::Full), Ok(false));
    assert!(after_send(SendOutcome::Disconnected).is_err());
}

const PIPE: &str = r"\\.\pipe\LocalSearch\WinFS\v1\test";

fn frame(payload: &[u8]) -> Vec<u8> {
    let mut bytes = u32::try_from(payload.len()).expect("length").to_le_bytes().to_vec();
    bytes.extend_from_slice(payload);
    bytes
}

#[test]
fn frames_say_how_long_they_are() {
    assert!(validate_encoded_frame(&frame(b"abc")).is_ok());
    assert_eq!(
        validate_encoded_frame(&vec![1, 0]),
        Err(WindowsPipeError::Frame(TransportFrameError::Incomplete))
    );
    let mut short = frame(b"abc");
    short.pop();
    assert_eq!(
        validate_encoded_frame(&short),
        Err(WindowsPipeError::Frame(TransportFrameError::Incomplete))
    );
    let mut large = vec![0_u8; MAX_TRANSPORT_FRAME_BYTES + 5];
    large[..4].copy_from_slice(
        &u32::try_from(MAX_TRANSPORT_FRAME_BYTES + 1).expect("length").to_le_bytes(),
    );
    assert_eq!(
        validate_encoded_frame(&large),
        Err(WindowsPipeError::Frame(TransportFrameError::TooLarge))
    );
}

#[test]
fn a_request_and_its_response_travel_in_pieces() {
    let request = frame(b"question");
    let response = frame(b"answer");
    let mut client = round_trip_frame_cancellable(PIPE, request.clone()).expect("exchange");
    let mut server = Serving::begin("S-1-5-5-0-1");
    assert_eq!(client.next_action(), Ok(PipeAction::Connect));
    client.connected();
    loop {
        let PipeAction::Write(bytes) = client.next_action().expect("action") else {
            break;
        };
        let wanted = server.to_read().expect("length").min(3).min(bytes.len());
        server.read(bytes[..wanted].to_vec());
        client.wrote(wanted);
    }
    assert_eq!(server.identify("S-1-5-5-0-2"), Err(WindowsPipeError::Unauthorized));
    assert!(server.identify("S-1-5-5-0-1").is_ok());
    assert_eq!(server.request(), &request);
    assert!(server.respond(vec![1]).is_err());
    assert!(server.respond(response.clone()).is_ok());
    while let PipeAction::Read(count) = client.next_action().expect("action") {
        let bytes = server.to_write();
        let taken = count.min(2).min(bytes.len());
        client.read(bytes[..taken].to_vec());
        server.wrote(taken);
    }
    assert_eq!(client.next_action(), Ok(PipeAction::Write(vec![RESPONSE_ACK])));
    client.wrote(1);
    assert!(server.confirm(RESPONSE_ACK).is_ok());
    assert_eq!(client.next_action(), Ok(PipeAction::Finish));
    assert_eq!(client.into_frame(), response);
}

#[test]
fn endpoints_are_checked_before_use() {
    assert!(validate_pipe_name(PIPE).is_ok());
    assert_eq!(
        validate_pipe_name(r"\\.\pipe\Other\x"),
        Err(WindowsPipeError::InvalidEndpoint)
    );
    assert!(validate_pipe_name(&default_pipe_name("S-1-5-5-0-1")).is_ok());
    assert!(validate_endpoint(PIPE, "S-1-5-5-0-1").is_ok());
    assert!(validate_endpoint(PIPE, "").is_err());
    assert!(round_trip_frame_cancellable("other", frame(b"a")).is_err());
    assert!(round_trip_frame_cancellable(PIPE, vec![]).is_err());
    assert!(security_descriptor("S-1-5-5-0-1").contains("S-1-5-5-0-1"));
    assert_eq!(wide_null("aé\u{1f600}"), vec![97, 233, 0xd83d, 0xde00, 0]);
}

#[test]
fn native_failures_are_retried_or_reported() {
    assert!(connect_failed(231).is_ok());
    assert!(connect_failed(2).is_ok());
    assert_eq!(connect_failed(5), Err(last_io("connect_pipe", 5)).or(connect_failed(5)));
    assert!(connect_failed(5).is_err());
    assert!(accept_failed(535).is_ok());
    assert!(accept_failed(536).is_ok());
    assert!(accept_failed(5).is_err());
    assert!(transfer_failed("read_pipe", 232).is_ok());
    assert_eq!(transfer_failed("read_pipe", 5), Err(last_io("read_pipe", 5)));
    assert!(retry_wait_ms(10_000) <= 10_000);
    assert!(check_transport(false, 1, 2).is_ok());
    assert_eq!(check_transport(true, 1, 2), Err(WindowsPipeError::Cancelled));
    assert_eq!(check_transport(false, 3, 2), Err(WindowsPipeError::DeadlineExceeded));
}
