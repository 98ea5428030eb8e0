use std::cell::RefCell;

use localsearch::command::{
    after_serving, parse_adapter_arguments, parse_service_arguments, AfterServing,
};
use localsearch::ids::DocumentId;
use localsearch::mcp::adapter::{
    acceptable_extension, answer_call, answer_list, default_top_k, discovery, invocation_error,
    invoke_error, map_tool, normalize_extensions, plan_request, required_capability,
    retain_granted, trim_dots, AgentInvoker, AgentOperation, AgentReply, AgentRequest, Capability,
    InvokeError, McpAdapter, NamedPipeAgentInvoker, Plan, SearchArguments, SearchRequest,
    ToolArguments,
};
use localsearch::mcp::arguments::{parse_document, tool_arguments};
use localsearch::mcp::json::{json_of, parse_json, Json};
use localsearch::mcp::protocol::{
    McpId, McpRequest, McpResponse, MCP_PROTOCOL_VERSION,
};
use localsearch::mcp::stdio::{
    cancelled_key, is_cancel_notification, oversized_response, route_message, take_message,
    trim_cr, InFlight, Line, LineBuffer, MessageAction, MAX_IN_FLIGHT, MAX_STDIO_MESSAGE_BYTES,
};
use localsearch::transport::{TransportFrameError, WindowsPipeError};

const MAXIMUM_QUERY_BYTES: usize = 1_024;

struct RecordingInvoker<'a> {
    operations: &'a RefCell<Vec<AgentRequest>>,
    grants: Vec<Capability>,
}

fn copy(operation: &AgentOperation) -> AgentOperation {
    match operation {
        AgentOperation::AgentGetCapabilities => AgentOperation::AgentGetCapabilities,
        AgentOperation::CatalogSearch(search) => AgentOperation::CatalogSearch(SearchRequest {
            query: search.query.clone(),
            scope: search.scope.clone(),
            extensions: search.extensions.clone(),
            directory_prefix: search.directory_prefix.clone(),
            top_k: search.top_k,
        }),
        AgentOperation::CatalogGetItem { document_id } => AgentOperation::CatalogGetItem {
            document_id: *document_id,
        },
        AgentOperation::IndexGetStatus => AgentOperation::IndexGetStatus,
    }
}

fn typed(kind: &str) -> Json {
    Json::object(vec![("type".to_owned(), Json::text(kind))])
}

impl AgentInvoker for RecordingInvoker<'_> {
    fn invoke(&self, request: &AgentRequest) -> Result<AgentReply, InvokeError> {
        self.operations.borrow_mut().push(AgentRequest {
            request_id: request.request_id.clone(),
            deadline_ms: request.deadline_ms,
            operation: copy(&request.operation),
        });
        Ok(match &request.operation {
            AgentOperation::AgentGetCapabilities => AgentReply::Result {
                granted: Some(self.grants.clone()),
                encoded: Some((typed("capabilities"), "capabilities".to_owned())),
            },
            AgentOperation::CatalogSearch(_) => AgentReply::Result {
                granted: None,
                encoded: Some((typed("search"), "search".to_owned())),
            },
            AgentOperation::IndexGetStatus => AgentReply::Result {
                granted: None,
                encoded: Some((typed("index_status"), "status".to_owned())),
            },
            AgentOperation::CatalogGetItem { .. } => AgentReply::Failure {
                code: Json::text("not_found"),
                message: "catalog item not found".to_owned(),
                text: "not_found: catalog item not found".to_owned(),
            },
        })
    }
}

fn meta(version: &str) -> (String, Json) {
    (
        "_meta".to_owned(),
        Json::object(vec![
            (
                "io.modelcontextprotocol/protocolVersion".to_owned(),
                Json::text(version),
            ),
            (
                "io.modelcontextprotocol/clientCapabilities".to_owned(),
                Json::object(Vec::new()),
            ),
        ]),
    )
}

fn request(id: i64, method: &str, extra: Vec<(String, Json)>) -> McpRequest {
    let mut params = vec![meta(MCP_PROTOCOL_VERSION)];
    params.extend(extra);
    McpRequest {
        jsonrpc: "2.0".to_owned(),
        id: Some(McpId::Number(id)),
        method: method.to_owned(),
        params: Json::object(params),
    }
}

fn call(id: i64, name: &str, arguments: Json) -> McpRequest {
    request(
        id,
        "tools/call",
        vec![
            ("name".to_owned(), Json::text(name)),
            ("arguments".to_owned(), arguments),
        ],
    )
}

fn tool(name: &str) -> Json {
    Json::object(vec![("name".to_owned(), Json::text(name))])
}

fn tools() -> Vec<Json> {
    vec![
        tool("localsearch.search_files"),
        tool("localsearch.get_catalog_item"),
        tool("localsearch.get_index_status"),
    ]
}

fn result(response: &McpResponse) -> &Json {
    response.result.as_ref().expect("result")
}

fn member<'a>(value: &'a Json, name: &str) -> &'a Json {
    value.get(name).expect("member")
}

fn adapter<'a>(
    operations: &'a RefCell<Vec<AgentRequest>>,
    grants: Vec<Capability>,
) -> McpAdapter<RecordingInvoker<'a>> {
    McpAdapter::new(RecordingInvoker { operations, grants })
}

fn handle(adapter: &mut McpAdapter<RecordingInvoker<'_>>, request: McpRequest) -> McpResponse {
    adapter.handle(request, tools(), MAXIMUM_QUERY_BYTES)
}

#[test]
fn discovery_is_stateless_and_advertises_only_modern_protocol() {
    let operations = RefCell::new(Vec::new());
    let mut adapter = adapter(&operations, Vec::new());
    let first = handle(&mut adapter, request(1, "server/discover", Vec::new()));
    let second = handle(&mut adapter, request(2, "server/discover", Vec::new()));
    assert_eq!(
        member(result(&first), "supportedVersions"),
        &Json::array(vec![Json::text(MCP_PROTOCOL_VERSION)])
    );
    assert!(result(&second).has_text("resultType", "complete"));
    assert_eq!(operations.borrow().len(), 0);
    assert_eq!(result(&first), &discovery());
}

#[test]
fn tool_list_is_derived_from_agent_grants_and_is_bounded() {
    let operations = RefCell::new(Vec::new());
    let mut adapter = adapter(
        &operations,
        vec![Capability::SearchCatalog, Capability::IndexStatus],
    );
    let response = handle(&mut adapter, request(1, "tools/list", Vec::new()));
    let Json::Array(listed) = member(result(&response), "tools") else {
        panic!("tools")
    };
    assert_eq!(listed.len(), 2);
    assert!(listed[0].has_text("name", "localsearch.search_files"));
    assert!(listed[1].has_text("name", "localsearch.get_index_status"));
    assert!(listed
        .iter()
        .all(|tool| !member(tool, "name").as_text().expect("name").contains("content")));
}

fn named(members: Vec<(&str, Json)>) -> Json {
    Json::object(
        members
            .into_iter()
            .map(|(name, value)| (name.to_owned(), value))
            .collect(),
    )
}

fn search(extensions: &[&str], top_k: u64) -> Json {
    named(vec![
        ("query", Json::text("architecture")),
        ("scope", Json::text("files")),
        (
            "extensions",
            Json::array(extensions.iter().map(|text| Json::text(text)).collect()),
        ),
        ("top_k", Json::Unsigned(top_k)),
    ])
}

fn written(document_id: u128) -> String {
    format!("document:{document_id:032x}")
}

#[test]
fn search_tool_maps_to_versioned_agent_request_and_complete_result() {
    let operations = RefCell::new(Vec::new());
    let mut adapter = adapter(&operations, vec![Capability::SearchCatalog]);
    let response = handle(
        &mut adapter,
        call(1, "localsearch.search_files", search(&[".MD", "md"], 7)),
    );
    assert!(result(&response).has_text("resultType", "complete"));
    assert_eq!(member(result(&response), "isError"), &Json::Bool(false));
    let asked = operations.borrow();
    let AgentOperation::CatalogSearch(search) = &asked[0].operation else {
        panic!("expected catalog search")
    };
    assert_eq!(search.query, "architecture");
    assert_eq!(search.scope, Some("files".to_owned()));
    assert_eq!(search.extensions, ["md"]);
    assert_eq!(search.top_k, 7);
    assert_eq!(asked[0].request_id, "mcp-1");
    assert_eq!(asked[0].deadline_ms, 2_000);
}

#[test]
fn unsupported_version_and_legacy_initialize_fail_explicitly() {
    let operations = RefCell::new(Vec::new());
    let mut adapter = adapter(&operations, Vec::new());
    let unsupported = McpRequest {
        jsonrpc: "2.0".to_owned(),
        id: Some(McpId::Number(1)),
        method: "server/discover".to_owned(),
        params: Json::object(vec![meta("2025-11-25")]),
    };
    let response = handle(&mut adapter, unsupported);
    let error = response.error.expect("error");
    assert_eq!(error.code, -32022);
    assert_eq!(
        member(error.data.as_ref().expect("data"), "supportedVersions"),
        &Json::array(vec![Json::text(MCP_PROTOCOL_VERSION)])
    );

    let legacy = McpRequest {
        jsonrpc: "2.0".to_owned(),
        id: Some(McpId::Number(2)),
        method: "initialize".to_owned(),
        params: Json::object(Vec::new()),
    };
    let error = handle(&mut adapter, legacy).error.expect("error");
    assert_eq!(error.code, -32601);
    assert!(error.message.contains("2026-07-28"));
}

#[test]
fn metadata_and_status_tools_map_without_backend_types() {
    let operations = RefCell::new(Vec::new());
    let mut adapter = adapter(
        &operations,
        vec![Capability::ReadMetadata, Capability::IndexStatus],
    );
    let document_id = DocumentId::from_u128(77);
    let item = handle(
        &mut adapter,
        call(
            1,
            "localsearch.get_catalog_item",
            named(vec![("document_id", Json::text(&written(77)))]),
        ),
    );
    assert_eq!(member(result(&item), "isError"), &Json::Bool(true));
    assert!(member(result(&item), "structuredContent").has_text("code", "not_found"));

    let status = handle(
        &mut adapter,
        call(2, "localsearch.get_index_status", Json::object(Vec::new())),
    );
    assert!(member(result(&status), "structuredContent").has_text("type", "index_status"));
    let asked = operations.borrow();
    assert_eq!(asked[0].operation, AgentOperation::CatalogGetItem { document_id });
    assert_eq!(asked[1].operation, AgentOperation::IndexGetStatus);
}

#[test]
fn arguments_beyond_the_policy_are_refused() {
    let nothing = Json::object(Vec::new());
    let refused = |arguments: Json, maximum: usize| {
        map_tool("localsearch.search_files", &arguments, maximum).expect_err("refusal")
    };
    assert_eq!(refused(search(&[], 0), 1_024), "search arguments exceed bounded policy");
    assert_eq!(refused(search(&[], 51), 1_024), "search arguments exceed bounded policy");
    assert_eq!(refused(search(&[], 10), 11), "search arguments exceed bounded policy");
    assert!(map_tool("other", &nothing, 1).is_err());
    assert!(map_tool("localsearch.search_files", &nothing, 1_024).is_err());
    assert_eq!(
        map_tool(
            "localsearch.get_catalog_item",
            &named(vec![("document_id", Json::text("77"))]),
            1
        ),
        Err("invalid canonical document_id")
    );
    assert_eq!(
        map_tool(
            "localsearch.get_index_status",
            &named(vec![("a", Json::Null)]),
            1
        ),
        Err("localsearch.get_index_status takes no arguments")
    );
    assert_eq!(default_top_k(), 10);
}

#[test]
fn arguments_of_a_search_have_defaults() {
    let name = "localsearch.search_files";
    assert_eq!(
        tool_arguments(name, &named(vec![("query", Json::text("a"))])),
        ToolArguments::Search(SearchArguments {
            query: "a".to_owned(),
            scope: None,
            extensions: Vec::new(),
            directory_filter: None,
            top_k: 10,
        })
    );
    let all = ToolArguments::Search(SearchArguments {
        query: "architecture".to_owned(),
        scope: Some("files".to_owned()),
        extensions: vec![".MD".to_owned(), "md".to_owned()],
        directory_filter: Some("docs".to_owned()),
        top_k: 7,
    });
    let Json::Object(mut members) = search(&[".MD", "md"], 7) else {
        panic!("members")
    };
    members.push(("directory_filter".to_owned(), Json::text("docs")));
    assert_eq!(tool_arguments(name, &Json::object(members)), all);
    let listed = Json::array(vec![
        Json::text("architecture"),
        Json::text("files"),
        Json::array(vec![Json::text(".MD"), Json::text("md")]),
        Json::text("docs"),
        Json::Unsigned(7),
    ]);
    assert_eq!(tool_arguments(name, &listed), all);
    assert!(matches!(
        tool_arguments(
            name,
            &named(vec![("query", Json::text("a")), ("directory_filter", Json::Null)])
        ),
        ToolArguments::Search(SearchArguments { directory_filter: None, .. })
    ));
}

#[test]
fn arguments_that_cannot_be_read_are_told() {
    let unread = |members: Vec<(&str, Json)>| {
        tool_arguments("localsearch.search_files", &named(members)) == ToolArguments::Unreadable
    };
    assert!(unread(Vec::new()));
    assert!(unread(vec![("query", Json::Unsigned(1))]));
    let query = || ("query", Json::text("a"));
    assert!(unread(vec![query(), ("content", Json::text("b"))]));
    assert!(unread(vec![query(), ("scope", Json::Null)]));
    assert!(unread(vec![query(), ("extensions", Json::text("md"))]));
    assert!(unread(vec![query(), ("extensions", Json::array(vec![Json::Null]))]));
    assert!(unread(vec![query(), ("directory_filter", Json::Bool(true))]));
    assert!(unread(vec![query(), ("top_k", Json::Unsigned(65_536))]));
    assert!(unread(vec![query(), ("top_k", Json::Negative(-1))]));
    assert!(!unread(vec![query()]));
    assert_eq!(
        tool_arguments("localsearch.search_files", &Json::text("a")),
        ToolArguments::Unreadable
    );
    assert_eq!(
        tool_arguments("localsearch.get_catalog_item", &Json::object(Vec::new())),
        ToolArguments::Unreadable
    );
    assert_eq!(
        tool_arguments(
            "localsearch.get_catalog_item",
            &named(vec![("document_id", Json::text(&written(5)))])
        ),
        ToolArguments::Item(Some(DocumentId::from_u128(5)))
    );
}

#[test]
fn documents_are_written_in_thirty_two_digits() {
    assert_eq!(parse_document(&written(77)), Some(DocumentId::from_u128(77)));
    assert_eq!(parse_document(&written(u128::MAX)), Some(DocumentId::from_u128(u128::MAX)));
    assert_eq!(parse_document("document:4d"), None);
    assert_eq!(parse_document(&format!("{:032x}", 77)), None);
    assert_eq!(parse_document(&format!("link:{:032x}", 77)), None);
    assert_eq!(parse_document(&format!("document:{:032X}", 0xab)), None);
    assert_eq!(parse_document(&format!("document:0{:032x}", 77)), None);
}

#[test]
fn json_text_is_read_into_values() {
    let read = |text: &str| parse_json(&text.as_bytes().to_vec());
    assert_eq!(read("null"), Some(Json::Null));
    assert_eq!(read(" [true, 1, -2, \"a\\n\"] "), Some(Json::array(vec![
        Json::Bool(true),
        Json::Unsigned(1),
        Json::Negative(-2),
        Json::text("a\n"),
    ])));
    assert_eq!(
        read("{\"b\": {\"c\": []}, \"a\": 18446744073709551615}"),
        Some(named(vec![
            ("a", Json::Unsigned(u64::MAX)),
            ("b", named(vec![("c", Json::array(Vec::new()))])),
        ]))
    );
    assert_eq!(read("1.5"), Some(Json::Fraction("1.5".to_owned())));
    assert_eq!(read("{"), None);
    assert_eq!(read(""), None);
    assert_eq!(parse_json(&vec![b'"', 0xff, b'"']), None);
    let value = serde_json::Value::from(vec![3u8, 4]);
    assert_eq!(json_of(&value), Json::array(vec![Json::Unsigned(3), Json::Unsigned(4)]));
}

#[test]
fn messages_are_taken_as_they_come() {
    let mut in_flight = InFlight::new();
    let MessageAction::Respond(response) = take_message(&mut in_flight, &b"{".to_vec(), None)
    else {
        panic!("response")
    };
    assert_eq!(response.error.expect("error").code, -32700);
    let MessageAction::Respond(response) = take_message(&mut in_flight, &b"{}".to_vec(), None)
    else {
        panic!("response")
    };
    assert_eq!(response.error.expect("error").code, -32600);
    let line = b"{\"jsonrpc\":\"2.0\",\"id\":1,\"method\":\"server/discover\"}".to_vec();
    let wanted = request(1, "server/discover", Vec::new());
    let MessageAction::Start { key, .. } = take_message(&mut in_flight, &line, Some(wanted)) else {
        panic!("start")
    };
    assert!(in_flight.holds(&key));
    let cancel = b"{\"jsonrpc\":\"2.0\",\"method\":\"notifications/cancelled\",\"params\":{\"requestId\":1}}";
    assert_eq!(
        take_message(&mut in_flight, &cancel.to_vec(), None),
        MessageAction::Cancel(key)
    );
}

#[test]
fn extensions_are_normalized() {
    let values: Vec<String> = [".TXT", "md", "txt", "..Rs"]
        .iter()
        .map(|text| (*text).to_owned())
        .collect();
    assert_eq!(normalize_extensions(&values).expect("extensions"), ["md", "rs", "txt"]);
    assert!(normalize_extensions(&vec!["a/b".to_owned()]).is_err());
    assert_eq!(trim_dots("..a.b"), "a.b");
    assert!(acceptable_extension("md"));
    assert!(!acceptable_extension(""));
}

#[test]
fn tools_that_are_not_granted_are_left_out() {
    assert_eq!(
        required_capability("localsearch.search_files"),
        Some(Capability::SearchCatalog)
    );
    assert_eq!(required_capability("other"), None);
    assert!(retain_granted(tools(), &Vec::new()).is_empty());
    assert_eq!(
        retain_granted(tools(), &vec![Capability::ReadMetadata]),
        vec![tool("localsearch.get_catalog_item")]
    );
}

#[test]
fn answers_follow_what_the_agent_says() {
    let id = || McpId::Text("a".to_owned());
    let unavailable = answer_call(id(), Err(InvokeError::Unavailable));
    assert_eq!(unavailable, invocation_error(id(), InvokeError::Unavailable));
    assert_eq!(unavailable.error.expect("error").code, -32603);
    assert_eq!(
        answer_call(id(), Err(InvokeError::Cancelled)).error.expect("error").code,
        -32800
    );
    assert!(answer_call(id(), Ok(AgentReply::Empty)).error.is_some());
    assert!(answer_list(id(), Ok(AgentReply::Empty), tools()).error.is_some());
    assert_eq!(invoke_error(WindowsPipeError::Cancelled), InvokeError::Cancelled);
    assert_eq!(
        invoke_error(WindowsPipeError::Frame(TransportFrameError::TooLarge)),
        InvokeError::Incompatible
    );
    assert_eq!(
        invoke_error(WindowsPipeError::DeadlineExceeded),
        InvokeError::Unavailable
    );
}

#[test]
fn malformed_requests_are_answered_at_once() {
    let plan = |request| plan_request(request, MAXIMUM_QUERY_BYTES);
    let mut nameless = request(1, "server/discover", Vec::new());
    nameless.id = None;
    assert!(matches!(plan(nameless), Plan::Answer(response) if response.id.is_none()));
    let mut other = request(1, "server/discover", Vec::new());
    other.jsonrpc = "1.0".to_owned();
    assert!(matches!(plan(other), Plan::Answer(response) if response.error.is_some()));
    let mut bare = request(1, "server/discover", Vec::new());
    bare.params = Json::object(Vec::new());
    assert!(matches!(plan(bare), Plan::Answer(response) if response.error.is_some()));
    assert!(matches!(
        plan(request(1, "unknown", Vec::new())),
        Plan::Answer(response) if response.error.as_ref().map(|error| error.code) == Some(-32601)
    ));
    assert_eq!(
        plan(request(1, "tools/list", Vec::new())),
        Plan::ListTools { id: McpId::Number(1) }
    );
}

#[test]
fn bounded_reader_recovers_after_oversized_line() {
    let mut input = vec![b'x'; MAX_STDIO_MESSAGE_BYTES + 1];
    input.extend_from_slice(b"\n{}\n");
    let mut reader = LineBuffer::new();
    let (taken, first) = reader.feed(&input);
    assert!(matches!(first, Some(Line::Oversized)));
    match reader.feed(&input[taken..]) {
        (_, Some(Line::Message(message))) => assert_eq!(message, b"{}"),
        _ => panic!("expected bounded second message"),
    }
}

#[test]
fn a_line_may_come_in_pieces() {
    let mut reader = LineBuffer::new();
    assert_eq!(reader.feed(b"{\"a\""), (4, None));
    assert_eq!(
        reader.feed(b":1}\r\nrest"),
        (5, Some(Line::Message(b"{\"a\":1}".to_vec())))
    );
    assert_eq!(reader.feed(b"rest"), (4, None));
    assert_eq!(reader.finish(), Line::Message(b"rest".to_vec()));
    assert_eq!(reader.finish(), Line::Eof);
    let mut text = b"a\r".to_vec();
    trim_cr(&mut text);
    assert_eq!(text, b"a");
}

fn cancellation(id: Json) -> Json {
    Json::object(vec![
        ("jsonrpc".to_owned(), Json::text("2.0")),
        ("method".to_owned(), Json::text("notifications/cancelled")),
        (
            "params".to_owned(),
            Json::object(vec![("requestId".to_owned(), id)]),
        ),
    ])
}

#[test]
fn requests_in_flight_are_bounded_and_told_apart() {
    let mut in_flight = InFlight::new();
    let value = Json::object(Vec::new());
    let started = route_message(
        &mut in_flight,
        Some(&value),
        Some(request(1, "server/discover", Vec::new())),
    );
    let key = match started {
        MessageAction::Start { key, .. } => key,
        _ => panic!("the request is started"),
    };
    assert_eq!(key, McpId::Number(1).key());
    assert_ne!(McpId::Number(1).key(), McpId::Text("1".to_owned()).key());
    assert!(matches!(
        route_message(
            &mut in_flight,
            Some(&value),
            Some(request(1, "server/discover", Vec::new()))
        ),
        MessageAction::Respond(_)
    ));
    let wanted = cancellation(Json::Unsigned(1));
    assert!(is_cancel_notification(&wanted));
    assert_eq!(cancelled_key(&wanted), Some(key.clone()));
    assert_eq!(
        route_message(&mut in_flight, Some(&wanted), None),
        MessageAction::Cancel(key.clone())
    );
    assert_eq!(
        route_message(&mut in_flight, Some(&cancellation(Json::text("1"))), None),
        MessageAction::Ignore
    );
    in_flight.end(&key);
    assert!(!in_flight.holds(&key));
    assert_eq!(
        route_message(&mut in_flight, Some(&wanted), None),
        MessageAction::Ignore
    );
    for id in 0..MAX_IN_FLIGHT {
        assert!(in_flight.start(&McpId::Number(id as i64)).is_ok());
    }
    let refused = in_flight.start(&McpId::Number(-1)).expect_err("too many");
    assert_eq!(refused.error.expect("error").code, -32000);
}

#[test]
fn lines_that_are_no_requests_are_answered() {
    let mut in_flight = InFlight::new();
    let MessageAction::Respond(response) = route_message(&mut in_flight, None, None) else {
        panic!("response")
    };
    assert_eq!(response.error.expect("error").code, -32700);
    let value = Json::object(Vec::new());
    let MessageAction::Respond(response) = route_message(&mut in_flight, Some(&value), None) else {
        panic!("response")
    };
    assert_eq!(response.error.expect("error").code, -32600);
    assert_eq!(oversized_response().error.expect("error").code, -32600);
    let mut notification = request(1, "notifications/other", Vec::new());
    notification.id = None;
    assert_eq!(
        route_message(&mut in_flight, Some(&value), Some(notification)),
        MessageAction::Ignore
    );
}

#[test]
fn json_values_are_read_by_name() {
    let value = Json::object(vec![
        ("a".to_owned(), Json::Unsigned(1)),
        ("b".to_owned(), Json::Negative(-2)),
        ("c".to_owned(), Json::Unsigned(u64::MAX)),
    ]);
    assert_eq!(member(&value, "a").as_integer(), Some(1));
    assert_eq!(member(&value, "b").as_integer(), Some(-2));
    assert_eq!(member(&value, "c").as_integer(), None);
    assert!(value.get("d").is_none());
    assert!(value.is_object());
    assert_eq!(Json::text("x").as_text(), Some("x"));
    assert_eq!(McpId::Number(-5).key(), McpId::Number(-5).duplicate().key());
}

#[test]
fn endpoints_belong_to_a_logon_session() {
    let invoker = NamedPipeAgentInvoker::default_endpoint(Some("S-1-5-5-0-1")).expect("endpoint");
    assert_eq!(invoker.pipe_name(), r"\\.\pipe\LocalSearch\Agent\v1\S-1-5-5-0-1");
    assert_eq!(
        NamedPipeAgentInvoker::default_endpoint(None),
        Err(InvokeError::Unavailable)
    );
    assert_eq!(NamedPipeAgentInvoker::new("pipe".to_owned()).pipe_name(), "pipe");
}

fn texts(values: &[&str]) -> Vec<String> {
    values.iter().map(|value| (*value).to_owned()).collect()
}

#[test]
fn adapter_command_lines_name_a_pipe_or_nothing() {
    assert_eq!(parse_adapter_arguments(&Vec::new()), Ok(None));
    assert_eq!(
        parse_adapter_arguments(&texts(&["--pipe", "p"])),
        Ok(Some("p".to_owned()))
    );
    assert_eq!(
        parse_adapter_arguments(&texts(&["--pipe"])),
        Err("--pipe requires an endpoint name")
    );
    assert_eq!(
        parse_adapter_arguments(&texts(&["--pipe", "p", "q"])),
        Err("unexpected command-line argument")
    );
    assert!(parse_adapter_arguments(&texts(&["--help"])).is_err());
}

#[test]
fn service_command_lines_need_a_pipe_and_its_user() {
    let config = parse_service_arguments(&texts(&[
        "--once",
        "--pipe",
        "p",
        "--authorized-logon-sid",
        "S-1",
    ]))
    .expect("config");
    assert_eq!(config.pipe, "p");
    assert_eq!(config.authorized_logon_sid, "S-1");
    assert!(config.once);
    assert!(!config.windows_service);
    assert_eq!(
        parse_service_arguments(&texts(&["--pipe"])),
        Err("--pipe <WinFS broker pipe> is required".to_owned())
    );
    assert_eq!(
        parse_service_arguments(&texts(&["--pipe", "p", "--windows-service"])),
        Err("--authorized-logon-sid <SID> is required".to_owned())
    );
    assert_eq!(
        parse_service_arguments(&texts(&["--other"])),
        Err("unknown or incomplete argument: --other".to_owned())
    );
}

#[test]
fn the_service_stops_when_it_is_told_to() {
    assert!(matches!(after_serving(Ok(()), true, false), AfterServing::Stop));
    assert!(matches!(after_serving(Ok(()), false, false), AfterServing::Again));
    assert!(matches!(
        after_serving(Err(WindowsPipeError::DeadlineExceeded), false, false),
        AfterServing::Again
    ));
    assert!(matches!(
        after_serving(Err(WindowsPipeError::Cancelled), false, true),
        AfterServing::Stop
    ));
    assert!(matches!(
        after_serving(Err(WindowsPipeError::Unauthorized), false, true),
        AfterServing::Fail(WindowsPipeError::Unauthorized)
    ));
}
