//! What a request of the protocol asks of the search agent, and what is answered.

use vstd::prelude::*;
use vstd::utf8::encode_utf8;

use crate::collate::{
    compare_texts, lemma_text_order_equal, lemma_text_order_transitive, text_order,
};
use crate::decimal::{decimal, write_decimal};
use crate::ids::DocumentId;
use crate::mcp::arguments::{arguments_of, tool_arguments, ArgumentsModel};
use crate::mcp::json::{json_models, member, member_models, text_member, Json, JsonModel};
use crate::mcp::protocol::{
    failure, optional_id, IdModel, McpId, McpRequest, McpResponse, ResponseModel,
    MCP_PROTOCOL_VERSION,
};
use crate::text::{
    alphanumeric, chars_of, is_alphanumeric, lowercase, lowercase_of, optional_text, same_text,
    texts,
};
use crate::transport::{default_pipe_name, pipe_name_of, WindowsPipeError};

verus! {

/// Time that the agent is given.
pub const AGENT_DEADLINE_MS: u32 = 2_000;

/// Most hits that a tool may ask for.
pub const MCP_SEARCH_MAX_TOP_K: u16 = 50;

/// Most extensions that a tool may ask for.
pub const MAX_EXTENSIONS: usize = 32;

/// Bytes of the longest extension.
pub const MAX_EXTENSION_BYTES: usize = 32;

/// Milliseconds for which lists may be kept.
pub const TTL_MS: u64 = 300_000;

/// Version that the server says it has.
pub const SERVER_VERSION: &'static str = "0.1.0";

/// Why the agent gave no answer.
#[derive(Clone, Copy, Debug, PartialEq, Eq, Structural)]
pub enum InvokeError {
    /// It is not there.
    Unavailable,
    /// The client gave up.
    Cancelled,
    /// Its answer was not understood.
    Incompatible,
}

/// Why an exchange with the agent gave no answer.
pub fn invoke_error(error: WindowsPipeError) -> (r: InvokeError)
    ensures
        r == (match error {
            WindowsPipeError::Cancelled => InvokeError::Cancelled,
            WindowsPipeError::Frame(_) => InvokeError::Incompatible,
            WindowsPipeError::Protocol(_) => InvokeError::Incompatible,
            _ => InvokeError::Unavailable,
        }),
{
    match error {
        WindowsPipeError::Cancelled => InvokeError::Cancelled,
        WindowsPipeError::Frame(_) => InvokeError::Incompatible,
        WindowsPipeError::Protocol(_) => InvokeError::Incompatible,
        _ => InvokeError::Unavailable,
    }
}

/// Something that a client may be allowed.
#[derive(Clone, Copy, Debug, PartialEq, Eq, Structural)]
pub enum Capability {
    /// To search.
    SearchCatalog,
    /// To read metadata.
    ReadMetadata,
    /// To see how far the index is.
    IndexStatus,
}

/// A search that a tool asks for.
#[derive(Debug, PartialEq, Eq)]
pub struct SearchArguments {
    /// The query.
    pub query: String,
    /// What is searched, as it is written; none for the default.
    pub scope: Option<String>,
    /// Extensions.
    pub extensions: Vec<String>,
    /// Directory.
    pub directory_filter: Option<String>,
    /// Most hits.
    pub top_k: u16,
}

/// Hits that a tool gets if it does not say how many.
pub fn default_top_k() -> (r: u16)
    ensures
        r == 10,
{
    10
}

/// The arguments of a tool, as far as they could be read.
#[derive(Debug, PartialEq, Eq)]
pub enum ToolArguments {
    /// Those of a search.
    Search(SearchArguments),
    /// That of an item; none if the identity is malformed.
    Item(Option<DocumentId>),
    /// None of these.
    Unreadable,
}

/// A search.
#[derive(Debug, PartialEq, Eq)]
pub struct SearchRequest {
    /// The query.
    pub query: String,
    /// What is searched.
    pub scope: Option<String>,
    /// Extensions, without dots, in lower case, in order, each once.
    pub extensions: Vec<String>,
    /// Directory.
    pub directory_prefix: Option<String>,
    /// Most hits.
    pub top_k: u16,
}

/// What the agent is asked for.
#[derive(Debug, PartialEq, Eq)]
pub enum AgentOperation {
    /// What the client is allowed.
    AgentGetCapabilities,
    /// A search.
    CatalogSearch(SearchRequest),
    /// An item.
    CatalogGetItem {
        /// Its document.
        document_id: DocumentId,
    },
    /// How far the index is.
    IndexGetStatus,
}

/// What the agent is asked for, as a mathematical value.
pub enum OperationModel {
    AgentGetCapabilities,
    CatalogSearch {
        query: Seq<char>,
        scope: Option<Seq<char>>,
        extensions: Seq<Seq<char>>,
        directory_prefix: Option<Seq<char>>,
        top_k: u16,
    },
    CatalogGetItem { document_id: DocumentId },
    IndexGetStatus,
}

impl View for AgentOperation {
    type V = OperationModel;

    open spec fn view(&self) -> OperationModel {
        match self {
            AgentOperation::AgentGetCapabilities => OperationModel::AgentGetCapabilities,
            AgentOperation::CatalogSearch(search) => OperationModel::CatalogSearch {
                query: search.query@,
                scope: optional_text(search.scope),
                extensions: texts(search.extensions@),
                directory_prefix: optional_text(search.directory_prefix),
                top_k: search.top_k,
            },
            AgentOperation::CatalogGetItem { document_id } => OperationModel::CatalogGetItem {
                document_id: *document_id,
            },
            AgentOperation::IndexGetStatus => OperationModel::IndexGetStatus,
        }
    }
}

/// A request to the agent.
#[derive(Debug, PartialEq, Eq)]
pub struct AgentRequest {
    /// Its identifier.
    pub request_id: String,
    /// Time that the agent is given.
    pub deadline_ms: u32,
    /// What it is asked for.
    pub operation: AgentOperation,
}

/// The answer of the agent.
#[derive(Debug, PartialEq, Eq)]
pub enum AgentReply {
    /// A failure.
    Failure {
        /// Its code.
        code: Json,
        /// What is said of it.
        message: String,
        /// Code and message as they are written.
        text: String,
    },
    /// A result.
    Result {
        /// What the client is allowed, if that was the question.
        granted: Option<Vec<Capability>>,
        /// The result and how it is written; none if it could not be written.
        encoded: Option<(Json, String)>,
    },
    /// Neither.
    Empty,
}

/// The search agent. Whoever implements it keeps to the boundary between the two.
pub trait AgentInvoker {
    /// Asks the agent once.
    fn invoke(&self, request: &AgentRequest) -> Result<AgentReply, InvokeError>;
}

/// The agent behind an endpoint of the current user.
#[derive(Clone, Debug, PartialEq, Eq)]
pub struct NamedPipeAgentInvoker {
    pipe_name: String,
}

impl NamedPipeAgentInvoker {
    /// The name of the endpoint.
    pub closed spec fn name(&self) -> Seq<char> {
        self.pipe_name@
    }

    /// The agent behind an endpoint.
    pub fn new(pipe_name: String) -> (r: Self)
        ensures
            r.name() == pipe_name@,
    {
        NamedPipeAgentInvoker { pipe_name }
    }

    /// The agent of a logon session; unavailable where there is none.
    pub fn default_endpoint(logon_sid: Option<&str>) -> (r: Result<Self, InvokeError>)
        ensures
            match logon_sid {
                Some(sid) => r matches Ok(invoker) && invoker.name() == pipe_name_of(sid@),
                None => r == Err::<Self, InvokeError>(InvokeError::Unavailable),
            },
    {
        match logon_sid {
            Some(sid) => Ok(NamedPipeAgentInvoker { pipe_name: default_pipe_name(sid) }),
            None => Err(InvokeError::Unavailable),
        }
    }

    /// The name of the endpoint.
    pub fn pipe_name(&self) -> (r: &str)
        ensures
            r@ == self.name(),
    {
        self.pipe_name.as_str()
    }
}

/// A text without the dots in front.
pub open spec fn without_dots(text: Seq<char>) -> Seq<char>
    decreases text.len(),
{
    if text.len() > 0 && text[0] == '.' {
        without_dots(text.drop_first())
    } else {
        text
    }
}

/// An extension as it is compared.
pub open spec fn extension_of(value: Seq<char>) -> Seq<char> {
    lowercase_of(without_dots(value))
}

/// An extension that may be asked for: bounded letters and digits.
pub open spec fn is_extension(text: Seq<char>) -> bool {
    &&& text.len() > 0
    &&& encode_utf8(text).len() <= MAX_EXTENSION_BYTES
    &&& forall|i: int| 0 <= i < text.len() ==> alphanumeric(#[trigger] text[i])
}

/// Drops the dots in front of a text.
pub fn trim_dots(text: &str) -> (r: String)
    ensures
        r@ == without_dots(text@),
{
    let chars = chars_of(text);
    let mut start: usize = 0;
    assert(chars@.skip(0) =~= chars@);
    while start < chars.len() && chars[start] == '.'
        invariant
            start <= chars@.len(),
            chars@ == text@,
            without_dots(text@.skip(start as int)) == without_dots(text@),
        decreases chars@.len() - start,
    {
        assert(text@.skip(start as int).drop_first() =~= text@.skip(start + 1));
        start = start + 1;
    }
    let mut r = String::new();
    let mut i: usize = start;
    while i < chars.len()
        invariant
            start <= i <= chars@.len(),
            chars@ == text@,
            r@ =~= text@.subrange(start as int, i as int),
        decreases chars@.len() - i,
    {
        r.push(chars[i]);
        i = i + 1;
    }
    assert(r@ =~= text@.skip(start as int));
    r
}

/// Whether an extension may be asked for.
pub fn acceptable_extension(text: &str) -> (r: bool)
    ensures
        r == is_extension(text@),
{
    if text.is_empty() || text.as_bytes().len() > MAX_EXTENSION_BYTES {
        return false;
    }
    let chars = chars_of(text);
    let mut i: usize = 0;
    while i < chars.len()
        invariant
            i <= chars@.len(),
            chars@ == text@,
            forall|k: int| 0 <= k < i ==> alphanumeric(#[trigger] text@[k]),
        decreases chars@.len() - i,
    {
        if !is_alphanumeric(chars[i]) {
            assert(!alphanumeric(text@[i as int]));
            return false;
        }
        i = i + 1;
    }
    true
}

/// The texts are in order, each once.
pub open spec fn texts_sorted(values: Seq<Seq<char>>) -> bool {
    forall|i: int, j: int|
        0 <= i < j < values.len() ==> text_order(#[trigger] values[i], #[trigger] values[j]) < 0
}

/// The extensions that are asked for, in order, each once.
pub open spec fn are_extensions(
    extensions: Seq<Seq<char>>,
    values: Seq<Seq<char>>,
    n: int,
) -> bool {
    &&& texts_sorted(extensions)
    &&& forall|text: Seq<char>| #[trigger]
        extensions.contains(text) <==> exists|i: int|
            0 <= i < n && extension_of(#[trigger] values[i]) == text
}

fn insert_text(values: &mut Vec<String>, text: String)
    requires
        texts_sorted(texts(old(values)@)),
    ensures
        texts_sorted(texts(final(values)@)),
        forall|x: Seq<char>| #[trigger]
            texts(final(values)@).contains(x) <==> (x == text@ || texts(old(values)@).contains(x)),
{
    let ghost before = texts(values@);
    let mut at: usize = values.len();
    let mut same = false;
    while at > 0
        invariant_except_break
            at <= values@.len(),
            before == texts(values@),
            !same,
            forall|i: int| at <= i < before.len() ==> text_order(text@, #[trigger] before[i]) < 0,
        ensures
            at <= values@.len(),
            before == texts(values@),
            forall|i: int| at <= i < before.len() ==> text_order(text@, #[trigger] before[i]) < 0,
            same ==> at > 0 && before[at - 1] == text@,
            !same && at > 0 ==> text_order(before[at - 1], text@) < 0,
        decreases at,
    {
        let order: i8 = compare_texts(values[at - 1].as_str(), text.as_str());
        proof {
            assert(before[at - 1] == values@[at - 1]@);
            lemma_text_order_equal(before[at - 1], text@);
        }
        if order == 0 {
            same = true;
            break;
        }
        if order < 0 {
            break;
        }
        at = at - 1;
    }
    if same {
        assert(before.contains(text@));
        return;
    }
    let ghost model = text@;
    values.insert(at, text);
    proof {
        let after = texts(values@);
        assert(after =~= before.insert(at as int, model));
        assert forall|i: int, j: int| 0 <= i < j < after.len() implies text_order(
            #[trigger] after[i],
            #[trigger] after[j],
        ) < 0 by {
            let p = if i < at { i } else { i - 1 };
            let q = if j < at { j } else { j - 1 };
            if i != at && j != at {
                assert(after[i] == before[p]);
                assert(after[j] == before[q]);
            } else if j == at {
                assert(after[i] == before[i]);
                if i < at - 1 {
                    lemma_text_order_transitive(before[i], before[at - 1], model);
                }
            } else {
                assert(after[j] == before[q]);
            }
        }
        assert forall|x: Seq<char>| #[trigger] after.contains(x) <==> (x == model
            || before.contains(x)) by {
            if before.contains(x) {
                let k = before.index_of(x);
                if k < at {
                    assert(after[k] == x);
                } else {
                    assert(after[k + 1] == x);
                }
            }
            if x == model {
                assert(after[at as int] == x);
            }
            if after.contains(x) && x != model {
                let k = after.index_of(x);
                if k < at {
                    assert(before[k] == x);
                } else {
                    assert(before[k - 1] == x);
                }
            }
        }
    }
}

/// The extensions that are asked for, without dots, in lower case, in order, each once. One that
/// is too long or not made of letters and digits spoils them all.
pub fn normalize_extensions(values: &Vec<String>) -> (r: Result<Vec<String>, &'static str>)
    ensures
        match r {
            Ok(extensions) => {
                &&& forall|i: int|
                    0 <= i < values@.len() ==> is_extension(extension_of(#[trigger] values@[i]@))
                &&& are_extensions(texts(extensions@), texts(values@), values@.len() as int)
            },
            Err(message) => {
                &&& message@ == "extension filters must be bounded alphanumeric values"@
                &&& exists|i: int|
                    0 <= i < values@.len() && !is_extension(extension_of(#[trigger] values@[i]@))
            },
        },
{
    let ghost all = texts(values@);
    let mut unique: Vec<String> = Vec::new();
    let mut n: usize = 0;
    while n < values.len()
        invariant
            n <= values@.len(),
            all == texts(values@),
            are_extensions(texts(unique@), all, n as int),
            forall|i: int| 0 <= i < n ==> is_extension(extension_of(#[trigger] values@[i]@)),
        decreases values@.len() - n,
    {
        let normalized = lowercase(trim_dots(values[n].as_str()).as_str());
        if !acceptable_extension(normalized.as_str()) {
            assert(!is_extension(extension_of(values@[n as int]@)));
            return Err("extension filters must be bounded alphanumeric values");
        }
        let ghost before = texts(unique@);
        let ghost text = normalized@;
        insert_text(&mut unique, normalized);
        proof {
            assert(extension_of(all[n as int]) == text);
            let after = texts(unique@);
            assert forall|x: Seq<char>| #[trigger] after.contains(x) <==> exists|i: int|
                0 <= i < n + 1 && extension_of(#[trigger] all[i]) == x by {
                assert(before.contains(x) <==> exists|i: int|
                    0 <= i < n && extension_of(#[trigger] all[i]) == x);
                if x == text {
                    assert(extension_of(all[n as int]) == x);
                }
            }
        }
        n = n + 1;
    }
    Ok(unique)
}

/// The search is within its bounds.
pub open spec fn is_bounded_search(
    query: Seq<char>,
    top_k: u16,
    extensions: nat,
    maximum_query_bytes: nat,
) -> bool {
    &&& query.len() > 0
    &&& encode_utf8(query).len() <= maximum_query_bytes
    &&& 1 <= top_k <= MCP_SEARCH_MAX_TOP_K
    &&& extensions <= MAX_EXTENSIONS
}

/// The tool that is called asks the agent for this, or is refused with this message.
#[verifier::opaque]
pub open spec fn is_mapped(
    r: Result<AgentOperation, &'static str>,
    name: Seq<char>,
    arguments: JsonModel,
    maximum_query_bytes: nat,
) -> bool {
    if name == "localsearch.search_files"@ {
        match arguments_of(name, arguments) {
            ArgumentsModel::Search { query, scope, extensions, directory_filter, top_k } => {
                if !is_bounded_search(query, top_k, extensions.len(), maximum_query_bytes) {
                    r matches Err(message) && message@ == "search arguments exceed bounded policy"@
                } else if exists|i: int|
                    0 <= i < extensions.len() && !is_extension(
                        extension_of(#[trigger] extensions[i]),
                    ) {
                    r matches Err(message) && message@
                        == "extension filters must be bounded alphanumeric values"@
                } else {
                    &&& r matches Ok(operation)
                    &&& operation@ matches OperationModel::CatalogSearch {
                        query: asked,
                        scope: within,
                        extensions: filters,
                        directory_prefix,
                        top_k: hits,
                    }
                    &&& asked == query
                    &&& within == scope
                    &&& are_extensions(filters, extensions, extensions.len() as int)
                    &&& directory_prefix == directory_filter
                    &&& hits == top_k
                }
            },
            _ => r matches Err(message) && message@
                == "invalid localsearch.search_files arguments"@,
        }
    } else if name == "localsearch.get_catalog_item"@ {
        match arguments_of(name, arguments) {
            ArgumentsModel::Item(Some(document_id)) => r matches Ok(operation) && operation@ == (
            OperationModel::CatalogGetItem { document_id }),
            ArgumentsModel::Item(None) => r matches Err(message) && message@
                == "invalid canonical document_id"@,
            _ => r matches Err(message) && message@
                == "invalid localsearch.get_catalog_item arguments"@,
        }
    } else if name == "localsearch.get_index_status"@ {
        if arguments == JsonModel::Object(Seq::empty()) {
            r matches Ok(operation) && operation@ == OperationModel::IndexGetStatus
        } else {
            r matches Err(message) && message@ == "localsearch.get_index_status takes no arguments"@
        }
    } else {
        r matches Err(message) && message@ == "unknown or unavailable LocalSearch tool"@
    }
}

fn is_empty_object(value: &Json) -> (r: bool)
    ensures
        r == (value@ == JsonModel::Object(Seq::empty())),
{
    match value {
        Json::Object(members) => {
            assert(value@->Object_0.len() == members@.len());
            if members.len() == 0 {
                assert(value@->Object_0 =~= Seq::empty());
                true
            } else {
                false
            }
        },
        _ => false,
    }
}

/// What a tool asks the agent for.
pub fn map_tool(name: &str, arguments: &Json, maximum_query_bytes: usize) -> (r: Result<
    AgentOperation,
    &'static str,
>)
    ensures
        is_mapped(r, name@, arguments@, maximum_query_bytes as nat),
{
    proof {
        reveal(is_mapped);
    }
    if same_text(name, "localsearch.search_files") {
        match tool_arguments(name, arguments) {
            ToolArguments::Search(args) => {
                if args.query.as_str().is_empty() || args.query.as_str().as_bytes().len()
                    > maximum_query_bytes || args.top_k == 0 || args.top_k > MCP_SEARCH_MAX_TOP_K
                    || args.extensions.len() > MAX_EXTENSIONS {
                    return Err("search arguments exceed bounded policy");
                }
                let ghost given = texts(args.extensions@);
                match normalize_extensions(&args.extensions) {
                    Ok(extensions) => {
                        assert forall|i: int| 0 <= i < given.len() implies is_extension(
                            extension_of(#[trigger] given[i]),
                        ) by {
                            assert(given[i] == args.extensions@[i]@);
                        }
                        Ok(
                            AgentOperation::CatalogSearch(
                                SearchRequest {
                                    query: args.query,
                                    scope: args.scope,
                                    extensions,
                                    directory_prefix: args.directory_filter,
                                    top_k: args.top_k,
                                },
                            ),
                        )
                    },
                    Err(message) => {
                        proof {
                            let i = choose|i: int|
                                0 <= i < args.extensions@.len() && !is_extension(
                                    extension_of(#[trigger] args.extensions@[i]@),
                                );
                            assert(!is_extension(extension_of(given[i])));
                        }
                        Err(message)
                    },
                }
            },
            _ => Err("invalid localsearch.search_files arguments"),
        }
    } else if same_text(name, "localsearch.get_catalog_item") {
        match tool_arguments(name, arguments) {
            ToolArguments::Item(Some(document_id)) => Ok(
                AgentOperation::CatalogGetItem { document_id },
            ),
            ToolArguments::Item(None) => Err("invalid canonical document_id"),
            _ => Err("invalid localsearch.get_catalog_item arguments"),
        }
    } else if same_text(name, "localsearch.get_index_status") {
        if is_empty_object(arguments) {
            Ok(AgentOperation::IndexGetStatus)
        } else {
            Err("localsearch.get_index_status takes no arguments")
        }
    } else {
        Err("unknown or unavailable LocalSearch tool")
    }
}

/// What a tool needs to be allowed.
pub open spec fn capability_of(name: Seq<char>) -> Option<Capability> {
    if name == "localsearch.search_files"@ {
        Some(Capability::SearchCatalog)
    } else if name == "localsearch.get_catalog_item"@ {
        Some(Capability::ReadMetadata)
    } else if name == "localsearch.get_index_status"@ {
        Some(Capability::IndexStatus)
    } else {
        None
    }
}

/// What a tool needs to be allowed.
pub fn required_capability(name: &str) -> (r: Option<Capability>)
    ensures
        r == capability_of(name@),
{
    if same_text(name, "localsearch.search_files") {
        Some(Capability::SearchCatalog)
    } else if same_text(name, "localsearch.get_catalog_item") {
        Some(Capability::ReadMetadata)
    } else if same_text(name, "localsearch.get_index_status") {
        Some(Capability::IndexStatus)
    } else {
        None
    }
}

/// The client is allowed to use a tool.
pub open spec fn is_granted(tool: JsonModel, granted: Seq<Capability>) -> bool {
    match text_member(tool, "name"@) {
        Some(name) => match capability_of(name) {
            Some(capability) => granted.contains(capability),
            None => false,
        },
        None => false,
    }
}

/// The first `n` tools that the client is allowed to use, in order.
pub open spec fn granted_tools(tools: Seq<JsonModel>, granted: Seq<Capability>, n: nat) -> Seq<
    JsonModel,
>
    decreases n,
{
    if n == 0 {
        Seq::empty()
    } else {
        let before = granted_tools(tools, granted, (n - 1) as nat);
        if is_granted(tools[n - 1], granted) {
            before.push(tools[n - 1])
        } else {
            before
        }
    }
}

fn holds_capability(granted: &Vec<Capability>, wanted: Capability) -> (r: bool)
    ensures
        r == granted@.contains(wanted),
{
    let mut i: usize = 0;
    while i < granted.len()
        invariant
            i <= granted@.len(),
            forall|k: int| 0 <= k < i ==> granted@[k] != wanted,
        decreases granted@.len() - i,
    {
        if granted[i] == wanted {
            assert(granted@[i as int] == wanted);
            return true;
        }
        i = i + 1;
    }
    false
}

fn may_use(tool: &Json, granted: &Vec<Capability>) -> (r: bool)
    ensures
        r == is_granted(tool@, granted@),
{
    match tool.get("name") {
        Some(value) => match value.as_text() {
            Some(name) => match required_capability(name) {
                Some(capability) => holds_capability(granted, capability),
                None => false,
            },
            None => false,
        },
        None => false,
    }
}

/// Keeps the tools that the client is allowed to use.
pub fn retain_granted(tools: Vec<Json>, granted: &Vec<Capability>) -> (r: Vec<Json>)
    ensures
        json_models(r@) == granted_tools(json_models(tools@), granted@, tools@.len()),
{
    let ghost all = json_models(tools@);
    let mut kept: Vec<Json> = Vec::new();
    assert(json_models(kept@) =~= Seq::empty());
    for tool in iter: tools
        invariant
            iter.seq() == tools@,
            all == json_models(tools@),
            json_models(kept@) == granted_tools(all, granted@, iter.index() as nat),
    {
        let ghost before = json_models(kept@);
        let ghost model = tool@;
        assert(all[iter.index()] == model);
        if may_use(&tool, granted) {
            kept.push(tool);
            assert(json_models(kept@) =~= before.push(model));
        }
    }
    kept
}

/// What a list of tools looks like.
pub open spec fn tools_result(tools: Seq<JsonModel>) -> JsonModel {
    JsonModel::Object(
        seq![
            ("resultType"@, JsonModel::Text("complete"@)),
            ("tools"@, JsonModel::Array(tools)),
            ("ttlMs"@, JsonModel::Unsigned(TTL_MS)),
            ("cacheScope"@, JsonModel::Text("private"@)),
        ],
    )
}

/// What the result of a tool looks like.
pub open spec fn called_result(structured: JsonModel, text: Seq<char>, is_error: bool) ->
    JsonModel {
    JsonModel::Object(
        seq![
            ("resultType"@, JsonModel::Text("complete"@)),
            (
                "content"@,
                JsonModel::Array(
                    seq![
                        JsonModel::Object(
                            seq![
                                ("type"@, JsonModel::Text("text"@)),
                                ("text"@, JsonModel::Text(text)),
                            ],
                        ),
                    ],
                ),
            ),
            ("structuredContent"@, structured),
            ("isError"@, JsonModel::Bool(is_error)),
        ],
    )
}

/// What the server says of itself.
pub open spec fn discovery_result() -> JsonModel {
    JsonModel::Object(
        seq![
            ("resultType"@, JsonModel::Text("complete"@)),
            (
                "supportedVersions"@,
                JsonModel::Array(seq![JsonModel::Text(MCP_PROTOCOL_VERSION@)]),
            ),
            (
                "capabilities"@,
                JsonModel::Object(
                    seq![
                        (
                            "tools"@,
                            JsonModel::Object(
                                seq![("listChanged"@, JsonModel::Bool(false))],
                            ),
                        ),
                    ],
                ),
            ),
            (
                "_meta"@,
                JsonModel::Object(
                    seq![
                        (
                            "io.modelcontextprotocol/serverInfo"@,
                            JsonModel::Object(
                                seq![
                                    ("name"@, JsonModel::Text("LocalSearch"@)),
                                    ("version"@, JsonModel::Text(SERVER_VERSION@)),
                                ],
                            ),
                        ),
                    ],
                ),
            ),
            ("ttlMs"@, JsonModel::Unsigned(TTL_MS)),
            ("cacheScope"@, JsonModel::Text("private"@)),
        ],
    )
}

fn one_member(name: &str, value: Json) -> (r: Json)
    ensures
        r@ == JsonModel::Object(seq![(name@, value@)]),
{
    let ghost model = value@;
    let members = vec![(name.to_owned(), value)];
    assert(member_models(members@) =~= seq![(name@, model)]);
    Json::object(members)
}

fn one_item(value: Json) -> (r: Json)
    ensures
        r@ == JsonModel::Array(seq![value@]),
{
    let ghost model = value@;
    let items = vec![value];
    assert(json_models(items@) =~= seq![model]);
    Json::array(items)
}

fn two_members(first: &str, a: Json, second: &str, b: Json) -> (r: Json)
    ensures
        r@ == JsonModel::Object(seq![(first@, a@), (second@, b@)]),
{
    let ghost (x, y) = (a@, b@);
    let members = vec![(first.to_owned(), a), (second.to_owned(), b)];
    assert(member_models(members@) =~= seq![(first@, x), (second@, y)]);
    Json::object(members)
}

fn supported_versions() -> (r: Json)
    ensures
        r@ == JsonModel::Array(seq![JsonModel::Text(MCP_PROTOCOL_VERSION@)]),
{
    one_item(Json::text(MCP_PROTOCOL_VERSION))
}

/// What the server says of itself.
pub fn discovery() -> (r: Json)
    ensures
        r@ == discovery_result(),
{
    let capabilities = one_member("tools", one_member("listChanged", Json::Bool(false)));
    let info = two_members(
        "name",
        Json::text("LocalSearch"),
        "version",
        Json::text(SERVER_VERSION),
    );
    let meta = one_member("io.modelcontextprotocol/serverInfo", info);
    let members = vec![
        ("resultType".to_owned(), Json::text("complete")),
        ("supportedVersions".to_owned(), supported_versions()),
        ("capabilities".to_owned(), capabilities),
        ("_meta".to_owned(), meta),
        ("ttlMs".to_owned(), Json::Unsigned(TTL_MS)),
        ("cacheScope".to_owned(), Json::text("private")),
    ];
    assert(member_models(members@) =~= discovery_result()->Object_0);
    Json::object(members)
}

/// What the result of a tool looks like.
pub fn tool_result(structured: Json, text: String, is_error: bool) -> (r: Json)
    ensures
        r@ == called_result(structured@, text@, is_error),
{
    let ghost (model, written) = (structured@, text@);
    let content = one_item(two_members("type", Json::text("text"), "text", Json::Text(text)));
    let members = vec![
        ("resultType".to_owned(), Json::text("complete")),
        ("content".to_owned(), content),
        ("structuredContent".to_owned(), structured),
        ("isError".to_owned(), Json::Bool(is_error)),
    ];
    assert(member_models(members@) =~= called_result(model, written, is_error)->Object_0);
    Json::object(members)
}

fn tools_list(tools: Vec<Json>) -> (r: Json)
    ensures
        r@ == tools_result(json_models(tools@)),
{
    let ghost models = json_models(tools@);
    let members = vec![
        ("resultType".to_owned(), Json::text("complete")),
        ("tools".to_owned(), Json::array(tools)),
        ("ttlMs".to_owned(), Json::Unsigned(TTL_MS)),
        ("cacheScope".to_owned(), Json::text("private")),
    ];
    assert(member_models(members@) =~= tools_result(models)->Object_0);
    Json::object(members)
}

/// What is wrong with the metadata of a request.
pub enum MetaFault {
    Missing,
    Unsupported(Option<Seq<char>>),
    InvalidCapabilities,
}

/// What is wrong with the metadata of a request; nothing if it names the protocol that is spoken
/// and says what the client can do.
pub open spec fn meta_fault(params: JsonModel) -> Option<MetaFault> {
    match member(params, "_meta"@) {
        Some(meta) => if !(meta is Object) {
            Some(MetaFault::Missing)
        } else {
            let requested = text_member(meta, "io.modelcontextprotocol/protocolVersion"@);
            if requested != Some(MCP_PROTOCOL_VERSION@) {
                Some(MetaFault::Unsupported(requested))
            } else {
                match member(meta, "io.modelcontextprotocol/clientCapabilities"@) {
                    Some(capabilities) => if capabilities is Object {
                        None
                    } else {
                        Some(MetaFault::InvalidCapabilities)
                    },
                    None => Some(MetaFault::InvalidCapabilities),
                }
            }
        },
        None => Some(MetaFault::Missing),
    }
}

/// What is said of another revision of the protocol.
pub open spec fn version_data(requested: Option<Seq<char>>) -> JsonModel {
    JsonModel::Object(
        seq![
            (
                "supportedVersions"@,
                JsonModel::Array(seq![JsonModel::Text(MCP_PROTOCOL_VERSION@)]),
            ),
            (
                "requestedVersion"@,
                match requested {
                    Some(text) => JsonModel::Text(text),
                    None => JsonModel::Null,
                },
            ),
        ],
    )
}

/// The response to a request whose metadata is wrong.
pub open spec fn meta_response(id: IdModel, fault: MetaFault) -> ResponseModel {
    match fault {
        MetaFault::Missing => failure(
            Some(id),
            -32602,
            "modern MCP request metadata is required"@,
        ),
        MetaFault::Unsupported(requested) => ResponseModel::Failure {
            id: Some(id),
            code: -32022,
            message: "unsupported MCP protocol version"@,
            data: Some(version_data(requested)),
        },
        MetaFault::InvalidCapabilities => failure(
            Some(id),
            -32602,
            "clientCapabilities metadata must be an object"@,
        ),
    }
}

/// The response to a request whose metadata is wrong; nothing if it is right.
pub fn validate_modern_meta(id: &McpId, params: &Json) -> (r: Option<McpResponse>)
    ensures
        match meta_fault(params@) {
            Some(fault) => r matches Some(response) && response@ == meta_response(id@, fault),
            None => r is None,
        },
{
    let meta = match params.get("_meta") {
        Some(meta) => meta,
        None => {
            return Some(
                McpResponse::error(
                    Some(id.duplicate()),
                    -32602,
                    "modern MCP request metadata is required",
                    None,
                ),
            );
        },
    };
    if !meta.is_object() {
        return Some(
            McpResponse::error(
                Some(id.duplicate()),
                -32602,
                "modern MCP request metadata is required",
                None,
            ),
        );
    }
    let requested = match meta.get("io.modelcontextprotocol/protocolVersion") {
        Some(value) => value.as_text(),
        None => None,
    };
    let supported = match requested {
        Some(text) => same_text(text, MCP_PROTOCOL_VERSION),
        None => false,
    };
    if !supported {
        let version = match requested {
            Some(text) => Json::text(text),
            None => Json::Null,
        };
        let ghost wanted = text_member(meta@, "io.modelcontextprotocol/protocolVersion"@);
        assert(version@ == (match wanted {
            Some(text) => JsonModel::Text(text),
            None => JsonModel::Null,
        }));
        let data = two_members(
            "supportedVersions",
            supported_versions(),
            "requestedVersion",
            version,
        );
        assert(data@->Object_0 =~= version_data(wanted)->Object_0);
        return Some(
            McpResponse::error(
                Some(id.duplicate()),
                -32022,
                "unsupported MCP protocol version",
                Some(data),
            ),
        );
    }
    let described = match meta.get("io.modelcontextprotocol/clientCapabilities") {
        Some(value) => value.is_object(),
        None => false,
    };
    if !described {
        return Some(
            McpResponse::error(
                Some(id.duplicate()),
                -32602,
                "clientCapabilities metadata must be an object",
                None,
            ),
        );
    }
    None
}

/// A member that the parameters of a call may have.
pub open spec fn is_call_member(name: Seq<char>) -> bool {
    name == "_meta"@ || name == "name"@ || name == "arguments"@
}

/// The tool that is called, with its arguments; nothing if there are other parameters than the
/// metadata, the name of the tool and its arguments, or if one that is needed is missing.
pub open spec fn called_tool(params: JsonModel) -> Option<(Seq<char>, JsonModel)> {
    match params {
        JsonModel::Object(members) => if (forall|i: int|
            0 <= i < members.len() ==> is_call_member((#[trigger] members[i]).0)) && member(
            params,
            "_meta"@,
        ) is Some {
            match text_member(params, "name"@) {
                Some(name) => Some(
                    (
                        name,
                        match member(params, "arguments"@) {
                            Some(arguments) => arguments,
                            None => JsonModel::Null,
                        },
                    ),
                ),
                None => None,
            }
        } else {
            None
        },
        _ => None,
    }
}

/// The tool that a request calls, with its arguments.
pub fn requested_tool(params: &Json) -> (r: Option<(&str, Option<&Json>)>)
    ensures
        match r {
            Some((name, arguments)) => called_tool(params@) == Some(
                (
                    name@,
                    match arguments {
                        Some(value) => value@,
                        None => JsonModel::Null,
                    },
                ),
            ),
            None => called_tool(params@) is None,
        },
{
    match params {
        Json::Object(members) => {
            let ghost models = params@->Object_0;
            let mut i: usize = 0;
            while i < members.len()
                invariant
                    i <= members@.len(),
                    params@ == JsonModel::Object(models),
                    models.len() == members@.len(),
                    forall|k: int|
                        0 <= k < members@.len() ==> #[trigger] models[k] == (
                            members@[k].0@,
                            members@[k].1@,
                        ),
                    forall|k: int| 0 <= k < i ==> is_call_member((#[trigger] models[k]).0),
                decreases members@.len() - i,
            {
                let name = members[i].0.as_str();
                assert(models[i as int].0 == name@);
                if !(same_text(name, "_meta") || same_text(name, "name") || same_text(
                    name,
                    "arguments",
                )) {
                    assert(!is_call_member(models[i as int].0));
                    return None;
                }
                i = i + 1;
            }
            if params.get("_meta").is_none() {
                return None;
            }
            match params.get("name") {
                Some(value) => match value.as_text() {
                    Some(name) => Some((name, params.get("arguments"))),
                    None => None,
                },
                None => None,
            }
        },
        _ => None,
    }
}

/// What a request leads to.
#[derive(Debug, PartialEq, Eq)]
pub enum Plan {
    /// A response at once.
    Answer(McpResponse),
    /// A question to the agent, for the list of tools.
    ListTools {
        /// The request.
        id: McpId,
    },
    /// A question to the agent, for a tool.
    CallTool {
        /// The request.
        id: McpId,
        /// What the agent is asked for.
        operation: AgentOperation,
    },
}

/// What a request leads to.
pub open spec fn is_planned(
    r: Plan,
    request: McpRequest,
    maximum_query_bytes: nat,
) -> bool {
    match optional_id(request.id) {
        None => r matches Plan::Answer(response) && response@ == failure(
            None,
            -32600,
            "request id is required"@,
        ),
        Some(id) => if request.jsonrpc@ != "2.0"@ {
            r matches Plan::Answer(response) && response@ == failure(
                Some(id),
                -32600,
                "jsonrpc must be 2.0"@,
            )
        } else if request.method@ == "initialize"@ {
            r matches Plan::Answer(response) && response@ == (ResponseModel::Failure {
                id: Some(id),
                code: -32601,
                message: "legacy initialize is not supported; use MCP 2026-07-28 server/discover"@,
                data: Some(
                    JsonModel::Object(
                        seq![
                            (
                                "supportedVersions"@,
                                JsonModel::Array(seq![JsonModel::Text(MCP_PROTOCOL_VERSION@)]),
                            ),
                        ],
                    ),
                ),
            })
        } else {
            match meta_fault(request.params@) {
                Some(fault) => r matches Plan::Answer(response) && response@ == meta_response(
                    id,
                    fault,
                ),
                None => if request.method@ == "server/discover"@ {
                    r matches Plan::Answer(response) && response@ == (ResponseModel::Success {
                        id: Some(id),
                        result: discovery_result(),
                    })
                } else if request.method@ == "tools/list"@ {
                    r matches Plan::ListTools { id: same } && same@ == id
                } else if request.method@ == "tools/call"@ {
                    is_call_planned(r, id, request.params@, maximum_query_bytes)
                } else {
                    r matches Plan::Answer(response) && response@ == failure(
                        Some(id),
                        -32601,
                        "method not found"@,
                    )
                },
            }
        },
    }
}

/// What the call of a tool with these arguments leads to.
pub open spec fn is_tool_planned(
    r: Plan,
    id: IdModel,
    name: Seq<char>,
    arguments: JsonModel,
    maximum_query_bytes: nat,
) -> bool {
    match r {
        Plan::CallTool { id: same, operation } => same@ == id && is_mapped(
            Ok(operation),
            name,
            arguments,
            maximum_query_bytes,
        ),
        Plan::Answer(response) => exists|message: &'static str| #[trigger]
            is_mapped(Err(message), name, arguments, maximum_query_bytes) && response@
                == failure(Some(id), -32602, message@),
        Plan::ListTools { .. } => false,
    }
}

/// What the call of a tool leads to.
pub open spec fn is_call_planned(
    r: Plan,
    id: IdModel,
    params: JsonModel,
    maximum_query_bytes: nat,
) -> bool {
    match called_tool(params) {
        None => r matches Plan::Answer(response) && response@ == failure(
            Some(id),
            -32602,
            "invalid tools/call params"@,
        ),
        Some((name, arguments)) => is_tool_planned(
            r,
            id,
            name,
            arguments,
            maximum_query_bytes,
        ),
    }
}

fn plan_tool(
    id: McpId,
    name: &str,
    arguments: &Json,
    maximum_query_bytes: usize,
) -> (r: Plan)
    ensures
        is_tool_planned(r, id@, name@, arguments@, maximum_query_bytes as nat),
{
    match map_tool(name, arguments, maximum_query_bytes) {
        Ok(operation) => Plan::CallTool { id, operation },
        Err(message) => {
            assert(is_mapped(
                Err(message),
                name@,
                arguments@,
                maximum_query_bytes as nat,
            ));
            Plan::Answer(McpResponse::error(Some(id), -32602, message, None))
        },
    }
}

fn plan_call(
    id: McpId,
    params: &Json,
    maximum_query_bytes: usize,
) -> (r: Plan)
    ensures
        is_call_planned(r, id@, params@, maximum_query_bytes as nat),
{
    let (name, found) = match requested_tool(params) {
        Some(tool) => tool,
        None => {
            return Plan::Answer(
                McpResponse::error(Some(id), -32602, "invalid tools/call params", None),
            );
        },
    };
    let nothing = Json::Null;
    let arguments = match found {
        Some(value) => value,
        None => &nothing,
    };
    assert(called_tool(params@) == Some((name@, arguments@)));
    plan_tool(id, name, arguments, maximum_query_bytes)
}

/// Says what a request leads to.
pub fn plan_request(request: McpRequest, maximum_query_bytes: usize) -> (r: Plan)
    ensures
        is_planned(r, request, maximum_query_bytes as nat),
{
    let id = match request.id {
        Some(id) => id,
        None => {
            return Plan::Answer(McpResponse::error(None, -32600, "request id is required", None));
        },
    };
    if !same_text(request.jsonrpc.as_str(), "2.0") {
        return Plan::Answer(
            McpResponse::error(Some(id), -32600, "jsonrpc must be 2.0", None),
        );
    }
    if same_text(request.method.as_str(), "initialize") {
        let data = one_member("supportedVersions", supported_versions());
        return Plan::Answer(
            McpResponse::error(
                Some(id),
                -32601,
                "legacy initialize is not supported; use MCP 2026-07-28 server/discover",
                Some(data),
            ),
        );
    }
    if let Some(response) = validate_modern_meta(&id, &request.params) {
        return Plan::Answer(response);
    }
    if same_text(request.method.as_str(), "server/discover") {
        Plan::Answer(McpResponse::success(id, discovery()))
    } else if same_text(request.method.as_str(), "tools/list") {
        Plan::ListTools { id }
    } else if same_text(request.method.as_str(), "tools/call") {
        plan_call(id, &request.params, maximum_query_bytes)
    } else {
        Plan::Answer(McpResponse::error(Some(id), -32601, "method not found", None))
    }
}

/// The response to a request whose question to the agent was not answered.
pub open spec fn invocation_response(id: IdModel, error: InvokeError) -> ResponseModel {
    match error {
        InvokeError::Cancelled => failure(Some(id), -32800, "request cancelled"@),
        InvokeError::Unavailable => failure(
            Some(id),
            -32603,
            "LocalSearch Agent is unavailable"@,
        ),
        InvokeError::Incompatible => failure(
            Some(id),
            -32603,
            "LocalSearch Agent response was incompatible"@,
        ),
    }
}

/// The response to a request whose question to the agent was not answered.
pub fn invocation_error(id: McpId, error: InvokeError) -> (r: McpResponse)
    ensures
        r@ == invocation_response(id@, error),
{
    match error {
        InvokeError::Cancelled => McpResponse::error(Some(id), -32800, "request cancelled", None),
        InvokeError::Unavailable => McpResponse::error(
            Some(id),
            -32603,
            "LocalSearch Agent is unavailable",
            None,
        ),
        InvokeError::Incompatible => McpResponse::error(
            Some(id),
            -32603,
            "LocalSearch Agent response was incompatible",
            None,
        ),
    }
}

/// The list of tools, given what the agent answered.
pub open spec fn listed(
    id: IdModel,
    reply: Result<AgentReply, InvokeError>,
    tools: Seq<JsonModel>,
) -> ResponseModel {
    match reply {
        Ok(AgentReply::Result { granted: Some(granted), .. }) => ResponseModel::Success {
            id: Some(id),
            result: tools_result(granted_tools(tools, granted@, tools.len())),
        },
        Ok(_) => failure(Some(id), -32603, "Agent capabilities response was incompatible"@),
        Err(error) => invocation_response(id, error),
    }
}

/// The list of tools, given what the agent answered.
pub fn answer_list(id: McpId, reply: Result<AgentReply, InvokeError>, tools: Vec<Json>) -> (r:
    McpResponse)
    ensures
        r@ == listed(id@, reply, json_models(tools@)),
{
    match reply {
        Ok(AgentReply::Result { granted: Some(granted), .. }) => McpResponse::success(
            id,
            tools_list(retain_granted(tools, &granted)),
        ),
        Ok(_) => McpResponse::error(
            Some(id),
            -32603,
            "Agent capabilities response was incompatible",
            None,
        ),
        Err(error) => invocation_error(id, error),
    }
}

/// The result of a tool, given what the agent answered.
pub open spec fn called(id: IdModel, reply: Result<AgentReply, InvokeError>) -> ResponseModel {
    match reply {
        Ok(AgentReply::Failure { code, message, text }) => ResponseModel::Success {
            id: Some(id),
            result: called_result(
                JsonModel::Object(
                    seq![("code"@, code@), ("message"@, JsonModel::Text(message@))],
                ),
                text@,
                true,
            ),
        },
        Ok(AgentReply::Result { encoded: Some((structured, text)), .. }) => {
            ResponseModel::Success {
                id: Some(id),
                result: called_result(structured@, text@, false),
            }
        },
        Ok(AgentReply::Result { encoded: None, .. }) => failure(
            Some(id),
            -32603,
            "response encoding failed"@,
        ),
        Ok(AgentReply::Empty) => failure(
            Some(id),
            -32603,
            "Agent response was incompatible"@,
        ),
        Err(error) => invocation_response(id, error),
    }
}

/// The result of a tool, given what the agent answered.
pub fn answer_call(id: McpId, reply: Result<AgentReply, InvokeError>) -> (r: McpResponse)
    ensures
        r@ == called(id@, reply),
{
    match reply {
        Ok(AgentReply::Failure { code, message, text }) => {
            let structured = two_members("code", code, "message", Json::Text(message));
            McpResponse::success(id, tool_result(structured, text, true))
        },
        Ok(AgentReply::Result { encoded: Some((structured, text)), .. }) => McpResponse::success(
            id,
            tool_result(structured, text, false),
        ),
        Ok(AgentReply::Result { encoded: None, .. }) => McpResponse::error(
            Some(id),
            -32603,
            "response encoding failed",
            None,
        ),
        Ok(AgentReply::Empty) => McpResponse::error(
            Some(id),
            -32603,
            "Agent response was incompatible",
            None,
        ),
        Err(error) => invocation_error(id, error),
    }
}

/// The protocol over one agent.
pub struct McpAdapter<I> {
    invoker: I,
    next_request_id: u64,
}

/// The identifier of a response.
pub open spec fn response_id(response: ResponseModel) -> Option<IdModel> {
    match response {
        ResponseModel::Success { id, .. } => id,
        ResponseModel::Failure { id, .. } => id,
        ResponseModel::Malformed => None,
    }
}

impl<I> McpAdapter<I> {
    /// The number of the next question to the agent.
    pub closed spec fn sequence(&self) -> u64 {
        self.next_request_id
    }

    /// The agent.
    pub closed spec fn agent(&self) -> I {
        self.invoker
    }

    /// An adapter that has not asked anything.
    pub fn new(invoker: I) -> (r: Self)
        ensures
            r.sequence() == 1,
            r.agent() == invoker,
    {
        McpAdapter { invoker, next_request_id: 1 }
    }

    /// The next question to the agent.
    pub fn question(&mut self, operation: AgentOperation) -> (r: AgentRequest)
        ensures
            final(self).sequence() == next_sequence(old(self).sequence()),
            final(self).agent() == old(self).agent(),
            is_question(r, old(self).sequence(), operation),
    {
        let sequence: u64 = self.next_request_id;
        self.next_request_id = self.next_request_id.wrapping_add(1);
        let mut request_id = "mcp-".to_owned();
        request_id.append(write_decimal(sequence).as_str());
        AgentRequest { request_id, deadline_ms: AGENT_DEADLINE_MS, operation }
    }
}

/// The number of the question after this one.
pub open spec fn next_sequence(sequence: u64) -> u64 {
    if sequence == u64::MAX {
        0
    } else {
        (sequence + 1) as u64
    }
}

/// This is the question of that number.
pub open spec fn is_question(question: AgentRequest, sequence: u64, operation: AgentOperation) ->
    bool {
    &&& question.request_id@ == "mcp-"@ + decimal(sequence as nat)
    &&& question.deadline_ms == AGENT_DEADLINE_MS
    &&& question.operation == operation
}

/// This is what the agent may reply to the question of that number.
pub open spec fn is_reply<I: AgentInvoker>(
    agent: I,
    sequence: u64,
    operation: AgentOperation,
    reply: Result<AgentReply, InvokeError>,
) -> bool {
    exists|question: AgentRequest|
        is_question(question, sequence, operation) && #[trigger] call_ensures(
            I::invoke,
            (&agent, &question),
            reply,
        )
}

/// This is a response after this plan, when the next question has that number.
pub open spec fn is_response<I: AgentInvoker>(
    plan: Plan,
    agent: I,
    sequence: u64,
    tools: Seq<JsonModel>,
    response: ResponseModel,
) -> bool {
    match plan {
        Plan::Answer(answer) => response == answer@,
        Plan::ListTools { id } => exists|reply: Result<AgentReply, InvokeError>|
            is_reply(agent, sequence, AgentOperation::AgentGetCapabilities, reply) && response
                == #[trigger] listed(id@, reply, tools),
        Plan::CallTool { id, operation } => exists|reply: Result<AgentReply, InvokeError>|
            is_reply(agent, sequence, operation, reply) && response == #[trigger] called(
                id@,
                reply,
            ),
    }
}

impl<I: AgentInvoker> McpAdapter<I> {
    /// Answers a request, with the tools that the server has: as it is planned, and after at most
    /// one question to the agent. Whatever the agent answers, the response is to this request; a
    /// request that does not need the agent is answered without it.
    pub fn handle(
        &mut self,
        request: McpRequest,
        tools: Vec<Json>,
        maximum_query_bytes: usize,
    ) -> (r: McpResponse)
        ensures
            response_id(r@) == optional_id(request.id),
            r@ is Success || r@ is Failure,
            final(self).agent() == old(self).agent(),
            exists|plan: Plan| #[trigger]
                is_planned(plan, request, maximum_query_bytes as nat) && is_response(
                    plan,
                    old(self).agent(),
                    old(self).sequence(),
                    json_models(tools@),
                    r@,
                ) && final(self).sequence() == (if plan is Answer {
                    old(self).sequence()
                } else {
                    next_sequence(old(self).sequence())
                }),
    {
        let plan = plan_request(request, maximum_query_bytes);
        let ghost planned = plan;
        assert(is_planned(planned, request, maximum_query_bytes as nat));
        match plan {
            Plan::Answer(response) => response,
            Plan::ListTools { id } => {
                let question = self.question(AgentOperation::AgentGetCapabilities);
                let reply = self.invoker.invoke(&question);
                let ghost asked = reply;
                let response = answer_list(id, reply, tools);
                proof {
                    assert(call_ensures(I::invoke, (&self.invoker, &question), asked));
                    assert(is_reply(
                        old(self).agent(),
                        old(self).sequence(),
                        AgentOperation::AgentGetCapabilities,
                        asked,
                    ));
                    assert(response@ == listed(id@, asked, json_models(tools@)));
                }
                response
            },
            Plan::CallTool { id, operation } => {
                let question = self.question(operation);
                let reply = self.invoker.invoke(&question);
                let ghost asked = reply;
                let response = answer_call(id, reply);
                proof {
                    assert(call_ensures(I::invoke, (&self.invoker, &question), asked));
                    assert(is_reply(old(self).agent(), old(self).sequence(), operation, asked));
                    assert(response@ == called(id@, asked));
                }
                response
            },
        }
    }
}

} // verus!
