//! Laws of the tool protocol.

use vstd::prelude::*;

use crate::mcp::adapter::{
    are_extensions, called, called_result, called_tool, capability_of, extension_of,
    granted_tools, invocation_response, is_extension, is_granted, is_mapped, is_planned, listed,
    meta_fault, response_id, without_dots, AgentOperation, AgentReply, Capability, InvokeError,
    OperationModel, Plan,
};
use crate::mcp::arguments::{
    arguments_of, digit_value, document_in, hex_number, search_names, ArgumentsModel,
};
use crate::mcp::json::{integer_in, member, member_of, text_member, Json, JsonModel};
use crate::mcp::protocol::{key_of, optional_id, IdModel, McpRequest, ResponseModel};
use crate::mcp::stdio::{
    cancelled_id, is_routed, line_end, line_of, trimmed, LineModel, MessageAction,
    MAX_IN_FLIGHT,
};
use crate::search::ranking::occurs_at;
use crate::text::lowercase_of;

verus! {

/// A member is found by its name, whatever stands around it; of members with one name the first
/// counts.
pub proof fn members_are_found_by_name(
    before: Seq<(Seq<char>, JsonModel)>,
    name: Seq<char>,
    value: JsonModel,
    after: Seq<(Seq<char>, JsonModel)>,
)
    requires
        forall|i: int| 0 <= i < before.len() ==> (#[trigger] before[i]).0 != name,
    ensures
        member(JsonModel::Object(before + seq![(name, value)] + after), name) == Some(value),
        member(JsonModel::Object(before), name) is None,
        member(JsonModel::Text(name), name) is None,
    decreases before.len(),
{
    let all = before + seq![(name, value)] + after;
    if before.len() > 0 {
        let rest = before.drop_first();
        assert forall|i: int| 0 <= i < rest.len() implies (#[trigger] rest[i]).0 != name by {
            assert(rest[i] == before[i + 1]);
        }
        members_are_found_by_name(rest, name, value, after);
        assert(all[0] == before[0]);
        assert(before[0].0 != name);
        assert(all.drop_first() =~= rest + seq![(name, value)] + after);
    } else {
        assert(all[0] == (name, value));
    }
}

/// Dots in front of an extension are dropped, all of them and nothing else.
pub proof fn leading_dots_are_dropped(text: Seq<char>)
    ensures
        without_dots(seq!['.'] + text) == without_dots(text),
        text.len() == 0 || text[0] != '.' ==> without_dots(text) == text,
        without_dots(text).len() > 0 ==> without_dots(text)[0] != '.',
        extension_of(seq!['.'] + text) == extension_of(text),
        text.len() > 0 && text[0] != '.' ==> extension_of(text) == lowercase_of(text),
    decreases text.len(),
{
    assert((seq!['.'] + text).drop_first() =~= text);
    if text.len() > 0 && text[0] == '.' {
        leading_dots_are_dropped(text.drop_first());
    }
}

/// A tool is listed exactly when the agent grants what it needs: the tools that the client is shown
/// are those of the server that are granted, in their order.
pub proof fn only_granted_tools_are_listed(
    tools: Seq<JsonModel>,
    granted: Seq<Capability>,
    n: nat,
)
    requires
        n <= tools.len(),
    ensures
        granted_tools(tools, granted, n) == tools.take(n as int).filter(
            |tool: JsonModel| is_granted(tool, granted),
        ),
    decreases n,
{
    reveal(Seq::filter);
    if n > 0 {
        only_granted_tools_are_listed(tools, granted, (n - 1) as nat);
        assert(tools.take(n as int).drop_last() =~= tools.take(n - 1));
        assert(tools.take(n as int).last() == tools[n - 1]);
    } else {
        assert(tools.take(0) =~= Seq::empty());
    }
}

/// A tool is granted exactly when it has a name, the name is one of the three tools, and the
/// capability of that tool is granted; each tool needs a capability of its own.
pub proof fn tools_need_their_own_capability(
    tool: JsonModel,
    granted: Seq<Capability>,
    a: Seq<char>,
    b: Seq<char>,
)
    ensures
        is_granted(tool, granted) <==> {
            let name = text_member(tool, "name"@);
            &&& name is Some
            &&& capability_of(name->0) is Some
            &&& granted.contains(capability_of(name->0)->0)
        },
        is_granted(tool, Seq::empty()) == false,
        capability_of(a) is Some && capability_of(a) == capability_of(b) ==> a == b,
        capability_of("localsearch.search_files"@) == Some(Capability::SearchCatalog),
        capability_of("localsearch.get_catalog_item"@) == Some(Capability::ReadMetadata),
        capability_of("localsearch.get_index_status"@) == Some(Capability::IndexStatus),
{
    reveal_strlit("localsearch.search_files");
    reveal_strlit("localsearch.get_catalog_item");
    reveal_strlit("localsearch.get_index_status");
    let s = "localsearch.search_files"@;
    let i = "localsearch.get_catalog_item"@;
    let x = "localsearch.get_index_status"@;
    assert(s.len() == 24 && i.len() == 28 && x.len() == 28);
    assert(i[16] == 'c' && x[16] == 'i');
}

/// Every answer carries the identifier of the request that it answers, and is well formed.
pub proof fn answers_carry_the_identifier(
    id: IdModel,
    reply: Result<AgentReply, InvokeError>,
    error: InvokeError,
    tools: Seq<JsonModel>,
)
    ensures
        response_id(listed(id, reply, tools)) == Some(id),
        response_id(called(id, reply)) == Some(id),
        response_id(invocation_response(id, error)) == Some(id),
        invocation_response(id, error) is Failure,
{
}

/// A plan answers or carries on the request that was made: with its identifier, if it has one. A
/// request without an identifier is refused.
pub proof fn plans_carry_the_identifier(r: Plan, request: McpRequest, maximum_query_bytes: nat)
    requires
        is_planned(r, request, maximum_query_bytes),
    ensures
        match r {
            Plan::Answer(response) => response_id(response@) == optional_id(request.id),
            Plan::ListTools { id } => optional_id(request.id) == Some(id@),
            Plan::CallTool { id, .. } => optional_id(request.id) == Some(id@),
        },
        optional_id(request.id) is None ==> (r matches Plan::Answer(response) && response@ is
            Failure),
{
}

/// The agent is asked only by requests of the right protocol: version two of the envelope, the
/// method of a list or a call, and metadata that is complete and names the spoken revision.
pub proof fn the_agent_is_asked_by_valid_requests_alone(
    r: Plan,
    request: McpRequest,
    maximum_query_bytes: nat,
)
    requires
        is_planned(r, request, maximum_query_bytes),
        !(r is Answer),
    ensures
        request.jsonrpc@ == "2.0"@,
        meta_fault(request.params@) is None,
        r is ListTools <==> request.method@ == "tools/list"@,
        r is CallTool ==> request.method@ == "tools/call"@ && called_tool(request.params@) is Some,
{
    reveal_strlit("tools/list");
    reveal_strlit("tools/call");
    reveal_strlit("server/discover");
    assert("tools/list"@[6] == 'l' && "tools/call"@[6] == 'c');
    assert("server/discover"@.len() == 15 && "tools/list"@.len() == 10);
}

/// Metadata is right exactly when it is an object that names the spoken revision and holds the
/// capabilities of the client as an object.
pub proof fn metadata_names_the_revision(params: JsonModel)
    ensures
        meta_fault(params) is None <==> {
            &&& member(params, "_meta"@) matches Some(meta)
            &&& meta is Object
            &&& text_member(meta, "io.modelcontextprotocol/protocolVersion"@) == Some(
                crate::mcp::protocol::MCP_PROTOCOL_VERSION@,
            )
            &&& member(meta, "io.modelcontextprotocol/clientCapabilities"@) matches Some(held)
            &&& held is Object
        },
{
}

/// A search that reaches the agent asks for what the arguments say, within bounds: the query is not
/// empty and fits, between one and fifty hits are wanted, and every filter is made of letters and
/// digits, in lower case and without dots, each once and in order.
pub proof fn searches_reach_the_agent_within_bounds(
    operation: AgentOperation,
    arguments: JsonModel,
    maximum_query_bytes: nat,
)
    requires
        is_mapped(Ok(operation), "localsearch.search_files"@, arguments, maximum_query_bytes),
    ensures
        operation@ matches OperationModel::CatalogSearch {
            query,
            scope,
            extensions,
            directory_prefix,
            top_k,
        } && {
            &&& query.len() > 0
            &&& vstd::utf8::encode_utf8(query).len() <= maximum_query_bytes
            &&& 1 <= top_k <= 50
            &&& arguments_of("localsearch.search_files"@, arguments) matches ArgumentsModel::Search {
                query: asked,
                scope: within,
                extensions: values,
                directory_filter,
                top_k: hits,
            }
            &&& query == asked && scope == within && directory_prefix == directory_filter && top_k
                == hits
            &&& forall|i: int|
                0 <= i < values.len() ==> extensions.contains(extension_of(#[trigger] values[i]))
            &&& forall|k: int|
                0 <= k < extensions.len() ==> is_extension(#[trigger] extensions[k])
        },
{
    reveal(is_mapped);
    if let ArgumentsModel::Search {
        query: asked,
        scope: within,
        extensions: values,
        directory_filter,
        top_k: hits,
    } = arguments_of("localsearch.search_files"@, arguments) {
        if let OperationModel::CatalogSearch { query, scope, extensions, directory_prefix, top_k } =
            operation@ {
            assert(are_extensions(extensions, values, values.len() as int));
            assert forall|i: int| 0 <= i < values.len() implies extensions.contains(
                extension_of(#[trigger] values[i]),
            ) by {
            }
            assert forall|k: int| 0 <= k < extensions.len() implies is_extension(
                #[trigger] extensions[k],
            ) by {
                assert(extensions.contains(extensions[k]));
                let i = choose|i: int|
                    0 <= i < values.len() && extension_of(#[trigger] values[i]) == extensions[k];
                assert(is_extension(extension_of(values[i])));
            }
        }
    }
}

/// A tool asks for what it is for and for nothing else: an item by its identity, the status without
/// arguments; a tool that is not known asks for nothing.
pub proof fn tools_ask_for_what_they_are_for(
    r: Result<AgentOperation, &'static str>,
    name: Seq<char>,
    arguments: JsonModel,
    maximum_query_bytes: nat,
)
    requires
        is_mapped(r, name, arguments, maximum_query_bytes),
    ensures
        r matches Ok(operation) ==> match operation@ {
            OperationModel::CatalogSearch { .. } => name == "localsearch.search_files"@,
            OperationModel::CatalogGetItem { document_id } => name
                == "localsearch.get_catalog_item"@ && arguments_of(name, arguments)
                == ArgumentsModel::Item(Some(document_id)),
            OperationModel::IndexGetStatus => name == "localsearch.get_index_status"@ && arguments
                == JsonModel::Object(Seq::empty()),
            OperationModel::AgentGetCapabilities => false,
        },
        capability_of(name) is None ==> r is Err,
        name == "localsearch.get_index_status"@ && arguments == JsonModel::Object(Seq::empty())
            ==> r is Ok,
{
    reveal(is_mapped);
    tools_need_their_own_capability(JsonModel::Null, Seq::empty(), name, name);
    reveal_strlit("localsearch.search_files");
    reveal_strlit("localsearch.get_catalog_item");
    reveal_strlit("localsearch.get_index_status");
    let s = "localsearch.search_files"@;
    let i = "localsearch.get_catalog_item"@;
    let x = "localsearch.get_index_status"@;
    assert(s.len() == 24 && i.len() == 28 && x.len() == 28);
    assert(i[16] == 'c' && x[16] == 'i');
}

/// A search needs its query alone: what is left out has a default of ten hits, every scope, every
/// extension and every directory.
pub proof fn a_search_needs_its_query_alone(query: Seq<char>)
    ensures
        arguments_of(
            "localsearch.search_files"@,
            JsonModel::Object(seq![("query"@, JsonModel::Text(query))]),
        ) == (ArgumentsModel::Search {
            query,
            scope: None,
            extensions: Seq::empty(),
            directory_filter: None,
            top_k: 10,
        }),
        arguments_of("localsearch.search_files"@, JsonModel::Object(Seq::empty())) is Unreadable,
{
    let members = seq![("query"@, JsonModel::Text(query))];
    let object = JsonModel::Object(members);
    let names = search_names();
    lemma_names_differ();
    assert(members.drop_first() =~= Seq::empty());
    assert(names[0] == "query"@);
    assert(member(object, names[0]) == Some(JsonModel::Text(query)));
    assert(member_of(members.drop_first(), names[1]) is None);
    assert(member(object, names[1]) is None);
    assert(member_of(members.drop_first(), names[2]) is None);
    assert(member(object, names[2]) is None);
    assert(member_of(members.drop_first(), names[3]) is None);
    assert(member(object, names[3]) is None);
    assert(member_of(members.drop_first(), names[4]) is None);
    assert(member(object, names[4]) is None);
    assert(names.contains(names[0]));
    assert(crate::mcp::arguments::are_named(members, names));
}

proof fn lemma_names_differ()
    ensures
        "query"@ != "scope"@,
        "query"@ != "extensions"@,
        "query"@ != "directory_filter"@,
        "query"@ != "top_k"@,
{
    reveal_strlit("query");
    reveal_strlit("scope");
    reveal_strlit("extensions");
    reveal_strlit("directory_filter");
    reveal_strlit("top_k");
    assert("query"@[0] == 'q' && "scope"@[0] == 's' && "top_k"@[0] == 't');
    assert("query"@.len() == 5 && "extensions"@.len() == 10 && "directory_filter"@.len() == 16);
}

/// Arguments that a tool does not know are refused.
pub proof fn unknown_arguments_are_refused(members: Seq<(Seq<char>, JsonModel)>, i: int)
    requires
        0 <= i < members.len(),
        !search_names().contains(members[i].0),
    ensures
        arguments_of("localsearch.search_files"@, JsonModel::Object(members)) is Unreadable,
{
}

proof fn lemma_digit(c: char, d: char)
    ensures
        digit_value(c) matches Some(n) ==> n < 16,
        digit_value(c) is Some && digit_value(c) == digit_value(d) ==> c == d,
{
    vstd::utf8::char_is_scalar(c);
    vstd::utf8::char_is_scalar(d);
}

proof fn lemma_hex_number(a: Seq<char>, b: Seq<char>)
    requires
        a.len() == b.len(),
        forall|i: int| 0 <= i < a.len() ==> digit_value(#[trigger] a[i]) is Some,
        forall|i: int| 0 <= i < b.len() ==> digit_value(#[trigger] b[i]) is Some,
    ensures
        hex_number(a) == hex_number(b) ==> a == b,
        hex_number(a) < sixteen_to(a.len()),
    decreases a.len(),
{
    if a.len() > 0 {
        let x = a.drop_last();
        let y = b.drop_last();
        assert forall|i: int| 0 <= i < x.len() implies digit_value(#[trigger] x[i]) is Some by {
            assert(x[i] == a[i]);
        }
        assert forall|i: int| 0 <= i < y.len() implies digit_value(#[trigger] y[i]) is Some by {
            assert(y[i] == b[i]);
        }
        lemma_hex_number(x, y);
        assert(digit_value(a[a.len() - 1]) is Some);
        assert(digit_value(b[b.len() - 1]) is Some);
        lemma_digit(a.last(), b.last());
        lemma_digit(b.last(), a.last());
        if hex_number(a) == hex_number(b) {
            assert(x == y);
            assert(a =~= x.push(a.last()));
            assert(b =~= y.push(b.last()));
        }
    } else {
        assert(a =~= b);
    }
}

/// A power of sixteen.
pub open spec fn sixteen_to(n: nat) -> nat
    decreases n,
{
    if n == 0 {
        1
    } else {
        16 * sixteen_to((n - 1) as nat)
    }
}

/// A document has one canonical text: two texts that name the same document are the same.
pub proof fn documents_have_one_text(a: Seq<char>, b: Seq<char>)
    requires
        document_in(a) is Some,
        document_in(a) == document_in(b),
    ensures
        a == b,
        a.len() == 41,
        occurs_at(a, "document:"@, 0),
{
    reveal_strlit("document:");
    reveal_with_fuel(sixteen_to, 33);
    let x = a.skip(9);
    let y = b.skip(9);
    lemma_hex_number(x, y);
    lemma_hex_number(y, x);
    assert(x == y);
    assert(a.subrange(0, 9) =~= b.subrange(0, 9));
    assert(a =~= a.subrange(0, 9) + x);
    assert(b =~= b.subrange(0, 9) + y);
}

/// A line ends at the first newline: what stands before it is the message, without a carriage
/// return at its end, unless it is too long.
pub proof fn lines_end_at_the_first_newline(line: Seq<u8>, rest: Seq<u8>)
    requires
        !line.contains(10u8),
    ensures
        line_end(line) == line.len(),
        line_end(line + seq![10u8] + rest) == line.len(),
        line.len() <= crate::mcp::stdio::MAX_STDIO_MESSAGE_BYTES ==> line_of(line)
            == LineModel::Message(trimmed(line)),
        line.len() > crate::mcp::stdio::MAX_STDIO_MESSAGE_BYTES ==> line_of(line) is Oversized,
        trimmed(line + seq![13u8]) == line,
        line.len() > 0 && line.last() != 13 ==> trimmed(line) == line,
    decreases line.len(),
{
    let all = line + seq![10u8] + rest;
    assert((line + seq![13u8]).drop_last() =~= line);
    if line.len() == 0 {
        assert(all[0] == 10);
    } else {
        let tail = line.drop_first();
        assert(line.contains(line[0]));
        assert(!tail.contains(10u8)) by {
            if tail.contains(10u8) {
                let i = tail.index_of(10u8);
                assert(line[i + 1] == 10);
                assert(line.contains(10u8));
            }
        }
        lines_end_at_the_first_newline(tail, rest);
        assert(all.drop_first() =~= tail + seq![10u8] + rest);
    }
}

/// What the agent answers is shown as it is: a result as one that is no error, a failure as one
/// that is, with its code and its message. An answer that cannot be shown is an error of the
/// protocol.
pub proof fn answers_of_the_agent_are_shown(
    id: IdModel,
    structured: Json,
    text: String,
    granted: Option<Vec<Capability>>,
    code: Json,
    message: String,
)
    ensures
        called(
            id,
            Ok(AgentReply::Result { granted, encoded: Some((structured, text)) }),
        ) matches ResponseModel::Success { result, .. } && member(result, "isError"@) == Some(
            JsonModel::Bool(false),
        ) && member(result, "structuredContent"@) == Some(structured@),
        called(id, Ok(AgentReply::Failure { code, message, text })) matches ResponseModel::Success {
            result,
            ..
        } && member(result, "isError"@) == Some(JsonModel::Bool(true)) && (member(
            result,
            "structuredContent"@,
        ) matches Some(told) && member(told, "code"@) == Some(code@) && member(told, "message"@)
            == Some(JsonModel::Text(message@))),
        called(id, Ok(AgentReply::Empty)) is Failure,
        called(id, Ok(AgentReply::Result { granted, encoded: None })) is Failure,
{
    reveal_strlit("resultType");
    reveal_strlit("content");
    reveal_strlit("structuredContent");
    reveal_strlit("isError");
    reveal_strlit("code");
    reveal_strlit("message");
    let result = called(id, Ok(AgentReply::Result { granted, encoded: Some((structured, text)) }));
    lemma_result_members(structured@, text@, false);
    let told = JsonModel::Object(
        seq![("code"@, code@), ("message"@, JsonModel::Text(message@))],
    );
    lemma_result_members(told, text@, true);
    let members = seq![("code"@, code@), ("message"@, JsonModel::Text(message@))];
    assert("code"@.len() != "message"@.len());
    assert(members[0].0 == "code"@);
    assert(members.drop_first()[0] == members[1]);
    assert(member_of(members.drop_first(), "message"@) == Some(JsonModel::Text(message@)));
}

proof fn lemma_result_members(structured: JsonModel, text: Seq<char>, is_error: bool)
    ensures
        member(called_result(structured, text, is_error), "isError"@) == Some(
            JsonModel::Bool(is_error),
        ),
        member(called_result(structured, text, is_error), "structuredContent"@) == Some(structured),
{
    reveal_strlit("resultType");
    reveal_strlit("content");
    reveal_strlit("structuredContent");
    reveal_strlit("isError");
    assert("resultType"@.len() == 10 && "content"@.len() == 7 && "structuredContent"@.len() == 17
        && "isError"@.len() == 7);
    assert("content"@[0] == 'c' && "isError"@[0] == 'i');
    let members = called_result(structured, text, is_error)->Object_0;
    let one = members.drop_first();
    let two = one.drop_first();
    let three = two.drop_first();
    assert(members[0].0 == "resultType"@);
    assert(one[0].0 == "content"@);
    assert(two[0] == ("structuredContent"@, structured));
    assert(three[0] == ("isError"@, JsonModel::Bool(is_error)));
    assert(member_of(three, "isError"@) == Some(JsonModel::Bool(is_error)));
    assert(member_of(two, "isError"@) == Some(JsonModel::Bool(is_error)));
    assert(member_of(one, "isError"@) == Some(JsonModel::Bool(is_error)));
    assert(member_of(two, "structuredContent"@) == Some(structured));
    assert(member_of(one, "structuredContent"@) == Some(structured));
}

/// A request is in flight at most once, and no more are than may be. What a line leads to adds a
/// request only where it starts one, under the identifier that the request has; and gives one up
/// only where it is in flight and the line is a notification that says so. What is no JSON, or no
/// request, is answered with a failure.
pub proof fn requests_are_in_flight_once(
    before: Seq<Seq<char>>,
    after: Seq<Seq<char>>,
    value: Option<JsonModel>,
    request: Option<McpRequest>,
    r: MessageAction,
)
    requires
        is_routed(before, after, value, request, r),
        before.no_duplicates(),
        before.len() <= MAX_IN_FLIGHT,
    ensures
        after.no_duplicates(),
        after.len() <= MAX_IN_FLIGHT,
        r is Start <==> after != before,
        r matches MessageAction::Start { key, request: kept } ==> {
            &&& after == before.push(key@)
            &&& !before.contains(key@)
            &&& request == Some(kept)
            &&& optional_id(kept.id) matches Some(id) && key@ == key_of(id)
        },
        r matches MessageAction::Cancel(key) ==> {
            &&& before.contains(key@)
            &&& value matches Some(message)
            &&& member(message, "id"@) is None
            &&& text_member(message, "method"@) == Some("notifications/cancelled"@)
            &&& cancelled_id(message) matches Some(id) && key@ == key_of(id)
        },
        r matches MessageAction::Respond(response) ==> response@ is Failure,
        value is None ==> (r matches MessageAction::Respond(response) && response_id(response@)
            is None),
        value is Some && text_member(value->0, "method"@) != Some("notifications/cancelled"@)
            && request is None ==> r is Respond,
        value is Some && text_member(value->0, "method"@) != Some("notifications/cancelled"@) && (
        request matches Some(kept) && optional_id(kept.id) is Some && !before.contains(
            key_of(optional_id(kept.id)->0),
        ) && before.len() < MAX_IN_FLIGHT) ==> r is Start,
{
    if after != before {
        let key = after.last();
        assert forall|i: int, j: int|
            0 <= i < after.len() && 0 <= j < after.len() && i != j implies after[i] != after[j] by {
            if i == before.len() {
                assert(before[j] == after[j]);
                assert(before.contains(after[j]));
            } else if j == before.len() {
                assert(before[i] == after[i]);
                assert(before.contains(after[i]));
            }
        }
        assert(after.len() == before.len() + 1);
    }
    if r is Start {
        assert(after.len() == before.len() + 1);
    }
}

/// Whole numbers are read as they are, the largest and the smallest among them; one that does not
/// fit, a fraction or anything else is none.
pub proof fn whole_numbers_are_read_as_they_are(n: u64, negative: i64, text: Seq<char>, flag: bool)
    ensures
        n < 0x8000_0000_0000_0000 ==> (integer_in(JsonModel::Unsigned(n)) matches Some(read)
            && read == n),
        n >= 0x8000_0000_0000_0000 ==> integer_in(JsonModel::Unsigned(n)) is None,
        integer_in(JsonModel::Negative(negative)) == Some(negative),
        integer_in(JsonModel::Fraction(text)) is None,
        integer_in(JsonModel::Text(text)) is None,
        integer_in(JsonModel::Bool(flag)) is None,
        integer_in(JsonModel::Null) is None,
{
}

} // verus!
