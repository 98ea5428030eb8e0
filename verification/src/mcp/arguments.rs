//! The arguments of the tools, as they are written in a request.

use vstd::prelude::*;

use crate::ids::DocumentId;
use crate::mcp::adapter::{default_top_k, SearchArguments, ToolArguments};
use crate::mcp::json::{member, Json, JsonModel};
use crate::search::ranking::{occurs_at, starts_with_text};
use crate::text::{chars_of, optional_text, same_text, texts};

verus! {

/// The arguments of a tool as a mathematical value.
pub enum ArgumentsModel {
    Search {
        query: Seq<char>,
        scope: Option<Seq<char>>,
        extensions: Seq<Seq<char>>,
        directory_filter: Option<Seq<char>>,
        top_k: u16,
    },
    Item(Option<DocumentId>),
    Unreadable,
}

impl View for ToolArguments {
    type V = ArgumentsModel;

    open spec fn view(&self) -> ArgumentsModel {
        match self {
            ToolArguments::Search(args) => ArgumentsModel::Search {
                query: args.query@,
                scope: optional_text(args.scope),
                extensions: texts(args.extensions@),
                directory_filter: optional_text(args.directory_filter),
                top_k: args.top_k,
            },
            ToolArguments::Item(document_id) => ArgumentsModel::Item(*document_id),
            ToolArguments::Unreadable => ArgumentsModel::Unreadable,
        }
    }
}

/// The names of the arguments of a search, in order.
pub open spec fn search_names() -> Seq<Seq<char>> {
    seq!["query"@, "scope"@, "extensions"@, "directory_filter"@, "top_k"@]
}

/// The names of the arguments for an item.
pub open spec fn item_names() -> Seq<Seq<char>> {
    seq!["document_id"@]
}

/// Each member has one of these names.
pub open spec fn are_named(
    members: Seq<(Seq<char>, JsonModel)>,
    names: Seq<Seq<char>>,
) -> bool {
    forall|i: int| 0 <= i < members.len() ==> names.contains((#[trigger] members[i]).0)
}

/// Nothing but these arguments is given: as members of these names, or as a list in their order.
pub open spec fn has_only(arguments: JsonModel, names: Seq<Seq<char>>) -> bool {
    match arguments {
        JsonModel::Object(members) => are_named(members, names),
        JsonModel::Array(items) => items.len() <= names.len(),
        _ => false,
    }
}

/// The argument at a place among the names: the member of that name, or the item at that place.
pub open spec fn argument(arguments: JsonModel, names: Seq<Seq<char>>, at: int) -> Option<
    JsonModel,
> {
    match arguments {
        JsonModel::Array(items) => if at < items.len() {
            Some(items[at])
        } else {
            None
        },
        _ => member(arguments, names[at]),
    }
}

/// The texts that a list holds, if it holds nothing else.
pub open spec fn texts_in(value: JsonModel) -> Option<Seq<Seq<char>>> {
    match value {
        JsonModel::Array(items) => if forall|i: int|
            0 <= i < items.len() ==> (#[trigger] items[i]) is Text {
            Some(Seq::new(items.len(), |i: int| items[i]->Text_0))
        } else {
            None
        },
        _ => None,
    }
}

/// The text of an argument that has one; an argument that is not given is the default.
pub open spec fn scope_in(value: Option<JsonModel>) -> Option<Option<Seq<char>>> {
    match value {
        None => Some(None),
        Some(JsonModel::Text(text)) => Some(Some(text)),
        Some(_) => None,
    }
}

/// The text of an argument that may be null.
pub open spec fn directory_in(value: Option<JsonModel>) -> Option<Option<Seq<char>>> {
    match value {
        None | Some(JsonModel::Null) => Some(None),
        Some(JsonModel::Text(text)) => Some(Some(text)),
        Some(_) => None,
    }
}

/// The extensions of an argument; none where it is not given.
pub open spec fn extensions_in(value: Option<JsonModel>) -> Option<Seq<Seq<char>>> {
    match value {
        None => Some(Seq::empty()),
        Some(list) => texts_in(list),
    }
}

/// The number of hits of an argument; ten where it is not given.
pub open spec fn top_k_in(value: Option<JsonModel>) -> Option<u16> {
    match value {
        None => Some(10),
        Some(JsonModel::Unsigned(n)) => if n <= u16::MAX {
            Some(n as u16)
        } else {
            None
        },
        Some(_) => None,
    }
}

/// The arguments of a search.
pub open spec fn search_in(arguments: JsonModel) -> ArgumentsModel {
    let names = search_names();
    match (
        argument(arguments, names, 0),
        scope_in(argument(arguments, names, 1)),
        extensions_in(argument(arguments, names, 2)),
        directory_in(argument(arguments, names, 3)),
        top_k_in(argument(arguments, names, 4)),
    ) {
        (
            Some(JsonModel::Text(query)),
            Some(scope),
            Some(extensions),
            Some(directory_filter),
            Some(top_k),
        ) => if has_only(arguments, names) {
            ArgumentsModel::Search { query, scope, extensions, directory_filter, top_k }
        } else {
            ArgumentsModel::Unreadable
        },
        _ => ArgumentsModel::Unreadable,
    }
}

/// The argument for an item.
pub open spec fn item_in(arguments: JsonModel) -> ArgumentsModel {
    match argument(arguments, item_names(), 0) {
        Some(JsonModel::Text(text)) => if has_only(arguments, item_names()) {
            ArgumentsModel::Item(document_in(text))
        } else {
            ArgumentsModel::Unreadable
        },
        _ => ArgumentsModel::Unreadable,
    }
}

/// The arguments of the tool with this name: those that it needs must be given, others than it
/// knows must not.
pub open spec fn arguments_of(name: Seq<char>, arguments: JsonModel) -> ArgumentsModel {
    if name == "localsearch.search_files"@ {
        search_in(arguments)
    } else if name == "localsearch.get_catalog_item"@ {
        item_in(arguments)
    } else {
        ArgumentsModel::Unreadable
    }
}

/// The value of a hexadecimal digit in lower case.
pub open spec fn digit_value(c: char) -> Option<u8> {
    if '0' <= c <= '9' {
        Some((c as u32 - '0' as u32) as u8)
    } else if 'a' <= c <= 'f' {
        Some((c as u32 - 'a' as u32 + 10) as u8)
    } else {
        None
    }
}

/// The number that hexadecimal digits denote.
pub open spec fn hex_number(digits: Seq<char>) -> nat
    decreases digits.len(),
{
    if digits.len() == 0 {
        0
    } else {
        hex_number(digits.drop_last()) * 16 + digit_value(digits.last())->0 as nat
    }
}

/// The document whose canonical text this is: its kind, a colon and 32 hexadecimal digits in lower
/// case.
pub open spec fn document_in(text: Seq<char>) -> Option<DocumentId> {
    let digits = text.skip(9);
    if occurs_at(text, "document:"@, 0) && digits.len() == 32 && (forall|i: int|
        0 <= i < 32 ==> digit_value(#[trigger] digits[i]) is Some) {
        Some(DocumentId { value: hex_number(digits) as u128 })
    } else {
        None
    }
}

spec fn power_of_sixteen(n: nat) -> nat
    decreases n,
{
    if n == 0 {
        1
    } else {
        16 * power_of_sixteen((n - 1) as nat)
    }
}

proof fn lemma_power_of_sixteen(n: nat)
    requires
        n <= 32,
    ensures
        power_of_sixteen(n) <= 0x1_0000_0000_0000_0000_0000_0000_0000_0000,
{
    reveal_with_fuel(power_of_sixteen, 34);
}

fn digit_of(c: char) -> (r: Option<u8>)
    ensures
        r == digit_value(c),
        r matches Some(n) ==> n < 16,
{
    if '0' <= c && c <= '9' {
        Some((c as u32 - '0' as u32) as u8)
    } else if 'a' <= c && c <= 'f' {
        Some((c as u32 - 'a' as u32 + 10) as u8)
    } else {
        None
    }
}

/// The document whose canonical text this is.
pub fn parse_document(text: &str) -> (r: Option<DocumentId>)
    ensures
        r == document_in(text@),
{
    proof {
        reveal_strlit("document:");
    }
    if !starts_with_text(text, "document:") {
        return None;
    }
    let chars = chars_of(text);
    let ghost digits = text@.skip(9);
    if chars.len() != 41 {
        return None;
    }
    let mut value: u128 = 0;
    let mut i: usize = 0;
    while i < 32
        invariant
            i <= 32,
            chars@ == text@,
            chars@.len() == 41,
            digits == text@.skip(9),
            digits.len() == 32,
            value == hex_number(digits.take(i as int)),
            value < power_of_sixteen(i as nat),
            forall|k: int| 0 <= k < i ==> digit_value(#[trigger] digits[k]) is Some,
        decreases 32 - i,
    {
        let c: char = chars[i + 9];
        assert(digits[i as int] == c);
        match digit_of(c) {
            Some(digit) => {
                proof {
                    let next = digits.take(i + 1);
                    assert(next.drop_last() =~= digits.take(i as int));
                    assert(power_of_sixteen((i + 1) as nat) == 16 * power_of_sixteen(i as nat));
                    lemma_power_of_sixteen((i + 1) as nat);
                }
                value = value * 16 + digit as u128;
            },
            None => {
                return None;
            },
        }
        i = i + 1;
    }
    assert(digits.take(32) =~= digits);
    Some(DocumentId { value })
}

/// The texts of several words.
pub open spec fn words(names: Seq<&'static str>) -> Seq<Seq<char>> {
    Seq::new(names.len(), |i: int| names[i]@)
}

fn is_among(name: &str, names: &Vec<&'static str>) -> (r: bool)
    ensures
        r == words(names@).contains(name@),
{
    let ghost all = words(names@);
    let mut i: usize = 0;
    while i < names.len()
        invariant
            i <= names@.len(),
            all == words(names@),
            forall|k: int| 0 <= k < i ==> all[k] != name@,
        decreases names@.len() - i,
    {
        assert(all[i as int] == names@[i as int]@);
        if same_text(names[i], name) {
            return true;
        }
        i = i + 1;
    }
    false
}

fn takes_only(arguments: &Json, names: &Vec<&'static str>) -> (r: bool)
    ensures
        r == has_only(arguments@, words(names@)),
{
    match arguments {
        Json::Object(members) => {
            let ghost models = arguments@->Object_0;
            let ghost all = words(names@);
            let mut i: usize = 0;
            while i < members.len()
                invariant
                    i <= members@.len(),
                    all == words(names@),
                    arguments@ == JsonModel::Object(models),
                    models.len() == members@.len(),
                    forall|k: int|
                        0 <= k < members@.len() ==> (#[trigger] models[k]).0 == members@[k].0@,
                    forall|k: int|
                        0 <= k < i ==> all.contains((#[trigger] models[k]).0),
                decreases members@.len() - i,
            {
                assert(models[i as int].0 == members@[i as int].0@);
                if !is_among(members[i].0.as_str(), names) {
                    assert(!all.contains(models[i as int].0));
                    assert(!are_named(models, all));
                    return false;
                }
                i = i + 1;
            }
            true
        },
        Json::Array(items) => {
            assert(arguments@->Array_0.len() == items@.len());
            items.len() <= names.len()
        },
        _ => false,
    }
}

fn argument_at<'a>(arguments: &'a Json, name: &str, at: usize) -> (r: Option<&'a Json>)
    ensures
        forall|names: Seq<Seq<char>>| #[trigger]
            names[at as int] == name@ ==> match r {
                Some(value) => argument(arguments@, names, at as int) == Some(value@),
                None => argument(arguments@, names, at as int) is None,
            },
{
    match arguments {
        Json::Array(items) => {
            let ghost models = arguments@->Array_0;
            assert(models.len() == items@.len());
            if at < items.len() {
                assert(models[at as int] == items@[at as int]@);
                Some(&items[at])
            } else {
                None
            }
        },
        _ => arguments.get(name),
    }
}

fn read_texts(value: &Json) -> (r: Option<Vec<String>>)
    ensures
        match r {
            Some(list) => texts_in(value@) == Some(texts(list@)),
            None => texts_in(value@) is None,
        },
{
    match value {
        Json::Array(items) => {
            let ghost models = value@->Array_0;
            let mut r: Vec<String> = Vec::new();
            let mut i: usize = 0;
            while i < items.len()
                invariant
                    i <= items@.len(),
                    models.len() == items@.len(),
                    value@ == JsonModel::Array(models),
                    forall|k: int| 0 <= k < items@.len() ==> #[trigger] models[k] == items@[k]@,
                    r@.len() == i,
                    forall|k: int|
                        0 <= k < i ==> (#[trigger] models[k]) == JsonModel::Text(r@[k]@),
                decreases items@.len() - i,
            {
                assert(models[i as int] == items@[i as int]@);
                match items[i].as_text() {
                    Some(text) => r.push(text.to_owned()),
                    None => {
                        assert(!(models[i as int] is Text));
                        return None;
                    },
                }
                i = i + 1;
            }
            assert(texts(r@) =~= Seq::new(models.len(), |k: int| models[k]->Text_0));
            Some(r)
        },
        _ => None,
    }
}

fn read_search(arguments: &Json) -> (r: ToolArguments)
    ensures
        r@ == search_in(arguments@),
{
    let names = vec!["query", "scope", "extensions", "directory_filter", "top_k"];
    assert(words(names@) =~= search_names());
    if !takes_only(arguments, &names) {
        return ToolArguments::Unreadable;
    }
    assert(search_names()[0] == "query"@ && search_names()[1] == "scope"@);
    assert(search_names()[2] == "extensions"@ && search_names()[3] == "directory_filter"@);
    assert(search_names()[4] == "top_k"@);
    let query = match argument_at(arguments, "query", 0) {
        Some(Json::Text(text)) => text.as_str().to_owned(),
        _ => return ToolArguments::Unreadable,
    };
    let scope = match argument_at(arguments, "scope", 1) {
        None => None,
        Some(Json::Text(text)) => Some(text.as_str().to_owned()),
        Some(_) => return ToolArguments::Unreadable,
    };
    let extensions = match argument_at(arguments, "extensions", 2) {
        None => Vec::new(),
        Some(value) => match read_texts(value) {
            Some(list) => list,
            None => return ToolArguments::Unreadable,
        },
    };
    let directory_filter = match argument_at(arguments, "directory_filter", 3) {
        None | Some(Json::Null) => None,
        Some(Json::Text(text)) => Some(text.as_str().to_owned()),
        Some(_) => return ToolArguments::Unreadable,
    };
    let top_k: u16 = match argument_at(arguments, "top_k", 4) {
        None => default_top_k(),
        Some(Json::Unsigned(n)) => {
            if *n > 0xffff {
                return ToolArguments::Unreadable;
            }
            *n as u16
        },
        Some(_) => return ToolArguments::Unreadable,
    };
    let r = SearchArguments { query, scope, extensions, directory_filter, top_k };
    proof {
        if argument(arguments@, search_names(), 2) is None {
            assert(texts(r.extensions@) =~= Seq::empty());
        }
    }
    ToolArguments::Search(r)
}

/// Reads the arguments of a tool.
pub fn tool_arguments(name: &str, arguments: &Json) -> (r: ToolArguments)
    ensures
        r@ == arguments_of(name@, arguments@),
{
    if same_text(name, "localsearch.search_files") {
        return read_search(arguments);
    }
    if !same_text(name, "localsearch.get_catalog_item") {
        return ToolArguments::Unreadable;
    }
    let names = vec!["document_id"];
    assert(words(names@) =~= item_names());
    if !takes_only(arguments, &names) {
        return ToolArguments::Unreadable;
    }
    assert(item_names()[0] == "document_id"@);
    match argument_at(arguments, "document_id", 0) {
        Some(Json::Text(text)) => ToolArguments::Item(parse_document(text.as_str())),
        _ => ToolArguments::Unreadable,
    }
}

} // verus!
