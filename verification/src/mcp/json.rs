//! JSON values.

use vstd::prelude::*;

use crate::text::same_text;

verus! {

/// A JSON value.
#[derive(Debug, PartialEq, Eq)]
pub enum Json {
    /// Null.
    Null,
    /// A truth value.
    Bool(bool),
    /// A number that is not negative.
    Unsigned(u64),
    /// A negative number.
    Negative(i64),
    /// A number that is not whole or not small, as it is written.
    Fraction(String),
    /// A text.
    Text(String),
    /// A list.
    Array(Vec<Json>),
    /// Members by name.
    Object(Vec<(String, Json)>),
}

/// A JSON value as a mathematical value.
pub enum JsonModel {
    Null,
    Bool(bool),
    Unsigned(u64),
    Negative(i64),
    Fraction(Seq<char>),
    Text(Seq<char>),
    Array(Seq<JsonModel>),
    Object(Seq<(Seq<char>, JsonModel)>),
}

/// The model of a value.
pub open spec fn json_model(value: Json) -> JsonModel
    decreases value,
{
    match value {
        Json::Null => JsonModel::Null,
        Json::Bool(flag) => JsonModel::Bool(flag),
        Json::Unsigned(n) => JsonModel::Unsigned(n),
        Json::Negative(n) => JsonModel::Negative(n),
        Json::Fraction(text) => JsonModel::Fraction(text@),
        Json::Text(text) => JsonModel::Text(text@),
        Json::Array(items) => JsonModel::Array(
            Seq::new(
                items@.len(),
                |i: int|
                    if 0 <= i < items@.len() {
                        json_model(items@[i])
                    } else {
                        JsonModel::Null
                    },
            ),
        ),
        Json::Object(members) => JsonModel::Object(
            Seq::new(
                members@.len(),
                |i: int|
                    if 0 <= i < members@.len() {
                        (members@[i].0@, json_model(members@[i].1))
                    } else {
                        (Seq::empty(), JsonModel::Null)
                    },
            ),
        ),
    }
}

impl View for Json {
    type V = JsonModel;

    open spec fn view(&self) -> JsonModel {
        json_model(*self)
    }
}

/// The models of several values.
pub open spec fn json_models(values: Seq<Json>) -> Seq<JsonModel> {
    Seq::new(values.len(), |i: int| values[i]@)
}

/// The models of several members.
pub open spec fn member_models(members: Seq<(String, Json)>) -> Seq<(Seq<char>, JsonModel)> {
    Seq::new(members.len(), |i: int| (members[i].0@, members[i].1@))
}

/// The first of the members with a name.
pub open spec fn member_of(members: Seq<(Seq<char>, JsonModel)>, name: Seq<char>) -> Option<
    JsonModel,
>
    decreases members.len(),
{
    if members.len() == 0 {
        None
    } else if members[0].0 == name {
        Some(members[0].1)
    } else {
        member_of(members.drop_first(), name)
    }
}

/// The member with a name; nothing of what is no object.
pub open spec fn member(value: JsonModel, name: Seq<char>) -> Option<JsonModel> {
    match value {
        JsonModel::Object(members) => member_of(members, name),
        _ => None,
    }
}

/// The text that a value is.
pub open spec fn text_in(value: JsonModel) -> Option<Seq<char>> {
    match value {
        JsonModel::Text(text) => Some(text),
        _ => None,
    }
}

/// The text that a member is.
pub open spec fn text_member(value: JsonModel, name: Seq<char>) -> Option<Seq<char>> {
    match member(value, name) {
        Some(found) => text_in(found),
        None => None,
    }
}

/// The whole number that a value is, if it is small.
pub open spec fn integer_in(value: JsonModel) -> Option<i64> {
    match value {
        JsonModel::Unsigned(n) => if n <= i64::MAX {
            Some(n as i64)
        } else {
            None
        },
        JsonModel::Negative(n) => Some(n),
        _ => None,
    }
}

proof fn lemma_member_at(members: Seq<(Seq<char>, JsonModel)>, name: Seq<char>, at: int)
    requires
        0 <= at <= members.len(),
        forall|i: int| 0 <= i < at ==> (#[trigger] members[i]).0 != name,
        at < members.len() ==> members[at].0 == name,
    ensures
        member_of(members, name) == (if at < members.len() {
            Some(members[at].1)
        } else {
            None
        }),
    decreases members.len(),
{
    if at > 0 {
        let rest = members.drop_first();
        assert(members[0].0 != name);
        assert forall|i: int| 0 <= i < at - 1 implies (#[trigger] rest[i]).0 != name by {
            assert(rest[i] == members[i + 1]);
        }
        lemma_member_at(rest, name, at - 1);
    }
}

impl Json {
    /// The member with a name.
    pub fn get(&self, name: &str) -> (r: Option<&Json>)
        ensures
            match r {
                Some(value) => member(self@, name@) == Some(value@),
                None => member(self@, name@) is None,
            },
    {
        match self {
            Json::Object(members) => {
                let ghost models = self@->Object_0;
                let mut i: usize = 0;
                while i < members.len()
                    invariant
                        i <= members@.len(),
                        self@ == JsonModel::Object(models),
                        models.len() == members@.len(),
                        forall|k: int|
                            0 <= k < members@.len() ==> #[trigger] models[k] == (
                                members@[k].0@,
                                members@[k].1@,
                            ),
                        forall|k: int| 0 <= k < i ==> (#[trigger] models[k]).0 != name@,
                    decreases members@.len() - i,
                {
                    assert(models[i as int] == (members@[i as int].0@, members@[i as int].1@));
                    if same_text(members[i].0.as_str(), name) {
                        proof {
                            lemma_member_at(models, name@, i as int);
                        }
                        return Some(&members[i].1);
                    }
                    i = i + 1;
                }
                proof {
                    lemma_member_at(models, name@, i as int);
                }
                None
            },
            _ => None,
        }
    }

    /// The text that the value is.
    pub fn as_text(&self) -> (r: Option<&str>)
        ensures
            match r {
                Some(text) => text_in(self@) == Some(text@),
                None => text_in(self@) is None,
            },
    {
        match self {
            Json::Text(text) => Some(text.as_str()),
            _ => None,
        }
    }

    /// The whole number that the value is, if it is small.
    pub fn as_integer(&self) -> (r: Option<i64>)
        ensures
            r == integer_in(self@),
    {
        match self {
            Json::Unsigned(n) => {
                if *n <= i64::MAX as u64 {
                    Some(*n as i64)
                } else {
                    None
                }
            },
            Json::Negative(n) => Some(*n),
            _ => None,
        }
    }

    /// Whether the value has members.
    pub fn is_object(&self) -> (r: bool)
        ensures
            r == (self@ is Object),
    {
        matches!(self, Json::Object(_))
    }

    /// Whether the member with a name is this text.
    pub fn has_text(&self, name: &str, wanted: &str) -> (r: bool)
        ensures
            r == (text_member(self@, name@) == Some(wanted@)),
    {
        match self.get(name) {
            Some(value) => match value.as_text() {
                Some(text) => same_text(text, wanted),
                None => false,
            },
            None => false,
        }
    }

    /// A text.
    pub fn text(text: &str) -> (r: Json)
        ensures
            r@ == JsonModel::Text(text@),
    {
        Json::Text(text.to_owned())
    }

    /// A list.
    pub fn array(items: Vec<Json>) -> (r: Json)
        ensures
            r@ == JsonModel::Array(json_models(items@)),
    {
        let ghost models = json_models(items@);
        let r = Json::Array(items);
        assert(r@->Array_0 =~= models);
        r
    }

    /// An object.
    pub fn object(members: Vec<(String, Json)>) -> (r: Json)
        ensures
            r@ == JsonModel::Object(member_models(members@)),
    {
        let ghost models = member_models(members@);
        let r = Json::Object(members);
        assert(r@->Object_0 =~= models);
        r
    }
}

/// A JSON value of `serde_json`. Nothing is known of it but what it holds.
#[verifier::external_type_specification]
#[verifier::external_body]
pub struct ExJsonValue(serde_json::Value);

/// What a `serde_json::Value` holds: a plain value, or a list or members of such values.
pub uninterp spec fn held(value: serde_json::Value) -> JsonModel;

/// The JSON value that `serde_json::from_slice` reads from bytes; none where it fails.
pub uninterp spec fn json_in(bytes: Seq<u8>) -> Option<JsonModel>;

/// Calls `serde_json::from_slice` for a `serde_json::Value`. What it reads, and whether it reads
/// anything, depends on the bytes alone.
#[verifier::external_body]
fn read_value(bytes: &Vec<u8>) -> (r: Option<serde_json::Value>)
    ensures
        match r {
            Some(value) => json_in(bytes@) == Some(held(value)),
            None => json_in(bytes@) is None,
        },
{
    serde_json::from_slice::<serde_json::Value>(bytes).ok()
}

/// One level of a JSON value that was read.
pub enum Level<'a> {
    /// Null.
    Null,
    /// A truth value.
    Bool(bool),
    /// A number that is not negative.
    Unsigned(u64),
    /// A negative number.
    Negative(i64),
    /// A number that is not whole or not small, as `serde_json` writes it.
    Fraction(String),
    /// A text.
    Text(String),
    /// A list.
    Array(Vec<&'a serde_json::Value>),
    /// Members by name.
    Object(Vec<(String, &'a serde_json::Value)>),
}

/// What the value with this first level holds.
pub open spec fn level_model(level: Level<'_>) -> JsonModel {
    match level {
        Level::Null => JsonModel::Null,
        Level::Bool(flag) => JsonModel::Bool(flag),
        Level::Unsigned(n) => JsonModel::Unsigned(n),
        Level::Negative(n) => JsonModel::Negative(n),
        Level::Fraction(text) => JsonModel::Fraction(text@),
        Level::Text(text) => JsonModel::Text(text@),
        Level::Array(items) => JsonModel::Array(
            Seq::new(items@.len(), |i: int| held(*items@[i])),
        ),
        Level::Object(members) => JsonModel::Object(
            Seq::new(members@.len(), |i: int| (members@[i].0@, held(*members@[i].1))),
        ),
    }
}

/// Tells the variants of a `serde_json::Value` apart, and those of its numbers by `as_u64` and
/// `as_i64`; lists and members are handed on as they are, in their order. The claim is that the
/// level says what the value holds, down to what the values in it hold in turn.
#[verifier::external_body]
fn first_level(value: &serde_json::Value) -> (r: Level<'_>)
    ensures
        level_model(r) == held(*value),
{
    match value {
        serde_json::Value::Null => Level::Null,
        serde_json::Value::Bool(flag) => Level::Bool(*flag),
        serde_json::Value::Number(number) => match (number.as_u64(), number.as_i64()) {
            (Some(n), _) => Level::Unsigned(n),
            (None, Some(n)) => Level::Negative(n),
            (None, None) => Level::Fraction(number.to_string()),
        },
        serde_json::Value::String(text) => Level::Text(text.clone()),
        serde_json::Value::Array(items) => Level::Array(items.iter().collect()),
        serde_json::Value::Object(members) => {
            Level::Object(members.iter().map(|(name, value)| (name.clone(), value)).collect())
        },
    }
}

/// The JSON value that a `serde_json::Value` holds.
pub fn json_of(value: &serde_json::Value) -> (r: Json)
    ensures
        r@ == held(*value),
    decreases held(*value),
{
    let ghost whole = held(*value);
    match first_level(value) {
        Level::Null => Json::Null,
        Level::Bool(flag) => Json::Bool(flag),
        Level::Unsigned(n) => Json::Unsigned(n),
        Level::Negative(n) => Json::Negative(n),
        Level::Fraction(text) => Json::Fraction(text),
        Level::Text(text) => Json::Text(text),
        Level::Array(items) => {
            let ghost models = whole->Array_0;
            let mut r: Vec<Json> = Vec::new();
            let mut i: usize = 0;
            while i < items.len()
                invariant
                    i <= items@.len(),
                    whole == held(*value),
                    whole == JsonModel::Array(models),
                    models == Seq::new(items@.len(), |k: int| held(*items@[k])),
                    r@.len() == i,
                    forall|k: int| 0 <= k < i ==> (#[trigger] r@[k])@ == models[k],
                decreases items@.len() - i,
            {
                proof {
                    assert(models[i as int] == held(*items@[i as int]));
                    assert(decreases_to!(whole => whole->Array_0));
                    assert(decreases_to!(models => models[i as int]));
                }
                r.push(json_of(items[i]));
                i = i + 1;
            }
            assert(json_models(r@) =~= models);
            Json::array(r)
        },
        Level::Object(members) => {
            let ghost models = whole->Object_0;
            let mut r: Vec<(String, Json)> = Vec::new();
            let mut i: usize = 0;
            while i < members.len()
                invariant
                    i <= members@.len(),
                    whole == held(*value),
                    whole == JsonModel::Object(models),
                    models == Seq::new(
                        members@.len(),
                        |k: int| (members@[k].0@, held(*members@[k].1)),
                    ),
                    r@.len() == i,
                    forall|k: int|
                        0 <= k < i ==> ((#[trigger] r@[k]).0@, r@[k].1@) == models[k],
                decreases members@.len() - i,
            {
                proof {
                    assert(models[i as int].1 == held(*members@[i as int].1));
                    assert(decreases_to!(whole => whole->Object_0));
                    assert(decreases_to!(models => models[i as int]));
                    assert(decreases_to!(models[i as int] => models[i as int].1));
                }
                let name = members[i].0.as_str().to_owned();
                r.push((name, json_of(members[i].1)));
                i = i + 1;
            }
            assert(member_models(r@) =~= models);
            Json::object(r)
        },
    }
}

/// Reads a JSON value from bytes.
pub fn parse_json(bytes: &Vec<u8>) -> (r: Option<Json>)
    ensures
        match r {
            Some(value) => json_in(bytes@) == Some(value@),
            None => json_in(bytes@) is None,
        },
{
    match read_value(bytes) {
        Some(value) => Some(json_of(&value)),
        None => None,
    }
}

} // verus!
