//! JSON documents as plain values, read and written by `serde_json`.

use vstd::prelude::*;

verus! {

/// A JSON document, held as plain values.
#[derive(Debug, PartialEq, Eq)]
pub enum Json {
    Null,
    Bool(bool),
    /// A number; its value where it is a non-negative integer below 2^64.
    Number(Option<u64>),
    Text(String),
    Array(Vec<Json>),
    /// The members of an object, in document order.
    Object(Vec<(String, Json)>),
}

/// The mathematical value of a [`Json`] document.
pub enum JsonValue {
    Null,
    Bool(bool),
    Number(Option<u64>),
    Text(Seq<char>),
    Array(Seq<JsonValue>),
    Object(Seq<(Seq<char>, JsonValue)>),
}

/// The values of the first `n` documents of `items`.
pub open spec fn items_view(items: Seq<Json>, n: nat) -> Seq<JsonValue>
    decreases items, n,
{
    if n == 0 || n > items.len() {
        Seq::empty()
    } else {
        items_view(items, (n - 1) as nat).push(items[n - 1].view())
    }
}

/// The names and values of the first `n` members of `members`.
pub open spec fn members_view(members: Seq<(String, Json)>, n: nat) -> Seq<(Seq<char>, JsonValue)>
    decreases members, n,
{
    if n == 0 || n > members.len() {
        Seq::empty()
    } else {
        members_view(members, (n - 1) as nat).push((members[n - 1].0@, members[n - 1].1.view()))
    }
}

impl View for Json {
    type V = JsonValue;

    open spec fn view(&self) -> JsonValue
        decreases self, 0nat,
    {
        match self {
            Json::Null => JsonValue::Null,
            Json::Bool(b) => JsonValue::Bool(*b),
            Json::Number(n) => JsonValue::Number(*n),
            Json::Text(s) => JsonValue::Text(s@),
            Json::Array(items) => JsonValue::Array(items_view(items@, items@.len())),
            Json::Object(members) => JsonValue::Object(members_view(members@, members@.len())),
        }
    }
}

/// The first member of `members` named `key`, if there is one.
pub open spec fn member(members: Seq<(Seq<char>, JsonValue)>, key: Seq<char>) -> Option<JsonValue>
    decreases members.len(),
{
    if members.len() == 0 {
        None
    } else if members[0].0 == key {
        Some(members[0].1)
    } else {
        member(members.drop_first(), key)
    }
}

impl JsonValue {
    /// The member named `key` where `self` is an object that has one.
    pub open spec fn field(self, key: Seq<char>) -> Option<JsonValue> {
        match self {
            JsonValue::Object(members) => member(members, key),
            _ => None,
        }
    }
}

/// `items_view` keeps the length and maps each document to its value.
pub proof fn lemma_items_view(items: Seq<Json>, n: nat)
    requires
        n <= items.len(),
    ensures
        items_view(items, n).len() == n,
        forall|k: int| 0 <= k < n ==> #[trigger] items_view(items, n)[k] == items[k]@,
    decreases n,
{
    if n > 0 {
        lemma_items_view(items, (n - 1) as nat);
        assert(items_view(items, n) == items_view(items, (n - 1) as nat).push(items[n - 1].view()));
    } else {
        assert(items_view(items, n) == Seq::<JsonValue>::empty());
    }
}

/// `members_view` keeps the length and maps each member to its name and value.
pub proof fn lemma_members_view(members: Seq<(String, Json)>, n: nat)
    requires
        n <= members.len(),
    ensures
        members_view(members, n).len() == n,
        forall|k: int|
            0 <= k < n ==> #[trigger] members_view(members, n)[k] == (members[k].0@, members[k].1@),
    decreases n,
{
    if n > 0 {
        lemma_members_view(members, (n - 1) as nat);
        assert(members_view(members, n) == members_view(members, (n - 1) as nat).push(
            (members[n - 1].0@, members[n - 1].1.view()),
        ));
    } else {
        assert(members_view(members, n) == Seq::<(Seq<char>, JsonValue)>::empty());
    }
}

/// An object built member by member has the members it was built from, and can be
/// written out where each of their values can.
pub proof fn lemma_object_built(members: Seq<(String, Json)>, want: Seq<(Seq<char>, JsonValue)>)
    requires
        members.len() == want.len(),
        forall|k: int|
            0 <= k < want.len() ==> (members[k].0@, members[k].1@) == #[trigger] want[k],
        forall|k: int| 0 <= k < want.len() ==> (#[trigger] want[k]).1.is_printable(),
    ensures
        members_view(members, members.len()) == want,
        JsonValue::Object(want).is_printable(),
{
    lemma_members_view(members, members.len());
    assert(members_view(members, members.len()) =~= want);
}

proof fn lemma_member_skip(members: Seq<(Seq<char>, JsonValue)>, key: Seq<char>, n: int)
    requires
        0 <= n <= members.len(),
        forall|i: int| 0 <= i < n ==> (#[trigger] members[i]).0 != key,
    ensures
        member(members, key) == member(members.skip(n), key),
    decreases n,
{
    if n > 0 {
        assert(members[0].0 != key);
        assert(member(members, key) == member(members.drop_first(), key));
        assert forall|i: int| 0 <= i < n - 1 implies (#[trigger] members.drop_first()[i]).0
            != key by {
            assert(members.drop_first()[i] == members[i + 1]);
        }
        lemma_member_skip(members.drop_first(), key, n - 1);
        assert(members.drop_first().skip(n - 1) =~= members.skip(n));
    } else {
        assert(members.skip(0) =~= members);
    }
}

/// The member found under a name is the first one that carries it.
pub proof fn lemma_member_at(members: Seq<(Seq<char>, JsonValue)>, key: Seq<char>, n: int)
    requires
        0 <= n < members.len(),
        members[n].0 == key,
        forall|i: int| 0 <= i < n ==> (#[trigger] members[i]).0 != key,
    ensures
        member(members, key) == Some(members[n].1),
{
    lemma_member_skip(members, key, n);
    assert(members.skip(n)[0] == members[n]);
    assert(member(members.skip(n), key) == Some(members[n].1));
}

/// No member is found under a name that none carries.
pub proof fn lemma_member_absent(members: Seq<(Seq<char>, JsonValue)>, key: Seq<char>)
    requires
        forall|i: int| 0 <= i < members.len() ==> (#[trigger] members[i]).0 != key,
    ensures
        member(members, key) is None,
{
    lemma_member_skip(members, key, members.len() as int);
    assert(members.skip(members.len() as int).len() == 0);
    assert(member(members.skip(members.len() as int), key) is None);
}

impl Json {
    /// Looks up a member of an object by name.
    pub fn field<'a>(&'a self, key: &String) -> (found: Option<&'a Json>)
        ensures
            match found {
                Some(j) => self@.field(key@) == Some(j@),
                None => self@.field(key@) is None,
            },
    {
        match self {
            Json::Object(members) => {
                let mut i: usize = 0;
                proof {
                    lemma_members_view(members@, members@.len());
                }
                while i < members.len()
                    invariant
                        i <= members.len(),
                        self@ matches JsonValue::Object(ms) && ms.len() == members.len() && (
                        forall|k: int|
                            0 <= k < members.len() ==> ms[k] == (members[k].0@, members[k].1@)),
                        forall|k: int| 0 <= k < i ==> members[k].0@ != key@,
                    decreases members.len() - i,
                {
                    if members[i].0 == *key {
                        proof {
                            lemma_member_at(self@->Object_0, key@, i as int);
                        }
                        return Some(&members[i].1);
                    }
                    i += 1;
                }
                proof {
                    lemma_member_absent(self@->Object_0, key@);
                }
                None
            },
            _ => None,
        }
    }
}

impl JsonValue {
    /// The text of a string.
    pub open spec fn as_text(self) -> Option<Seq<char>> {
        match self {
            JsonValue::Text(s) => Some(s),
            _ => None,
        }
    }

    /// The value of a number that is a non-negative integer below 2^64.
    pub open spec fn as_number(self) -> Option<u64> {
        match self {
            JsonValue::Number(n) => n,
            _ => None,
        }
    }

    /// The value of `true` or `false`.
    pub open spec fn as_bool(self) -> Option<bool> {
        match self {
            JsonValue::Bool(b) => Some(b),
            _ => None,
        }
    }

    /// Whether the document can be written out: every number in it has a held value.
    pub open spec fn is_printable(self) -> bool
        decreases self,
    {
        match self {
            JsonValue::Number(n) => n is Some,
            JsonValue::Array(items) => forall|i: int|
                0 <= i < items.len() ==> (#[trigger] items[i]).is_printable(),
            JsonValue::Object(members) => forall|i: int|
                0 <= i < members.len() ==> (#[trigger] members[i]).1.is_printable(),
            _ => true,
        }
    }

    /// The texts of an array whose items are all strings.
    pub open spec fn text_list(self) -> Option<Seq<Seq<char>>> {
        match self {
            JsonValue::Array(items) => if forall|i: int|
                0 <= i < items.len() ==> (#[trigger] items[i]) is Text {
                Some(Seq::new(items.len(), |i: int| items[i]->Text_0))
            } else {
                None
            },
            _ => None,
        }
    }

    /// The rows of an array whose items are all arrays of strings.
    pub open spec fn text_table(self) -> Option<Seq<Seq<Seq<char>>>> {
        match self {
            JsonValue::Array(rows) => if forall|i: int|
                0 <= i < rows.len() ==> (#[trigger] rows[i]).text_list() is Some {
                Some(Seq::new(rows.len(), |i: int| rows[i].text_list()->Some_0))
            } else {
                None
            },
            _ => None,
        }
    }

    /// The names and texts of an object whose members are all strings.
    pub open spec fn text_members(self) -> Option<Seq<(Seq<char>, Seq<char>)>> {
        match self {
            JsonValue::Object(members) => if forall|i: int|
                0 <= i < members.len() ==> (#[trigger] members[i]).1 is Text {
                Some(Seq::new(members.len(), |i: int| (members[i].0, members[i].1->Text_0)))
            } else {
                None
            },
            _ => None,
        }
    }
}

impl Json {
    /// The text of a string.
    pub fn as_text(&self) -> (text: Option<&String>)
        ensures
            match text {
                Some(s) => self@.as_text() == Some(s@),
                None => self@.as_text() is None,
            },
    {
        match self {
            Json::Text(s) => Some(s),
            _ => None,
        }
    }

    /// The value of a number that is a non-negative integer below 2^64.
    pub fn as_number(&self) -> (n: Option<u64>)
        ensures
            n == self@.as_number(),
    {
        match self {
            Json::Number(n) => *n,
            _ => None,
        }
    }

    /// The value of `true` or `false`.
    pub fn as_bool(&self) -> (b: Option<bool>)
        ensures
            b == self@.as_bool(),
    {
        match self {
            Json::Bool(b) => Some(*b),
            _ => None,
        }
    }
}

/// The view of a list of strings.
pub open spec fn texts_view(texts: Seq<String>) -> Seq<Seq<char>> {
    Seq::new(texts.len(), |i: int| texts[i]@)
}

/// The view of a list of rows of strings.
pub open spec fn table_view(rows: Seq<Vec<String>>) -> Seq<Seq<Seq<char>>> {
    Seq::new(rows.len(), |i: int| texts_view(rows[i]@))
}

/// The view of a list of pairs of strings.
pub open spec fn pairs_view(pairs: Seq<(String, String)>) -> Seq<(Seq<char>, Seq<char>)> {
    Seq::new(pairs.len(), |i: int| (pairs[i].0@, pairs[i].1@))
}

impl Json {
    /// The texts of an array whose items are all strings.
    pub fn text_list(&self) -> (texts: Option<Vec<String>>)
        ensures
            match texts {
                Some(v) => self@.text_list() == Some(texts_view(v@)),
                None => self@.text_list() is None,
            },
    {
        match self {
            Json::Array(items) => {
                proof {
                    lemma_items_view(items@, items@.len());
                }
                let ghost values = self@->Array_0;
                let mut out: Vec<String> = Vec::new();
                let mut i: usize = 0;
                while i < items.len()
                    invariant
                        i <= items.len(),
                        out.len() == i,
                        values.len() == items.len(),
                        forall|k: int| 0 <= k < items.len() ==> values[k] == items[k]@,
                        self@ == JsonValue::Array(values),
                        forall|k: int|
                            0 <= k < i ==> (#[trigger] values[k]) == JsonValue::Text(out[k]@),
                    decreases items.len() - i,
                {
                    match &items[i] {
                        Json::Text(s) => {
                            out.push(s.clone());
                        },
                        _ => {
                            assert(!(values[i as int] is Text));
                            return None;
                        },
                    }
                    i += 1;
                }
                assert(texts_view(out@) =~= Seq::new(values.len(), |i: int| values[i]->Text_0));
                Some(out)
            },
            _ => None,
        }
    }

    /// The rows of an array whose items are all arrays of strings.
    pub fn text_table(&self) -> (rows: Option<Vec<Vec<String>>>)
        ensures
            match rows {
                Some(v) => self@.text_table() == Some(table_view(v@)),
                None => self@.text_table() is None,
            },
    {
        match self {
            Json::Array(items) => {
                proof {
                    lemma_items_view(items@, items@.len());
                }
                let ghost values = self@->Array_0;
                let mut out: Vec<Vec<String>> = Vec::new();
                let mut i: usize = 0;
                while i < items.len()
                    invariant
                        i <= items.len(),
                        out.len() == i,
                        values.len() == items.len(),
                        forall|k: int| 0 <= k < items.len() ==> values[k] == items[k]@,
                        self@ == JsonValue::Array(values),
                        forall|k: int|
                            0 <= k < i ==> (#[trigger] values[k]).text_list() == Some(
                                texts_view(out[k]@),
                            ),
                    decreases items.len() - i,
                {
                    match items[i].text_list() {
                        Some(row) => {
                            out.push(row);
                        },
                        None => {
                            assert(values[i as int].text_list() is None);
                            return None;
                        },
                    }
                    i += 1;
                }
                assert(table_view(out@) =~= Seq::new(
                    values.len(),
                    |i: int| values[i].text_list()->Some_0,
                ));
                Some(out)
            },
            _ => None,
        }
    }

    /// The names and texts of an object whose members are all strings.
    pub fn text_members(&self) -> (pairs: Option<Vec<(String, String)>>)
        ensures
            match pairs {
                Some(v) => self@.text_members() == Some(pairs_view(v@)),
                None => self@.text_members() is None,
            },
    {
        match self {
            Json::Object(members) => {
                proof {
                    lemma_members_view(members@, members@.len());
                }
                let ghost values = self@->Object_0;
                let mut out: Vec<(String, String)> = Vec::new();
                let mut i: usize = 0;
                while i < members.len()
                    invariant
                        i <= members.len(),
                        out.len() == i,
                        values.len() == members.len(),
                        forall|k: int|
                            0 <= k < members.len() ==> values[k] == (members[k].0@, members[k].1@),
                        self@ == JsonValue::Object(values),
                        forall|k: int|
                            0 <= k < i ==> (#[trigger] values[k]) == (
                                out[k].0@,
                                JsonValue::Text(out[k].1@),
                            ),
                    decreases members.len() - i,
                {
                    match &members[i].1 {
                        Json::Text(s) => {
                            out.push((members[i].0.clone(), s.clone()));
                        },
                        _ => {
                            assert(!(values[i as int].1 is Text));
                            return None;
                        },
                    }
                    i += 1;
                }
                assert(pairs_view(out@) =~= Seq::new(
                    values.len(),
                    |i: int| (values[i].0, values[i].1->Text_0),
                ));
                Some(out)
            },
            _ => None,
        }
    }
}

/// The document type of `serde_json`, carried between its parser, its printer and [`Json`].
#[verifier::external_type_specification]
#[verifier::external_body]
pub struct ExValue(serde_json::Value);

/// What `serde_json::from_str` reads out of `text`: the document, or `None` where it
/// reports an error.
pub uninterp spec fn json_parse(text: Seq<char>) -> Option<JsonValue>;

/// The compact text that `serde_json::to_string` writes for a document.
pub uninterp spec fn json_print(doc: JsonValue) -> Seq<char>;

/// Copies a `serde_json::Value` into a [`Json`], variant by variant. A number keeps what
/// `Number::as_u64` gives; an object keeps its members in the order `Map::iter` yields them.
#[verifier::external_body]
fn from_value(value: &serde_json::Value) -> Json {
    match value {
        serde_json::Value::Null => Json::Null,
        serde_json::Value::Bool(b) => Json::Bool(*b),
        serde_json::Value::Number(n) => Json::Number(n.as_u64()),
        serde_json::Value::String(s) => Json::Text(s.clone()),
        serde_json::Value::Array(items) => Json::Array(items.iter().map(from_value).collect()),
        serde_json::Value::Object(members) => Json::Object(
            members.iter().map(|(k, v)| (k.clone(), from_value(v))).collect(),
        ),
    }
}

/// Copies a [`Json`] into a `serde_json::Value`, variant by variant; the members of an
/// object are handed to `Map`'s `FromIterator` in order.
#[verifier::external_body]
fn to_value(doc: &Json) -> serde_json::Value
    requires
        doc@.is_printable(),
{
    match doc {
        Json::Null => serde_json::Value::Null,
        Json::Bool(b) => serde_json::Value::Bool(*b),
        Json::Number(n) => serde_json::Value::from(n.unwrap()),
        Json::Text(s) => serde_json::Value::String(s.clone()),
        Json::Array(items) => serde_json::Value::Array(items.iter().map(to_value).collect()),
        Json::Object(members) => serde_json::Value::Object(
            members.iter().map(|(k, v)| (k.clone(), to_value(v))).collect(),
        ),
    }
}

/// Calls `serde_json::from_str` for a `serde_json::Value`. The contract names the outcome
/// [`json_parse`]: the same text always gives the same document or the same failure.
#[verifier::external_body]
pub(crate) fn parse(text: &str) -> (doc: Option<Json>)
    ensures
        match doc {
            Some(j) => json_parse(text@) == Some(j@),
            None => json_parse(text@) is None,
        },
{
    match serde_json::from_str::<serde_json::Value>(text) {
        Ok(value) => Some(from_value(&value)),
        Err(_) => None,
    }
}

/// Calls `serde_json::to_string` on the document. That fails only where the value's own
/// `Serialize` fails or a map has a key that is no string, and `serde_json::Value` does
/// neither. The contract names the text [`json_print`].
#[verifier::external_body]
pub(crate) fn print(doc: &Json) -> (text: String)
    requires
        doc@.is_printable(),
    ensures
        text@ == json_print(doc@),
{
    serde_json::to_string(&to_value(doc)).unwrap()
}

} // verus!

