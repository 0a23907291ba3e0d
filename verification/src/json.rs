//! JSON documents as plain data, with the parser and printer that turn text
//! into documents and back.

use vstd::prelude::*;
use crate::text::{i64_to_text, same_text, text_to_u64, u64_to_text};
use crate::text::{decimal, lemma_decimal_read_back, numeral_value, signed_decimal};

verus! {

/// The mathematical content of a JSON document. A number is held as the
/// numeral that writes it, an object as its members in order.
pub enum JsonTree {
    Null,
    Bool(bool),
    Number(Seq<char>),
    Text(Seq<char>),
    Array(Seq<JsonTree>),
    Object(Seq<Entry>),
}

/// One member of an object: its key and the content of its value.
pub struct Entry {
    pub key: Seq<char>,
    pub value: JsonTree,
}

/// The value that the last member under `key` holds, if there is one. Where
/// a key occurs twice the later member counts, as it does when the document
/// is printed.
pub open spec fn lookup(members: Seq<Entry>, key: Seq<char>) -> Option<JsonTree>
    decreases members.len(),
{
    if members.len() == 0 {
        None
    } else if members.last().key == key {
        Some(members.last().value)
    } else {
        lookup(members.drop_last(), key)
    }
}

impl JsonTree {
    /// The member of an object under `key`; `None` for anything but an
    /// object, and for an object without that key.
    pub open spec fn member(self, key: Seq<char>) -> Option<JsonTree> {
        match self {
            JsonTree::Object(members) => lookup(members, key),
            _ => None,
        }
    }

    /// The characters of a string; `None` for anything but a string.
    pub open spec fn text(self) -> Option<Seq<char>> {
        match self {
            JsonTree::Text(s) => Some(s),
            _ => None,
        }
    }

    /// The items of an array; `None` for anything but an array.
    pub open spec fn items(self) -> Option<Seq<JsonTree>> {
        match self {
            JsonTree::Array(items) => Some(items),
            _ => None,
        }
    }

    /// The value of a number written as a plain numeral that fits in 64
    /// bits; `None` for any other number and for anything but a number.
    pub open spec fn unsigned(self) -> Option<u64> {
        match self {
            JsonTree::Number(n) => match numeral_value(n) {
                Some(v) => if v <= u64::MAX {
                    Some(v as u64)
                } else {
                    None
                },
                None => None,
            },
            _ => None,
        }
    }

    /// The member under `key` where it is a string.
    pub open spec fn text_member(self, key: Seq<char>) -> Option<Seq<char>> {
        match self.member(key) {
            Some(value) => value.text(),
            None => None,
        }
    }
}

/// A JSON number, held as the numeral that writes it.
#[derive(Clone, Debug, PartialEq, Eq)]
pub struct JsonNumber {
    text: String,
}

impl View for JsonNumber {
    type V = Seq<char>;

    closed spec fn view(&self) -> Seq<char> {
        self.text@
    }
}

impl JsonNumber {
    /// The number `n`.
    pub fn from_u64(n: u64) -> (r: JsonNumber)
        ensures
            r@ == decimal(n as nat),
    {
        JsonNumber { text: u64_to_text(n) }
    }

    /// The number `n`.
    pub fn from_i64(n: i64) -> (r: JsonNumber)
        ensures
            r@ == signed_decimal(n as int),
    {
        JsonNumber { text: i64_to_text(n) }
    }

    /// The number's value where it is written as a plain numeral that fits
    /// in 64 bits.
    pub fn as_u64(&self) -> (r: Option<u64>)
        ensures
            r == JsonTree::Number(self@).unsigned(),
    {
        text_to_u64(self.text.as_str())
    }

    /// The numeral that writes the number.
    pub fn numeral(&self) -> (r: &str)
        ensures
            r@ == self@,
    {
        self.text.as_str()
    }

    /// A copy of the number.
    pub fn duplicate(&self) -> (r: JsonNumber)
        ensures
            r@ == self@,
    {
        JsonNumber { text: self.text.clone() }
    }
}

/// One `"key": value` pair of a JSON object.
#[derive(Debug, PartialEq, Eq)]
pub struct Member {
    pub key: String,
    pub value: Json,
}

/// A JSON document.
#[derive(Debug, PartialEq, Eq)]
pub enum Json {
    Null,
    Bool(bool),
    Number(JsonNumber),
    Text(String),
    Array(Vec<Json>),
    Object(Vec<Member>),
}

impl View for Json {
    type V = JsonTree;

    open spec fn view(&self) -> JsonTree
        decreases self,
    {
        match self {
            Json::Null => JsonTree::Null,
            Json::Bool(b) => JsonTree::Bool(*b),
            Json::Number(n) => JsonTree::Number(n@),
            Json::Text(s) => JsonTree::Text(s@),
            Json::Array(items) => JsonTree::Array(
                Seq::new(
                    items.len() as nat,
                    |i: int|
                        if 0 <= i < items.len() {
                            items[i].view()
                        } else {
                            JsonTree::Null
                        },
                ),
            ),
            Json::Object(members) => JsonTree::Object(
                Seq::new(
                    members.len() as nat,
                    |i: int|
                        if 0 <= i < members.len() {
                            Entry { key: members[i].key@, value: members[i].value.view() }
                        } else {
                            Entry { key: Seq::empty(), value: JsonTree::Null }
                        },
                ),
            ),
        }
    }
}

/// The content of a document that may be missing.
pub open spec fn maybe_view(doc: Option<Json>) -> Option<JsonTree> {
    match doc {
        Some(d) => Some(d@),
        None => None,
    }
}

/// The document that a parse gave, if it gave one.
pub open spec fn document(parsed: Result<JsonTree, Seq<char>>) -> Option<JsonTree> {
    match parsed {
        Ok(doc) => Some(doc),
        Err(_) => None,
    }
}

/// The content of a list of documents, item by item.
pub open spec fn items_view(items: Seq<Json>) -> Seq<JsonTree> {
    Seq::new(items.len(), |i: int| items[i]@)
}

/// The content of a list of members, member by member.
pub open spec fn members_view(members: Seq<Member>) -> Seq<Entry> {
    Seq::new(members.len(), |i: int| Entry { key: members[i].key@, value: members[i].value@ })
}

/// An array holds the content of its items, an object that of its members.
pub proof fn lemma_view_parts(doc: &Json)
    ensures
        doc matches Json::Array(items) ==> doc@ == JsonTree::Array(items_view(items@)),
        doc matches Json::Object(members) ==> doc@ == JsonTree::Object(members_view(members@)),
{
    match doc {
        Json::Array(items) => {
            assert(doc@->Array_0 =~= items_view(items@));
        },
        Json::Object(members) => {
            assert(doc@->Object_0 =~= members_view(members@));
        },
        _ => {},
    }
}

impl Member {
    /// The member `key: value`.
    pub fn new(key: &str, value: Json) -> (m: Member)
        ensures
            m.key@ == key@,
            m.value@ == value@,
    {
        Member { key: key.to_owned(), value }
    }
}

impl Json {
    /// The object with these members, in their order.
    pub fn object(members: Vec<Member>) -> (r: Json)
        ensures
            r@ == JsonTree::Object(members_view(members@)),
    {
        let r = Json::Object(members);
        proof {
            lemma_view_parts(&r);
        }
        r
    }

    /// The array of these items.
    pub fn array(items: Vec<Json>) -> (r: Json)
        ensures
            r@ == JsonTree::Array(items_view(items@)),
    {
        let r = Json::Array(items);
        proof {
            lemma_view_parts(&r);
        }
        r
    }

    /// The string `s`.
    pub fn text(s: &str) -> (r: Json)
        ensures
            r@ == JsonTree::Text(s@),
    {
        Json::Text(s.to_owned())
    }

    /// The number `n`.
    pub fn from_u64(n: u64) -> (r: Json)
        ensures
            r@ == JsonTree::Number(decimal(n as nat)),
            r@.unsigned() == Some(n),
    {
        proof {
            lemma_decimal_read_back(n as nat);
        }
        Json::Number(JsonNumber::from_u64(n))
    }

    /// The number `n`.
    pub fn from_i64(n: i64) -> (r: Json)
        ensures
            r@ == JsonTree::Number(signed_decimal(n as int)),
    {
        Json::Number(JsonNumber::from_i64(n))
    }

    /// The object with no members.
    pub fn empty_object() -> (r: Json)
        ensures
            r@ == JsonTree::Object(Seq::empty()),
    {
        let r = Json::Object(Vec::new());
        assert(r@->Object_0 =~= Seq::empty());
        r
    }

    /// The object with the one member `key: value`.
    pub fn single(key: &str, value: Json) -> (r: Json)
        ensures
            r@ == JsonTree::Object(seq![Entry { key: key@, value: value@ }]),
    {
        let mut members: Vec<Member> = Vec::new();
        members.push(Member { key: key.to_owned(), value });
        let r = Json::Object(members);
        assert(r@->Object_0 =~= seq![Entry { key: key@, value: value@ }]);
        r
    }

    /// Whether this is `null`.
    pub fn is_null(&self) -> (r: bool)
        ensures
            r == (self@ == JsonTree::Null),
    {
        match self {
            Json::Null => true,
            _ => false,
        }
    }

    /// The member of an object under `key`: the last one, where the key
    /// occurs more than once.
    pub fn get(&self, key: &str) -> (r: Option<&Json>)
        ensures
            match r {
                Some(value) => self@.member(key@) == Some(value@),
                None => self@.member(key@) is None,
            },
    {
        match self {
            Json::Object(members) => {
                proof {
                    lemma_view_parts(self);
                }
                let ghost all = members_view(members@);
                let mut i: usize = members.len();
                proof {
                    assert(all.take(i as int) =~= all);
                }
                while i > 0
                    invariant
                        i <= members.len(),
                        all == members_view(members@),
                        self@ == JsonTree::Object(all),
                        lookup(all, key@) == lookup(all.take(i as int), key@),
                    decreases i,
                {
                    i = i - 1;
                    let ghost upto = all.take(i as int + 1);
                    proof {
                        assert(upto.last() == all[i as int]);
                        assert(upto.drop_last() =~= all.take(i as int));
                    }
                    if same_text(members[i].key.as_str(), key) {
                        return Some(&members[i].value);
                    }
                }
                proof {
                    assert(all.take(0).len() == 0);
                }
                None
            },
            _ => None,
        }
    }

    /// The characters of a string.
    pub fn as_str(&self) -> (r: Option<&str>)
        ensures
            match r {
                Some(s) => self@.text() == Some(s@),
                None => self@.text() is None,
            },
    {
        match self {
            Json::Text(s) => Some(s.as_str()),
            _ => None,
        }
    }

    /// The items of an array.
    pub fn as_array(&self) -> (r: Option<&Vec<Json>>)
        ensures
            match r {
                Some(items) => self@.items() == Some(items_view(items@)),
                None => self@.items() is None,
            },
    {
        match self {
            Json::Array(items) => {
                proof {
                    lemma_view_parts(self);
                }
                Some(items)
            },
            _ => None,
        }
    }

    /// The value of a number written as a plain numeral that fits in 64
    /// bits.
    pub fn as_u64(&self) -> (r: Option<u64>)
        ensures
            r == self@.unsigned(),
    {
        match self {
            Json::Number(n) => n.as_u64(),
            _ => None,
        }
    }

    /// The string member under `key`.
    pub fn get_str(&self, key: &str) -> (r: Option<&str>)
        ensures
            match r {
                Some(s) => self@.text_member(key@) == Some(s@),
                None => self@.text_member(key@) is None,
            },
    {
        match self.get(key) {
            Some(value) => value.as_str(),
            None => None,
        }
    }

    /// A copy of the document.
    pub fn duplicate(&self) -> (r: Json)
        ensures
            r@ == self@,
        decreases self,
    {
        match self {
            Json::Null => Json::Null,
            Json::Bool(b) => Json::Bool(*b),
            Json::Number(n) => Json::Number(n.duplicate()),
            Json::Text(s) => Json::Text(s.clone()),
            Json::Array(items) => {
                let mut out: Vec<Json> = Vec::new();
                let mut i: usize = 0;
                while i < items.len()
                    invariant
                        *self == Json::Array(*items),
                        i <= items.len(),
                        out.len() == i,
                        forall|j: int| 0 <= j < i ==> out[j]@ == items[j]@,
                    decreases items.len() - i,
                {
                    proof {
                        assert(self->Array_0 == *items);
                        assert(decreases_to!(*self => self->Array_0));
                        assert(decreases_to!(*items => items[i as int]));
                    }
                    out.push(items[i].duplicate());
                    i = i + 1;
                }
                let r = Json::Array(out);
                assert(r@->Array_0 =~= self@->Array_0);
                r
            },
            Json::Object(members) => {
                let mut out: Vec<Member> = Vec::new();
                let mut i: usize = 0;
                while i < members.len()
                    invariant
                        *self == Json::Object(*members),
                        i <= members.len(),
                        out.len() == i,
                        forall|j: int|
                            0 <= j < i ==> out[j].key@ == members[j].key@ && out[j].value@
                                == members[j].value@,
                    decreases members.len() - i,
                {
                    proof {
                        assert(self->Object_0 == *members);
                        assert(decreases_to!(*self => self->Object_0));
                        assert(decreases_to!(*members => members[i as int]));
                        assert(decreases_to!(members[i as int] => members[i as int].value));
                    }
                    out.push(
                        Member { key: members[i].key.clone(), value: members[i].value.duplicate() },
                    );
                    i = i + 1;
                }
                let r = Json::Object(out);
                assert(r@->Object_0 =~~= self@->Object_0);
                r
            },
        }
    }
}

/// `serde_json::Value`, the form in which `serde_json` hands a document
/// over. Nothing is said of what it holds.
#[verifier::external_type_specification]
#[verifier::external_body]
pub struct ExValue(serde_json::Value);

/// What the JSON parser makes of a text: the document it holds, or, where
/// the text is not one JSON document, the parser's complaint.
pub uninterp spec fn parsed_json(text: Seq<char>) -> Result<JsonTree, Seq<char>>;

/// The text that the JSON printer writes for a document.
pub uninterp spec fn rendered_json(doc: JsonTree) -> Seq<char>;

/// Rewrites a `serde_json::Value` as a document, variant by variant: the
/// members of an object in the order in which `serde_json` walks them, a
/// number as the numeral that `serde_json` prints for it.
#[verifier::external_body]
fn from_value(v: serde_json::Value) -> Json {
    match v {
        serde_json::Value::Null => Json::Null,
        serde_json::Value::Bool(b) => Json::Bool(b),
        serde_json::Value::Number(n) => Json::Number(JsonNumber { text: n.to_string() }),
        serde_json::Value::String(s) => Json::Text(s),
        serde_json::Value::Array(a) => Json::Array(a.into_iter().map(from_value).collect()),
        serde_json::Value::Object(m) => Json::Object(
            m.into_iter().map(|(key, x)| Member { key, value: from_value(x) }).collect(),
        ),
    }
}

/// Rewrites a document as a `serde_json::Value`, variant by variant. A
/// number is read back from its numeral by `serde_json::Number::from_str`;
/// a numeral that `serde_json` does not take, which no number of this
/// module has, would be written as `null`.
#[verifier::external_body]
fn to_value(doc: &Json) -> serde_json::Value {
    match doc {
        Json::Null => serde_json::Value::Null,
        Json::Bool(b) => serde_json::Value::Bool(*b),
        Json::Number(n) => n.text.parse().map_or(serde_json::Value::Null, serde_json::Value::Number),
        Json::Text(s) => serde_json::Value::String(s.clone()),
        Json::Array(a) => serde_json::Value::Array(a.iter().map(to_value).collect()),
        Json::Object(m) => serde_json::Value::Object(
            m.iter().map(|x| (x.key.clone(), to_value(&x.value))).collect(),
        ),
    }
}

/// The content of what `parse` returns.
pub open spec fn outcome_view(r: Result<Json, String>) -> Result<JsonTree, Seq<char>> {
    match r {
        Ok(doc) => Ok(doc@),
        Err(complaint) => Err(complaint@),
    }
}

/// `serde_json::from_str` on a `serde_json::Value`: the document, or the
/// text of the parser's error. Either is a function of the text alone.
#[verifier::external_body]
fn parse_text(text: &str) -> (r: Result<Json, String>)
    ensures
        outcome_view(r) == parsed_json(text@),
{
    match serde_json::from_str::<serde_json::Value>(text) {
        Ok(v) => Ok(from_value(v)),
        Err(e) => Err(e.to_string()),
    }
}

/// Whether a text is free of line breaks.
pub open spec fn single_line(text: Seq<char>) -> bool {
    forall|i: int| 0 <= i < text.len() ==> text[i] != '\n'
}

/// `serde_json::Value::to_string`: the compact text of the document, a
/// function of the document's content alone. The compact form puts no
/// space between tokens and writes a line break inside a string as `\n`,
/// so the text is one line.
#[verifier::external_body]
fn render_text(doc: &Json) -> (r: String)
    ensures
        r@ == rendered_json(doc@),
        single_line(r@),
{
    to_value(doc).to_string()
}

/// Reads a text as one JSON document; where it is none, hands back the
/// parser's complaint.
pub fn parse(text: &str) -> (r: Result<Json, String>)
    ensures
        outcome_view(r) == parsed_json(text@),
{
    parse_text(text)
}

/// Writes a document as one line of compact JSON text.
pub fn render(doc: &Json) -> (r: String)
    ensures
        r@ == rendered_json(doc@),
        single_line(r@),
{
    render_text(doc)
}

} // verus!
