//! JSON text: reading it and writing it, by way of `serde_json`.

use crate::json::{array_tree, number_tree, object_tree, Json, JsonTree};
use vstd::prelude::*;
use vstd::utf8::{decode_utf8, encode_utf8, encode_utf8_decode_utf8};

verus! {

/// A JSON value, as `serde_json` holds it.
#[verifier::external_type_specification]
#[verifier::external_body]
pub struct ExValue(serde_json::Value);

/// What a `serde_json::Value` holds.
pub uninterp spec fn json_of(value: serde_json::Value) -> JsonTree;

/// What `serde_json::from_str` makes of a text: the document, or the message of
/// its error.
pub uninterp spec fn parse_outcome(text: Seq<char>) -> Result<JsonTree, Seq<char>>;

/// The text that `serde_json` writes for a document without any spacing.
pub uninterp spec fn compact_text(tree: JsonTree) -> Seq<char>;

/// The text that `serde_json` writes for a document with line breaks and
/// indentation.
pub uninterp spec fn pretty_text(tree: JsonTree) -> Seq<char>;

/// The member name that `serde_json` keeps for itself: it reads an object that
/// opens with this name as the text of some other value.
pub open spec fn reserved_name() -> Seq<char> {
    "$serde_json::private::RawValue"@
}

/// Whether one name is written before another: names are in the order of their
/// characters.
pub open spec fn written_before(a: Seq<char>, b: Seq<char>) -> bool
    decreases a.len(),
{
    if b.len() == 0 {
        false
    } else if a.len() == 0 {
        true
    } else if a[0] != b[0] {
        a[0] < b[0]
    } else {
        written_before(a.drop_first(), b.drop_first())
    }
}

/// Whether the text of an object opens with the reserved name: the object has it, and
/// no other of its names comes before it.
pub open spec fn opens_reserved(members: Map<Seq<char>, JsonTree>) -> bool {
    &&& members.dom().contains(reserved_name())
    &&& forall|name: Seq<char>| #[trigger]
        members.dom().contains(name) ==> !written_before(name, reserved_name())
}

/// Whether a document can be written and read again: its integers have 64 bits, no
/// object opens with the reserved name, and it nests no deeper than `depth` arrays and
/// objects.
pub open spec fn nests_within(tree: JsonTree, depth: nat) -> bool
    decreases depth,
{
    match tree {
        JsonTree::Null | JsonTree::Bool(_) | JsonTree::Text(_) | JsonTree::Float(_) => true,
        JsonTree::Int(n) => i64::MIN <= n <= u64::MAX,
        JsonTree::Array(items) => depth > 0 && forall|i: int|
            0 <= i < items.len() ==> nests_within(#[trigger] items[i], (depth - 1) as nat),
        JsonTree::Object(members) => {
            &&& depth > 0
            &&& !opens_reserved(members)
            &&& forall|name: Seq<char>|
                members.dom().contains(name) ==> nests_within(
                    #[trigger] members[name],
                    (depth - 1) as nat,
                )
        },
    }
}

/// Whether a document holds no number but integers of 64 bits, no object that opens
/// with the reserved name, and nests no deeper than `depth` arrays and objects.
pub open spec fn plain_within(tree: JsonTree, depth: nat) -> bool
    decreases depth,
{
    match tree {
        JsonTree::Null | JsonTree::Bool(_) | JsonTree::Text(_) => true,
        JsonTree::Int(n) => i64::MIN <= n <= u64::MAX,
        JsonTree::Float(_) => false,
        JsonTree::Array(items) => depth > 0 && forall|i: int|
            0 <= i < items.len() ==> plain_within(#[trigger] items[i], (depth - 1) as nat),
        JsonTree::Object(members) => {
            &&& depth > 0
            &&& !opens_reserved(members)
            &&& forall|name: Seq<char>|
                members.dom().contains(name) ==> plain_within(
                    #[trigger] members[name],
                    (depth - 1) as nat,
                )
        },
    }
}

/// The depth of arrays and objects that the reader accepts.
pub open spec fn reader_depth() -> nat {
    127
}

/// Whether a document survives being written and read again: it is plain, and
/// within the depth that the reader accepts. Another number may come back as one
/// beside it.
pub open spec fn rereadable(tree: JsonTree) -> bool {
    plain_within(tree, reader_depth())
}

/// Whether a document is a single plain value, neither an array nor an object.
pub open spec fn plain_leaf(tree: JsonTree) -> bool {
    match tree {
        JsonTree::Null | JsonTree::Bool(_) | JsonTree::Text(_) => true,
        JsonTree::Int(n) => i64::MIN <= n <= u64::MAX,
        _ => false,
    }
}

/// A single plain value is rereadable, and so is an object of such values under
/// short names.
pub(crate) proof fn lemma_flat_rereadable(tree: JsonTree)
    requires
        plain_leaf(tree) || (tree is Object && forall|name: Seq<char>|
            #![trigger tree->Object_0[name]]
            tree->Object_0.dom().contains(name) ==> name.len() < 30 && plain_leaf(
                tree->Object_0[name],
            )),
    ensures
        rereadable(tree),
{
    reveal_with_fuel(plain_within, 2);
    reveal_strlit("$serde_json::private::RawValue");
    if let JsonTree::Object(members) = tree {
        if members.dom().contains(reserved_name()) {
            assert(plain_leaf(tree->Object_0[reserved_name()]));
        }
    }
}

/// Whether a text is read as a document.
pub open spec fn reads_as(text: Seq<char>, tree: JsonTree) -> bool {
    parse_outcome(text) == Ok::<JsonTree, Seq<char>>(tree)
}

/// Whether two documents are objects with the same names that agree wherever
/// the first one's member is rereadable.
pub open spec fn same_plain_members(written: JsonTree, read: JsonTree) -> bool {
    &&& written is Object
    &&& read is Object
    &&& written->Object_0.dom() == read->Object_0.dom()
    &&& forall|name: Seq<char>|
        written->Object_0.dom().contains(name) && rereadable(#[trigger] written->Object_0[name])
            ==> read->Object_0[name] == written->Object_0[name]
}

/// What is known of a text that was written for a document when it is read: a
/// rereadable document comes back unchanged; any document within the reader's depth
/// can be read; and of an object that does not open with the reserved name, and that is
/// read, the rereadable members come back.
pub open spec fn comes_back(text: Seq<char>, tree: JsonTree) -> bool {
    &&& rereadable(tree) ==> reads_as(text, tree)
    &&& nests_within(tree, reader_depth()) ==> parse_outcome(text) is Ok
    &&& tree is Object && !opens_reserved(tree->Object_0) ==> (parse_outcome(text) matches Ok(
        read,
    ) ==> same_plain_members(tree, read))
}

/// One level of a JSON value that is being put together.
pub enum JsonNode {
    Null,
    Bool(bool),
    Unsigned(u64),
    Signed(i64),
    Number(serde_json::Number),
    Text(String),
    Array(Vec<serde_json::Value>),
    Object(Vec<(String, serde_json::Value)>),
}

/// What the values of an array hold.
pub open spec fn values_tree(values: Seq<serde_json::Value>) -> Seq<JsonTree> {
    values.map_values(|value: serde_json::Value| json_of(value))
}

/// What a list of named values amounts to: later entries win.
pub open spec fn entries_tree(entries: Seq<(String, serde_json::Value)>) -> Map<
    Seq<char>,
    JsonTree,
>
    decreases entries.len(),
{
    if entries.len() == 0 {
        Map::empty()
    } else {
        entries_tree(entries.drop_last()).insert(entries.last().0@, json_of(entries.last().1))
    }
}

/// The tree of a node whose parts hold what `json_of` says.
pub open spec fn node_tree(node: JsonNode) -> JsonTree {
    match node {
        JsonNode::Null => JsonTree::Null,
        JsonNode::Bool(b) => JsonTree::Bool(b),
        JsonNode::Unsigned(n) => JsonTree::Int(n as int),
        JsonNode::Signed(n) => JsonTree::Int(n as int),
        JsonNode::Number(number) => number_tree(number),
        JsonNode::Text(text) => JsonTree::Text(text@),
        JsonNode::Array(items) => JsonTree::Array(values_tree(items@)),
        JsonNode::Object(entries) => JsonTree::Object(entries_tree(entries@)),
    }
}

/// `serde_json::Number` is cloned to an equal number.
pub assume_specification[ <serde_json::Number as Clone>::clone ](
    number: &serde_json::Number,
) -> (copy: serde_json::Number)
    ensures
        copy == *number,
;

/// `serde_json::from_str` at the type `serde_json::Value`: the value holds the
/// document that the text spells, or the message is that of the error.
#[verifier::external_body]
fn parse_value(text: &str) -> (parsed: Result<serde_json::Value, String>)
    ensures
        match parsed {
            Ok(value) => reads_as(text@, json_of(value)),
            Err(message) => parse_outcome(text@) == Err::<JsonTree, Seq<char>>(message@),
        },
{
    serde_json::from_str::<serde_json::Value>(text).map_err(|error| error.to_string())
}

/// `serde_json::Value::as_bool`: the boolean, where the value is one.
#[verifier::external_body]
fn value_as_bool(value: &serde_json::Value) -> (b: Option<bool>)
    ensures
        b == (match json_of(*value) {
            JsonTree::Bool(held) => Some(held),
            _ => None,
        }),
{
    value.as_bool()
}

/// `serde_json::Value::as_number`: the number, where the value is one.
#[verifier::external_body]
fn value_as_number(value: &serde_json::Value) -> (number: Option<&serde_json::Number>)
    ensures
        number is Some <==> json_of(*value) is Int || json_of(*value) is Float,
        number matches Some(held) ==> json_of(*value) == number_tree(*held),
{
    value.as_number()
}

/// `serde_json::Value::as_str`: the string, where the value is one.
#[verifier::external_body]
fn value_as_str(value: &serde_json::Value) -> (text: Option<&str>)
    ensures
        text is Some <==> json_of(*value) is Text,
        text matches Some(held) ==> json_of(*value) == JsonTree::Text(held@),
{
    value.as_str()
}

/// `serde_json::Value::as_array`: the items, where the value is an array.
#[verifier::external_body]
fn value_as_array(value: &serde_json::Value) -> (items: Option<&Vec<serde_json::Value>>)
    ensures
        items is Some <==> json_of(*value) is Array,
        items matches Some(held) ==> json_of(*value) == JsonTree::Array(values_tree(held@)),
{
    value.as_array()
}

/// `serde_json::Value::as_object`: the members, each name once, where the value
/// is an object.
#[verifier::external_body]
fn value_as_object(value: &serde_json::Value) -> (entries: Option<
    Vec<(&String, &serde_json::Value)>,
>)
    ensures
        entries is Some <==> json_of(*value) is Object,
        entries matches Some(held) ==> json_of(*value) == JsonTree::Object(
            borrowed_entries_tree(held@),
        ) && distinct_names(held@),
{
    value.as_object().map(|members| members.iter().collect())
}

/// What a list of borrowed named values amounts to.
pub open spec fn borrowed_entries_tree(entries: Seq<(&String, &serde_json::Value)>) -> Map<
    Seq<char>,
    JsonTree,
>
    decreases entries.len(),
{
    if entries.len() == 0 {
        Map::empty()
    } else {
        borrowed_entries_tree(entries.drop_last()).insert(
            entries.last().0@,
            json_of(*entries.last().1),
        )
    }
}

/// Whether no name is listed twice.
pub open spec fn distinct_names(entries: Seq<(&String, &serde_json::Value)>) -> bool {
    forall|i: int, j: int|
        0 <= i < j < entries.len() ==> (#[trigger] entries[i]).0@ != (#[trigger] entries[j]).0@
}

/// The variants of `serde_json::Value`, and its conversions from integers: the
/// value holds the tree of the node. An object keeps the last entry of a name.
#[verifier::external_body]
fn build_value(node: JsonNode) -> (value: serde_json::Value)
    ensures
        json_of(value) == node_tree(node),
{
    match node {
        JsonNode::Null => serde_json::Value::Null,
        JsonNode::Bool(b) => serde_json::Value::Bool(b),
        JsonNode::Unsigned(n) => serde_json::Value::from(n),
        JsonNode::Signed(n) => serde_json::Value::from(n),
        JsonNode::Number(number) => serde_json::Value::Number(number),
        JsonNode::Text(text) => serde_json::Value::String(text),
        JsonNode::Array(items) => serde_json::Value::Array(items),
        JsonNode::Object(entries) => serde_json::Value::Object(entries.into_iter().collect()),
    }
}

/// The `Display` of `serde_json::Value`: the compact text, which has no line
/// feed in it, and which `serde_json::from_str` reads as `comes_back` says. The
/// members of an object stand in the order of their names, so that the smallest
/// name opens it.
#[verifier::external_body]
fn value_to_string(value: &serde_json::Value) -> (text: String)
    ensures
        text@ == compact_text(json_of(*value)),
        !text@.contains('\n'),
        comes_back(text@, json_of(*value)),
{
    value.to_string()
}

/// `serde_json::to_vec_pretty` on a `serde_json::Value`: it does not fail, and
/// gives the indented text in UTF-8, which `serde_json::from_str` reads as
/// `comes_back` says. The members of an object stand in the order of their names,
/// so that the smallest name opens it.
#[verifier::external_body]
fn value_to_vec_pretty(value: &serde_json::Value) -> (bytes: Result<Vec<u8>, String>)
    ensures
        bytes is Ok,
        bytes->Ok_0@ == encode_utf8(pretty_text(json_of(*value))),
        comes_back(decode_utf8(bytes->Ok_0@), json_of(*value)),
{
    serde_json::to_vec_pretty(value).map_err(|error| error.to_string())
}

proof fn lemma_borrowed_entry(entries: Seq<(&String, &serde_json::Value)>, i: int)
    requires
        distinct_names(entries),
        0 <= i < entries.len(),
    ensures
        borrowed_entries_tree(entries).dom().finite(),
        borrowed_entries_tree(entries).dom().contains(entries[i].0@),
        borrowed_entries_tree(entries)[entries[i].0@] == json_of(*entries[i].1),
    decreases entries.len(),
{
    let front = entries.drop_last();
    assert(distinct_names(front)) by {
        assert forall|a: int, b: int| 0 <= a < b < front.len() implies (#[trigger] front[a]).0@ != (
        #[trigger] front[b]).0@ by {
            assert(entries[a].0@ != entries[b].0@);
        }
    }
    if i == entries.len() - 1 {
        if front.len() > 0 {
            lemma_borrowed_entry(front, 0);
        } else {
            assert(borrowed_entries_tree(front) == Map::<Seq<char>, JsonTree>::empty());
        }
    } else {
        lemma_borrowed_entry(front, i);
        assert(entries[i].0@ != entries[entries.len() - 1].0@);
    }
}

/// The library's own value for what a `serde_json::Value` holds.
pub fn from_value(value: &serde_json::Value) -> (json: Json)
    ensures
        json@ == json_of(*value),
    decreases json_of(*value),
{
    if let Some(b) = value_as_bool(value) {
        return Json::Bool(b);
    }
    if let Some(number) = value_as_number(value) {
        return Json::Number(number.clone());
    }
    if let Some(text) = value_as_str(value) {
        return Json::Text(text.to_owned());
    }
    if let Some(items) = value_as_array(value) {
        let mut list: Vec<Json> = Vec::new();
        let mut i: usize = 0;
        assert(values_tree(items@).take(0) =~= array_tree(list@));
        while i < items.len()
            invariant
                i <= items.len(),
                json_of(*value) == JsonTree::Array(values_tree(items@)),
                array_tree(list@) == values_tree(items@).take(i as int),
            decreases items.len() - i,
        {
            assert(values_tree(items@)[i as int] == json_of(items@[i as int]));
            assert(decreases_to!(json_of(*value) => json_of(*value)->Array_0));
            assert(decreases_to!(json_of(*value)->Array_0 => json_of(*value)->Array_0[i as int]));
            let item = from_value(&items[i]);
            let ghost before = list@;
            list.push(item);
            assert(list@.drop_last() =~= before);
            assert(values_tree(items@).take(i + 1) =~= values_tree(items@).take(i as int).push(
                item@,
            ));
            i = i + 1;
        }
        assert(values_tree(items@).take(i as int) =~= values_tree(items@));
        return Json::Array(list);
    }
    if let Some(entries) = value_as_object(value) {
        let mut list: Vec<(String, Json)> = Vec::new();
        let mut i: usize = 0;
        assert(entries@.take(0) =~= Seq::empty());
        while i < entries.len()
            invariant
                i <= entries.len(),
                json_of(*value) == JsonTree::Object(borrowed_entries_tree(entries@)),
                distinct_names(entries@),
                object_tree(list@) == borrowed_entries_tree(entries@.take(i as int)),
            decreases entries.len() - i,
        {
            proof {
                lemma_borrowed_entry(entries@, i as int);
                let members = json_of(*value)->Object_0;
                assert(decreases_to!(json_of(*value) => members));
                assert(decreases_to!(members => members[entries@[i as int].0@]));
            }
            let item = from_value(entries[i].1);
            let name = entries[i].0.clone();
            let ghost before = list@;
            list.push((name, item));
            assert(list@.drop_last() =~= before);
            assert(entries@.take(i + 1).drop_last() =~= entries@.take(i as int));
            i = i + 1;
        }
        assert(entries@.take(i as int) =~= entries@);
        return Json::Object(list);
    }
    Json::Null
}

/// A `serde_json::Value` that holds what the library's own value stands for.
pub fn to_value(json: &Json) -> (value: serde_json::Value)
    ensures
        json_of(value) == json@,
    decreases json,
{
    let node = match json {
        Json::Null => JsonNode::Null,
        Json::Bool(b) => JsonNode::Bool(*b),
        Json::Unsigned(n) => JsonNode::Unsigned(*n),
        Json::Signed(n) => JsonNode::Signed(*n),
        Json::Number(number) => JsonNode::Number(number.clone()),
        Json::Text(text) => JsonNode::Text(text.clone()),
        Json::Array(items) => {
            let mut list: Vec<serde_json::Value> = Vec::new();
            let mut i: usize = 0;
            assert(array_tree(items@.take(0)) =~= values_tree(list@));
            while i < items.len()
                invariant
                    i <= items.len(),
                    json == Json::Array(*items),
                    values_tree(list@) == array_tree(items@.take(i as int)),
                decreases items.len() - i,
            {
                assert(decreases_to!(json => json->Array_0));
                assert(decreases_to!(items => items@));
                assert(decreases_to!(items@ => items@[i as int]));
                let value = to_value(&items[i]);
                let ghost before = list@;
                list.push(value);
                assert(items@.take(i + 1).drop_last() =~= items@.take(i as int));
                assert(values_tree(list@) =~= values_tree(before).push(json_of(value)));
                i = i + 1;
            }
            assert(items@.take(i as int) =~= items@);
            JsonNode::Array(list)
        },
        Json::Object(entries) => {
            let mut list: Vec<(String, serde_json::Value)> = Vec::new();
            let mut i: usize = 0;
            assert(entries@.take(0) =~= Seq::empty());
            while i < entries.len()
                invariant
                    i <= entries.len(),
                    json == Json::Object(*entries),
                    entries_tree(list@) == object_tree(entries@.take(i as int)),
                decreases entries.len() - i,
            {
                assert(decreases_to!(json => json->Object_0));
                assert(decreases_to!(entries => entries@));
                assert(decreases_to!(entries@ => entries@[i as int]));
                assert(decreases_to!(entries@[i as int] => entries@[i as int].1));
                let value = to_value(&entries[i].1);
                let name = entries[i].0.clone();
                let ghost before = list@;
                list.push((name, value));
                assert(list@.drop_last() =~= before);
                assert(entries@.take(i + 1).drop_last() =~= entries@.take(i as int));
                i = i + 1;
            }
            assert(entries@.take(i as int) =~= entries@);
            JsonNode::Object(list)
        },
    };
    build_value(node)
}

/// Reads a JSON text. The error is the message of the reader.
pub fn parse_json(text: &str) -> (parsed: Result<Json, String>)
    ensures
        match parsed {
            Ok(json) => reads_as(text@, json@),
            Err(message) => parse_outcome(text@) == Err::<JsonTree, Seq<char>>(message@),
        },
{
    match parse_value(text) {
        Ok(value) => Ok(from_value(&value)),
        Err(message) => Err(message),
    }
}

impl Json {
    /// The value as text without any spacing, on a single line.
    pub fn to_text(&self) -> (text: String)
        ensures
            text@ == compact_text(self@),
            !text@.contains('\n'),
            comes_back(text@, self@),
    {
        value_to_string(&to_value(self))
    }

    /// The value as indented text in UTF-8.
    pub fn to_pretty(&self) -> (bytes: Vec<u8>)
        ensures
            bytes@ == encode_utf8(pretty_text(self@)),
            comes_back(pretty_text(self@), self@),
    {
        proof {
            encode_utf8_decode_utf8(pretty_text(self@));
        }
        match value_to_vec_pretty(&to_value(self)) {
            Ok(bytes) => bytes,
            Err(_) => Vec::new(),
        }
    }
}

impl Clone for Json {
    fn clone(&self) -> (copy: Json)
        ensures
            copy@ == self@,
        decreases self,
    {
        match self {
            Json::Null => Json::Null,
            Json::Bool(b) => Json::Bool(*b),
            Json::Unsigned(n) => Json::Unsigned(*n),
            Json::Signed(n) => Json::Signed(*n),
            Json::Number(number) => Json::Number(number.clone()),
            Json::Text(text) => Json::Text(text.clone()),
            Json::Array(items) => {
                let mut list: Vec<Json> = Vec::new();
                let mut i: usize = 0;
                assert(items@.take(0) =~= list@);
                while i < items.len()
                    invariant
                        i <= items.len(),
                        self == Json::Array(*items),
                        array_tree(list@) == array_tree(items@.take(i as int)),
                    decreases items.len() - i,
                {
                    assert(decreases_to!(self => self->Array_0));
                    assert(decreases_to!(items => items@));
                    assert(decreases_to!(items@ => items@[i as int]));
                    let item = items[i].clone();
                    let ghost before = list@;
                    list.push(item);
                    assert(list@.drop_last() =~= before);
                    assert(items@.take(i + 1).drop_last() =~= items@.take(i as int));
                    i = i + 1;
                }
                assert(items@.take(i as int) =~= items@);
                Json::Array(list)
            },
            Json::Object(entries) => {
                let mut list: Vec<(String, Json)> = Vec::new();
                let mut i: usize = 0;
                assert(entries@.take(0) =~= list@);
                while i < entries.len()
                    invariant
                        i <= entries.len(),
                        self == Json::Object(*entries),
                        object_tree(list@) == object_tree(entries@.take(i as int)),
                    decreases entries.len() - i,
                {
                    assert(decreases_to!(self => self->Object_0));
                    assert(decreases_to!(entries => entries@));
                    assert(decreases_to!(entries@ => entries@[i as int]));
                    assert(decreases_to!(entries@[i as int] => entries@[i as int].1));
                    let item = entries[i].1.clone();
                    let name = entries[i].0.clone();
                    let ghost before = list@;
                    list.push((name, item));
                    assert(list@.drop_last() =~= before);
                    assert(entries@.take(i + 1).drop_last() =~= entries@.take(i as int));
                    i = i + 1;
                }
                assert(entries@.take(i as int) =~= entries@);
                Json::Object(list)
            },
        }
    }
}

} // verus!
