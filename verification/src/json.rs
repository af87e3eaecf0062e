//! JSON values as plain data, and what the robot protocol reads from them.
//!
//! `JsonTree` is the mathematical content of a JSON document. `Json` is the
//! executable form; its view is the tree that it stands for.

use vstd::prelude::*;

verus! {

/// A JSON number, as `serde_json` holds it.
#[verifier::external_type_specification]
#[verifier::external_body]
pub struct ExNumber(serde_json::Number);

/// The integer that a `serde_json::Number` holds, where it holds one.
pub uninterp spec fn number_value(number: serde_json::Number) -> Option<int>;

/// The content of a JSON document.
///
/// Integers are told apart from other numbers; what a number that is not an
/// integer amounts to is left to `serde_json`. An object is a finite map, so
/// the order of its members carries no meaning.
pub enum JsonTree {
    Null,
    Bool(bool),
    Int(int),
    Float(serde_json::Number),
    Text(Seq<char>),
    Array(Seq<JsonTree>),
    Object(Map<Seq<char>, JsonTree>),
}

/// A JSON value. An integer may be written as such or as a number.
///
/// Where an object lists a name more than once, the last entry counts.
#[derive(Debug)]
pub enum Json {
    Null,
    Bool(bool),
    Unsigned(u64),
    Signed(i64),
    Number(serde_json::Number),
    Text(String),
    Array(Vec<Json>),
    Object(Vec<(String, Json)>),
}

/// The tree of a number.
pub open spec fn number_tree(number: serde_json::Number) -> JsonTree {
    match number_value(number) {
        Some(n) => JsonTree::Int(n),
        None => JsonTree::Float(number),
    }
}

/// The trees of the items of an array.
pub open spec fn array_tree(items: Seq<Json>) -> Seq<JsonTree>
    decreases items,
{
    if items.len() == 0 {
        Seq::empty()
    } else {
        array_tree(items.drop_last()).push(items.last()@)
    }
}

/// The members that a list of entries stands for: later entries win.
pub open spec fn object_tree(entries: Seq<(String, Json)>) -> Map<Seq<char>, JsonTree>
    decreases entries,
{
    if entries.len() == 0 {
        Map::empty()
    } else {
        object_tree(entries.drop_last()).insert(entries.last().0@, entries.last().1@)
    }
}

/// The member of an object under a name; nothing for any other value.
pub open spec fn member(tree: JsonTree, name: Seq<char>) -> Option<JsonTree> {
    match tree {
        JsonTree::Object(members) => if members.dom().contains(name) {
            Some(members[name])
        } else {
            None
        },
        _ => None,
    }
}

/// The value as a 64-bit signed integer, where it is an integer that fits.
pub open spec fn int_value(tree: JsonTree) -> Option<i64> {
    match tree {
        JsonTree::Int(n) => if i64::MIN <= n <= i64::MAX {
            Some(n as i64)
        } else {
            None
        },
        _ => None,
    }
}

/// The characters of a string value; nothing for any other value.
pub open spec fn text_value(tree: JsonTree) -> Option<Seq<char>> {
    match tree {
        JsonTree::Text(text) => Some(text),
        _ => None,
    }
}

/// The first of the named members that is an integer fitting 64 signed bits.
pub open spec fn first_int(tree: JsonTree, names: Seq<Seq<char>>) -> Option<i64>
    decreases names.len(),
{
    if names.len() == 0 {
        None
    } else {
        match member(tree, names[0]) {
            Some(found) if int_value(found) is Some => int_value(found),
            _ => first_int(tree, names.drop_first()),
        }
    }
}

/// The first of the named members that is a string.
pub open spec fn first_text(tree: JsonTree, names: Seq<Seq<char>>) -> Option<Seq<char>>
    decreases names.len(),
{
    if names.len() == 0 {
        None
    } else {
        match member(tree, names[0]) {
            Some(found) if text_value(found) is Some => text_value(found),
            _ => first_text(tree, names.drop_first()),
        }
    }
}

/// The first of the named members that is there at all.
pub open spec fn first_member(tree: JsonTree, names: Seq<Seq<char>>) -> Option<JsonTree>
    decreases names.len(),
{
    if names.len() == 0 {
        None
    } else {
        match member(tree, names[0]) {
            Some(found) => Some(found),
            None => first_member(tree, names.drop_first()),
        }
    }
}

/// The value that a path of member names leads to.
pub open spec fn at_path(tree: JsonTree, path: Seq<Seq<char>>) -> Option<JsonTree>
    decreases path.len(),
{
    if path.len() == 0 {
        Some(tree)
    } else {
        match member(tree, path[0]) {
            Some(next) => at_path(next, path.drop_first()),
            None => None,
        }
    }
}

/// The characters of each of a list of names.
pub open spec fn views(names: Seq<&str>) -> Seq<Seq<char>> {
    names.map_values(|name: &str| name@)
}

/// Adds a member to an object that is being put together.
pub(crate) fn put(entries: &mut Vec<(String, Json)>, name: &str, value: Json)
    ensures
        object_tree(final(entries)@) == object_tree(old(entries)@).insert(name@, value@),
{
    let ghost before = entries@;
    entries.push((name.to_owned(), value));
    assert(entries@.drop_last() =~= before);
}

/// An object without members, to be put together.
pub(crate) fn no_members() -> (entries: Vec<(String, Json)>)
    ensures
        object_tree(entries@) == Map::<Seq<char>, JsonTree>::empty(),
{
    Vec::new()
}

/// `serde_json::Number::as_i64`: the integer, where the number is one that fits
/// 64 signed bits.
#[verifier::external_body]
fn number_as_i64(number: &serde_json::Number) -> (n: Option<i64>)
    ensures
        n == (match number_value(*number) {
            Some(held) => if i64::MIN <= held <= i64::MAX {
                Some(held as i64)
            } else {
                None
            },
            None => None,
        }),
{
    number.as_i64()
}

impl Json {
    /// The tree that the value stands for.
    pub open spec fn view(self) -> JsonTree
        decreases self,
    {
        match self {
            Json::Null => JsonTree::Null,
            Json::Bool(b) => JsonTree::Bool(b),
            Json::Unsigned(n) => JsonTree::Int(n as int),
            Json::Signed(n) => JsonTree::Int(n as int),
            Json::Number(number) => number_tree(number),
            Json::Text(text) => JsonTree::Text(text@),
            Json::Array(items) => JsonTree::Array(array_tree(items@)),
            Json::Object(entries) => JsonTree::Object(object_tree(entries@)),
        }
    }

    /// The member of an object under a name.
    pub fn get(&self, name: &str) -> (found: Option<&Json>)
        ensures
            found is Some <==> member(self@, name@) is Some,
            found matches Some(value) ==> member(self@, name@) == Some(value@),
    {
        match self {
            Json::Object(entries) => {
                let wanted: String = name.to_owned();
                let mut i: usize = entries.len();
                assert(entries@.take(i as int) =~= entries@);
                while i > 0
                    invariant
                        i <= entries.len(),
                        wanted@ == name@,
                        self@ == JsonTree::Object(object_tree(entries@)),
                        member(self@, name@) == member(
                            JsonTree::Object(object_tree(entries@.take(i as int))),
                            name@,
                        ),
                    decreases i,
                {
                    i = i - 1;
                    assert(entries@.take(i + 1).drop_last() =~= entries@.take(i as int));
                    assert(entries@.take(i + 1).last() == entries@[i as int]);
                    if entries[i].0 == wanted {
                        return Some(&entries[i].1);
                    }
                }
                None
            },
            _ => None,
        }
    }

    /// The value as a 64-bit signed integer, where it is an integer that fits.
    pub fn as_i64(&self) -> (n: Option<i64>)
        ensures
            n == int_value(self@),
    {
        match self {
            Json::Unsigned(n) => if *n <= i64::MAX as u64 {
                Some(*n as i64)
            } else {
                None
            },
            Json::Signed(n) => Some(*n),
            Json::Number(number) => number_as_i64(number),
            _ => None,
        }
    }

    /// The string, where the value is one.
    pub fn as_str(&self) -> (text: Option<&str>)
        ensures
            text is Some <==> text_value(self@) is Some,
            text matches Some(s) ==> text_value(self@) == Some(s@),
    {
        match self {
            Json::Text(text) => Some(text.as_str()),
            _ => None,
        }
    }

    /// Whether the value is `null`.
    pub fn is_null(&self) -> (null: bool)
        ensures
            null == (self@ is Null),
    {
        match self {
            Json::Null => true,
            _ => false,
        }
    }

    /// Whether the value is an object.
    pub fn is_object(&self) -> (object: bool)
        ensures
            object == (self@ is Object),
    {
        match self {
            Json::Object(_) => true,
            _ => false,
        }
    }

    /// The first of the named members that is an integer fitting 64 signed bits.
    pub fn first_i64(&self, names: &[&str]) -> (n: Option<i64>)
        ensures
            n == first_int(self@, views(names@)),
    {
        let mut i: usize = 0;
        assert(views(names@).skip(0) =~= views(names@));
        while i < names.len()
            invariant
                i <= names.len(),
                first_int(self@, views(names@)) == first_int(self@, views(names@).skip(i as int)),
            decreases names.len() - i,
        {
            assert(views(names@).skip(i as int)[0] == names@[i as int]@);
            assert(views(names@).skip(i as int).drop_first() =~= views(names@).skip(i + 1));
            if let Some(found) = self.get(names[i]) {
                let n = found.as_i64();
                if n.is_some() {
                    return n;
                }
            }
            i = i + 1;
        }
        None
    }

    /// The first of the named members that is a string.
    pub fn first_str(&self, names: &[&str]) -> (text: Option<&str>)
        ensures
            text is Some <==> first_text(self@, views(names@)) is Some,
            text matches Some(s) ==> first_text(self@, views(names@)) == Some(s@),
    {
        let mut i: usize = 0;
        assert(views(names@).skip(0) =~= views(names@));
        while i < names.len()
            invariant
                i <= names.len(),
                first_text(self@, views(names@)) == first_text(self@, views(names@).skip(i as int)),
            decreases names.len() - i,
        {
            assert(views(names@).skip(i as int)[0] == names@[i as int]@);
            assert(views(names@).skip(i as int).drop_first() =~= views(names@).skip(i + 1));
            if let Some(found) = self.get(names[i]) {
                let text = found.as_str();
                if text.is_some() {
                    return text;
                }
            }
            i = i + 1;
        }
        None
    }

    /// The first of the named members that is there at all.
    pub fn first_of(&self, names: &[&str]) -> (found: Option<&Json>)
        ensures
            found is Some <==> first_member(self@, views(names@)) is Some,
            found matches Some(value) ==> first_member(self@, views(names@)) == Some(value@),
    {
        let mut i: usize = 0;
        assert(views(names@).skip(0) =~= views(names@));
        while i < names.len()
            invariant
                i <= names.len(),
                first_member(self@, views(names@)) == first_member(
                    self@,
                    views(names@).skip(i as int),
                ),
            decreases names.len() - i,
        {
            assert(views(names@).skip(i as int)[0] == names@[i as int]@);
            assert(views(names@).skip(i as int).drop_first() =~= views(names@).skip(i + 1));
            let found = self.get(names[i]);
            if found.is_some() {
                return found;
            }
            i = i + 1;
        }
        None
    }

    /// The value that a path of member names leads to.
    pub fn at(&self, path: &[&str]) -> (found: Option<&Json>)
        ensures
            found is Some <==> at_path(self@, views(path@)) is Some,
            found matches Some(value) ==> at_path(self@, views(path@)) == Some(value@),
    {
        let mut current: &Json = self;
        let mut i: usize = 0;
        assert(views(path@).skip(0) =~= views(path@));
        while i < path.len()
            invariant
                i <= path.len(),
                at_path(self@, views(path@)) == at_path(current@, views(path@).skip(i as int)),
            decreases path.len() - i,
        {
            assert(views(path@).skip(i as int)[0] == path@[i as int]@);
            assert(views(path@).skip(i as int).drop_first() =~= views(path@).skip(i + 1));
            match current.get(path[i]) {
                Some(next) => {
                    current = next;
                },
                None => {
                    return None;
                },
            }
            i = i + 1;
        }
        Some(current)
    }
}

/// The member of an object under a name is what the object has there; nothing else has
/// members.
pub proof fn law_member_is_what_the_object_has(
    members: Map<Seq<char>, JsonTree>,
    name: Seq<char>,
    other: JsonTree,
)
    ensures
        members.dom().contains(name) ==> member(JsonTree::Object(members), name) == Some(
            members[name],
        ),
        !members.dom().contains(name) ==> member(JsonTree::Object(members), name) is None,
        !(other is Object) ==> member(other, name) is None,
{
}

/// An integer is read as itself where it has 64 signed bits, and a string as its
/// characters; nothing else is read as either.
pub proof fn law_values_are_read_as_they_are(n: int, text: Seq<char>, other: JsonTree)
    ensures
        i64::MIN <= n <= i64::MAX ==> int_value(JsonTree::Int(n)) == Some(n as i64),
        n < i64::MIN || i64::MAX < n ==> int_value(JsonTree::Int(n)) is None,
        text_value(JsonTree::Text(text)) == Some(text),
        !(other is Int) ==> int_value(other) is None,
        !(other is Text) ==> text_value(other) is None,
{
}

/// Of some names, the first whose member is an integer of 64 signed bits counts, and
/// without such a member there is none.
pub proof fn law_first_integer_counts(
    members: Map<Seq<char>, JsonTree>,
    names: Seq<Seq<char>>,
    i: int,
    n: int,
)
    requires
        0 <= i <= names.len(),
        i < names.len() ==> members.dom().contains(names[i]) && members[names[i]]
            == JsonTree::Int(n) && i64::MIN <= n <= i64::MAX,
        forall|j: int|
            0 <= j < i && members.dom().contains(#[trigger] names[j]) ==> !(
            members[names[j]] matches JsonTree::Int(k) && i64::MIN <= k <= i64::MAX),
    ensures
        i < names.len() ==> first_int(JsonTree::Object(members), names) == Some(n as i64),
        i == names.len() ==> first_int(JsonTree::Object(members), names) is None,
    decreases names.len(),
{
    if i > 0 {
        let rest = names.drop_first();
        assert(names[0] == names[0]);
        assert forall|j: int|
            0 <= j < i - 1 && members.dom().contains(#[trigger] rest[j]) implies !(
        members[rest[j]] matches JsonTree::Int(k) && i64::MIN <= k <= i64::MAX) by {
            assert(rest[j] == names[j + 1]);
        }
        law_first_integer_counts(members, rest, i - 1, n);
    }
}

/// Of some names, the first whose member is a string counts, and without such a member
/// there is none.
pub proof fn law_first_string_counts(
    members: Map<Seq<char>, JsonTree>,
    names: Seq<Seq<char>>,
    i: int,
    text: Seq<char>,
)
    requires
        0 <= i <= names.len(),
        i < names.len() ==> members.dom().contains(names[i]) && members[names[i]]
            == JsonTree::Text(text),
        forall|j: int|
            0 <= j < i && members.dom().contains(#[trigger] names[j]) ==> !(members[names[j]]
                is Text),
    ensures
        i < names.len() ==> first_text(JsonTree::Object(members), names) == Some(text),
        i == names.len() ==> first_text(JsonTree::Object(members), names) is None,
    decreases names.len(),
{
    if i > 0 {
        let rest = names.drop_first();
        assert(names[0] == names[0]);
        assert forall|j: int|
            0 <= j < i - 1 && members.dom().contains(#[trigger] rest[j]) implies !(members[rest[j]]
            is Text) by {
            assert(rest[j] == names[j + 1]);
        }
        law_first_string_counts(members, rest, i - 1, text);
    }
}

/// Of some names, the first that has a member at all counts, be it `null`, and without a
/// member there is none.
pub proof fn law_first_member_counts(
    members: Map<Seq<char>, JsonTree>,
    names: Seq<Seq<char>>,
    i: int,
)
    requires
        0 <= i <= names.len(),
        i < names.len() ==> members.dom().contains(names[i]),
        forall|j: int| 0 <= j < i ==> !members.dom().contains(#[trigger] names[j]),
    ensures
        i < names.len() ==> first_member(JsonTree::Object(members), names) == Some(
            members[names[i]],
        ),
        i == names.len() ==> first_member(JsonTree::Object(members), names) is None,
    decreases names.len(),
{
    if i > 0 {
        let rest = names.drop_first();
        assert(names[0] == names[0]);
        assert forall|j: int| 0 <= j < i - 1 implies !members.dom().contains(
            #[trigger] rest[j],
        ) by {
            assert(rest[j] == names[j + 1]);
        }
        law_first_member_counts(members, rest, i - 1);
    }
}

/// Nothing but an object has named members of any kind.
pub proof fn law_only_objects_have_members(tree: JsonTree, names: Seq<Seq<char>>)
    requires
        !(tree is Object),
    ensures
        first_int(tree, names) is None,
        first_text(tree, names) is None,
        first_member(tree, names) is None,
    decreases names.len(),
{
    if names.len() > 0 {
        law_only_objects_have_members(tree, names.drop_first());
    }
}

/// A path leads from member to member: the empty one stays where it is, and one name
/// more leads to that member, if there is one.
pub proof fn law_path_leads_from_member_to_member(
    tree: JsonTree,
    path: Seq<Seq<char>>,
    name: Seq<char>,
)
    ensures
        at_path(tree, Seq::empty()) == Some(tree),
        at_path(tree, path.push(name)) == (match at_path(tree, path) {
            Some(JsonTree::Object(members)) => if members.dom().contains(name) {
                Some(members[name])
            } else {
                None
            },
            _ => None,
        }),
    decreases path.len(),
{
    if path.len() == 0 {
        assert(path.push(name).drop_first() =~= Seq::empty());
        assert(path =~= Seq::empty());
        assert(path.push(name)[0] == name);
        assert(member(tree, name) matches Some(next) ==> at_path(
            next,
            path.push(name).drop_first(),
        ) == Some(next));
    } else {
        assert(path.push(name).drop_first() =~= path.drop_first().push(name));
        assert(path.push(name)[0] == path[0]);
        if let Some(next) = member(tree, path[0]) {
            law_path_leads_from_member_to_member(next, path.drop_first(), name);
        }
    }
}

/// An entry that is added to an object is its member under that name, in place of an
/// earlier one, and leaves the others. An item that is added to an array is its last.
pub proof fn law_added_values_are_there(
    entries: Seq<(String, Json)>,
    name: String,
    value: Json,
    items: Seq<Json>,
)
    ensures
        object_tree(Seq::empty()) == Map::<Seq<char>, JsonTree>::empty(),
        object_tree(entries.push((name, value))) == object_tree(entries).insert(name@, value@),
        array_tree(Seq::empty()) == Seq::<JsonTree>::empty(),
        array_tree(items.push(value)) == array_tree(items).push(value@),
{
    assert(entries.push((name, value)).drop_last() =~= entries);
    assert(items.push(value).drop_last() =~= items);
}

/// A value stands for what it is written as.
pub proof fn law_values_stand_for_themselves(
    b: bool,
    unsigned: u64,
    signed: i64,
    text: String,
    items: Vec<Json>,
    entries: Vec<(String, Json)>,
)
    ensures
        Json::Null@ is Null,
        Json::Bool(b)@ == JsonTree::Bool(b),
        Json::Unsigned(unsigned)@ == JsonTree::Int(unsigned as int),
        Json::Signed(signed)@ == JsonTree::Int(signed as int),
        Json::Text(text)@ == JsonTree::Text(text@),
        Json::Array(items)@ == JsonTree::Array(array_tree(items@)),
        Json::Object(entries)@ == JsonTree::Object(object_tree(entries@)),
{
}

/// Names are what they are written as.
pub proof fn law_names_are_kept(names: Seq<&str>, i: int)
    requires
        0 <= i < names.len(),
    ensures
        views(names).len() == names.len(),
        views(names)[i] == names[i]@,
{
}

/// A number is the integer that it holds, where it holds one.
pub proof fn law_number_is_what_it_holds(number: serde_json::Number, n: int)
    ensures
        number_value(number) == Some(n) ==> Json::Number(number)@ == JsonTree::Int(n),
        number_value(number) is None ==> Json::Number(number)@ == JsonTree::Float(number),
{
}

} // verus!
