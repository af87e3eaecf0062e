//! Unix paths, taken apart and put together without looking at any file.
//!
//! A path is a string of bytes. Its parts are the names between slashes; empty
//! names and dots say nothing, save for a dot that opens a relative path.

use crate::text::{from_utf8_lossy, lossy_text};
use vstd::prelude::*;
use vstd::utf8::{decode_utf8, encode_utf8, valid_utf8};

verus! {

/// One part of a path.
pub enum PathPart {
    /// The slash that an absolute path starts with.
    Root,
    /// The dot that a relative path starts with.
    Current,
    /// Two dots.
    Parent,
    /// Any other name.
    Name(Seq<u8>),
}

/// The slash between names.
pub const SLASH: u8 = 0x2f;

/// The dot.
pub const DOT: u8 = 0x2e;

/// What stands between the slashes of a path, empty names included.
pub open spec fn segments(bytes: Seq<u8>) -> Seq<Seq<u8>>
    decreases bytes.len(),
{
    if bytes.len() == 0 {
        seq![Seq::empty()]
    } else {
        let front = segments(bytes.drop_last());
        if bytes.last() == SLASH {
            front.push(Seq::empty())
        } else {
            front.drop_last().push(front.last().push(bytes.last()))
        }
    }
}

/// Whether a name between slashes says anything.
pub open spec fn counts(segment: Seq<u8>) -> bool {
    segment.len() > 0 && segment != seq![DOT]
}

/// The part that a name stands for.
pub open spec fn part(segment: Seq<u8>) -> PathPart {
    if segment == seq![DOT, DOT] {
        PathPart::Parent
    } else {
        PathPart::Name(segment)
    }
}

/// The parts that a list of names stands for.
pub open spec fn named_parts(names: Seq<Seq<u8>>) -> Seq<PathPart>
    decreases names.len(),
{
    if names.len() == 0 {
        Seq::empty()
    } else if counts(names.last()) {
        named_parts(names.drop_last()).push(part(names.last()))
    } else {
        named_parts(names.drop_last())
    }
}

/// Whether a path starts at the root.
pub open spec fn absolute(bytes: Seq<u8>) -> bool {
    bytes.len() > 0 && bytes[0] == SLASH
}

/// What comes before the names of a path.
pub open spec fn leading_parts(bytes: Seq<u8>) -> Seq<PathPart> {
    if absolute(bytes) {
        seq![PathPart::Root]
    } else if segments(bytes)[0] == seq![DOT] {
        seq![PathPart::Current]
    } else {
        Seq::empty()
    }
}

/// The parts of a path.
pub open spec fn parts(bytes: Seq<u8>) -> Seq<PathPart> {
    leading_parts(bytes) + named_parts(segments(bytes))
}

/// A path followed from another one: an absolute path stands for itself.
pub open spec fn path_join(base: Seq<u8>, path: Seq<u8>) -> Seq<u8> {
    if absolute(path) {
        path
    } else if base.len() > 0 && base.last() != SLASH {
        base.push(SLASH) + path
    } else {
        base + path
    }
}

/// Whether a path lies at or below another one, part by part.
pub open spec fn path_starts_with(path: Seq<u8>, base: Seq<u8>) -> bool {
    parts(base).is_prefix_of(parts(path))
}

/// Whether a path climbs to a parent directory anywhere.
pub open spec fn climbs(bytes: Seq<u8>) -> bool {
    parts(bytes).contains(PathPart::Parent)
}

proof fn lemma_segments_nonempty(bytes: Seq<u8>)
    ensures
        segments(bytes).len() > 0,
    decreases bytes.len(),
{
    if bytes.len() > 0 {
        lemma_segments_nonempty(bytes.drop_last());
    }
}

proof fn lemma_segments_split(left: Seq<u8>, right: Seq<u8>)
    ensures
        segments(left.push(SLASH) + right) == segments(left) + segments(right),
    decreases right.len(),
{
    let whole = left.push(SLASH) + right;
    if right.len() == 0 {
        assert(whole =~= left.push(SLASH));
        assert(whole.drop_last() =~= left);
        assert(segments(whole) =~= segments(left) + segments(right));
    } else {
        lemma_segments_split(left, right.drop_last());
        lemma_segments_nonempty(right.drop_last());
        assert(whole.drop_last() =~= left.push(SLASH) + right.drop_last());
        assert(whole.last() == right.last());
        assert(segments(whole) =~= segments(left) + segments(right));
    }
}

proof fn lemma_named_parts_split(left: Seq<Seq<u8>>, right: Seq<Seq<u8>>)
    ensures
        named_parts(left + right) == named_parts(left) + named_parts(right),
    decreases right.len(),
{
    if right.len() == 0 {
        assert(left + right =~= left);
        assert(named_parts(left + right) =~= named_parts(left) + named_parts(right));
    } else {
        lemma_named_parts_split(left, right.drop_last());
        assert((left + right).drop_last() =~= left + right.drop_last());
        assert((left + right).last() == right.last());
        assert(named_parts(left + right) =~= named_parts(left) + named_parts(right));
    }
}

/// A relative path followed from a base has the parts of the base and then the
/// names of the path.
pub proof fn law_join_keeps_base(base: Seq<u8>, path: Seq<u8>)
    requires
        !absolute(path),
        base.len() > 0,
    ensures
        parts(path_join(base, path)) == parts(base) + named_parts(segments(path)),
{
    let left = if base.last() == SLASH {
        base.drop_last()
    } else {
        base
    };
    assert(path_join(base, path) =~= left.push(SLASH) + path);
    lemma_segments_split(left, path);
    lemma_segments_nonempty(left);
    lemma_named_parts_split(segments(left), segments(path));
    if base.last() == SLASH {
        assert(base =~= left.push(SLASH) + Seq::<u8>::empty());
        lemma_segments_split(left, Seq::empty());
        lemma_named_parts_split(segments(left), segments(Seq::<u8>::empty()));
        assert(named_parts(segments(Seq::<u8>::empty())) =~= Seq::empty()) by {
            reveal_with_fuel(named_parts, 2);
        }
    }
    assert(segments(path_join(base, path))[0] == segments(left)[0]);
    assert(segments(base)[0] == segments(left)[0]);
    assert(absolute(path_join(base, path)) == absolute(base));
    assert(parts(path_join(base, path)) =~= parts(base) + named_parts(segments(path)));
}

/// A relative path, followed from a base, starts with the parts of the base.
pub proof fn law_relative_path_stays_below(base: Seq<u8>, path: Seq<u8>)
    requires
        !absolute(path),
    ensures
        path_starts_with(path_join(base, path), base),
{
    if base.len() > 0 {
        law_join_keeps_base(base, path);
    } else {
        assert(parts(base) =~= Seq::empty()) by {
            reveal_with_fuel(named_parts, 2);
        }
    }
}

/// A path that climbs nowhere, followed from a base that it then lies below, has
/// past the parts of the base nothing but names: it leads down from the base.
pub proof fn law_followed_path_goes_down(base: Seq<u8>, path: Seq<u8>, i: int)
    requires
        base.len() > 0,
        !climbs(path),
        path_starts_with(path_join(base, path), base),
        parts(base).len() <= i < parts(path_join(base, path)).len(),
    ensures
        parts(path_join(base, path))[i] is Name,
{
    let whole = path_join(base, path);
    let names = named_parts(segments(path));
    lemma_named_parts_kinds(segments(path));
    lemma_some_part(base);
    if absolute(path) {
        assert(parts(path)[i] == names[i - 1]);
        assert(parts(path).contains(parts(path)[i]));
    } else {
        law_join_keeps_base(base, path);
        let j = i - parts(base).len();
        assert(parts(whole)[i] == names[j]);
        assert(parts(path)[leading_parts(path).len() + j] == names[j]);
        assert(parts(path).contains(names[j]));
    }
}

/// A path that is not empty has a part.
proof fn lemma_some_part(path: Seq<u8>)
    requires
        path.len() > 0,
    ensures
        parts(path).len() > 0,
{
    if !absolute(path) {
        lemma_first_segment(path);
        if segments(path)[0] != seq![DOT] {
            lemma_first_name_counts(segments(path));
        }
    }
}

proof fn lemma_first_segment(path: Seq<u8>)
    requires
        path.len() > 0,
        path[0] != SLASH,
    ensures
        segments(path).len() > 0,
        segments(path)[0].len() > 0,
    decreases path.len(),
{
    lemma_segments_nonempty(path.drop_last());
    if path.len() > 1 {
        lemma_first_segment(path.drop_last());
    } else {
        assert(path.drop_last() =~= Seq::empty());
    }
}

proof fn lemma_first_name_counts(names: Seq<Seq<u8>>)
    requires
        names.len() > 0,
        counts(names[0]),
    ensures
        named_parts(names).len() > 0,
    decreases names.len(),
{
    if names.len() > 1 {
        lemma_first_name_counts(names.drop_last());
    }
}

proof fn lemma_named_parts_kinds(names: Seq<Seq<u8>>)
    ensures
        forall|i: int|
            0 <= i < named_parts(names).len() ==> (#[trigger] named_parts(names)[i]) is Parent
                || named_parts(names)[i] is Name,
    decreases names.len(),
{
    if names.len() > 0 {
        lemma_named_parts_kinds(names.drop_last());
    }
}

/// A list of byte strings, each by its content.
pub open spec fn byte_views(names: Seq<Vec<u8>>) -> Seq<Seq<u8>> {
    names.map_values(|name: Vec<u8>| name@)
}

/// One part of a path, in executable form.
#[derive(Debug)]
pub enum Part {
    Root,
    Current,
    Parent,
    Name(Vec<u8>),
}

impl Part {
    pub open spec fn view(self) -> PathPart {
        match self {
            Part::Root => PathPart::Root,
            Part::Current => PathPart::Current,
            Part::Parent => PathPart::Parent,
            Part::Name(name) => PathPart::Name(name@),
        }
    }

    /// Whether two parts are the same.
    fn same(&self, other: &Part) -> (r: bool)
        ensures
            r == (self@ == other@),
    {
        match (self, other) {
            (Part::Root, Part::Root) => true,
            (Part::Current, Part::Current) => true,
            (Part::Parent, Part::Parent) => true,
            (Part::Name(a), Part::Name(b)) => same_bytes(a.as_slice(), b.as_slice()),
            _ => false,
        }
    }
}

/// A list of parts, each by its content.
pub open spec fn part_views(list: Seq<Part>) -> Seq<PathPart> {
    list.map_values(|one: Part| one@)
}

/// Whether two byte strings are the same.
fn same_bytes(a: &[u8], b: &[u8]) -> (r: bool)
    ensures
        r == (a@ == b@),
{
    if a.len() != b.len() {
        return false;
    }
    let mut i: usize = 0;
    while i < a.len()
        invariant
            i <= a.len(),
            a@.len() == b@.len(),
            forall|j: int| 0 <= j < i ==> a@[j] == b@[j],
        decreases a.len() - i,
    {
        if a[i] != b[i] {
            return false;
        }
        i = i + 1;
    }
    assert(a@ =~= b@);
    true
}

/// What stands between the slashes of a path.
fn split_segments(bytes: &[u8]) -> (names: Vec<Vec<u8>>)
    ensures
        byte_views(names@) == segments(bytes@),
{
    let mut names: Vec<Vec<u8>> = Vec::new();
    let mut current: Vec<u8> = Vec::new();
    let mut i: usize = 0;
    assert(bytes@.take(0) =~= Seq::empty());
    assert(byte_views(names@).push(current@) =~= segments(bytes@.take(0)));
    while i < bytes.len()
        invariant
            i <= bytes.len(),
            byte_views(names@).push(current@) == segments(bytes@.take(i as int)),
        decreases bytes.len() - i,
    {
        let ghost before = byte_views(names@).push(current@);
        let ghost done = names@;
        let ghost name = current@;
        assert(bytes@.take(i + 1).drop_last() =~= bytes@.take(i as int));
        assert(before.last() == name);
        assert(before.drop_last() =~= byte_views(done));
        if bytes[i] == SLASH {
            names.push(current);
            current = Vec::new();
            assert(byte_views(names@) =~= before);
        } else {
            current.push(bytes[i]);
        }
        assert(byte_views(names@).push(current@) =~= segments(bytes@.take(i + 1)));
        i = i + 1;
    }
    assert(bytes@.take(i as int) =~= bytes@);
    let ghost done = byte_views(names@);
    let ghost name = current@;
    names.push(current);
    assert(byte_views(names@) =~= done.push(name));
    names
}

/// The parts of a path.
fn split_parts(bytes: &[u8]) -> (list: Vec<Part>)
    ensures
        part_views(list@) == parts(bytes@),
{
    let names = split_segments(bytes);
    proof {
        lemma_segments_nonempty(bytes@);
        assert(byte_views(names@)[0] == names@[0]@);
    }
    let mut list: Vec<Part> = Vec::new();
    if bytes.len() > 0 && bytes[0] == SLASH {
        list.push(Part::Root);
    } else if names[0].len() == 1 && names[0][0] == DOT {
        list.push(Part::Current);
        assert(names@[0]@ =~= seq![DOT]);
    }
    assert(part_views(list@) =~= leading_parts(bytes@));
    let mut i: usize = 0;
    assert(byte_views(names@).take(0) =~= Seq::empty());
    assert(part_views(list@) =~= leading_parts(bytes@) + named_parts(byte_views(names@).take(0)));
    while i < names.len()
        invariant
            i <= names.len(),
            part_views(list@) == leading_parts(bytes@) + named_parts(
                byte_views(names@).take(i as int),
            ),
        decreases names.len() - i,
    {
        let ghost before = part_views(list@);
        let ghost done = list@;
        let name = &names[i];
        assert(byte_views(names@).take(i + 1).drop_last() =~= byte_views(names@).take(i as int));
        assert(byte_views(names@).take(i + 1).last() == name@);
        let is_dot = name.len() == 1 && name[0] == DOT;
        assert(is_dot == (name@ == seq![DOT])) by {
            if is_dot {
                assert(name@ =~= seq![DOT]);
            }
        }
        if name.len() > 0 && !is_dot {
            let is_parent = name.len() == 2 && name[0] == DOT && name[1] == DOT;
            assert(is_parent == (name@ == seq![DOT, DOT])) by {
                if is_parent {
                    assert(name@ =~= seq![DOT, DOT]);
                }
            }
            let next = if is_parent {
                Part::Parent
            } else {
                let mut copy: Vec<u8> = Vec::new();
                copy.extend_from_slice(name.as_slice());
                assert(copy@ =~= name@);
                Part::Name(copy)
            };
            let ghost value = next@;
            list.push(next);
            assert(part_views(list@) =~= before.push(value));
        }
        assert(part_views(list@) =~= leading_parts(bytes@) + named_parts(
            byte_views(names@).take(i + 1),
        ));
        i = i + 1;
    }
    assert(byte_views(names@).take(i as int) =~= byte_views(names@));
    list
}

/// A path.
#[derive(Debug)]
pub struct UnixPath {
    bytes: Vec<u8>,
}

impl UnixPath {
    pub closed spec fn view(self) -> Seq<u8> {
        self.bytes@
    }

    /// The path made of the given bytes.
    pub fn from_bytes(bytes: Vec<u8>) -> (path: UnixPath)
        ensures
            path@ == bytes@,
    {
        UnixPath { bytes }
    }

    /// The path that a text spells.
    pub fn from_text(text: &str) -> (path: UnixPath)
        ensures
            path@ == encode_utf8(text@),
    {
        let mut bytes: Vec<u8> = Vec::new();
        bytes.extend_from_slice(text.as_bytes());
        assert(bytes@ =~= encode_utf8(text@));
        UnixPath { bytes }
    }

    /// The bytes of the path.
    pub fn as_bytes(&self) -> (bytes: &[u8])
        ensures
            bytes@ == self@,
    {
        self.bytes.as_slice()
    }

    /// The parts of the path.
    pub fn components(&self) -> (list: Vec<Part>)
        ensures
            part_views(list@) == parts(self@),
    {
        split_parts(self.bytes.as_slice())
    }

    /// Whether the path starts at the root.
    pub fn is_absolute(&self) -> (r: bool)
        ensures
            r == absolute(self@),
    {
        self.bytes.len() > 0 && self.bytes[0] == SLASH
    }

    /// Whether the path climbs to a parent directory anywhere.
    pub fn has_parent_part(&self) -> (r: bool)
        ensures
            r == climbs(self@),
    {
        let list = self.components();
        let mut i: usize = 0;
        while i < list.len()
            invariant
                i <= list.len(),
                part_views(list@) == parts(self@),
                forall|j: int| 0 <= j < i ==> parts(self@)[j] != PathPart::Parent,
            decreases list.len() - i,
        {
            assert(part_views(list@)[i as int] == list@[i as int]@);
            if let Part::Parent = list[i] {
                return true;
            }
            i = i + 1;
        }
        false
    }

    /// The given path, followed from this one.
    pub fn join(&self, path: &UnixPath) -> (whole: UnixPath)
        ensures
            whole@ == path_join(self@, path@),
    {
        let mut bytes: Vec<u8> = Vec::new();
        if !path.is_absolute() {
            bytes.extend_from_slice(self.bytes.as_slice());
            assert(bytes@ =~= self@);
            if self.bytes.len() > 0 && self.bytes[self.bytes.len() - 1] != SLASH {
                bytes.push(SLASH);
            }
        }
        let ghost front = bytes@;
        bytes.extend_from_slice(path.bytes.as_slice());
        assert(bytes@ =~= front + path@);
        assert(bytes@ =~= path_join(self@, path@));
        UnixPath { bytes }
    }

    /// Whether the path lies at or below the given one, part by part.
    pub fn starts_with(&self, base: &UnixPath) -> (r: bool)
        ensures
            r == path_starts_with(self@, base@),
    {
        let mine = self.components();
        let theirs = base.components();
        if theirs.len() > mine.len() {
            return false;
        }
        let mut i: usize = 0;
        while i < theirs.len()
            invariant
                i <= theirs.len() <= mine.len(),
                part_views(mine@) == parts(self@),
                part_views(theirs@) == parts(base@),
                forall|j: int| 0 <= j < i ==> parts(self@)[j] == parts(base@)[j],
            decreases theirs.len() - i,
        {
            assert(part_views(mine@)[i as int] == mine@[i as int]@);
            assert(part_views(theirs@)[i as int] == theirs@[i as int]@);
            if !mine[i].same(&theirs[i]) {
                return false;
            }
            i = i + 1;
        }
        assert(parts(base@) =~= parts(self@).subrange(0, parts(base@).len() as int));
        true
    }

    /// The path as text, with replacement characters where it is not UTF-8.
    pub fn display(&self) -> (text: String)
        ensures
            text@ == lossy_text(self@),
            valid_utf8(self@) ==> text@ == decode_utf8(self@),
    {
        from_utf8_lossy(self.bytes.as_slice())
    }

    /// The path with some text added to its last name.
    pub fn extended(&self, text: &str) -> (path: UnixPath)
        ensures
            path@ == self@ + encode_utf8(text@),
    {
        let mut bytes: Vec<u8> = Vec::new();
        bytes.extend_from_slice(self.bytes.as_slice());
        bytes.extend_from_slice(text.as_bytes());
        assert(bytes@ =~= self@ + encode_utf8(text@));
        UnixPath { bytes }
    }
}

impl Clone for UnixPath {
    fn clone(&self) -> (copy: UnixPath)
        ensures
            copy@ == self@,
    {
        let mut bytes: Vec<u8> = Vec::new();
        bytes.extend_from_slice(self.bytes.as_slice());
        assert(bytes@ =~= self@);
        UnixPath { bytes }
    }
}

/// Names put together again, with a slash between two of them.
pub open spec fn with_slashes(names: Seq<Seq<u8>>) -> Seq<u8>
    decreases names.len(),
{
    if names.len() == 0 {
        Seq::empty()
    } else if names.len() == 1 {
        names[0]
    } else {
        with_slashes(names.drop_last()).push(SLASH) + names.last()
    }
}

/// What stands between the slashes of a path has no slash in it, and gives the path again
/// when it is put together.
pub proof fn law_segments_make_the_path(bytes: Seq<u8>)
    ensures
        segments(bytes).len() > 0,
        with_slashes(segments(bytes)) == bytes,
        forall|i: int, j: int|
            0 <= i < segments(bytes).len() && 0 <= j < segments(bytes)[i].len()
                ==> #[trigger] segments(bytes)[i][j] != SLASH,
    decreases bytes.len(),
{
    if bytes.len() == 0 {
        assert(segments(bytes) =~= seq![Seq::<u8>::empty()]);
        assert(bytes =~= Seq::empty());
    } else {
        let front = segments(bytes.drop_last());
        let all = segments(bytes);
        law_segments_make_the_path(bytes.drop_last());
        if bytes.last() == SLASH {
            assert(all.drop_last() =~= front);
            assert(with_slashes(all) =~= bytes);
        } else {
            assert(all.drop_last() =~= front.drop_last());
            assert(all.last() == front.last().push(bytes.last()));
            assert(with_slashes(all) =~= with_slashes(front).push(bytes.last()));
            assert(with_slashes(all) =~= bytes);
            assert forall|i: int, j: int|
                0 <= i < all.len() && 0 <= j < all[i].len() implies #[trigger] all[i][j]
                != SLASH by {
                if i < front.len() - 1 {
                    assert(all[i] == front[i]);
                    assert(front[i][j] != SLASH);
                } else {
                    assert(all[i] == front.last().push(bytes.last()));
                    if j < front.last().len() {
                        assert(front[i][j] != SLASH);
                    }
                }
            }
        }
    }
}

/// Each name of a path that says anything is a part of it, in order: two dots climb, and
/// any other name is itself. Empty names and single dots are no parts.
pub proof fn law_names_are_parts(names: Seq<Seq<u8>>, name: Seq<u8>)
    ensures
        named_parts(Seq::empty()) == Seq::<PathPart>::empty(),
        name.len() == 0 || name == seq![DOT] ==> named_parts(names.push(name)) == named_parts(
            names,
        ),
        name == seq![DOT, DOT] ==> named_parts(names.push(name)) == named_parts(names).push(
            PathPart::Parent,
        ),
        name.len() > 0 && name != seq![DOT] && name != seq![DOT, DOT] ==> named_parts(
            names.push(name),
        ) == named_parts(names).push(PathPart::Name(name)),
{
    assert(names.push(name).drop_last() =~= names);
    assert(seq![DOT, DOT].len() == 2);
    assert(seq![DOT].len() == 1);
}

/// A path starts with the root if it starts with a slash, and with the current directory
/// if its first name is a dot; after that come its names.
pub proof fn law_parts_of_a_path(bytes: Seq<u8>)
    ensures
        absolute(bytes) <==> bytes.len() > 0 && bytes[0] == 0x2f,
        absolute(bytes) ==> parts(bytes) == seq![PathPart::Root] + named_parts(segments(bytes)),
        !absolute(bytes) && segments(bytes)[0] == seq![0x2eu8] ==> parts(bytes)
            == seq![PathPart::Current] + named_parts(segments(bytes)),
        !absolute(bytes) && segments(bytes)[0] != seq![0x2eu8] ==> parts(bytes) == named_parts(
            segments(bytes),
        ),
{
    assert(Seq::<PathPart>::empty() + named_parts(segments(bytes)) =~= named_parts(
        segments(bytes),
    ));
}

/// A path climbs exactly if two dots stand between its slashes somewhere.
pub proof fn law_climbing_is_two_dots(bytes: Seq<u8>)
    ensures
        climbs(bytes) <==> exists|i: int|
            0 <= i < segments(bytes).len() && #[trigger] segments(bytes)[i] == seq![0x2eu8, 0x2eu8],
{
    lemma_parent_among_names(segments(bytes));
    let leading = leading_parts(bytes);
    let names = named_parts(segments(bytes));
    if names.contains(PathPart::Parent) {
        let i = choose|i: int| 0 <= i < names.len() && names[i] == PathPart::Parent;
        assert(parts(bytes)[leading.len() + i] == PathPart::Parent);
    }
    if climbs(bytes) {
        let i = choose|i: int| 0 <= i < parts(bytes).len() && parts(bytes)[i] == PathPart::Parent;
        assert(i >= leading.len());
        assert(names[i - leading.len()] == PathPart::Parent);
    }
}

proof fn lemma_parent_among_names(names: Seq<Seq<u8>>)
    ensures
        named_parts(names).contains(PathPart::Parent) <==> exists|i: int|
            0 <= i < names.len() && #[trigger] names[i] == seq![0x2eu8, 0x2eu8],
    decreases names.len(),
{
    if names.len() > 0 {
        let front = names.drop_last();
        let last = names.last();
        lemma_parent_among_names(front);
        let before = named_parts(front);
        assert(seq![0x2eu8, 0x2eu8].len() == 2);
        assert(seq![DOT].len() == 1);
        if exists|i: int| 0 <= i < names.len() && #[trigger] names[i] == seq![0x2eu8, 0x2eu8] {
            let i = choose|i: int|
                0 <= i < names.len() && #[trigger] names[i] == seq![0x2eu8, 0x2eu8];
            assert(i < front.len() ==> front[i] == names[i]);
        }
        if exists|i: int| 0 <= i < front.len() && #[trigger] front[i] == seq![0x2eu8, 0x2eu8] {
            let i = choose|i: int|
                0 <= i < front.len() && #[trigger] front[i] == seq![0x2eu8, 0x2eu8];
            assert(names[i] == seq![0x2eu8, 0x2eu8]);
            let j = choose|j: int| 0 <= j < before.len() && before[j] == PathPart::Parent;
            assert(named_parts(names)[j] == PathPart::Parent);
        }
        if last == seq![0x2eu8, 0x2eu8] {
            assert(names[names.len() - 1] == seq![0x2eu8, 0x2eu8]);
            assert(named_parts(names)[before.len() as int] == PathPart::Parent);
        }
        if named_parts(names).contains(PathPart::Parent) {
            let j = choose|j: int|
                0 <= j < named_parts(names).len() && named_parts(names)[j] == PathPart::Parent;
            if j < before.len() {
                assert(before[j] == PathPart::Parent);
                let i = choose|i: int|
                    0 <= i < front.len() && #[trigger] front[i] == seq![0x2eu8, 0x2eu8];
                assert(names[i] == front[i]);
            } else {
                assert(names[names.len() - 1] == seq![0x2eu8, 0x2eu8]);
            }
        }
    } else {
        assert(named_parts(names) =~= Seq::empty());
    }
}

/// A path lies at or below another one exactly if it starts with all of its parts.
pub proof fn law_below_means_part_by_part(path: Seq<u8>, base: Seq<u8>)
    ensures
        path_starts_with(path, base) <==> parts(base).len() <= parts(path).len() && forall|i: int|
            0 <= i < parts(base).len() ==> #[trigger] parts(base)[i] == parts(path)[i],
{
    if parts(base).len() <= parts(path).len() && forall|i: int|
        0 <= i < parts(base).len() ==> #[trigger] parts(base)[i] == parts(path)[i] {
        assert(parts(base) =~= parts(path).subrange(0, parts(base).len() as int));
    }
    if path_starts_with(path, base) {
        assert forall|i: int| 0 <= i < parts(base).len() implies #[trigger] parts(base)[i] == parts(
            path,
        )[i] by {
            assert(parts(base) == parts(path).subrange(0, parts(base).len() as int));
        }
    }
}

/// A relative path is followed from its base with one slash between the two; an absolute
/// path stands for itself.
pub proof fn law_join_puts_one_slash(base: Seq<u8>, path: Seq<u8>)
    ensures
        absolute(path) ==> path_join(base, path) == path,
        !absolute(path) && base.len() > 0 && base.last() != 0x2f ==> path_join(base, path) == base
            + seq![0x2fu8] + path,
        !absolute(path) && (base.len() == 0 || base.last() == 0x2f) ==> path_join(base, path)
            == base + path,
{
    assert(base.push(SLASH) + path =~= base + seq![0x2fu8] + path);
}

/// A part that is handed out is the part of the path.
pub proof fn law_part_is_what_it_holds(name: Vec<u8>, list: Seq<Part>, i: int)
    requires
        0 <= i < list.len(),
    ensures
        Part::Root@ is Root,
        Part::Current@ is Current,
        Part::Parent@ is Parent,
        Part::Name(name)@ == PathPart::Name(name@),
        part_views(list).len() == list.len(),
        part_views(list)[i] == list[i]@,
{
}

} // verus!
