//! The files by which a loop and those who watch it talk to each other.

use crate::codec::{comes_back, pretty_text};
use crate::json::{Json, JsonTree};
use crate::paths::{path_join, UnixPath};
use vstd::prelude::*;
use vstd::string::StringExecFns;
use vstd::utf8::{
    encode_utf8, encode_utf8_decode_utf8, is_ascii_chars, is_ascii_chars_encode_utf8,
};

verus! {

/// The directory of the files, below a workspace.
pub open spec fn api_dir(root: Seq<u8>) -> Seq<u8> {
    path_join(root, encode_utf8(".ralph/api"@))
}

/// The file of the open question.
pub open spec fn question_file(root: Seq<u8>) -> Seq<u8> {
    path_join(api_dir(root), encode_utf8("robot-question.json"@))
}

/// The file of the answer to it.
pub open spec fn response_file(root: Seq<u8>) -> Seq<u8> {
    path_join(api_dir(root), encode_utf8("robot-response.json"@))
}

/// The file of the last check-in.
pub open spec fn checkin_file(root: Seq<u8>) -> Seq<u8> {
    path_join(api_dir(root), encode_utf8("robot-checkin.json"@))
}

/// The directory of the files, below a workspace.
pub fn api_dir_path(root: &UnixPath) -> (path: UnixPath)
    ensures
        path@ == api_dir(root@),
{
    root.join(&UnixPath::from_text(".ralph/api"))
}

/// The file of the open question.
pub fn question_path(root: &UnixPath) -> (path: UnixPath)
    ensures
        path@ == question_file(root@),
{
    api_dir_path(root).join(&UnixPath::from_text("robot-question.json"))
}

/// The file of the answer to it.
pub fn response_path(root: &UnixPath) -> (path: UnixPath)
    ensures
        path@ == response_file(root@),
{
    api_dir_path(root).join(&UnixPath::from_text("robot-response.json"))
}

/// The file of the last check-in.
pub fn checkin_path(root: &UnixPath) -> (path: UnixPath)
    ensures
        path@ == checkin_file(root@),
{
    api_dir_path(root).join(&UnixPath::from_text("robot-checkin.json"))
}

/// One of the files.
#[derive(Clone, Copy, Debug, PartialEq, Eq, Structural)]
pub enum ApiFile {
    Question,
    Response,
    Checkin,
}

/// Where a file is.
pub open spec fn api_file(root: Seq<u8>, file: ApiFile) -> Seq<u8> {
    match file {
        ApiFile::Question => question_file(root),
        ApiFile::Response => response_file(root),
        ApiFile::Checkin => checkin_file(root),
    }
}

/// A document that is to replace a file in one go: the bytes go to a file beside
/// it, which is then moved to its place.
#[derive(Debug)]
pub struct FileWrite {
    pub path: UnixPath,
    pub tmp_path: UnixPath,
    pub bytes: Vec<u8>,
}

/// Whether a write puts a document into a file.
pub open spec fn writes(write: FileWrite, path: Seq<u8>, tree: JsonTree) -> bool {
    &&& write.path@ == path
    &&& write.tmp_path@ == path + encode_utf8(".tmp"@)
    &&& write.bytes@ == encode_utf8(pretty_text(tree))
    &&& comes_back(pretty_text(tree), tree)
}

/// The write that puts a document into one of the files. The file beside it has the
/// extension `json.tmp` in place of `json`.
pub fn write_json_atomic(root: &UnixPath, file: ApiFile, value: &Json) -> (write: FileWrite)
    ensures
        writes(write, api_file(root@, file), value@),
{
    let path = match file {
        ApiFile::Question => question_path(root),
        ApiFile::Response => response_path(root),
        ApiFile::Checkin => checkin_path(root),
    };
    let tmp_path = path.extended(".tmp");
    let bytes = value.to_pretty();
    FileWrite { path, tmp_path, bytes }
}

/// Adds two texts to a message.
pub(crate) fn put_two(message: &mut String, first: &str, second: &str)
    ensures
        final(message)@ == old(message)@ + first@ + second@,
{
    message.append(first);
    message.append(second);
}

/// A relative path of a plain name is told from another one by the name alone.
proof fn lemma_names_apart(base: Seq<u8>, a: Seq<char>, b: Seq<char>)
    requires
        is_ascii_chars(a),
        is_ascii_chars(b),
        a.len() > 0,
        b.len() > 0,
        a[0] == 'r',
        b[0] == 'r',
        path_join(base, encode_utf8(a)) == path_join(base, encode_utf8(b)),
    ensures
        a == b,
{
    is_ascii_chars_encode_utf8(a);
    is_ascii_chars_encode_utf8(b);
    let x = path_join(base, encode_utf8(a));
    let y = path_join(base, encode_utf8(b));
    assert(encode_utf8(a)[0] == a[0] as u8);
    assert(encode_utf8(b)[0] == b[0] as u8);
    let n = x.len() - encode_utf8(a).len();
    assert(x.skip(n) =~= encode_utf8(a));
    assert(y.skip(n) =~= encode_utf8(b));
    encode_utf8_decode_utf8(a);
    encode_utf8_decode_utf8(b);
}

/// The question, the answer and the check-in are three files, so that writing one
/// leaves the others alone.
pub proof fn law_files_are_apart(root: Seq<u8>)
    ensures
        question_file(root) != response_file(root),
        question_file(root) != checkin_file(root),
        response_file(root) != checkin_file(root),
{
    reveal_strlit("robot-question.json");
    reveal_strlit("robot-response.json");
    reveal_strlit("robot-checkin.json");
    assert("robot-question.json"@[6] == 'q');
    assert("robot-response.json"@[6] == 'r');
    assert("robot-checkin.json"@[6] == 'c');
    if question_file(root) == response_file(root) {
        lemma_names_apart(api_dir(root), "robot-question.json"@, "robot-response.json"@);
    }
    if question_file(root) == checkin_file(root) {
        lemma_names_apart(api_dir(root), "robot-question.json"@, "robot-checkin.json"@);
    }
    if response_file(root) == checkin_file(root) {
        lemma_names_apart(api_dir(root), "robot-response.json"@, "robot-checkin.json"@);
    }
}

/// The files are where both sides look for them: three names in one directory below the
/// workspace.
pub proof fn law_files_are_where_both_sides_look(root: Seq<u8>)
    requires
        root.len() > 0,
        root.last() != 0x2f,
    ensures
        api_dir(root) == root + encode_utf8("/.ralph/api"@),
        question_file(root) == root + encode_utf8("/.ralph/api/robot-question.json"@),
        response_file(root) == root + encode_utf8("/.ralph/api/robot-response.json"@),
        checkin_file(root) == root + encode_utf8("/.ralph/api/robot-checkin.json"@),
        api_file(root, ApiFile::Question) == question_file(root),
        api_file(root, ApiFile::Response) == response_file(root),
        api_file(root, ApiFile::Checkin) == checkin_file(root),
{
    reveal_strlit(".ralph/api");
    reveal_strlit("/.ralph/api");
    reveal_strlit("robot-question.json");
    reveal_strlit("robot-response.json");
    reveal_strlit("robot-checkin.json");
    reveal_strlit("/.ralph/api/robot-question.json");
    reveal_strlit("/.ralph/api/robot-response.json");
    reveal_strlit("/.ralph/api/robot-checkin.json");
    is_ascii_chars_encode_utf8(".ralph/api"@);
    is_ascii_chars_encode_utf8("/.ralph/api"@);
    is_ascii_chars_encode_utf8("robot-question.json"@);
    is_ascii_chars_encode_utf8("robot-response.json"@);
    is_ascii_chars_encode_utf8("robot-checkin.json"@);
    is_ascii_chars_encode_utf8("/.ralph/api/robot-question.json"@);
    is_ascii_chars_encode_utf8("/.ralph/api/robot-response.json"@);
    is_ascii_chars_encode_utf8("/.ralph/api/robot-checkin.json"@);
    assert(api_dir(root) =~= root + encode_utf8("/.ralph/api"@));
    assert(question_file(root) =~= root + encode_utf8("/.ralph/api/robot-question.json"@));
    assert(response_file(root) =~= root + encode_utf8("/.ralph/api/robot-response.json"@));
    assert(checkin_file(root) =~= root + encode_utf8("/.ralph/api/robot-checkin.json"@));
}

/// A write puts the text of the document itself into the file, by way of a file beside
/// it.
pub proof fn law_write_holds_the_document(write: FileWrite, path: Seq<u8>, tree: JsonTree)
    requires
        writes(write, path, tree),
    ensures
        write.path@ == path,
        write.tmp_path@ == path + encode_utf8(".tmp"@),
        write.bytes@ == encode_utf8(pretty_text(tree)),
        comes_back(pretty_text(tree), tree),
{
}

} // verus!
