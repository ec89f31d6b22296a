//! Names under which uploads are stored: a fresh random identifier, a dot,
//! and the extension that the client's file name declares.

use vstd::prelude::*;
use vstd::string::StringExecFns;
use crate::utils::sanitize::{
    base_name, is_plain_name, lemma_base_name_is_final_segment, lemma_plain_name_is_kept,
    parent_segment, sanitize,
};
use crate::utils::text::chars_of;

verus! {

/// Position of the last `.` in `name`, if it has one.
pub open spec fn last_dot(name: Seq<char>) -> Option<int>
    decreases name.len(),
{
    let len = name.len() as int;
    if len == 0 {
        None
    } else if name[len - 1] == '.' {
        Some(len - 1)
    } else {
        last_dot(name.subrange(0, len - 1))
    }
}

/// The extension of the file name `name`: what follows its last `.`, unless
/// that dot opens the name (a hidden file has no extension) or is missing.
pub open spec fn extension(name: Seq<char>) -> Option<Seq<char>> {
    match last_dot(name) {
        Some(dot) => if dot > 0 {
            Some(name.subrange(dot + 1, name.len() as int))
        } else {
            None
        },
        None => None,
    }
}

/// The extension that the client's file name declares, if any. Directory
/// components in front of the name do not count.
pub open spec fn declared_extension(original_name: Seq<char>) -> Option<Seq<char>> {
    match base_name(original_name) {
        Some(name) => extension(name),
        None => None,
    }
}

/// The extension given to uploads whose name declares none.
pub open spec fn fallback_extension() -> Seq<char> {
    seq!['b', 'i', 'n']
}

/// The extension under which an upload named `original_name` is stored.
pub open spec fn stored_extension(original_name: Seq<char>) -> Seq<char> {
    match declared_extension(original_name) {
        Some(declared) => declared,
        None => fallback_extension(),
    }
}

/// A digit of lower-case hexadecimal notation.
pub open spec fn is_lower_hex(c: char) -> bool {
    ('0' <= c && c <= '9') || ('a' <= c && c <= 'f')
}

/// Where the canonical text of an identifier holds its hyphens.
pub open spec fn is_hyphen_position(i: int) -> bool {
    i == 8 || i == 13 || i == 18 || i == 23
}

/// The canonical text of a random (version 4) identifier: 32 lower-case
/// hexadecimal digits in groups of 8, 4, 4, 4 and 12, joined by hyphens,
/// the third group opening with the version digit `4` and the fourth with
/// one of the variant digits `8`, `9`, `a`, `b`.
pub open spec fn is_v4_identifier(text: Seq<char>) -> bool {
    &&& text.len() == 36
    &&& forall|i: int|
        0 <= i < 36 ==> if is_hyphen_position(i) {
            #[trigger] text[i] == '-'
        } else {
            is_lower_hex(text[i])
        }
    &&& text[14] == '4'
    &&& (text[19] == '8' || text[19] == '9' || text[19] == 'a' || text[19] == 'b')
}

/// The stored name built from an identifier and an extension.
pub open spec fn stored_name_of(identifier: Seq<char>, extension: Seq<char>) -> Seq<char> {
    identifier + seq!['.'] + extension
}

/// Whether `stored` is a name that `generate` may give to an upload named
/// `original_name`: some version 4 identifier, a dot, and the stored
/// extension of the original name.
pub open spec fn is_generated_name(stored: Seq<char>, original_name: Seq<char>) -> bool {
    &&& stored.len() >= 36
    &&& is_v4_identifier(stored.subrange(0, 36))
    &&& stored == stored_name_of(stored.subrange(0, 36), stored_extension(original_name))
}

/// The path of the entry `name` in `directory`. A separator is put between
/// the two unless the directory is empty or already ends in one; a name
/// that begins with a separator is a path of its own and replaces the
/// directory.
pub open spec fn joined_path(directory: Seq<char>, name: Seq<char>) -> Seq<char> {
    if name.len() > 0 && name[0] == '/' {
        name
    } else if directory.len() == 0 || directory[directory.len() - 1] == '/' {
        directory + name
    } else {
        directory + seq!['/'] + name
    }
}

/// Index of the last `.` in `chars`.
fn last_dot_index(chars: &Vec<char>) -> (dot: Option<usize>)
    ensures
        match dot {
            Some(i) => i < chars.len() && last_dot(chars@) == Some(i as int),
            None => last_dot(chars@) is None,
        },
{
    let mut end: usize = chars.len();
    assert(chars@.subrange(0, end as int) == chars@);
    while end > 0 && chars[end - 1] != '.'
        invariant
            end <= chars.len(),
            last_dot(chars@) == last_dot(chars@.subrange(0, end as int)),
        decreases end,
    {
        proof {
            let front = chars@.subrange(0, end as int);
            assert(front.subrange(0, end - 1) == chars@.subrange(0, end - 1));
        }
        end = end - 1;
    }
    if end == 0 {
        None
    } else {
        Some(end - 1)
    }
}

/// The extension under which an upload named `original_name` is stored: the
/// one its file name declares, or `bin` if it declares none.
pub fn extension_of(original_name: &str) -> (extension: String)
    ensures
        extension@ == stored_extension(original_name@),
{
    proof {
        reveal_strlit("bin");
    }
    assert("bin"@ == fallback_extension());
    match sanitize(original_name) {
        Some(name) => {
            let chars = chars_of(name.as_str());
            match last_dot_index(&chars) {
                Some(dot) => {
                    if dot > 0 {
                        name.as_str().substring_char(dot + 1, chars.len()).to_owned()
                    } else {
                        "bin".to_owned()
                    }
                },
                None => "bin".to_owned(),
            }
        },
        None => "bin".to_owned(),
    }
}

/// The name under which an upload is stored, given its identifier.
pub fn stored_name(identifier: &str, original_name: &str) -> (stored: String)
    ensures
        stored@ == stored_name_of(identifier@, stored_extension(original_name@)),
{
    let extension = extension_of(original_name);
    join_name(identifier, extension.as_str())
}

/// An identifier, a dot and an extension, in one string.
fn join_name(identifier: &str, extension: &str) -> (stored: String)
    ensures
        stored@ == stored_name_of(identifier@, extension@),
{
    proof {
        reveal_strlit(".");
    }
    assert("."@ == seq!['.']);
    let mut stored = identifier.to_owned();
    stored.append(".");
    stored.append(extension);
    stored
}

/// Draws a random identifier with `uuid::Uuid::new_v4` and renders it with
/// the `Display` impl of `uuid::Uuid`.
///
/// Not verified. The contract claims what holds of every identifier drawn:
/// `new_v4` fixes the version and variant bits, and `Display` writes the
/// hyphenated lower-case form. Which identifier comes back is left open.
/// `new_v4` aborts the program if the operating system cannot supply random
/// bytes.
#[verifier::external_body]
pub(crate) fn fresh_identifier() -> (identifier: String)
    ensures
        is_v4_identifier(identifier@),
{
    uuid::Uuid::new_v4().to_string()
}

/// Picks the name under which an upload named `original_name` is stored and
/// returns it together with its extension.
///
/// Each call draws a fresh identifier; no check is made that the name is
/// unused.
pub fn generate(original_name: &str) -> (named: (String, String))
    ensures
        named.1@ == stored_extension(original_name@),
        is_generated_name(named.0@, original_name@),
{
    let identifier = fresh_identifier();
    let extension = extension_of(original_name);
    let stored = join_name(identifier.as_str(), extension.as_str());
    assert(stored@.subrange(0, 36) == identifier@);
    (stored, extension)
}

/// The path of the entry `name` in `directory`.
pub fn storage_path(directory: &str, name: &str) -> (path: String)
    ensures
        path@ == joined_path(directory@, name@),
{
    proof {
        reveal_strlit("/");
    }
    assert("/"@ == seq!['/']);
    let name_chars = chars_of(name);
    if name_chars.len() > 0 && name_chars[0] == '/' {
        return name.to_owned();
    }
    let directory_chars = chars_of(directory);
    let mut path = directory.to_owned();
    if directory_chars.len() > 0 && directory_chars[directory_chars.len() - 1] != '/' {
        path.append("/");
    }
    path.append(name);
    path
}

/// The last dot of a name is a dot, and no dot follows it.
pub proof fn lemma_last_dot(name: Seq<char>)
    ensures
        match last_dot(name) {
            Some(dot) => {
                &&& 0 <= dot < name.len()
                &&& name[dot] == '.'
                &&& forall|i: int| dot < i < name.len() ==> name[i] != '.'
            },
            None => !name.contains('.'),
        },
    decreases name.len(),
{
    let len = name.len() as int;
    if len > 0 && name[len - 1] != '.' {
        let front = name.subrange(0, len - 1);
        lemma_last_dot(front);
        match last_dot(front) {
            Some(dot) => {
                assert(front[dot] == name[dot]);
                assert forall|i: int| dot < i < len implies name[i] != '.' by {
                    if i < len - 1 {
                        assert(front[i] == name[i]);
                    }
                }
            },
            None => {
                assert forall|i: int| 0 <= i < len implies name[i] != '.' by {
                    if i < len - 1 {
                        assert(front[i] == name[i]);
                        assert(front.contains(front[i]));
                    }
                }
            },
        }
    }
}

/// The extension under which an upload is stored holds neither a dot nor a
/// separator, whatever the client sent as the file's name.
pub proof fn lemma_stored_extension_is_clean(original_name: Seq<char>)
    ensures
        !stored_extension(original_name).contains('.'),
        !stored_extension(original_name).contains('/'),
{
    let stored = stored_extension(original_name);
    match declared_extension(original_name) {
        Some(declared) => {
            let name = base_name(original_name).unwrap();
            lemma_base_name_is_final_segment(original_name);
            lemma_last_dot(name);
            let dot = last_dot(name).unwrap();
            assert forall|i: int| 0 <= i < declared.len() implies declared[i] != '.'
                && declared[i] != '/' by {
                assert(declared[i] == name[dot + 1 + i]);
                assert(name.contains(name[dot + 1 + i]));
            }
        },
        None => {
            assert forall|i: int| 0 <= i < stored.len() implies stored[i] != '.' && stored[i]
                != '/' by {}
        },
    }
}

/// A client's extension is kept: a file name made of a stem, a dot and an
/// extension without further dots is stored under that extension.
pub proof fn lemma_declared_extension_is_kept(stem: Seq<char>, declared: Seq<char>)
    requires
        stem.len() > 0,
        !stem.contains('/'),
        !declared.contains('/'),
        !declared.contains('.'),
        stem + seq!['.'] + declared != parent_segment(),
    ensures
        stored_extension(stem + seq!['.'] + declared) == declared,
{
    let name = stem + seq!['.'] + declared;
    let dot = stem.len() as int;
    assert forall|i: int| 0 <= i < name.len() implies name[i] != '/' by {
        if i < dot {
            assert(stem.contains(stem[i]));
        } else if i > dot {
            assert(declared.contains(declared[i - dot - 1]));
        }
    }
    assert(name != seq!['.']) by {
        assert(name.len() >= 2);
    }
    lemma_plain_name_is_kept(Seq::empty(), name);
    lemma_last_dot(name);
    assert(name[dot] == '.');
    assert(name.contains('.'));
    let found = last_dot(name).unwrap();
    if found > dot {
        assert(declared[found - dot - 1] == '.');
        assert(declared.contains('.'));
    }
    assert(found == dot);
    assert(name.subrange(dot + 1, name.len() as int) == declared);
}

/// A file name without a dot declares no extension and is stored as `bin`.
pub proof fn lemma_missing_extension_falls_back(original_name: Seq<char>)
    requires
        !original_name.contains('.'),
    ensures
        stored_extension(original_name) == fallback_extension(),
{
    if base_name(original_name) is Some {
        let name = base_name(original_name).unwrap();
        lemma_base_name_is_final_segment(original_name);
        lemma_last_dot(name);
        if last_dot(name) is Some {
            let dot = last_dot(name).unwrap();
            let start = crate::utils::sanitize::without_trailing_blanks(original_name).len()
                - name.len();
            assert(original_name[start + dot] == name[dot]);
            assert(original_name.contains('.'));
        }
    }
}

/// A generated name is a plain name: it survives sanitising unchanged, so
/// the name reported for an upload is the name under which it is found
/// again.
pub proof fn lemma_generated_name_is_plain(stored: Seq<char>, original_name: Seq<char>)
    requires
        is_generated_name(stored, original_name),
    ensures
        is_plain_name(stored),
        base_name(stored) == Some(stored),
{
    let identifier = stored.subrange(0, 36);
    let extension = stored_extension(original_name);
    lemma_stored_extension_is_clean(original_name);
    assert forall|i: int| 0 <= i < stored.len() implies stored[i] != '/' by {
        if i < 36 {
            assert(stored[i] == identifier[i]);
            assert(is_hyphen_position(i) || is_lower_hex(identifier[i]));
        } else if i > 36 {
            assert(stored[i] == extension[i - 37]);
            assert(extension.contains(extension[i - 37]));
        }
    }
    lemma_plain_name_is_kept(Seq::empty(), stored);
}

/// Joining a plain name to a directory gives a path that begins with the
/// directory and whose base name is that name: the path names an entry of
/// the directory and nothing beyond it.
pub proof fn lemma_joined_path_keeps_name(directory: Seq<char>, name: Seq<char>)
    requires
        is_plain_name(name),
    ensures
        directory.is_prefix_of(joined_path(directory, name)),
        base_name(joined_path(directory, name)) == Some(name),
{
    assert(name.contains(name[0]));
    if directory.len() == 0 {
        lemma_plain_name_is_kept(Seq::empty(), name);
        assert(directory + name == name);
    } else if directory[directory.len() - 1] == '/' {
        let front = directory.subrange(0, directory.len() - 1);
        lemma_plain_name_is_kept(front, name);
        assert(front + seq!['/'] == directory);
    } else {
        lemma_plain_name_is_kept(directory, name);
    }
}

} // verus!
