//! Functions of the standard library that the rest of the crate calls and that
//! the verifier takes on their documentation. Paths are those of a Unix system.

use std::path::{Path, PathBuf};
use vstd::prelude::*;
use vstd::utf8::*;

verus! {

/// `String::push` appends one character to the text.
pub assume_specification[ String::push ](s: &mut String, c: char)
    ensures
        final(s)@ == old(s)@.push(c),
;

/// `String::clear` removes every character of the text.
pub assume_specification[ String::clear ](s: &mut String)
    ensures
        final(s)@ == Seq::<char>::empty(),
;

/// `String::pop` removes the last character, if there is one, and returns it.
pub assume_specification[ String::pop ](s: &mut String) -> (last: Option<char>)
    ensures
        old(s)@.len() == 0 ==> last is None && final(s)@ == old(s)@,
        old(s)@.len() > 0 ==> last == Some(old(s)@.last()) && final(s)@ == old(s)@.drop_last(),
;

/// A path of the operating system, borrowed.
#[verifier::external_type_specification]
#[verifier::external_body]
pub struct ExPath(std::path::Path);

/// A path of the operating system, owned.
#[verifier::external_type_specification]
#[verifier::external_body]
pub struct ExPathBuf(std::path::PathBuf);

/// The bytes that a borrowed path holds.
pub uninterp spec fn path_bytes(path: &Path) -> Seq<u8>;

/// The bytes that an owned path holds.
pub uninterp spec fn path_buf_bytes(path: PathBuf) -> Seq<u8>;

/// What `Path::parent` gives: the path without its last component.
pub uninterp spec fn path_parent(path: Seq<u8>) -> Option<Seq<u8>>;

/// What `Path::file_name` gives: the last component, where it is a name.
pub uninterp spec fn path_file_name(path: Seq<u8>) -> Option<Seq<u8>>;

/// What `Path::join` gives for a path and a text.
pub uninterp spec fn path_joined(path: Seq<u8>, name: Seq<char>) -> Seq<u8>;

/// What `Path::with_file_name` gives for a path and a name.
pub uninterp spec fn path_with_file_name(path: Seq<u8>, name: Seq<char>) -> Seq<u8>;

/// What `==` gives for two paths.
pub uninterp spec fn path_equal(left: Seq<u8>, right: Seq<u8>) -> bool;

/// What `Path::display` shows of a path.
pub uninterp spec fn path_display(path: Seq<u8>) -> Seq<char>;

/// The position of the last dot, or -1 where there is none.
pub open spec fn last_dot(name: Seq<u8>) -> int
    decreases name.len(),
{
    if name.len() == 0 {
        -1
    } else if name.last() == 46 {
        name.len() - 1
    } else {
        last_dot(name.drop_last())
    }
}

/// The part of a file name before its last dot; the whole name where it has no dot
/// or only one at its start.
pub open spec fn file_stem_of(name: Seq<u8>) -> Seq<u8> {
    if last_dot(name) <= 0 {
        name
    } else {
        name.take(last_dot(name))
    }
}

/// The part of a file name after its last dot; none where it has no dot or only one
/// at its start.
pub open spec fn extension_of(name: Seq<u8>) -> Option<Seq<u8>> {
    if last_dot(name) <= 0 {
        None
    } else {
        Some(name.skip(last_dot(name) + 1))
    }
}

/// The text that bytes hold, where they are UTF-8.
pub open spec fn utf8_text(bytes: Seq<u8>) -> Option<Seq<char>> {
    if valid_utf8(bytes) {
        Some(decode_utf8(bytes))
    } else {
        None
    }
}

/// A path's file name, where there is one and it is UTF-8.
pub open spec fn path_name_text(path: Seq<u8>) -> Option<Seq<char>> {
    match path_file_name(path) {
        Some(name) => utf8_text(name),
        None => None,
    }
}

/// The stem of a path's file name, where there is one and it is UTF-8.
pub open spec fn path_stem_text(path: Seq<u8>) -> Option<Seq<char>> {
    match path_file_name(path) {
        Some(name) => utf8_text(file_stem_of(name)),
        None => None,
    }
}

/// The extension of a path's file name, where there is one and it is UTF-8.
pub open spec fn path_extension_text(path: Seq<u8>) -> Option<Seq<char>> {
    match path_file_name(path) {
        Some(name) => match extension_of(name) {
            Some(extension) => utf8_text(extension),
            None => None,
        },
        None => None,
    }
}

/// Whether a text can be the last component of a path: it has no slash, and is
/// neither empty nor one or two dots.
pub open spec fn is_plain_name(name: Seq<char>) -> bool {
    &&& name.len() > 0
    &&& !name.contains('/')
    &&& name != seq!['.']
    &&& name != seq!['.', '.']
}

/// Whether an optional text is the given one.
pub open spec fn is_option_text(actual: Option<String>, expected: Option<Seq<char>>) -> bool {
    match actual {
        Some(value) => expected == Some(value@),
        None => expected is None,
    }
}

/// `PathBuf::clone` gives the same path.
pub assume_specification[ <std::path::PathBuf as Clone>::clone ](p: &std::path::PathBuf) -> (r:
    std::path::PathBuf)
    ensures
        r == *p,
;

/// `PathBuf::as_path` borrows the path.
pub assume_specification[ std::path::PathBuf::as_path ](p: &std::path::PathBuf) -> (r:
    &std::path::Path)
    ensures
        path_bytes(r) == path_buf_bytes(*p),
;

/// `Path::to_path_buf` copies the path.
pub assume_specification[ std::path::Path::to_path_buf ](p: &std::path::Path) -> (r:
    std::path::PathBuf)
    ensures
        path_buf_bytes(r) == path_bytes(p),
;

/// `Path::parent` is named by `path_parent`.
pub assume_specification[ std::path::Path::parent ](p: &std::path::Path) -> (r: Option<
    &std::path::Path,
>)
    ensures
        r is Some <==> path_parent(path_bytes(p)) is Some,
        r matches Some(q) ==> path_parent(path_bytes(p)) == Some(path_bytes(q)),
;

/// `Path::is_absolute`: on Unix a path is absolute where it begins with a slash.
pub assume_specification[ std::path::Path::is_absolute ](p: &std::path::Path) -> (r: bool)
    ensures
        r == (path_bytes(p).len() > 0 && path_bytes(p)[0] == 47),
;

/// `OsStr::is_empty` on the text of a path: the path holds no bytes.
#[verifier::external_body]
pub(crate) fn path_is_empty(path: &Path) -> (result: bool)
    ensures
        result == (path_bytes(path).len() == 0),
{
    path.as_os_str().is_empty()
}

/// `Path::file_name`, as bytes, is named by `path_file_name`.
#[verifier::external_body]
pub(crate) fn file_name_bytes(path: &Path) -> (name: Option<Vec<u8>>)
    ensures
        match name {
            Some(bytes) => path_file_name(path_bytes(path)) == Some(bytes@),
            None => path_file_name(path_bytes(path)) is None,
        },
{
    path.file_name().map(|name| name.as_encoded_bytes().to_vec())
}

/// `String::from_utf8`: the text that bytes hold, where they are UTF-8.
#[verifier::external_body]
pub(crate) fn utf8_string(bytes: Vec<u8>) -> (string: Option<String>)
    ensures
        is_option_text(string, utf8_text(bytes@)),
{
    String::from_utf8(bytes).ok()
}

/// A path's file name, where there is one and it is UTF-8.
pub(crate) fn file_name_text(path: &Path) -> (name: Option<String>)
    ensures
        is_option_text(name, path_name_text(path_bytes(path))),
{
    match file_name_bytes(path) {
        Some(bytes) => utf8_string(bytes),
        None => None,
    }
}

/// `Path::file_stem`, as text: the file name up to its last dot. It is part of one
/// component of the path, so it is not empty and has no slash.
#[verifier::external_body]
pub(crate) fn file_stem_text(path: &Path) -> (stem: Option<String>)
    ensures
        is_option_text(stem, path_stem_text(path_bytes(path))),
        stem matches Some(text) ==> text@.len() > 0 && !text@.contains('/'),
{
    path.file_stem().and_then(|stem| stem.to_str()).map(|stem| stem.to_owned())
}

/// `Path::extension`, as text: the file name after its last dot. It is part of one
/// component of the path, so it has no slash.
#[verifier::external_body]
pub(crate) fn extension_text(path: &Path) -> (extension: Option<String>)
    ensures
        is_option_text(extension, path_extension_text(path_bytes(path))),
        extension matches Some(text) ==> !text@.contains('/'),
{
    path.extension().and_then(|extension| extension.to_str()).map(|extension| extension.to_owned())
}

/// `Path::join` with a text is named by `path_joined`. A text that is one component
/// is the file name of the result.
#[verifier::external_body]
pub(crate) fn join_path(path: &Path, name: &str) -> (joined: PathBuf)
    ensures
        path_buf_bytes(joined) == path_joined(path_bytes(path), name@),
        is_plain_name(name@) ==> path_file_name(path_buf_bytes(joined)) == Some(
            encode_utf8(name@),
        ),
{
    path.join(name)
}

/// `Path::with_file_name` is named by `path_with_file_name`. A name that is one
/// component is the file name of the result, and where the path has a file name that
/// it takes the place of, the result is in the same directory.
#[verifier::external_body]
pub(crate) fn replace_file_name(path: &Path, name: &str) -> (replaced: PathBuf)
    ensures
        path_buf_bytes(replaced) == path_with_file_name(path_bytes(path), name@),
        is_plain_name(name@) ==> path_file_name(path_buf_bytes(replaced)) == Some(
            encode_utf8(name@),
        ),
        is_plain_name(name@) && path_file_name(path_bytes(path)) is Some ==> path_parent(
            path_buf_bytes(replaced),
        ) == path_parent(path_bytes(path)),
{
    path.with_file_name(name)
}

/// `Path::new` on a text, copied: the bytes of the text are the bytes of the path.
#[verifier::external_body]
pub(crate) fn path_from_text(text: &str) -> (path: PathBuf)
    ensures
        path_buf_bytes(path) == encode_utf8(text@),
{
    Path::new(text).to_path_buf()
}

/// `==` on paths is named by `path_equal`.
#[verifier::external_body]
pub(crate) fn same_path(left: &Path, right: &Path) -> (result: bool)
    ensures
        result == path_equal(path_bytes(left), path_bytes(right)),
{
    left == right
}

/// `Path::display` is named by `path_display`.
#[verifier::external_body]
pub(crate) fn display_text(path: &Path) -> (text: String)
    ensures
        text@ == path_display(path_bytes(path)),
{
    path.display().to_string()
}

/// What `String::from_utf8_lossy` makes of bytes.
pub uninterp spec fn lossy_text(bytes: Seq<u8>) -> Seq<char>;

/// `String::from_utf8_lossy` is named by `lossy_text`.
#[verifier::external_body]
pub(crate) fn text_from_bytes(bytes: &[u8]) -> (text: String)
    ensures
        text@ == lossy_text(bytes@),
{
    String::from_utf8_lossy(bytes).into_owned()
}

/// Whether a character is white space: it has the Unicode property `White_Space`.
pub open spec fn is_whitespace(character: char) -> bool {
    let code = character as u32;
    ||| 0x09 <= code <= 0x0d
    ||| code == 0x20
    ||| code == 0x85
    ||| code == 0xa0
    ||| code == 0x1680
    ||| 0x2000 <= code <= 0x200a
    ||| code == 0x2028
    ||| code == 0x2029
    ||| code == 0x202f
    ||| code == 0x205f
    ||| code == 0x3000
}

/// `char::is_whitespace` tells whether a character has the Unicode property
/// `White_Space`, which the listed characters have and no other.
pub assume_specification[ char::is_whitespace ](c: char) -> (r: bool)
    ensures
        r == is_whitespace(c),
;

} // verus!
