//! The names of the files that a job writes.

use crate::host::{
    extension_text, file_name_bytes, file_stem_text, join_path, path_from_text, path_is_empty,
    replace_file_name,
};
use crate::text::push_decimal;
use crate::{host, text};
use std::path::{Path, PathBuf};
use vstd::prelude::*;
use vstd::utf8::*;

verus! {

/// The highest target rate, in frames per second.
pub const TARGET_FPS_MAX: u32 = 480;

/// The stem that output names start with: that of the input, or `video` where it
/// has none that can be read.
pub open spec fn output_stem(stem: Option<Seq<char>>) -> Seq<char> {
    match stem {
        Some(stem) => if stem.len() > 0 {
            stem
        } else {
            "video"@
        },
        None => "video"@,
    }
}

/// The default name of an output file without its container: the stem of the input,
/// the model, the rate, and a mark for scene protection.
pub open spec fn output_front(
    stem: Option<Seq<char>>,
    target_fps_num: int,
    scene_detection: bool,
) -> Seq<char> {
    output_stem(stem) + "__rife-4.25__"@ + text::decimal(target_fps_num as nat) + "fps"@ + (
    if scene_detection {
        "__sc"@
    } else {
        ""@
    })
}

/// The default name of an output file, an MKV file.
pub open spec fn output_name(
    stem: Option<Seq<char>>,
    target_fps_num: int,
    scene_detection: bool,
) -> Seq<char> {
    output_front(stem, target_fps_num, scene_detection) + ".mkv"@
}

/// The directory that a default output goes to: that of the input.
pub open spec fn output_directory(input: Seq<u8>) -> Seq<u8> {
    match host::path_parent(input) {
        Some(parent) => parent,
        None => encode_utf8("."@),
    }
}

/// The name of the file that a job writes until it is complete.
pub open spec fn partial_name(stem: Seq<char>, extension: Seq<char>) -> Seq<char> {
    stem + ".partial."@ + extension
}

/// The name of the incomplete output for a final name of the given stem and
/// extension, or what is missing.
pub open spec fn partial_name_of(stem: Option<Seq<char>>, extension: Option<Seq<char>>) -> Result<
    Seq<char>,
    Seq<char>,
> {
    match stem {
        None => Err("output filename must be valid UTF-8"@),
        Some(stem) => match extension {
            None => Err("output filename must have an extension"@),
            Some(extension) => Ok(partial_name(stem, extension)),
        },
    }
}

/// An optional text as characters.
pub open spec fn option_text(value: Option<&str>) -> Option<Seq<char>> {
    match value {
        Some(value) => Some(value@),
        None => None,
    }
}

/// The default name of an output file for an input of the given stem, if it has one
/// that is UTF-8.
pub fn default_output_name(
    stem: Option<&str>,
    target_fps_num: u32,
    scene_detection: bool,
) -> (name: String)
    ensures
        name@ == output_name(option_text(stem), target_fps_num as int, scene_detection),
{
    let stem = match stem {
        Some(stem) => if stem.is_empty() {
            "video"
        } else {
            stem
        },
        None => "video",
    };
    let mut name = stem.to_owned();
    name.append("__rife-4.25__");
    push_decimal(&mut name, target_fps_num as u128);
    name.append("fps");
    let mark = if scene_detection {
        "__sc"
    } else {
        ""
    };
    name.append(mark);
    name.append(".mkv");
    name
}

/// The default output path of an input: beside it, named after it, the rate and the
/// scene protection.
pub fn default_output_path(
    input_path: &Path,
    target_fps_num: u32,
    scene_detection: bool,
) -> (output: PathBuf)
    requires
        0 < target_fps_num <= TARGET_FPS_MAX,
    ensures
        host::path_buf_bytes(output) == host::path_joined(
            output_directory(host::path_bytes(input_path)),
            output_name(
                host::path_stem_text(host::path_bytes(input_path)),
                target_fps_num as int,
                scene_detection,
            ),
        ),
        host::path_file_name(host::path_buf_bytes(output)) == Some(
            encode_utf8(
                output_name(
                    host::path_stem_text(host::path_bytes(input_path)),
                    target_fps_num as int,
                    scene_detection,
                ),
            ),
        ),
{
    let stem = file_stem_text(input_path);
    proof {
        lemma_output_name_is_plain(
            host::path_stem_text(host::path_bytes(input_path)),
            target_fps_num as int,
            scene_detection,
        );
    }
    let name = match &stem {
        Some(stem) => default_output_name(Some(stem.as_str()), target_fps_num, scene_detection),
        None => default_output_name(None, target_fps_num, scene_detection),
    };
    match input_path.parent() {
        Some(parent) => join_path(parent, name.as_str()),
        None => {
            let here = path_from_text(".");
            join_path(here.as_path(), name.as_str())
        },
    }
}

/// The name of the incomplete output for a final name of the given stem and
/// extension, each where it is there and UTF-8.
pub fn partial_output_name(stem: Option<&str>, extension: Option<&str>) -> (result: Result<
    String,
    String,
>)
    ensures
        text::string_result(result) == partial_name_of(option_text(stem), option_text(extension)),
{
    match stem {
        None => Err("output filename must be valid UTF-8".to_owned()),
        Some(stem) => match extension {
            None => Err("output filename must have an extension".to_owned()),
            Some(extension) => {
                let mut name = stem.to_owned();
                name.append(".partial.");
                name.append(extension);
                Ok(name)
            },
        },
    }
}

/// What the path of the incomplete output is, or why there is none.
pub open spec fn partial_path(output: Seq<u8>) -> Result<Seq<u8>, Seq<char>> {
    match partial_name_of(host::path_stem_text(output), host::path_extension_text(output)) {
        Ok(name) => Ok(host::path_with_file_name(output, name)),
        Err(message) => Err(message),
    }
}

/// Whether a path is that of the incomplete output for an output: in the same
/// directory, under its name with `.partial` before the extension.
pub open spec fn is_partial_of(partial: Seq<u8>, output: Seq<u8>) -> bool {
    &&& partial_path(output) == Ok::<Seq<u8>, Seq<char>>(partial)
    &&& host::path_file_name(partial) == Some(
        encode_utf8(
            partial_name(host::path_stem_text(output)->0, host::path_extension_text(output)->0),
        ),
    )
    &&& host::path_parent(partial) == host::path_parent(output)
}

/// A path result with its path as bytes and its error message as characters.
pub open spec fn path_result(result: Result<PathBuf, String>) -> Result<Seq<u8>, Seq<char>> {
    match result {
        Ok(path) => Ok(host::path_buf_bytes(path)),
        Err(message) => Err(message@),
    }
}

/// The path that a job writes to until its output is complete: the output path with
/// `.partial` before its extension.
pub fn partial_output_path(output_path: &Path) -> (result: Result<PathBuf, String>)
    requires
        host::path_bytes(output_path).len() > 0,
        host::path_file_name(host::path_bytes(output_path)) is Some,
    ensures
        path_result(result) == partial_path(host::path_bytes(output_path)),
        result matches Ok(path) ==> is_partial_of(
            host::path_buf_bytes(path),
            host::path_bytes(output_path),
        ),
{
    let stem = file_stem_text(output_path);
    let extension = extension_text(output_path);
    proof {
        if stem is Some && extension is Some {
            lemma_partial_name_is_plain(stem->0@, extension->0@);
        }
    }
    let stem = match &stem {
        Some(stem) => Some(stem.as_str()),
        None => None,
    };
    let extension = match &extension {
        Some(extension) => Some(extension.as_str()),
        None => None,
    };
    match partial_output_name(stem, extension) {
        Ok(name) => Ok(replace_file_name(output_path, name.as_str())),
        Err(message) => Err(message),
    }
}

/// `partial_output_path` where the output path has a file name; none where it has
/// not.
pub fn checked_partial_output_path(output_path: &Path) -> (result: Option<Result<PathBuf, String>>)
    ensures
        result is Some <==> host::path_bytes(output_path).len() > 0 && host::path_file_name(
            host::path_bytes(output_path),
        ) is Some,
        result matches Some(path) ==> path_result(path) == partial_path(
            host::path_bytes(output_path),
        ),
        result matches Some(Ok(path)) ==> is_partial_of(
            host::path_buf_bytes(path),
            host::path_bytes(output_path),
        ),
{
    if path_is_empty(output_path) || file_name_bytes(output_path).is_none() {
        return None;
    }
    Some(partial_output_path(output_path))
}

proof fn lemma_output_name_is_plain(
    stem: Option<Seq<char>>,
    target_fps_num: int,
    scene_detection: bool,
)
    requires
        target_fps_num >= 0,
        stem matches Some(text) ==> !text.contains('/'),
    ensures
        host::is_plain_name(output_name(stem, target_fps_num, scene_detection)),
{
    reveal_strlit("video");
    reveal_strlit("__rife-4.25__");
    reveal_strlit("fps");
    reveal_strlit("__sc");
    reveal_strlit("");
    reveal_strlit(".mkv");
    let digits = text::decimal(target_fps_num as nat);
    text::decimal_is_made_of_digits(target_fps_num as nat);
    assert(!digits.contains('/')) by {
        if digits.contains('/') {
            let i = digits.index_of('/');
            assert(text::is_digit(digits[i]));
        }
    }
    let name = output_name(stem, target_fps_num, scene_detection);
    let front = output_stem(stem);
    let middle = "__rife-4.25__"@;
    assert(!front.contains('/'));
    assert forall|i: int| 0 <= i < name.len() implies name[i] != '/' by {
        if i < front.len() {
            assert(name[i] == front[i]);
        } else if i < front.len() + middle.len() {
            assert(name[i] == middle[i - front.len()]);
        } else if i < front.len() + middle.len() + digits.len() {
            assert(name[i] == digits[i - front.len() - middle.len()]);
        }
    }
    assert(name.len() > 2);
}

proof fn lemma_partial_name_is_plain(stem: Seq<char>, extension: Seq<char>)
    requires
        !stem.contains('/'),
        !extension.contains('/'),
    ensures
        host::is_plain_name(partial_name(stem, extension)),
{
    reveal_strlit(".partial.");
    let name = partial_name(stem, extension);
    assert forall|i: int| 0 <= i < name.len() implies name[i] != '/' by {
        if i < stem.len() {
            assert(name[i] == stem[i]);
        } else if i >= stem.len() + 9 {
            assert(name[i] == extension[i - stem.len() - 9]);
        }
    }
    assert(name.len() > 2);
}

proof fn lemma_encode_concatenation(left: Seq<char>, right: Seq<char>)
    ensures
        encode_utf8(left + right) == encode_utf8(left) + encode_utf8(right),
    decreases left.len(),
{
    if left.len() == 0 {
        assert(left + right =~= right);
        assert(encode_utf8(left) + encode_utf8(right) =~= encode_utf8(right));
    } else {
        lemma_encode_concatenation(left.drop_first(), right);
        assert((left + right).drop_first() =~= left.drop_first() + right);
        assert(encode_utf8(left + right) =~= encode_utf8(left) + encode_utf8(right));
    }
}

proof fn lemma_last_dot(name: Seq<u8>)
    ensures
        -1 <= host::last_dot(name) < name.len(),
        host::last_dot(name) >= 0 ==> name[host::last_dot(name)] == 46,
        forall|i: int| host::last_dot(name) < i < name.len() ==> name[i] != 46,
    decreases name.len(),
{
    if name.len() > 0 && name.last() != 46 {
        let shorter = name.drop_last();
        lemma_last_dot(shorter);
        assert forall|i: int| host::last_dot(name) < i < name.len() implies name[i] != 46 by {
            if i < shorter.len() {
                assert(shorter[i] == name[i]);
            }
        }
    }
}

/// A name that ends in a dot and an undotted extension has its last dot there.
proof fn lemma_last_dot_is(name: Seq<u8>, position: int)
    requires
        0 <= position < name.len(),
        name[position] == 46,
        forall|i: int| position < i < name.len() ==> name[i] != 46,
    ensures
        host::last_dot(name) == position,
{
    lemma_last_dot(name);
}

/// The bytes of a partial name: those of the stem, the mark and the extension, the
/// last dot before the extension.
proof fn lemma_partial_bytes(name: Seq<u8>, stem: Seq<char>, extension: Seq<char>)
    requires
        host::utf8_text(host::file_stem_of(name)) == Some(stem),
        host::extension_of(name) matches Some(bytes) && host::utf8_text(bytes) == Some(extension),
    ensures
        0 < host::last_dot(name) < name.len(),
        encode_utf8(partial_name(stem, extension)) == host::file_stem_of(name) + encode_utf8(
            ".partial"@,
        ) + encode_utf8("."@) + host::extension_of(name)->0,
        host::file_stem_of(encode_utf8(partial_name(stem, extension))) == host::file_stem_of(name)
            + encode_utf8(".partial"@),
        host::file_stem_of(name) + encode_utf8(".partial"@) == encode_utf8(stem + ".partial"@),
        host::extension_of(encode_utf8(partial_name(stem, extension))) == host::extension_of(name),
        encode_utf8(".partial"@).len() == 8,
        name == host::file_stem_of(name) + encode_utf8("."@) + host::extension_of(name)->0,
{
    let dot = host::last_dot(name);
    lemma_last_dot(name);
    let stem_bytes = host::file_stem_of(name);
    let extension_bytes = name.skip(dot + 1);
    decode_utf8_encode_utf8(stem_bytes);
    decode_utf8_encode_utf8(extension_bytes);
    let mark = ".partial"@;
    let point = "."@;
    reveal_strlit(".partial.");
    reveal_strlit(".partial");
    reveal_strlit(".");
    is_ascii_chars_encode_utf8(mark);
    is_ascii_chars_encode_utf8(point);
    assert(partial_name(stem, extension) =~= stem + mark + point + extension);
    lemma_encode_concatenation(stem, mark);
    lemma_encode_concatenation(stem + mark, point);
    lemma_encode_concatenation(stem + mark + point, extension);
    let partial = encode_utf8(partial_name(stem, extension));
    assert(point[0] == '.');
    assert(encode_utf8(point)[0] == 46);
    assert(partial[dot + 8] == encode_utf8(point)[0]);
    assert forall|i: int| dot + 8 < i < partial.len() implies partial[i] != 46 by {
        assert(partial[i] == extension_bytes[i - dot - 9]);
        assert(extension_bytes[i - dot - 9] == name[i - 8]);
    }
    lemma_last_dot_is(partial, dot + 8);
    assert(partial.take(dot + 8) =~= stem_bytes + encode_utf8(mark));
    assert(partial.skip(dot + 9) =~= extension_bytes);
    assert(name =~= stem_bytes + encode_utf8(point) + extension_bytes);
}

/// The incomplete output keeps the extension of the output, and so its container,
/// has its stem with `.partial` behind it, and so another name than the output.
pub proof fn partial_name_keeps_the_extension(name: Seq<u8>, stem: Seq<char>, extension: Seq<char>)
    requires
        host::utf8_text(host::file_stem_of(name)) == Some(stem),
        host::extension_of(name) matches Some(bytes) && host::utf8_text(bytes) == Some(extension),
    ensures
        host::extension_of(encode_utf8(partial_name(stem, extension))) == host::extension_of(name),
        host::utf8_text(host::file_stem_of(encode_utf8(partial_name(stem, extension)))) == Some(
            stem + ".partial"@,
        ),
        encode_utf8(partial_name(stem, extension)) != name,
{
    lemma_partial_bytes(name, stem, extension);
    encode_utf8_valid_utf8(stem + ".partial"@);
    encode_utf8_decode_utf8(stem + ".partial"@);
}

/// The incomplete output stands beside the output, with its extension, its stem with
/// `.partial` behind it, and under another name.
pub proof fn partials_stand_beside_their_outputs(partial: Seq<u8>, output: Seq<u8>)
    requires
        is_partial_of(partial, output),
    ensures
        host::path_parent(partial) == host::path_parent(output),
        host::path_extension_text(partial) == host::path_extension_text(output),
        host::path_stem_text(partial) == Some(host::path_stem_text(output)->0 + ".partial"@),
        host::path_file_name(partial) != host::path_file_name(output),
        partial != output,
{
    partial_name_keeps_the_extension(
        host::path_file_name(output)->0,
        host::path_stem_text(output)->0,
        host::path_extension_text(output)->0,
    );
}

/// Two outputs share an incomplete output only where they have the same directory and
/// the same name.
pub proof fn partials_tell_outputs_apart(
    partial_one: Seq<u8>,
    partial_other: Seq<u8>,
    one: Seq<u8>,
    other: Seq<u8>,
)
    requires
        is_partial_of(partial_one, one),
        is_partial_of(partial_other, other),
        host::path_parent(partial_one) == host::path_parent(partial_other),
        host::path_file_name(partial_one) == host::path_file_name(partial_other),
    ensures
        host::path_parent(one) == host::path_parent(other),
        host::path_file_name(one) == host::path_file_name(other),
{
    let name_one = host::path_file_name(one)->0;
    let name_other = host::path_file_name(other)->0;
    lemma_partial_bytes(
        name_one,
        host::path_stem_text(one)->0,
        host::path_extension_text(one)->0,
    );
    lemma_partial_bytes(
        name_other,
        host::path_stem_text(other)->0,
        host::path_extension_text(other)->0,
    );
    let stem_one = host::file_stem_of(name_one);
    let stem_other = host::file_stem_of(name_other);
    let mark = encode_utf8(".partial"@);
    assert((stem_one + mark).len() == (stem_other + mark).len());
    assert(stem_one =~= (stem_one + mark).take(stem_one.len() as int));
    assert(stem_other =~= (stem_other + mark).take(stem_other.len() as int));
}

/// The bytes of a default name: its last dot is the one before the container.
proof fn lemma_output_bytes(stem: Option<Seq<char>>, target_fps_num: int, scene_detection: bool)
    ensures
        host::file_stem_of(encode_utf8(output_name(stem, target_fps_num, scene_detection)))
            == encode_utf8(output_front(stem, target_fps_num, scene_detection)),
        host::extension_of(encode_utf8(output_name(stem, target_fps_num, scene_detection)))
            == Some(encode_utf8("mkv"@)),
{
    let front = output_front(stem, target_fps_num, scene_detection);
    let end = ".mkv"@;
    reveal_strlit(".mkv");
    reveal_strlit("mkv");
    reveal_strlit("video");
    lemma_encode_concatenation(front, end);
    is_ascii_chars_encode_utf8(end);
    is_ascii_chars_encode_utf8("mkv"@);
    let bytes = encode_utf8(output_name(stem, target_fps_num, scene_detection));
    let length = encode_utf8(front).len() as int;
    assert(front.len() > 0) by {
        assert(output_stem(stem).len() > 0);
    }
    assert(length > 0) by {
        assert(encode_utf8(front) == encode_scalar(front[0] as u32) + encode_utf8(
            front.drop_first(),
        ));
    }
    assert(bytes[length] == encode_utf8(end)[0]);
    assert(end[0] == '.');
    assert forall|i: int| length < i < bytes.len() implies bytes[i] != 46 by {
        assert(bytes[i] == encode_utf8(end)[i - length]);
    }
    lemma_last_dot_is(bytes, length);
    assert(bytes.take(length) =~= encode_utf8(front));
    assert(bytes.skip(length + 1) =~= encode_utf8("mkv"@)) by {
        assert forall|i: int| 0 <= i < 3 implies bytes.skip(length + 1)[i] == encode_utf8(
            "mkv"@,
        )[i] by {
            assert(bytes[length + 1 + i] == encode_utf8(end)[i + 1]);
        }
    }
}

/// A default output is an MKV file, and has an incomplete output.
pub proof fn default_output_is_mkv(
    stem: Option<Seq<char>>,
    target_fps_num: int,
    scene_detection: bool,
)
    ensures
        ({
            let name = encode_utf8(output_name(stem, target_fps_num, scene_detection));
            &&& host::extension_of(name) == Some(encode_utf8("mkv"@))
            &&& host::utf8_text(host::file_stem_of(name)) == Some(
                output_front(stem, target_fps_num, scene_detection),
            )
            &&& host::utf8_text(host::extension_of(name)->0) == Some("mkv"@)
            &&& partial_name_of(
                host::utf8_text(host::file_stem_of(name)),
                host::utf8_text(host::extension_of(name)->0),
            ) == Ok::<Seq<char>, Seq<char>>(
                partial_name(output_front(stem, target_fps_num, scene_detection), "mkv"@),
            )
        }),
{
    lemma_output_bytes(stem, target_fps_num, scene_detection);
    let front = output_front(stem, target_fps_num, scene_detection);
    encode_utf8_valid_utf8(front);
    encode_utf8_decode_utf8(front);
    encode_utf8_valid_utf8("mkv"@);
    encode_utf8_decode_utf8("mkv"@);
}

/// A path with a default name for its file name has an incomplete output.
pub proof fn default_outputs_have_a_partial(
    output: Seq<u8>,
    stem: Option<Seq<char>>,
    target_fps_num: int,
    scene_detection: bool,
)
    requires
        host::path_file_name(output) == Some(
            encode_utf8(output_name(stem, target_fps_num, scene_detection)),
        ),
    ensures
        partial_path(output) == Ok::<Seq<u8>, Seq<char>>(
            host::path_with_file_name(
                output,
                partial_name(output_front(stem, target_fps_num, scene_detection), "mkv"@),
            ),
        ),
{
    default_output_is_mkv(stem, target_fps_num, scene_detection);
}

/// A default output never has the name of its input.
pub proof fn default_outputs_are_not_their_inputs(
    input: Seq<u8>,
    target_fps_num: int,
    scene_detection: bool,
)
    ensures
        host::path_file_name(input) != Some(
            encode_utf8(
                output_name(host::path_stem_text(input), target_fps_num, scene_detection),
            ),
        ),
{
    let stem = host::path_stem_text(input);
    let front = output_front(stem, target_fps_num, scene_detection);
    default_output_is_mkv(stem, target_fps_num, scene_detection);
    reveal_strlit("__rife-4.25__");
    reveal_strlit("video");
    assert(stem matches Some(text) ==> front.len() > text.len());
}

/// Two default outputs of one input have the same name exactly where the rate and the
/// scene protection are the same.
pub proof fn default_names_tell_settings_apart(
    stem: Option<Seq<char>>,
    target_fps_num_one: int,
    target_fps_num_other: int,
    scene_detection_one: bool,
    scene_detection_other: bool,
)
    requires
        target_fps_num_one >= 0,
        target_fps_num_other >= 0,
    ensures
        encode_utf8(output_name(stem, target_fps_num_one, scene_detection_one)) == encode_utf8(
            output_name(stem, target_fps_num_other, scene_detection_other),
        ) <==> target_fps_num_one == target_fps_num_other && scene_detection_one
            == scene_detection_other,
{
    let name_one = output_name(stem, target_fps_num_one, scene_detection_one);
    let name_other = output_name(stem, target_fps_num_other, scene_detection_other);
    encode_utf8_decode_utf8(name_one);
    encode_utf8_decode_utf8(name_other);
    if name_one == name_other {
        let digits_one = text::decimal(target_fps_num_one as nat);
        let digits_other = text::decimal(target_fps_num_other as nat);
        text::decimal_is_made_of_digits(target_fps_num_one as nat);
        text::decimal_is_made_of_digits(target_fps_num_other as nat);
        reveal_strlit("fps");
        reveal_strlit("__sc");
        reveal_strlit("");
        reveal_strlit(".mkv");
        let start = output_stem(stem).len() + "__rife-4.25__"@.len();
        let length_one = digits_one.len() as int;
        let length_other = digits_other.len() as int;
        assert(name_one[start + length_one] == 'f');
        assert(name_other[start + length_other] == 'f');
        if length_one < length_other {
            assert(name_other[start + length_one] == digits_other[length_one]);
            assert(text::is_digit(digits_other[length_one]));
        }
        if length_other < length_one {
            assert(name_one[start + length_other] == digits_one[length_other]);
            assert(text::is_digit(digits_one[length_other]));
        }
        assert forall|i: int| 0 <= i < length_one implies digits_one[i] == digits_other[i] by {
            assert(name_one[start + i] == digits_one[i]);
            assert(name_other[start + i] == digits_other[i]);
        }
        assert(digits_one =~= digits_other);
        assert(scene_detection_one == scene_detection_other) by {
            assert(name_one.len() == name_other.len());
        }
    }
}

/// A default name begins with the stem of the input, or with `video` where it has none;
/// behind it every input has the same: the model, the digits of the rate, and the mark of
/// the scene protection exactly where there is one.
pub proof fn default_names_follow_the_input(
    stem: Seq<char>,
    other: Seq<char>,
    target_fps_num: int,
    scene_detection: bool,
)
    requires
        stem.len() > 0,
        other.len() > 0,
    ensures
        ({
            let name = output_name(Some(stem), target_fps_num, scene_detection);
            let other_name = output_name(Some(other), target_fps_num, scene_detection);
            let digits = text::decimal(target_fps_num as nat);
            let start = stem.len() as int;
            let end = start + 13 + digits.len();
            &&& stem.is_prefix_of(name)
            &&& name.skip(stem.len() as int) == other_name.skip(other.len() as int)
            &&& name.subrange(start, start + 13) == "__rife-4.25__"@
            &&& name.subrange(start + 13, end) == digits
            &&& name.subrange(end, end + 3) == "fps"@
            &&& name.len() == end + if scene_detection {
                11int
            } else {
                7int
            }
            &&& scene_detection ==> name.subrange(end + 3, end + 7) == "__sc"@
            &&& name.skip(name.len() - 4) == ".mkv"@
        }),
        output_name(None, target_fps_num, scene_detection) == output_name(
            Some("video"@),
            target_fps_num,
            scene_detection,
        ),
        output_name(Some(Seq::empty()), target_fps_num, scene_detection) == output_name(
            Some("video"@),
            target_fps_num,
            scene_detection,
        ),
{
    reveal_strlit("video");
    reveal_strlit("__rife-4.25__");
    reveal_strlit("fps");
    reveal_strlit("__sc");
    reveal_strlit("");
    reveal_strlit(".mkv");
    assert("video"@.len() == 5 && "__rife-4.25__"@.len() == 13 && "fps"@.len() == 3);
    assert("__sc"@.len() == 4 && ""@.len() == 0 && ".mkv"@.len() == 4);
    let name = output_name(Some(stem), target_fps_num, scene_detection);
    let other_name = output_name(Some(other), target_fps_num, scene_detection);
    let digits = text::decimal(target_fps_num as nat);
    let start = stem.len() as int;
    let end = start + 13 + digits.len();
    assert(stem =~= name.take(stem.len() as int));
    assert(name.skip(stem.len() as int) =~= other_name.skip(other.len() as int));
    assert(name.subrange(start, start + 13) =~= "__rife-4.25__"@);
    assert(name.subrange(start + 13, end) =~= digits);
    assert(name.subrange(end, end + 3) =~= "fps"@);
    assert(name.skip(name.len() - 4) =~= ".mkv"@);
    if scene_detection {
        assert(name.subrange(end + 3, end + 7) =~= "__sc"@);
    }
}

/// A default output goes to the directory of its input, or to the current one where the
/// input has none.
pub proof fn default_outputs_go_beside_their_inputs(input: Seq<u8>)
    ensures
        host::path_parent(input) matches Some(parent) ==> output_directory(input) == parent,
        host::path_parent(input) is None ==> output_directory(input) == seq!['.' as u8],
{
    reveal_strlit(".");
    is_ascii_chars_encode_utf8("."@);
    assert("."@[0] == '.' && "."@.len() == 1);
    assert(encode_utf8("."@) =~= seq![46u8]);
}

/// There is an incomplete output exactly where the output has a stem and an extension that
/// can be read, and the stem is asked for first.
pub proof fn partials_need_a_stem_and_an_extension(output: Seq<u8>)
    ensures
        partial_path(output) is Ok <==> host::path_stem_text(output) is Some
            && host::path_extension_text(output) is Some,
        host::path_stem_text(output) is None ==> partial_path(output) == Err::<
            Seq<u8>,
            Seq<char>,
        >("output filename must be valid UTF-8"@),
        host::path_stem_text(output) is Some && host::path_extension_text(output) is None
            ==> partial_path(output) == Err::<Seq<u8>, Seq<char>>(
            "output filename must have an extension"@,
        ),
{
}

} // verus!
