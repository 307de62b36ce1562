//! The checks that predicates are built from: on a file's name, on the
//! names above it, and on the format of its content.

use crate::pattern::regex_matches;
use crate::pattern::Pattern;
use vstd::prelude::*;

verus! {

/// The number of leading bytes of a file that its format is told from.
pub const SNIFF_LEN: usize = 256;

/// The media type that `file_format::FileFormat::from_bytes` and
/// `file_format::FileFormat::media_type` give for a file that begins with `bytes`.
pub uninterp spec fn media_type_of(bytes: Seq<u8>) -> Seq<char>;

/// Detects the format of `bytes` with `file_format::FileFormat::from_bytes`
/// and names it with `file_format::FileFormat::media_type`.
///
/// Trusted: the media type depends on the bytes alone.
#[verifier::external_body]
fn detect_media_type(bytes: &[u8]) -> (media: String)
    ensures
        media@ == media_type_of(bytes@),
{
    file_format::FileFormat::from_bytes(bytes).media_type().to_string()
}

/// The window that a format is told from: the first `SNIFF_LEN` bytes of
/// `head`, followed by zeros where `head` is shorter.
pub open spec fn sniff_window_of(head: Seq<u8>) -> Seq<u8> {
    Seq::new(
        SNIFF_LEN as nat,
        |i: int|
            if i < head.len() {
                head[i]
            } else {
                0u8
            },
    )
}

/// The window that the format of a file beginning with `head` is told from.
pub fn sniff_window(head: &[u8]) -> (window: Vec<u8>)
    ensures
        window@ == sniff_window_of(head@),
{
    let mut window: Vec<u8> = Vec::new();
    let mut i: usize = 0;
    while i < SNIFF_LEN
        invariant
            i <= SNIFF_LEN,
            window@.len() == i,
            forall|j: int| 0 <= j < i ==> window@[j] == sniff_window_of(head@)[j],
        decreases SNIFF_LEN - i,
    {
        let byte: u8 = if i < head.len() {
            head[i]
        } else {
            0
        };
        window.push(byte);
        i += 1;
    }
    assert(window@ =~= sniff_window_of(head@));
    window
}

/// Whether a path is a file whose name matches `pattern`.
///
/// `is_dir` tells whether the path is a directory, `file_name` is its
/// final component. A directory never matches.
pub fn file_contains(is_dir: bool, file_name: &str, pattern: &Pattern) -> (hit: bool)
    ensures
        hit == (!is_dir && regex_matches(pattern@, file_name@)),
{
    if !is_dir {
        pattern.is_match(file_name)
    } else {
        false
    }
}

/// Whether a path is a file whose content has the media type `kind`.
///
/// `is_dir` tells whether the path is a directory, `head` holds the bytes
/// that could be read from the start of the file; fewer than `SNIFF_LEN`
/// count as followed by zeros. A directory never has the type.
pub fn file_is_format(is_dir: bool, head: &[u8], kind: &str) -> (hit: bool)
    ensures
        hit == (!is_dir && media_type_of(sniff_window_of(head@)) == kind@),
{
    if !is_dir {
        let window = sniff_window(head);
        let media = detect_media_type(window.as_slice());
        media == kind.to_owned()
    } else {
        false
    }
}

/// Whether one of the names above a path matches `pattern`.
///
/// `ancestors` holds the components of the path's parent directory.
pub fn parent_contains(ancestors: &[String], pattern: &Pattern) -> (hit: bool)
    ensures
        hit == exists|i: int|
            0 <= i < ancestors@.len() && regex_matches(pattern@, #[trigger] ancestors@[i]@),
{
    let mut i: usize = 0;
    while i < ancestors.len()
        invariant
            i <= ancestors@.len(),
            forall|j: int| 0 <= j < i ==> !regex_matches(pattern@, #[trigger] ancestors@[j]@),
        decreases ancestors@.len() - i,
    {
        if pattern.is_match(ancestors[i].as_str()) {
            return true;
        }
        i += 1;
    }
    false
}

/// The rule that leaves out the files whose name matches `pattern`.
/// Directories pass.
pub fn file_excludes(is_dir: bool, file_name: &str, pattern: &Pattern) -> (pass: bool)
    ensures
        pass == (is_dir || !regex_matches(pattern@, file_name@)),
{
    is_dir || !file_contains(is_dir, file_name, pattern)
}

/// The rule that keeps the files whose name matches `pattern`.
/// Directories pass.
pub fn file_includes(is_dir: bool, file_name: &str, pattern: &Pattern) -> (pass: bool)
    ensures
        pass == (is_dir || regex_matches(pattern@, file_name@)),
{
    is_dir || file_contains(is_dir, file_name, pattern)
}

/// The rule that leaves out the files whose content has the media type
/// `kind`. Directories pass.
pub fn file_excludes_format(is_dir: bool, head: &[u8], kind: &str) -> (pass: bool)
    ensures
        pass == (is_dir || media_type_of(sniff_window_of(head@)) != kind@),
{
    is_dir || !file_is_format(is_dir, head, kind)
}

/// The rule that keeps the files whose content has the media type `kind`.
/// Directories pass.
pub fn file_includes_format(is_dir: bool, head: &[u8], kind: &str) -> (pass: bool)
    ensures
        pass == (is_dir || media_type_of(sniff_window_of(head@)) == kind@),
{
    is_dir || file_is_format(is_dir, head, kind)
}

/// The rule that fails below every directory whose name matches `pattern`.
pub fn parent_excludes(ancestors: &[String], pattern: &Pattern) -> (pass: bool)
    ensures
        pass == forall|i: int|
            0 <= i < ancestors@.len() ==> !regex_matches(pattern@, #[trigger] ancestors@[i]@),
{
    !parent_contains(ancestors, pattern)
}

/// The rule that holds below every directory whose name matches `pattern`.
pub fn parent_includes(ancestors: &[String], pattern: &Pattern) -> (pass: bool)
    ensures
        pass == exists|i: int|
            0 <= i < ancestors@.len() && regex_matches(pattern@, #[trigger] ancestors@[i]@),
{
    parent_contains(ancestors, pattern)
}

} // verus!
