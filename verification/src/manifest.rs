//! The manifest of the installed add-on, and the version written in it.
//!
//! The manifest is a text file. Somewhere in it stands `Version: ` followed
//! by the version and, often, by a bar and a locale: `Version: 12.66|enUS`.
//! The first such place counts, and of its value only the digits and dots
//! in front of the first bar.

use crate::decimal::is_digit;
use crate::text::{chars_of, leading_run, lemma_leading_run_is, matches_at};
use crate::version::{parse_spec, ParseError, Version};
use vstd::prelude::*;
use vstd::string::StringExecFns;

verus! {

/// Where the manifest lies below the add-ons directory.
pub const MANIFEST_PATH: &'static str = "ElvUI/ElvUI_Mainline.toc";

/// What came of reading the manifest file.
#[derive(Debug)]
pub enum ManifestRead {
    /// There is no such file: the add-on is not installed.
    Missing,
    /// The file is there and could not be read.
    Unreadable,
    /// The text of the file.
    Text(String),
}

/// Why the installed version could not be told.
#[derive(Clone, Copy, Debug, PartialEq, Eq, Structural)]
pub enum ManifestError {
    /// The manifest exists and reading it failed.
    Io,
    /// The manifest holds no `Version: ` followed by a value.
    NoVersionLine,
    /// What the manifest gives for the version is no version.
    InvalidVersion(ParseError),
}

/// The words that stand before the version.
pub open spec fn label() -> Seq<char> {
    "Version: "@
}

/// The characters that a value is made of: digits, dots and bars.
pub open spec fn is_value_char(c: char) -> bool {
    c == '|' || c == '.' || is_digit(c)
}

/// The characters that the version itself is made of: digits and dots.
pub open spec fn number_char() -> spec_fn(char) -> bool {
    |c: char| c == '.' || is_digit(c)
}

/// Whether the label stands in `text` at position `i`.
pub open spec fn label_at(text: Seq<char>, i: int) -> bool {
    &&& 0 <= i
    &&& i + label().len() <= text.len()
    &&& text.subrange(i, i + label().len()) == label()
}

/// Whether a version field begins at position `i` of `text`: the label,
/// followed by at least one character of a value.
pub open spec fn field_at(text: Seq<char>, i: int) -> bool {
    &&& label_at(text, i)
    &&& i + label().len() < text.len()
    &&& is_value_char(text[i + label().len()])
}

/// Whether the first version field of `text` begins at position `i`.
pub open spec fn is_first_field(text: Seq<char>, i: int) -> bool {
    &&& field_at(text, i)
    &&& forall|j: int| 0 <= j < i ==> !field_at(text, j)
}

/// Where the first version field of `text` begins, if it has one.
pub open spec fn first_field(text: Seq<char>) -> Option<int> {
    if exists|i: int| is_first_field(text, i) {
        Some(choose|i: int| is_first_field(text, i))
    } else {
        None
    }
}

/// The version that a manifest names: the digits and dots that follow the
/// label of its first version field, up to the first other character.
/// `None` where the manifest has no version field.
pub open spec fn version_text(text: Seq<char>) -> Option<Seq<char>> {
    match first_field(text) {
        None => None,
        Some(i) => {
            let value = text.skip(i + label().len());
            Some(value.take(leading_run(value, number_char())))
        },
    }
}

/// What the installed version is, given what came of reading the manifest.
pub open spec fn installed_version_of(read: ManifestRead) -> Result<
    Option<Seq<char>>,
    ManifestError,
> {
    match read {
        ManifestRead::Missing => Ok(None),
        ManifestRead::Unreadable => Err(ManifestError::Io),
        ManifestRead::Text(content) => match version_text(content@) {
            None => Err(ManifestError::NoVersionLine),
            Some(version) => match parse_spec(version) {
                Ok(_) => Ok(Some(version)),
                Err(e) => Err(ManifestError::InvalidVersion(e)),
            },
        },
    }
}

/// A text has at most one first version field.
pub proof fn lemma_first_field_is(text: Seq<char>, k: int)
    requires
        is_first_field(text, k),
    ensures
        first_field(text) == Some(k),
{
    let chosen = choose|i: int| is_first_field(text, i);
    if chosen < k {
        assert(!field_at(text, chosen));
    } else if k < chosen {
        assert(!field_at(text, k));
    }
}

/// A text in which the label stands nowhere has no version field, so a
/// manifest without a version line is an error and never an empty answer.
pub proof fn lemma_no_label_no_version(content: String)
    requires
        forall|i: int| !label_at(content@, i),
    ensures
        version_text(content@) is None,
        installed_version_of(ManifestRead::Text(content)) == Err::<
            Option<Seq<char>>,
            ManifestError,
        >(ManifestError::NoVersionLine),
{
    if exists|i: int| is_first_field(content@, i) {
        let i = choose|i: int| is_first_field(content@, i);
        assert(field_at(content@, i));
    }
}

/// A manifest that reads `before`, then the label, then a version of
/// digits and dots, and then goes on with a bar, with any other character
/// that is neither digit nor dot, or not at all, names that version,
/// provided that no version field begins within `before`.
pub proof fn lemma_version_after_label(before: Seq<char>, version: Seq<char>, after: Seq<char>)
    requires
        version.len() > 0,
        forall|i: int| 0 <= i < version.len() ==> number_char()(#[trigger] version[i]),
        after.len() > 0 ==> !number_char()(after[0]),
        forall|j: int|
            0 <= j < before.len() ==> !field_at(before + label() + version + after, j),
    ensures
        version_text(before + label() + version + after) == Some(version),
{
    let text = before + label() + version + after;
    let k = before.len() as int;
    let start = k + label().len();
    assert(text.subrange(k, start) =~= label());
    assert(text[start] == version[0]);
    assert(number_char()(version[0]));
    assert(is_first_field(text, k));
    lemma_first_field_is(text, k);
    let value = text.skip(start);
    assert(value =~= version + after);
    assert forall|j: int| 0 <= j < version.len() implies number_char()(#[trigger] value[j]) by {
        assert(value[j] == version[j]);
    }
    if version.len() < value.len() {
        assert(value[version.len() as int] == after[0]);
    }
    lemma_leading_run_is(value, number_char(), version.len() as int);
    assert(value.take(version.len() as int) =~= version);
}

/// A missing manifest means that nothing is installed; it is no error.
pub proof fn lemma_missing_manifest_is_no_error()
    ensures
        installed_version_of(ManifestRead::Missing) == Ok::<Option<Seq<char>>, ManifestError>(
            None,
        ),
{
}

/// Whether `c` may stand in a value.
fn value_char(c: char) -> (yes: bool)
    ensures
        yes == is_value_char(c),
{
    c == '|' || c == '.' || ('0' <= c && c <= '9')
}

/// Where the run of digits and dots that begins at `start` ends.
fn number_end(chars: &Vec<char>, start: usize) -> (end: usize)
    requires
        start <= chars.len(),
    ensures
        start <= end <= chars.len(),
        end - start == leading_run(chars@.skip(start as int), number_char()),
{
    let mut end: usize = start;
    while end < chars.len() && (chars[end] == '.' || ('0' <= chars[end] && chars[end] <= '9'))
        invariant
            start <= end <= chars.len(),
            forall|j: int| start <= j < end ==> number_char()(#[trigger] chars@[j]),
        decreases chars.len() - end,
    {
        end += 1;
    }
    proof {
        let rest = chars@.skip(start as int);
        assert forall|j: int| 0 <= j < end - start implies number_char()(#[trigger] rest[j]) by {
            assert(rest[j] == chars@[start + j]);
        }
        if end < chars.len() {
            assert(rest[end - start] == chars@[end as int]);
        }
        lemma_leading_run_is(rest, number_char(), end - start);
    }
    end
}

/// Finds the version that a manifest names: looks for the first
/// `Version: ` that a digit, a dot or a bar follows, and returns the digits
/// and dots that follow it. `None` where the text holds no such place.
pub fn find_version(content: &str) -> (found: Option<String>)
    ensures
        match found {
            Some(version) => version_text(content@) == Some(version@),
            None => version_text(content@) is None,
        },
{
    let chars = chars_of(content);
    let words = chars_of("Version: ");
    let mut i: usize = 0;
    while i < chars.len() && chars.len() - i > words.len()
        invariant
            chars@ == content@,
            words@ == label(),
            i <= chars.len(),
            forall|j: int| 0 <= j < i ==> !field_at(content@, j),
        decreases chars.len() - i,
    {
        if matches_at(&chars, i, &words) && value_char(chars[i + words.len()]) {
            let start = i + words.len();
            let end = number_end(&chars, start);
            let version = String::from_str(content.substring_char(start, end));
            proof {
                assert(is_first_field(content@, i as int));
                lemma_first_field_is(content@, i as int);
                let value = content@.skip(start as int);
                assert(value.take(end - start) =~= content@.subrange(start as int, end as int));
            }
            return Some(version);
        }
        i += 1;
    }
    proof {
        if exists|k: int| is_first_field(content@, k) {
            let k = choose|k: int| is_first_field(content@, k);
            assert(field_at(content@, k));
        }
    }
    None
}

/// Tells the installed version from what came of reading the manifest. A
/// missing manifest means that nothing is installed, which is no error. A
/// manifest that could not be read, one that names no version, and one
/// whose version is malformed are errors.
pub fn read_installed_version(read: &ManifestRead) -> (result: Result<
    Option<String>,
    ManifestError,
>)
    ensures
        match result {
            Ok(Some(version)) => installed_version_of(*read) == Ok::<
                Option<Seq<char>>,
                ManifestError,
            >(Some(version@)),
            Ok(None) => installed_version_of(*read) == Ok::<Option<Seq<char>>, ManifestError>(
                None,
            ),
            Err(e) => installed_version_of(*read) == Err::<Option<Seq<char>>, ManifestError>(e),
        },
{
    match read {
        ManifestRead::Missing => Ok(None),
        ManifestRead::Unreadable => Err(ManifestError::Io),
        ManifestRead::Text(content) => match find_version(content.as_str()) {
            None => Err(ManifestError::NoVersionLine),
            Some(version) => match Version::parse(version.as_str()) {
                Ok(_) => Ok(Some(version)),
                Err(e) => Err(ManifestError::InvalidVersion(e)),
            },
        },
    }
}

} // verus!
