//! Requests for pages and for static files.

use crate::access::{check_page_path, page_passage, Passage};
use crate::text::chars_of;
use vstd::prelude::*;
use vstd::string::StrSliceExecFns;

verus! {

/// Why a page is not served.
#[derive(Clone, Copy, Debug, PartialEq, Eq, Structural)]
pub enum PageError {
    /// The path holds `..`.
    InvalidPath,
    /// The path leads out of the volume.
    AccessDenied,
    /// There is no such page.
    NotFound,
    /// The directory for the page could not be made.
    DirectoryFailed,
}

impl PageError {
    /// The status code with which the error is answered.
    pub open spec fn code(self) -> u16 {
        match self {
            PageError::InvalidPath => 403,
            PageError::AccessDenied => 403,
            PageError::NotFound => 404,
            PageError::DirectoryFailed => 500,
        }
    }

    /// The words with which the error is answered.
    pub open spec fn words(self) -> Seq<char> {
        match self {
            PageError::InvalidPath => "Invalid path"@,
            PageError::AccessDenied => "Access denied"@,
            PageError::NotFound => "Page not found"@,
            PageError::DirectoryFailed => "Failed to create directory"@,
        }
    }

    /// Returns the status code with which the error is answered.
    pub fn status_code(self) -> (code: u16)
        ensures
            code == self.code(),
    {
        match self {
            PageError::InvalidPath => 403,
            PageError::AccessDenied => 403,
            PageError::NotFound => 404,
            PageError::DirectoryFailed => 500,
        }
    }

    /// Returns the words with which the error is answered.
    pub fn message(self) -> (text: &'static str)
        ensures
            text@ == self.words(),
    {
        match self {
            PageError::InvalidPath => "Invalid path",
            PageError::AccessDenied => "Access denied",
            PageError::NotFound => "Page not found",
            PageError::DirectoryFailed => "Failed to create directory",
        }
    }
}

/// What becomes of a request for a page, seen from its path alone and from
/// whether the place it leads to lies in the volume.
pub open spec fn page_answer(path: Seq<char>, in_volume: bool) -> Result<(), PageError> {
    if page_passage(path) is Forbidden {
        Err(PageError::InvalidPath)
    } else if !in_volume {
        Err(PageError::AccessDenied)
    } else {
        Ok(())
    }
}

/// Decides whether a page may be read or written; `in_volume` tells whether
/// the place that the path leads to lies in the volume. A path with `..` is
/// refused whatever it leads to.
pub fn admit_page(path: &str, in_volume: bool) -> (answer: Result<(), PageError>)
    ensures
        answer == page_answer(path@, in_volume),
{
    match check_page_path(path) {
        Passage::Forbidden => Err(PageError::InvalidPath),
        _ => if in_volume {
            Ok(())
        } else {
            Err(PageError::AccessDenied)
        },
    }
}

/// Whether the page is read from the file with `.md` in place of its
/// extension: where the path leads to no file of its own and that file exists.
pub fn reads_markdown_file(found: bool, is_dir: bool, markdown_found: bool) -> (yes: bool)
    ensures
        yes == ((!found || is_dir) && markdown_found),
{
    (!found || is_dir) && markdown_found
}

/// How many slashes a text starts with.
pub open spec fn leading_slashes(path: Seq<char>) -> nat
    decreases path.len(),
{
    if path.len() > 0 && path[0] == '/' {
        1 + leading_slashes(path.drop_first())
    } else {
        0
    }
}

/// The static file that a request may be for: its path without the slashes
/// in front, or none where nothing is left.
pub open spec fn static_name(path: Seq<char>) -> Option<Seq<char>> {
    let name = path.skip(leading_slashes(path) as int);
    if name.len() > 0 {
        Some(name)
    } else {
        None
    }
}

/// Returns the name of the static file that a request may be for.
pub fn static_file(path: &str) -> (name: Option<String>)
    ensures
        match name {
            Some(n) => static_name(path@) == Some(n@),
            None => static_name(path@) is None,
        },
{
    let chars = chars_of(path);
    let mut at: usize = 0;
    assert(chars@.skip(0) =~= chars@);
    while at < chars.len() && chars[at] == '/'
        invariant
            at <= chars.len(),
            chars@ == path@,
            leading_slashes(chars@) == at + leading_slashes(chars@.skip(at as int)),
        decreases chars.len() - at,
    {
        assert(chars@.skip(at as int).drop_first() =~= chars@.skip(at + 1));
        at += 1;
    }
    assert(leading_slashes(chars@.skip(at as int)) == 0);
    if at == chars.len() {
        None
    } else {
        assert(chars@.skip(at as int) =~= chars@.subrange(at as int, chars.len() as int));
        Some(path.substring_char(at, chars.len()).to_owned())
    }
}

} // verus!
