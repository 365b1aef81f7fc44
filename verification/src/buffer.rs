//! The parts of an editor buffer the rest of the library reads: its file,
//! its text and whether it has unsaved changes.
use vstd::prelude::*;
use vstd::string::*;

use crate::paths::{file_name, file_name_of};
use crate::text::copy_str;

verus! {

/// A position in a buffer: line and character column (both 0-based).
#[derive(Clone, Copy, Debug, PartialEq, Eq, Structural)]
pub struct Cursor {
    pub line: usize,
    pub col: usize,
}

pub struct Buffer {
    /// The file the buffer belongs to; `None` for an untitled scratch buffer.
    pub path: Option<String>,
    pub text: String,
    /// Whether the text differs from what was last loaded or saved.
    pub dirty: bool,
}

/// The name a buffer shows: its file name, or "untitled" without one.
pub open spec fn display_name_of(path: Option<String>) -> Seq<char> {
    match path {
        Some(p) => match file_name_of(p@) {
            Some(n) => n,
            None => "untitled"@,
        },
        None => "untitled"@,
    }
}

impl Buffer {
    pub fn new(path: Option<String>, text: &str) -> (b: Buffer)
        ensures
            b.path == path,
            b.text@ == text@,
            !b.dirty,
    {
        Buffer { path, text: copy_str(text), dirty: false }
    }

    pub fn display_name(&self) -> (r: String)
        ensures
            r@ == display_name_of(self.path),
    {
        match &self.path {
            Some(p) => match file_name(p.as_str()) {
                Some(n) => n,
                None => String::from_str("untitled"),
            },
            None => String::from_str("untitled"),
        }
    }
}

} // verus!
