//! What can end a search, and how it is reported.

use vstd::prelude::*;

verus! {

/// Why a search failed. Each error names what it was about, and keeps the text of the
/// underlying failure as its cause.
#[derive(Clone, Debug)]
pub enum LffError {
    /// The directory to search could not be opened.
    StartDirectory { directory: String, cause: String },
    /// A file's absolute path could not be found.
    AbsolutePath { path: Vec<u8>, cause: String },
    /// A file's metadata could not be read.
    Metadata { path: Vec<u8>, cause: String },
    /// The name pattern is not a valid glob.
    InvalidPattern { pattern: String, cause: String },
    /// A directory entry, or its type, could not be read.
    Entry { cause: String },
}

/// What `String::from_utf8_lossy` makes of `b`.
pub uninterp spec fn lossy_text(b: Seq<u8>) -> Seq<char>;

/// What `Debug` writes for the string `s`: `s` in double quotes, with escapes.
pub uninterp spec fn debug_text(s: Seq<char>) -> Seq<char>;

/// A path as it is shown to a reader: as text, quoted and escaped.
pub open spec fn quoted_path(p: Seq<u8>) -> Seq<char> {
    debug_text(lossy_text(p))
}

/// Relies on `String::from_utf8_lossy`, whose result depends on the bytes alone.
#[verifier::external_body]
fn text_of_bytes(b: &[u8]) -> (r: String)
    ensures
        r@ == lossy_text(b@),
{
    String::from_utf8_lossy(b).into_owned()
}

/// Relies on `<str as Debug>::fmt`, whose result depends on the characters alone.
#[verifier::external_body]
fn debug_quoted(s: &str) -> (r: String)
    ensures
        r@ == debug_text(s@),
{
    format!("{:?}", s)
}

/// `p` as it is shown to a reader.
pub fn quote_path(p: &[u8]) -> (r: String)
    ensures
        r@ == quoted_path(p@),
{
    let text = text_of_bytes(p);
    debug_quoted(text.as_str())
}

/// The first line of the report of `e`.
pub open spec fn message_of(e: LffError) -> Seq<char> {
    match e {
        LffError::StartDirectory { directory, .. } => "Invalid supplied start directory: '"@
            + directory@ + "'"@,
        LffError::AbsolutePath { path, .. } => "Could not generate absolute path for "@
            + quoted_path(path@),
        LffError::Metadata { path, .. } => "Could not retrieve metadata for "@ + quoted_path(
            path@,
        ),
        LffError::InvalidPattern { pattern, .. } => "Invalid glob from name pattern flag: '"@
            + pattern@ + "'"@,
        LffError::Entry { cause } => cause@,
    }
}

/// The underlying failure of `e`, if it has one beside its own message.
pub open spec fn cause_of(e: LffError) -> Option<Seq<char>> {
    match e {
        LffError::StartDirectory { cause, .. } => Some(cause@),
        LffError::AbsolutePath { cause, .. } => Some(cause@),
        LffError::Metadata { cause, .. } => Some(cause@),
        LffError::InvalidPattern { cause, .. } => Some(cause@),
        LffError::Entry { .. } => None,
    }
}

/// A report: the message, a blank line, and the cause if there is one.
pub open spec fn report_text(message: Seq<char>, cause: Option<Seq<char>>) -> Seq<char> {
    match cause {
        Some(c) => message + "\n\n"@ + "Caused by:\n    "@ + c,
        None => message + "\n\n"@,
    }
}

/// Lays out a report of a failure from its message and its cause.
pub fn render_report(message: &str, cause: Option<&str>) -> (r: String)
    ensures
        r@ == report_text(message@, match cause {
            Some(c) => Some(c@),
            None => None,
        }),
{
    let mut out = String::from_str(message);
    out.append("\n\n");
    if let Some(c) = cause {
        out.append("Caused by:\n    ");
        out.append(c);
    }
    out
}

impl LffError {
    /// The message of this error, naming what failed.
    pub fn message(&self) -> (r: String)
        ensures
            r@ == message_of(*self),
    {
        match self {
            LffError::StartDirectory { directory, .. } => {
                let mut s = String::from_str("Invalid supplied start directory: '");
                s.append(directory.as_str());
                s.append("'");
                s
            },
            LffError::AbsolutePath { path, .. } => {
                let mut s = String::from_str("Could not generate absolute path for ");
                let q = quote_path(path.as_slice());
                s.append(q.as_str());
                s
            },
            LffError::Metadata { path, .. } => {
                let mut s = String::from_str("Could not retrieve metadata for ");
                let q = quote_path(path.as_slice());
                s.append(q.as_str());
                s
            },
            LffError::InvalidPattern { pattern, .. } => {
                let mut s = String::from_str("Invalid glob from name pattern flag: '");
                s.append(pattern.as_str());
                s.append("'");
                s
            },
            LffError::Entry { cause } => cause.clone(),
        }
    }

    /// The underlying failure, if this error has one beside its message.
    pub fn cause(&self) -> (r: Option<String>)
        ensures
            match r {
                Some(c) => cause_of(*self) == Some(c@),
                None => cause_of(*self) is None,
            },
    {
        match self {
            LffError::StartDirectory { cause, .. } => Some(cause.clone()),
            LffError::AbsolutePath { cause, .. } => Some(cause.clone()),
            LffError::Metadata { cause, .. } => Some(cause.clone()),
            LffError::InvalidPattern { cause, .. } => Some(cause.clone()),
            LffError::Entry { .. } => None,
        }
    }

    /// The full report of this error: its message, then its cause.
    pub fn report(&self) -> (r: String)
        ensures
            r@ == report_text(message_of(*self), cause_of(*self)),
    {
        let m = self.message();
        match self.cause() {
            Some(c) => render_report(m.as_str(), Some(c.as_str())),
            None => render_report(m.as_str(), None),
        }
    }
}

} // verus!
