//! Diagnostics: where in the source a message points, and the message.

use vstd::prelude::*;

verus! {

/// A position in a source file.
#[derive(Clone, Copy, Debug, PartialEq, Eq, Structural)]
pub struct Position {
    pub line: i32,
    pub column: i32,
}

/// The stretch of a source file that a syntax node was read from.
#[derive(Clone, Copy, Debug, PartialEq, Eq, Structural)]
pub struct Span {
    pub start: Position,
    pub end: Position,
}

/// How grave a message is.
#[derive(Clone, Copy, Debug, PartialEq, Eq, Structural)]
pub enum Severity {
    Hint,
    Note,
    Warning,
    Error,
}

/// A stretch of a named source file.
#[derive(Clone, Debug)]
pub struct SourceLocation {
    pub file: Option<String>,
    pub start: Position,
    pub end: Position,
}

/// The mathematical value of a `SourceLocation`.
pub struct SourceLocationView {
    pub file: Option<Seq<char>>,
    pub start: Position,
    pub end: Position,
}

impl View for SourceLocation {
    type V = SourceLocationView;

    open spec fn view(&self) -> SourceLocationView {
        SourceLocationView { file: opt_string_view(self.file), start: self.start, end: self.end }
    }
}

/// The characters of an optional string.
pub open spec fn opt_string_view(s: Option<String>) -> Option<Seq<char>> {
    match s {
        Some(s) => Some(s@),
        None => None,
    }
}

/// The characters of an optional string slice.
pub open spec fn opt_str_view(s: Option<&str>) -> Option<Seq<char>> {
    match s {
        Some(s) => Some(s@),
        None => None,
    }
}

/// The location that a message about a syntax node points to: the node's
/// stretch of the file, or the start of the file where the node has none.
pub open spec fn spec_into_sl(loc: Option<Span>, filename: Option<Seq<char>>) -> SourceLocationView {
    match loc {
        Some(span) => SourceLocationView { file: filename, start: span.start, end: span.end },
        None => SourceLocationView {
            file: filename,
            start: Position { line: 0, column: 0 },
            end: Position { line: 0, column: 0 },
        },
    }
}

/// The location of the whole of a line.
pub open spec fn spec_entire_line(line: i32, filename: Option<Seq<char>>) -> SourceLocationView {
    SourceLocationView {
        file: filename,
        start: Position { line, column: 0 },
        end: Position { line: next_line(line), column: 0 },
    }
}

/// The number of the line after the given one; the last line has no successor.
pub open spec fn next_line(line: i32) -> i32 {
    if line < i32::MAX {
        (line + 1) as i32
    } else {
        line
    }
}

/// A copy of an optional file name.
pub fn clone_filename(filename: Option<&str>) -> (file: Option<String>)
    ensures
        opt_string_view(file) == opt_str_view(filename),
{
    match filename {
        Some(name) => Some(name.to_owned()),
        None => None,
    }
}

/// The location that a message about a syntax node points to.
pub fn into_sl(loc: &Option<Span>, filename: Option<&str>) -> (sl: SourceLocation)
    ensures
        sl@ == spec_into_sl(*loc, opt_str_view(filename)),
{
    match loc {
        Some(span) => SourceLocation {
            file: clone_filename(filename),
            start: span.start,
            end: span.end,
        },
        None => SourceLocation {
            file: clone_filename(filename),
            start: Position { line: 0, column: 0 },
            end: Position { line: 0, column: 0 },
        },
    }
}

impl SourceLocation {
    /// A location from its four coordinates.
    pub fn new(
        start_line: i32,
        start_column: i32,
        end_line: i32,
        end_column: i32,
        filename: Option<&str>,
    ) -> (sl: SourceLocation)
        ensures
            sl@ == (SourceLocationView {
                file: opt_str_view(filename),
                start: Position { line: start_line, column: start_column },
                end: Position { line: end_line, column: end_column },
            }),
    {
        SourceLocation {
            file: clone_filename(filename),
            start: Position { line: start_line, column: start_column },
            end: Position { line: end_line, column: end_column },
        }
    }

    /// The location of the whole of a line.
    pub fn entire_line(line: i32, filename: Option<&str>) -> (sl: SourceLocation)
        ensures
            sl@ == spec_entire_line(line, opt_str_view(filename)),
    {
        let next: i32 = if line < i32::MAX {
            line + 1
        } else {
            line
        };
        SourceLocation::new(line, 0, next, 0, filename)
    }
}

/// A message of the compiler about a place in the source.
#[derive(Debug)]
pub struct CompileMessage<E> {
    pub location: SourceLocation,
    pub severity: Severity,
    pub message: E,
}

/// The mathematical value of a `CompileMessage` whose message has the
/// mathematical value `M`.
pub struct CompileMessageView<M> {
    pub location: SourceLocationView,
    pub severity: Severity,
    pub message: M,
}

impl<E: View> View for CompileMessage<E> {
    type V = CompileMessageView<E::V>;

    open spec fn view(&self) -> CompileMessageView<E::V> {
        CompileMessageView {
            location: self.location@,
            severity: self.severity,
            message: self.message@,
        }
    }
}

/// An error with the given message at the given place.
pub open spec fn error_at<M>(location: SourceLocationView, message: M) -> CompileMessageView<M> {
    CompileMessageView { location, severity: Severity::Error, message }
}

impl<E: View> CompileMessage<E> {
    /// An error with the given message at the given place.
    pub fn new_error(location: SourceLocation, message: E) -> (cm: CompileMessage<E>)
        ensures
            cm@ == error_at(location@, message@),
    {
        CompileMessage { location, severity: Severity::Error, message }
    }

    /// The message without its place.
    pub fn message(&self) -> (m: &E)
        ensures
            *m == self.message,
    {
        &self.message
    }
}

} // verus!
