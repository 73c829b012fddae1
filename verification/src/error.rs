//! The kinds of error that the front end reports.

use vstd::prelude::*;

verus! {

/// What is wrong with a program, as far as the analysis that runs ahead of
/// parsing can tell.
#[derive(Debug)]
pub enum ParseProgramError {
    /// The shape of the syntax tree is not the expected one.
    ESTreeError(&'static str),
    /// The program uses a construct outside the accepted subset.
    SourceRestrictionError(&'static str),
    /// An attribute statement is followed by no statement, or by another
    /// attribute statement.
    DanglingAttributeError,
    /// The attribute string does not follow the grammar of attributes.
    AttributeParseError,
    /// The right-hand side of an attribute statement is no string literal.
    AttributeNotStringLiteralError,
    /// The attribute's key is not one that a statement can have.
    AttributeUnrecognizedError(String),
    /// The attribute is not allowed here, or its value is not.
    AttributeContentError(&'static str),
    /// The name is declared twice in one scope.
    DuplicateDeclarationError(String),
    /// The name is used and declared nowhere.
    UndeclaredNameError(String),
    /// The name is imported from a module that does not export it.
    UndeclaredExportError(String),
    /// The name is exported twice.
    DuplicateExportError(String),
    /// A direct function uses a variable of a scope around it.
    DirectFunctionCaptureError,
}

/// The mathematical value of a `ParseProgramError`.
pub enum ParseProgramErrorView {
    ESTreeError(Seq<char>),
    SourceRestrictionError(Seq<char>),
    DanglingAttributeError,
    AttributeParseError,
    AttributeNotStringLiteralError,
    AttributeUnrecognizedError(Seq<char>),
    AttributeContentError(Seq<char>),
    DuplicateDeclarationError(Seq<char>),
    UndeclaredNameError(Seq<char>),
    UndeclaredExportError(Seq<char>),
    DuplicateExportError(Seq<char>),
    DirectFunctionCaptureError,
}

impl View for ParseProgramError {
    type V = ParseProgramErrorView;

    open spec fn view(&self) -> ParseProgramErrorView {
        match self {
            ParseProgramError::ESTreeError(m) => ParseProgramErrorView::ESTreeError(m@),
            ParseProgramError::SourceRestrictionError(m) => ParseProgramErrorView::SourceRestrictionError(
                m@,
            ),
            ParseProgramError::DanglingAttributeError => ParseProgramErrorView::DanglingAttributeError,
            ParseProgramError::AttributeParseError => ParseProgramErrorView::AttributeParseError,
            ParseProgramError::AttributeNotStringLiteralError => ParseProgramErrorView::AttributeNotStringLiteralError,
            ParseProgramError::AttributeUnrecognizedError(k) => ParseProgramErrorView::AttributeUnrecognizedError(
                k@,
            ),
            ParseProgramError::AttributeContentError(m) => ParseProgramErrorView::AttributeContentError(
                m@,
            ),
            ParseProgramError::DuplicateDeclarationError(n) => ParseProgramErrorView::DuplicateDeclarationError(
                n@,
            ),
            ParseProgramError::UndeclaredNameError(n) => ParseProgramErrorView::UndeclaredNameError(n@),
            ParseProgramError::UndeclaredExportError(n) => ParseProgramErrorView::UndeclaredExportError(
                n@,
            ),
            ParseProgramError::DuplicateExportError(n) => ParseProgramErrorView::DuplicateExportError(
                n@,
            ),
            ParseProgramError::DirectFunctionCaptureError => ParseProgramErrorView::DirectFunctionCaptureError,
        }
    }
}

/// An error of the analysis with its place.
pub type ProgramError = crate::log::CompileMessage<ParseProgramError>;

/// The mathematical value of a `ProgramError`.
pub type ProgramErrorView = crate::log::CompileMessageView<ParseProgramErrorView>;

/// The error of the given kind at the place of a node of the given file.
pub open spec fn program_error(
    loc: Option<crate::log::Span>,
    filename: Option<Seq<char>>,
    kind: ParseProgramErrorView,
) -> ProgramErrorView {
    crate::log::error_at(crate::log::spec_into_sl(loc, filename), kind)
}

/// The error of the given kind at the place of a node of the given file.
pub fn new_program_error(
    loc: &Option<crate::log::Span>,
    filename: Option<&str>,
    kind: ParseProgramError,
) -> (e: ProgramError)
    ensures
        e@ == program_error(*loc, crate::log::opt_str_view(filename), kind@),
{
    crate::log::CompileMessage::new_error(crate::log::into_sl(loc, filename), kind)
}

/// What is wrong with an import manifest.
#[derive(Debug)]
pub enum ImportsParseError {
    /// The first line is not the header of an import manifest.
    InvalidHeader,
    /// The line ends after the local name.
    MissingHostModuleName,
    /// The line ends after the name of the host module.
    MissingHostEntityName,
    /// The line ends after the name of the host entity.
    MissingReturnType,
    /// The token names no type that an import can take or return.
    InvalidVarType(String),
}

/// The mathematical value of an `ImportsParseError`.
pub enum ImportsParseErrorView {
    InvalidHeader,
    MissingHostModuleName,
    MissingHostEntityName,
    MissingReturnType,
    InvalidVarType(Seq<char>),
}

impl View for ImportsParseError {
    type V = ImportsParseErrorView;

    open spec fn view(&self) -> ImportsParseErrorView {
        match self {
            ImportsParseError::InvalidHeader => ImportsParseErrorView::InvalidHeader,
            ImportsParseError::MissingHostModuleName => ImportsParseErrorView::MissingHostModuleName,
            ImportsParseError::MissingHostEntityName => ImportsParseErrorView::MissingHostEntityName,
            ImportsParseError::MissingReturnType => ImportsParseErrorView::MissingReturnType,
            ImportsParseError::InvalidVarType(t) => ImportsParseErrorView::InvalidVarType(t@),
        }
    }
}

/// The dependencies of the modules form a cycle.
#[derive(Clone, Copy, Debug, PartialEq, Eq, Structural)]
pub struct GraphError {}

/// Why a module could not be had.
#[derive(Debug)]
pub enum FetcherError {
    /// The module could not be fetched.
    FetchError(String),
    /// What was fetched is no syntax tree.
    ESTreeParseError(String),
    /// What was fetched is an import manifest with an error.
    ImportsParseError(ImportsParseError),
}

impl FetcherError {
    /// Whether the search for a module goes on with the next candidate name
    /// after this error: it does where nothing was fetched, or where what was
    /// fetched is no syntax tree.
    pub open spec fn spec_is_retryable(&self) -> bool {
        self is FetchError || self is ESTreeParseError
    }

    /// Whether the search for a module goes on with the next candidate name
    /// after this error.
    pub fn is_retryable(&self) -> (r: bool)
        ensures
            r == self.spec_is_retryable(),
    {
        match self {
            FetcherError::FetchError(_) => true,
            FetcherError::ESTreeParseError(_) => true,
            FetcherError::ImportsParseError(_) => false,
        }
    }
}

/// Why the graph of modules could not be built.
#[derive(Debug)]
pub enum DepError {
    /// A module could not be had.
    Fetcher(FetcherError),
    /// The dependencies of the modules form a cycle.
    Graph(GraphError),
}

} // verus!
