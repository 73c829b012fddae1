//! The import manifest: which functions of the host a program can call.
//!
//! The first line of a manifest is `@SourceImports`. Each further line is
//! empty or names one import: the local name, the module and the entity of
//! the host, the type of the result, and the types of the parameters, with
//! spaces between them. The types are `undefined`, `number` and `string`.

use vstd::prelude::*;
use crate::error::{ImportsParseError, ImportsParseErrorView};
use crate::frontendvar::{
    copy_types, spec_try_coalesce, ProgramPreExports, VarCtx, VarCtxView, VarValue, VarValueView,
};
use crate::log::{
    clone_filename, error_at, next_line, CompileMessage, CompileMessageView, Position,
    SourceLocation, SourceLocationView,
};
use crate::text::{
    byte_len, byte_len_of, chars_of, clamp_i32, range_eq, ranges_of, ranges_within, split,
    split_ranges, str_eq, substring,
};
use crate::vartype::VarType;

verus! {

/// The type of a parameter or of the result of an import.
#[derive(Clone, Copy, Debug, PartialEq, Eq, Structural)]
pub enum ImportValType {
    Undefined,
    Number,
    String,
}

impl ImportValType {
    /// The static type of a value of this type.
    pub open spec fn spec_vartype(self) -> VarType {
        match self {
            ImportValType::Undefined => VarType::Undefined,
            ImportValType::Number => VarType::Number,
            ImportValType::String => VarType::String,
        }
    }

    /// The static type of a value of this type.
    pub fn vartype(self) -> (t: VarType)
        ensures
            t == self.spec_vartype(),
    {
        match self {
            ImportValType::Undefined => VarType::Undefined,
            ImportValType::Number => VarType::Number,
            ImportValType::String => VarType::String,
        }
    }
}

/// A function of the host.
#[derive(Debug)]
pub struct Import {
    pub module_name: String,
    pub entity_name: String,
    pub params: Vec<ImportValType>,
    pub result: ImportValType,
}

/// The mathematical value of an `Import`.
pub struct ImportView {
    pub module_name: Seq<char>,
    pub entity_name: Seq<char>,
    pub params: Seq<ImportValType>,
    pub result: ImportValType,
}

impl View for Import {
    type V = ImportView;

    open spec fn view(&self) -> ImportView {
        ImportView {
            module_name: self.module_name@,
            entity_name: self.entity_name@,
            params: self.params@,
            result: self.result,
        }
    }
}

/// The index of a function of the module under construction.
pub type FuncIdx = usize;

/// The imports of a manifest, each with its local name, in the order of
/// the lines.
#[derive(Debug)]
pub struct ImportSpec {
    pub content: Vec<(String, Import)>,
}

/// The mathematical value of an `ImportSpec`.
pub type ImportSpecView = Seq<(Seq<char>, ImportView)>;

impl View for ImportSpec {
    type V = ImportSpecView;

    open spec fn view(&self) -> ImportSpecView {
        Seq::new(self.content@.len(), |i: int| (self.content@[i].0@, self.content@[i].1@))
    }
}

/// An error in a manifest with its place.
pub type ImportsError = CompileMessage<ImportsParseError>;

/// The mathematical value of an `ImportsError`.
pub type ImportsErrorView = CompileMessageView<ImportsParseErrorView>;

/// The sequence without the carriage return at its end, if it has one.
pub open spec fn strip_cr(s: Seq<char>) -> Seq<char> {
    if s.len() > 0 && s.last() == '\r' {
        s.drop_last()
    } else {
        s
    }
}

/// The lines of a text. A line ends in a line feed, or in a carriage return
/// and a line feed, neither of which belongs to the line; the last line need
/// not end so.
pub open spec fn spec_lines(text: Seq<char>) -> Seq<Seq<char>> {
    let pieces = split(text, '\n');
    let ended = Seq::new((pieces.len() - 1) as nat, |i: int| strip_cr(pieces[i]));
    if pieces.last().len() == 0 {
        ended
    } else {
        ended.push(pieces.last())
    }
}

/// The bounds of the lines of a text.
pub fn line_ranges(chars: &Vec<char>) -> (lines: Vec<(usize, usize)>)
    ensures
        ranges_within(lines@, 0, chars@.len() as int),
        ranges_of(chars@, lines@) == spec_lines(chars@),
{
    let pieces = split_ranges(chars, 0, chars.len(), '\n');
    assert(chars@.subrange(0, chars@.len() as int) =~= chars@);
    let ghost pv = split(chars@, '\n');
    let mut lines: Vec<(usize, usize)> = Vec::new();
    let count = pieces.len() - 1;
    let ghost ended = Seq::new(count as nat, |i: int| strip_cr(pv[i]));
    let mut i: usize = 0;
    while i < count
        invariant
            i <= count,
            count == pieces@.len() - 1,
            pv == ranges_of(chars@, pieces@),
            ended == Seq::new(count as nat, |i: int| strip_cr(pv[i])),
            ranges_within(pieces@, 0, chars@.len() as int),
            ranges_within(lines@, 0, chars@.len() as int),
            ranges_of(chars@, lines@) == ended.take(i as int),
        decreases count - i,
    {
        let (a, b) = pieces[i];
        let end = if b > a && chars[b - 1] == '\r' {
            b - 1
        } else {
            b
        };
        let ghost before = ranges_of(chars@, lines@);
        lines.push((a, end));
        proof {
            let piece = chars@.subrange(a as int, b as int);
            assert(pv[i as int] == piece);
            if b > a {
                assert(piece.last() == chars@[b - 1]);
            }
            assert(chars@.subrange(a as int, end as int) =~= strip_cr(piece));
            assert(ranges_of(chars@, lines@) =~= before.push(strip_cr(piece)));
            assert(ended.take(i + 1) =~= ended.take(i as int).push(ended[i as int]));
        }
        i = i + 1;
    }
    assert(ended.take(count as int) =~= ended);
    let last = pieces[count];
    if last.0 != last.1 {
        let ghost before = ranges_of(chars@, lines@);
        lines.push(last);
        proof {
            assert(pv.last() == chars@.subrange(last.0 as int, last.1 as int));
            assert(ranges_of(chars@, lines@) =~= before.push(pv.last()));
        }
    } else {
        assert(pv.last() == chars@.subrange(last.0 as int, last.1 as int));
    }
    lines
}

/// The header of an import manifest.
pub const IMPORTS_HEADER: &'static str = "@SourceImports";

/// Whether the first line of the text is the header of an import manifest.
pub open spec fn spec_has_imports_header(text: Seq<char>) -> bool {
    spec_lines(text).len() > 0 && spec_lines(text)[0] == IMPORTS_HEADER@
}

/// Whether the first line of the text is the header of an import manifest.
pub fn has_imports_header(import_spec: &str) -> (r: bool)
    ensures
        r == spec_has_imports_header(import_spec@),
{
    let chars = chars_of(import_spec);
    let lines = line_ranges(&chars);
    if lines.len() == 0 {
        return false;
    }
    let (a, b) = lines[0];
    assert(spec_lines(chars@)[0] == chars@.subrange(a as int, b as int));
    range_eq(&chars, a, b, IMPORTS_HEADER)
}

/// The type that the token names.
pub open spec fn spec_make_vartype(token: Seq<char>) -> Option<ImportValType> {
    if token == "undefined"@ {
        Some(ImportValType::Undefined)
    } else if token == "number"@ {
        Some(ImportValType::Number)
    } else if token == "string"@ {
        Some(ImportValType::String)
    } else {
        None
    }
}

/// The type that the token names.
pub fn make_vartype(name: &str) -> (t: Option<ImportValType>)
    ensures
        t == spec_make_vartype(name@),
{
    if str_eq(name, "undefined") {
        Some(ImportValType::Undefined)
    } else if str_eq(name, "number") {
        Some(ImportValType::Number)
    } else if str_eq(name, "string") {
        Some(ImportValType::String)
    } else {
        None
    }
}

/// The bounds of the tokens of a line from position `from` on: the
/// stretches without a space in them that spaces or the ends of the line
/// enclose.
pub open spec fn tokens_from(line: Seq<char>, from: int) -> Seq<(int, int)>
    decreases line.len() - from,
{
    if from < 0 || from >= line.len() {
        Seq::<(int, int)>::empty()
    } else if line[from] == ' ' {
        tokens_from(line, from + 1)
    } else {
        let end = from + crate::text::first_index(line.skip(from), ' ');
        if from < end <= line.len() {
            seq![(from, end)] + tokens_from(line, end)
        } else {
            Seq::<(int, int)>::empty()
        }
    }
}

/// The bounds of the tokens of a line.
pub open spec fn token_bounds(line: Seq<char>) -> Seq<(int, int)> {
    tokens_from(line, 0)
}

/// Where in its line a token stands: from the byte at which it starts to
/// the byte behind its end.
pub open spec fn spec_within_line(line_num: i32, line: Seq<char>, bounds: (int, int), filename: Seq<char>) -> SourceLocationView {
    SourceLocationView {
        file: Some(filename),
        start: Position { line: line_num, column: clamp_i32(byte_len(line.take(bounds.0))) },
        end: Position { line: line_num, column: clamp_i32(byte_len(line.take(bounds.1))) },
    }
}

/// Where a line ends: what the errors point to that miss something behind
/// the end of the line.
pub open spec fn spec_line_end(line_num: i32, line: Seq<char>, filename: Seq<char>) -> SourceLocationView {
    SourceLocationView {
        file: Some(filename),
        start: Position { line: line_num, column: clamp_i32(byte_len(line)) },
        end: Position { line: next_line(line_num), column: 0 },
    }
}

/// The types that the tokens from position `at` on name, after the types
/// `so_far`; an error at the first token that names none.
pub open spec fn spec_param_types(
    line: Seq<char>,
    tokens: Seq<(int, int)>,
    at: int,
    so_far: Seq<ImportValType>,
    line_num: i32,
    filename: Seq<char>,
) -> Result<Seq<ImportValType>, ImportsErrorView>
    decreases tokens.len() - at,
{
    if at < 0 || at >= tokens.len() {
        Ok(so_far)
    } else {
        let token = line.subrange(tokens[at].0, tokens[at].1);
        match spec_make_vartype(token) {
            Some(t) => spec_param_types(line, tokens, at + 1, so_far.push(t), line_num, filename),
            None => Err(
                error_at(
                    spec_within_line(line_num, line, tokens[at], filename),
                    ImportsParseErrorView::InvalidVarType(token),
                ),
            ),
        }
    }
}

/// The import that a line of a manifest names, with its local name; none
/// for a line without a token.
pub open spec fn spec_parse_import(line: Seq<char>, line_num: i32, filename: Seq<char>) -> Result<
    Option<(Seq<char>, ImportView)>,
    ImportsErrorView,
> {
    let tokens = token_bounds(line);
    let token = |i: int| line.subrange(tokens[i].0, tokens[i].1);
    let at_end = spec_line_end(line_num, line, filename);
    if tokens.len() == 0 {
        Ok(None)
    } else if tokens.len() == 1 {
        Err(error_at(at_end, ImportsParseErrorView::MissingHostModuleName))
    } else if tokens.len() == 2 {
        Err(error_at(at_end, ImportsParseErrorView::MissingHostEntityName))
    } else if tokens.len() == 3 {
        Err(error_at(at_end, ImportsParseErrorView::MissingReturnType))
    } else {
        match spec_make_vartype(token(3)) {
            None => Err(
                error_at(
                    spec_within_line(line_num, line, tokens[3], filename),
                    ImportsParseErrorView::InvalidVarType(token(3)),
                ),
            ),
            Some(result) => match spec_param_types(
                line,
                tokens,
                4,
                Seq::<ImportValType>::empty(),
                line_num,
                filename,
            ) {
                Err(e) => Err(e),
                Ok(params) => Ok(
                    Some(
                        (
                            token(0),
                            ImportView {
                                module_name: token(1),
                                entity_name: token(2),
                                params,
                                result,
                            },
                        ),
                    ),
                ),
            },
        }
    }
}

/// The bounds as numbers without a size.
pub open spec fn bounds_view(tokens: Seq<(usize, usize)>) -> Seq<(int, int)> {
    Seq::new(tokens.len(), |i: int| (tokens[i].0 as int, tokens[i].1 as int))
}

/// The bounds of the tokens of a line.
pub fn tokens_of(chars: &Vec<char>) -> (tokens: Vec<(usize, usize)>)
    ensures
        bounds_view(tokens@) == token_bounds(chars@),
        forall|i: int| 0 <= i < tokens@.len() ==> (#[trigger] tokens@[i]).0 < tokens@[i].1 <= chars@.len(),
{
    let mut tokens: Vec<(usize, usize)> = Vec::new();
    let mut pos: usize = 0;
    assert(bounds_view(tokens@) =~= Seq::<(int, int)>::empty());
    while pos < chars.len()
        invariant
            pos <= chars@.len(),
            token_bounds(chars@) == bounds_view(tokens@) + tokens_from(chars@, pos as int),
            forall|i: int|
                0 <= i < tokens@.len() ==> (#[trigger] tokens@[i]).0 < tokens@[i].1 <= chars@.len(),
        decreases chars@.len() - pos,
    {
        if chars[pos] == ' ' {
            pos = pos + 1;
        } else {
            let end = crate::text::find_char(chars, pos, chars.len(), ' ');
            proof {
                assert(chars@.subrange(pos as int, chars@.len() as int) =~= chars@.skip(pos as int));
                crate::text::lemma_first_index_is_first(chars@.skip(pos as int), ' ');
                if end == pos {
                    assert(chars@.skip(pos as int)[0] == chars@[pos as int]);
                }
            }
            let ghost before = bounds_view(tokens@);
            tokens.push((pos, end));
            proof {
                assert(bounds_view(tokens@) =~= before.push((pos as int, end as int)));
                assert(before + (seq![(pos as int, end as int)] + tokens_from(chars@, end as int))
                    =~= bounds_view(tokens@) + tokens_from(chars@, end as int));
            }
            pos = end;
        }
    }
    assert(bounds_view(tokens@) + tokens_from(chars@, pos as int) =~= bounds_view(tokens@));
    tokens
}

/// Where in its line the part of `chars` from `start` to `end` stands.
pub fn within_line(line_num: i32, chars: &Vec<char>, start: usize, end: usize, filename: &str) -> (sl:
    SourceLocation)
    requires
        start <= end <= chars@.len(),
    ensures
        sl@ == spec_within_line(line_num, chars@, (start as int, end as int), filename@),
{
    let from = byte_len_of(chars, 0, start);
    let to = byte_len_of(chars, 0, end);
    assert(chars@.subrange(0, start as int) =~= chars@.take(start as int));
    assert(chars@.subrange(0, end as int) =~= chars@.take(end as int));
    SourceLocation::new(line_num, from, line_num, to, Some(filename))
}

/// Where a line ends.
pub fn line_end(line_num: i32, chars: &Vec<char>, filename: &str) -> (sl: SourceLocation)
    ensures
        sl@ == spec_line_end(line_num, chars@, filename@),
{
    let col = byte_len_of(chars, 0, chars.len());
    assert(chars@.subrange(0, chars@.len() as int) =~= chars@);
    let next: i32 = if line_num < i32::MAX {
        line_num + 1
    } else {
        line_num
    };
    SourceLocation::new(line_num, col, next, 0, Some(filename))
}

/// The mathematical value of the result of reading a line.
pub open spec fn import_result_view(r: Result<Option<(String, Import)>, ImportsError>) -> Result<
    Option<(Seq<char>, ImportView)>,
    ImportsErrorView,
> {
    match r {
        Ok(Some((name, import))) => Ok(Some((name@, import@))),
        Ok(None) => Ok(None),
        Err(e) => Err(e@),
    }
}

/// Reads one line of a manifest: gives the import that it names, with its
/// local name, and nothing for a line without a token.
pub fn parse_import(filename: &str, import_line: &str, line_num: i32) -> (result: Result<
    Option<(String, Import)>,
    ImportsError,
>)
    ensures
        import_result_view(result) == spec_parse_import(import_line@, line_num, filename@),
{
    let chars = chars_of(import_line);
    // any number of spaces may stand between two tokens
    let tokens = tokens_of(&chars);
    let ghost line = import_line@;
    let ghost bounds = token_bounds(line);

    // an empty line names nothing
    if tokens.len() == 0 {
        return Ok(None);
    }
    if tokens.len() == 1 {
        return Err(
            CompileMessage::new_error(
                line_end(line_num, &chars, filename),
                ImportsParseError::MissingHostModuleName,
            ),
        );
    }
    if tokens.len() == 2 {
        return Err(
            CompileMessage::new_error(
                line_end(line_num, &chars, filename),
                ImportsParseError::MissingHostEntityName,
            ),
        );
    }
    if tokens.len() == 3 {
        return Err(
            CompileMessage::new_error(
                line_end(line_num, &chars, filename),
                ImportsParseError::MissingReturnType,
            ),
        );
    }
    proof {
        assert(bounds[0] == (tokens@[0].0 as int, tokens@[0].1 as int));
        assert(bounds[1] == (tokens@[1].0 as int, tokens@[1].1 as int));
        assert(bounds[2] == (tokens@[2].0 as int, tokens@[2].1 as int));
        assert(bounds[3] == (tokens@[3].0 as int, tokens@[3].1 as int));
    }
    let source_name = substring(import_line, tokens[0].0, tokens[0].1);
    let host_module = substring(import_line, tokens[1].0, tokens[1].1);
    let host_entity = substring(import_line, tokens[2].0, tokens[2].1);
    let return_type_str = substring(import_line, tokens[3].0, tokens[3].1);
    let return_type = match make_vartype(return_type_str.as_str()) {
        Some(t) => t,
        None => {
            return Err(
                CompileMessage::new_error(
                    within_line(line_num, &chars, tokens[3].0, tokens[3].1, filename),
                    ImportsParseError::InvalidVarType(return_type_str),
                ),
            );
        },
    };
    let mut param_types: Vec<ImportValType> = Vec::new();
    let mut i: usize = 4;
    while i < tokens.len()
        invariant
            4 <= i <= tokens@.len(),
            spec_make_vartype(line.subrange(bounds[3].0, bounds[3].1)) == Some(return_type),
            chars@ == line,
            line == import_line@,
            bounds == token_bounds(line),
            bounds_view(tokens@) == bounds,
            forall|k: int|
                0 <= k < tokens@.len() ==> (#[trigger] tokens@[k]).0 < tokens@[k].1 <= chars@.len(),
            spec_param_types(line, bounds, 4, Seq::<ImportValType>::empty(), line_num, filename@)
                == spec_param_types(line, bounds, i as int, param_types@, line_num, filename@),
        decreases tokens@.len() - i,
    {
        proof {
            assert(bounds[i as int] == (tokens@[i as int].0 as int, tokens@[i as int].1 as int));
        }
        let token = substring(import_line, tokens[i].0, tokens[i].1);
        match make_vartype(token.as_str()) {
            Some(t) => {
                param_types.push(t);
            },
            None => {
                return Err(
                    CompileMessage::new_error(
                        within_line(line_num, &chars, tokens[i].0, tokens[i].1, filename),
                        ImportsParseError::InvalidVarType(token),
                    ),
                );
            },
        }
        i = i + 1;
    }
    Ok(
        Some(
            (
                source_name,
                Import {
                    module_name: host_module,
                    entity_name: host_entity,
                    params: param_types,
                    result: return_type,
                },
            ),
        ),
    )
}

/// The number of the line at the given position of a text: the first line
/// has the number 1.
pub open spec fn line_number(index: int) -> i32 {
    clamp_i32(index + 1)
}

/// The imports that the lines from position `at` on name, after the imports
/// `so_far`; the first error in them.
pub open spec fn spec_parse_lines(
    lines: Seq<Seq<char>>,
    at: int,
    so_far: ImportSpecView,
    filename: Seq<char>,
) -> Result<ImportSpecView, ImportsErrorView>
    decreases lines.len() - at,
{
    if at < 0 || at >= lines.len() {
        Ok(so_far)
    } else {
        match spec_parse_import(lines[at], line_number(at), filename) {
            Err(e) => Err(e),
            Ok(Some(entry)) => spec_parse_lines(lines, at + 1, so_far.push(entry), filename),
            Ok(None) => spec_parse_lines(lines, at + 1, so_far, filename),
        }
    }
}

/// The imports that a manifest names, in the order of its lines.
pub open spec fn spec_parse_imports(text: Seq<char>, filename: Seq<char>) -> Result<
    ImportSpecView,
    ImportsErrorView,
> {
    if !spec_has_imports_header(text) {
        Err(
            error_at(
                crate::log::spec_entire_line(1, Some(filename)),
                ImportsParseErrorView::InvalidHeader,
            ),
        )
    } else {
        spec_parse_lines(spec_lines(text), 1, ImportSpecView::empty(), filename)
    }
}

/// Reads an import manifest.
pub fn parse_imports(filename: &str, import_spec: &str) -> (result: Result<ImportSpec, ImportsError>)
    ensures
        match result {
            Ok(spec) => spec_parse_imports(import_spec@, filename@) == Ok::<
                ImportSpecView,
                ImportsErrorView,
            >(spec@),
            Err(e) => spec_parse_imports(import_spec@, filename@) == Err::<
                ImportSpecView,
                ImportsErrorView,
            >(e@),
        },
{
    let chars = chars_of(import_spec);
    let lines = line_ranges(&chars);
    let ghost lv = spec_lines(import_spec@);
    let header_ok = if lines.len() == 0 {
        false
    } else {
        let (a, b) = lines[0];
        assert(lv[0] == chars@.subrange(a as int, b as int));
        range_eq(&chars, a, b, IMPORTS_HEADER)
    };
    if !header_ok {
        return Err(
            CompileMessage::new_error(
                SourceLocation::entire_line(1, Some(filename)),
                ImportsParseError::InvalidHeader,
            ),
        );
    }
    let mut ret = ImportSpec { content: Vec::new() };
    assert(ret@ =~= ImportSpecView::empty());
    let mut i: usize = 1;
    while i < lines.len()
        invariant
            1 <= i <= lines@.len(),
            chars@ == import_spec@,
            lv == spec_lines(import_spec@),
            lv == ranges_of(chars@, lines@),
            ranges_within(lines@, 0, chars@.len() as int),
            spec_has_imports_header(import_spec@),
            spec_parse_lines(lv, 1, ImportSpecView::empty(), filename@) == spec_parse_lines(
                lv,
                i as int,
                ret@,
                filename@,
            ),
        decreases lines@.len() - i,
    {
        let (a, b) = lines[i];
        let line = substring(import_spec, a, b);
        let line_num: i32 = if i >= 0x7fff_ffff {
            i32::MAX
        } else {
            (i + 1) as i32
        };
        assert(lv[i as int] == line@);
        assert(line_num == line_number(i as int));
        match parse_import(filename, line.as_str(), line_num)? {
            Some(name_import) => {
                let ghost before = ret@;
                ret.content.push(name_import);
                assert(ret@ =~= before.push((name_import.0@, name_import.1@)));
            },
            None => {},
        }
        i = i + 1;
    }
    Ok(ret)
}

/// The overloads of a direct function that parsing proper works with: the
/// types of the parameters of each, with the index of its function.
pub type Overloads = Vec<(Vec<VarType>, FuncIdx)>;

/// The mathematical value of a list of overloads.
pub open spec fn overloads_view(overloads: Seq<(Vec<VarType>, FuncIdx)>) -> Seq<(Seq<VarType>, FuncIdx)> {
    Seq::new(overloads.len(), |i: int| (overloads[i].0@, overloads[i].1))
}

/// The mathematical value of a `ParseState`.
pub type ParseStateView = Seq<(Seq<char>, Seq<(Seq<VarType>, FuncIdx)>)>;

/// What parsing proper knows of the direct functions in scope: each name
/// with its overloads.
#[derive(Debug)]
pub struct ParseState {
    pub direct: Vec<(String, Overloads)>,
}

impl View for ParseState {
    type V = ParseStateView;

    open spec fn view(&self) -> ParseStateView {
        Seq::new(
            self.direct@.len(),
            |i: int| (self.direct@[i].0@, overloads_view(self.direct@[i].1@)),
        )
    }
}

/// The position of the first entry with the name; the length of the state
/// where it has none.
pub open spec fn direct_index(state: ParseStateView, name: Seq<char>) -> int
    decreases state.len(),
{
    if state.len() == 0 {
        0
    } else if state[0].0 == name {
        0
    } else {
        1 + direct_index(state.drop_first(), name)
    }
}

/// The state after the overloads have been added to those of the name.
pub open spec fn spec_add_direct(
    state: ParseStateView,
    name: Seq<char>,
    overloads: Seq<(Seq<VarType>, FuncIdx)>,
) -> ParseStateView {
    let i = direct_index(state, name);
    if 0 <= i < state.len() {
        state.update(i, (name, state[i].1 + overloads))
    } else {
        state.push((name, overloads))
    }
}

impl ParseState {
    /// The state that knows no direct function.
    pub fn default() -> (state: ParseState)
        ensures
            state@ == ParseStateView::empty(),
    {
        let state = ParseState { direct: Vec::new() };
        assert(state@ =~= ParseStateView::empty());
        state
    }

    /// Adds overloads to those of the name.
    pub fn add_direct(&mut self, name: String, overloads: Overloads)
        ensures
            final(self)@ == spec_add_direct(old(self)@, name@, overloads_view(overloads@)),
    {
        let ghost before = self@;
        let ghost added = overloads_view(overloads@);
        let mut i: usize = 0;
        assert(before.skip(0) =~= before);
        while i < self.direct.len()
            invariant
                i <= self.direct@.len(),
                self@ == before,
                self.direct@ == old(self).direct@,
                added == overloads_view(overloads@),
                direct_index(before, name@) == i + direct_index(before.skip(i as int), name@),
            decreases self.direct@.len() - i,
        {
            proof {
                assert(before.skip(i as int)[0] == before[i as int]);
                assert(before.skip(i as int).drop_first() =~= before.skip(i + 1));
            }
            if str_eq(self.direct[i].0.as_str(), name.as_str()) {
                let (kept_name, mut kept) = self.direct.remove(i);
                let ghost existing = overloads_view(kept@);
                let mut overloads = overloads;
                kept.append(&mut overloads);
                assert(overloads_view(kept@) =~= existing + added);
                self.direct.insert(i, (kept_name, kept));
                proof {
                    let want = before.update(i as int, (name@, existing + added));
                    assert(self@.len() == want.len());
                    assert forall|j: int| 0 <= j < want.len() implies self@[j] == want[j] by {
                        if j != i {
                            assert(self.direct@[j] == old(self).direct@[j]);
                        }
                        assert(before[j] == (
                            old(self).direct@[j].0@,
                            overloads_view(old(self).direct@[j].1@),
                        ));
                    }
                    assert(self@ =~= want);
                }
                return;
            }
            i = i + 1;
        }
        self.direct.push((name, overloads));
        assert(self@ =~= before.push((name@, added)));
    }
}

/// The mathematical value of a map from imports to function indices.
pub open spec fn funcidx_map_view(map: Seq<(Import, FuncIdx)>) -> Seq<(ImportView, FuncIdx)> {
    Seq::new(map.len(), |i: int| (map[i].0@, map[i].1))
}

/// The function index of the import: that of the first entry for it.
pub open spec fn funcidx_of(map: Seq<(ImportView, FuncIdx)>, import: ImportView) -> Option<FuncIdx>
    decreases map.len(),
{
    if map.len() == 0 {
        None
    } else if map[0].0 == import {
        Some(map[0].1)
    } else {
        funcidx_of(map.drop_first(), import)
    }
}

/// Whether two imports are the same.
pub fn import_eq(a: &Import, b: &Import) -> (same: bool)
    ensures
        same == (a@ == b@),
{
    if !str_eq(a.module_name.as_str(), b.module_name.as_str()) {
        return false;
    }
    if !str_eq(a.entity_name.as_str(), b.entity_name.as_str()) {
        return false;
    }
    if a.result != b.result {
        return false;
    }
    if a.params.len() != b.params.len() {
        return false;
    }
    let mut i: usize = 0;
    while i < a.params.len()
        invariant
            a.params@.len() == b.params@.len(),
            i <= a.params@.len(),
            forall|j: int| 0 <= j < i ==> a.params@[j] == b.params@[j],
        decreases a.params@.len() - i,
    {
        if a.params[i] != b.params[i] {
            return false;
        }
        i = i + 1;
    }
    assert(a.params@ =~= b.params@);
    true
}

/// The function index of the import.
pub fn lookup_funcidx(map: &Vec<(Import, FuncIdx)>, import: &Import) -> (idx: Option<FuncIdx>)
    ensures
        idx == funcidx_of(funcidx_map_view(map@), import@),
{
    let ghost view = funcidx_map_view(map@);
    let mut i: usize = 0;
    assert(view.skip(0) =~= view);
    while i < map.len()
        invariant
            i <= map@.len(),
            view == funcidx_map_view(map@),
            funcidx_of(view, import@) == funcidx_of(view.skip(i as int), import@),
        decreases map@.len() - i,
    {
        proof {
            assert(view.skip(i as int)[0] == view[i as int]);
            assert(view.skip(i as int).drop_first() =~= view.skip(i + 1));
        }
        if import_eq(&map[i].0, import) {
            return Some(map[i].1);
        }
        i = i + 1;
    }
    None
}

/// The static types of the parameters of an import.
pub open spec fn import_signature(import: ImportView) -> Seq<VarType> {
    Seq::new(import.params.len(), |i: int| import.params[i].spec_vartype())
}

/// The names that the imports from position `at` on give to the analysis,
/// on top of `so_far`: each import is a direct function with the types of
/// its parameters. An import with the name and the types of an earlier one
/// adds nothing.
pub open spec fn spec_import_exports(imports: ImportSpecView, at: int, so_far: VarCtxView) -> VarCtxView
    decreases imports.len() - at,
{
    if at < 0 || at >= imports.len() {
        so_far
    } else {
        let value = VarValueView::Direct(seq![import_signature(imports[at].1)]);
        spec_import_exports(
            imports,
            at + 1,
            match spec_try_coalesce(so_far, imports[at].0, value) {
                Some(ctx) => ctx,
                None => so_far,
            },
        )
    }
}

/// What the imports from position `at` on give to parsing proper, on top of
/// `so_far`: each import is an overload of its name, with its function
/// index.
pub open spec fn spec_import_state(
    imports: ImportSpecView,
    at: int,
    so_far: ParseStateView,
    map: Seq<(ImportView, FuncIdx)>,
) -> ParseStateView
    decreases imports.len() - at,
{
    if at < 0 || at >= imports.len() {
        so_far
    } else {
        match funcidx_of(map, imports[at].1) {
            Some(funcidx) => spec_import_state(
                imports,
                at + 1,
                spec_add_direct(
                    so_far,
                    imports[at].0,
                    seq![(import_signature(imports[at].1), funcidx)],
                ),
                map,
            ),
            None => so_far,
        }
    }
}

/// Turns the imports of a manifest into what the analysis and parsing
/// proper need: the names as direct functions, and the overloads of each
/// name with the function indices that `import_funcidx_map` has reserved
/// for them.
pub fn make_export_state(
    import_spec: ImportSpec,
    _order: usize,
    import_funcidx_map: &Vec<(Import, FuncIdx)>,
) -> (result: (ProgramPreExports, ParseState))
    requires
        forall|i: int|
            0 <= i < import_spec@.len() ==> funcidx_of(
                funcidx_map_view(import_funcidx_map@),
                (#[trigger] import_spec@[i]).1,
            ) is Some,
    ensures
        result.0@ == spec_import_exports(import_spec@, 0, VarCtxView::empty()),
        result.1@ == spec_import_state(
            import_spec@,
            0,
            ParseStateView::empty(),
            funcidx_map_view(import_funcidx_map@),
        ),
{
    let mut pre_exports: ProgramPreExports = VarCtx::new();
    let mut parse_ctx: ParseState = ParseState::default();
    let ghost imports = import_spec@;
    let ghost map = funcidx_map_view(import_funcidx_map@);
    let mut i: usize = 0;
    while i < import_spec.content.len()
        invariant
            i <= import_spec.content@.len(),
            imports == import_spec@,
            map == funcidx_map_view(import_funcidx_map@),
            forall|k: int| 0 <= k < imports.len() ==> funcidx_of(map, (#[trigger] imports[k]).1) is Some,
            spec_import_exports(imports, 0, VarCtxView::empty()) == spec_import_exports(
                imports,
                i as int,
                pre_exports@,
            ),
            spec_import_state(imports, 0, ParseStateView::empty(), map) == spec_import_state(
                imports,
                i as int,
                parse_ctx@,
                map,
            ),
        decreases import_spec.content@.len() - i,
    {
        let name = &import_spec.content[i].0;
        let import = &import_spec.content[i].1;
        assert(imports[i as int] == (name@, import@));
        let ghost signature = import_signature(import@);
        let mut ir_params: Vec<VarType> = Vec::new();
        let mut k: usize = 0;
        while k < import.params.len()
            invariant
                k <= import.params@.len(),
                signature == import_signature(import@),
                ir_params@ == signature.take(k as int),
            decreases import.params@.len() - k,
        {
            ir_params.push(import.params[k].vartype());
            assert(signature.take(k + 1) =~= signature.take(k as int).push(signature[k as int]));
            k = k + 1;
        }
        assert(signature.take(k as int) =~= signature);

        // what the analysis needs
        let _ = pre_exports.try_coalesce(name.clone(), VarValue::new_direct(copy_types(&ir_params)));

        // what parsing proper needs
        match lookup_funcidx(import_funcidx_map, import) {
            Some(funcidx) => {
                let mut overloads: Overloads = Vec::new();
                overloads.push((ir_params, funcidx));
                assert(overloads_view(overloads@) =~= seq![(signature, funcidx)]);
                parse_ctx.add_direct(name.clone(), overloads);
            },
            None => {},
        }
        i = i + 1;
    }
    (pre_exports, parse_ctx)
}

} // verus!
