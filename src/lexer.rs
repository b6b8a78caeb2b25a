use vstd::prelude::*;

use crate::text::{decimal, push_decimal, push_signed_decimal, signed_decimal};

verus! {

/// Error codes of the lexer.
#[derive(Debug, Clone, Copy, PartialEq, Eq, Hash, Structural)]
pub enum LexerError {
    EmptySource,
    UnexpectedParen,
    UnexpectedBrace,
    UnterminatedParen,
    UnterminatedBrace,
    UnterminatedTemplateString,
    UnterminatedStringLiteral,
    UnterminatedRegexCharacterClass,
    UnterminatedRegex,
    UnexpectedEsmImportMeta,
    UnexpectedEsmImport,
    UnexpectedEsmExport,
    TemplateNestOverflow,
    /// A code that has no variant of its own.
    Unknown(i32),
}

/// The error for a numeric code: codes 0 to 12 name the variants in order,
/// any other code is `Unknown`.
pub open spec fn error_of_code(code: i32) -> LexerError {
    if code == 0 {
        LexerError::EmptySource
    } else if code == 1 {
        LexerError::UnexpectedParen
    } else if code == 2 {
        LexerError::UnexpectedBrace
    } else if code == 3 {
        LexerError::UnterminatedParen
    } else if code == 4 {
        LexerError::UnterminatedBrace
    } else if code == 5 {
        LexerError::UnterminatedTemplateString
    } else if code == 6 {
        LexerError::UnterminatedStringLiteral
    } else if code == 7 {
        LexerError::UnterminatedRegexCharacterClass
    } else if code == 8 {
        LexerError::UnterminatedRegex
    } else if code == 9 {
        LexerError::UnexpectedEsmImportMeta
    } else if code == 10 {
        LexerError::UnexpectedEsmImport
    } else if code == 11 {
        LexerError::UnexpectedEsmExport
    } else if code == 12 {
        LexerError::TemplateNestOverflow
    } else {
        LexerError::Unknown(code)
    }
}

/// The short name of an error.
pub open spec fn error_name(e: LexerError) -> Seq<char> {
    match e {
        LexerError::EmptySource => "empty source"@,
        LexerError::UnexpectedParen => "unexpected parenthesis"@,
        LexerError::UnexpectedBrace => "unexpected brace"@,
        LexerError::UnterminatedParen => "unterminated parenthesis"@,
        LexerError::UnterminatedBrace => "unterminated brace"@,
        LexerError::UnterminatedTemplateString => "unterminated template string"@,
        LexerError::UnterminatedStringLiteral => "unterminated string literal"@,
        LexerError::UnterminatedRegexCharacterClass => "unterminated regex character class"@,
        LexerError::UnterminatedRegex => "unterminated regex"@,
        LexerError::UnexpectedEsmImportMeta => "unexpected ESM import.meta"@,
        LexerError::UnexpectedEsmImport => "unexpected ESM import"@,
        LexerError::UnexpectedEsmExport => "unexpected ESM export"@,
        LexerError::TemplateNestOverflow => "template nesting overflow"@,
        LexerError::Unknown(_) => "unknown error"@,
    }
}

/// The message of an error: the short name after a fixed prefix, or the code
/// for an unknown one.
pub open spec fn error_message(e: LexerError) -> Seq<char> {
    match e {
        LexerError::Unknown(code) => "merve lexer error: unknown (code "@ + signed_decimal(
            code as int,
        ) + ")"@,
        _ => "merve lexer error: "@ + error_name(e),
    }
}

impl LexerError {
    /// The error for a numeric code of the lexer.
    pub fn from_code(code: i32) -> (r: Self)
        ensures
            r == error_of_code(code),
    {
        match code {
            0 => Self::EmptySource,
            1 => Self::UnexpectedParen,
            2 => Self::UnexpectedBrace,
            3 => Self::UnterminatedParen,
            4 => Self::UnterminatedBrace,
            5 => Self::UnterminatedTemplateString,
            6 => Self::UnterminatedStringLiteral,
            7 => Self::UnterminatedRegexCharacterClass,
            8 => Self::UnterminatedRegex,
            9 => Self::UnexpectedEsmImportMeta,
            10 => Self::UnexpectedEsmImport,
            11 => Self::UnexpectedEsmExport,
            12 => Self::TemplateNestOverflow,
            other => Self::Unknown(other),
        }
    }

    /// The short name of this error.
    pub fn as_str(&self) -> (r: &'static str)
        ensures
            r@ == error_name(*self),
    {
        match self {
            Self::EmptySource => "empty source",
            Self::UnexpectedParen => "unexpected parenthesis",
            Self::UnexpectedBrace => "unexpected brace",
            Self::UnterminatedParen => "unterminated parenthesis",
            Self::UnterminatedBrace => "unterminated brace",
            Self::UnterminatedTemplateString => "unterminated template string",
            Self::UnterminatedStringLiteral => "unterminated string literal",
            Self::UnterminatedRegexCharacterClass => "unterminated regex character class",
            Self::UnterminatedRegex => "unterminated regex",
            Self::UnexpectedEsmImportMeta => "unexpected ESM import.meta",
            Self::UnexpectedEsmImport => "unexpected ESM import",
            Self::UnexpectedEsmExport => "unexpected ESM export",
            Self::TemplateNestOverflow => "template nesting overflow",
            Self::Unknown(_) => "unknown error",
        }
    }

    /// The message of this error.
    pub fn to_string(&self) -> (r: String)
        ensures
            r@ == error_message(*self),
    {
        match self {
            Self::Unknown(code) => {
                let mut r = String::from_str("merve lexer error: unknown (code ");
                push_signed_decimal(&mut r, *code);
                r.append(")");
                r
            },
            _ => {
                let mut r = String::from_str("merve lexer error: ");
                r.append(self.as_str());
                r
            },
        }
    }
}

/// The check made before a source is handed to the lexer: an empty source
/// is refused with `EmptySource`.
pub fn check_source(source: &str) -> (r: Result<(), LexerError>)
    ensures
        source@.len() == 0 ==> r == Err::<(), LexerError>(LexerError::EmptySource),
        source@.len() > 0 ==> r is Ok,
{
    if source.is_empty() {
        Err(LexerError::EmptySource)
    } else {
        Ok(())
    }
}

/// One export: its name (or module specifier, for a re-export) and its
/// 1-based source line.
#[derive(Debug, Clone, Copy, PartialEq, Eq)]
pub struct Export<'a> {
    pub name: &'a str,
    pub line: u32,
}

/// The text of an export: its name, then its line in parentheses.
pub open spec fn export_text(name: Seq<char>, line: u32) -> Seq<char> {
    name + " (line "@ + decimal(line as nat) + ")"@
}

impl<'a> Export<'a> {
    /// The text of this export, `name (line N)`.
    pub fn to_string(&self) -> (r: String)
        ensures
            r@ == export_text(self.name@, self.line),
    {
        let mut r = String::from_str(self.name);
        r.append(" (line ");
        push_decimal(&mut r, self.line);
        r.append(")");
        r
    }
}

/// The result of one parse: its exports and re-exports, in source order.
pub struct Analysis<'a> {
    exports: Vec<Export<'a>>,
    reexports: Vec<Export<'a>>,
}

/// An export as plain values: name and line.
pub type ExportModel = (Seq<char>, u32);

pub open spec fn exports_view<'a>(v: Seq<Export<'a>>) -> Seq<ExportModel> {
    v.map_values(|e: Export<'a>| (e.name@, e.line))
}

/// Which of the two lists an iterator walks.
#[derive(Debug, Clone, Copy, PartialEq, Eq, Structural)]
pub enum ExportKind {
    Export,
    ReExport,
}

impl<'a> Analysis<'a> {
    /// The exports, as plain values.
    pub closed spec fn export_list(&self) -> Seq<ExportModel> {
        exports_view(self.exports@)
    }

    /// The re-exports, as plain values.
    pub closed spec fn reexport_list(&self) -> Seq<ExportModel> {
        exports_view(self.reexports@)
    }

    /// The list that `kind` names.
    pub open spec fn list_of(&self, kind: ExportKind) -> Seq<ExportModel> {
        match kind {
            ExportKind::Export => self.export_list(),
            ExportKind::ReExport => self.reexport_list(),
        }
    }

    /// An analysis of the given exports and re-exports.
    pub fn from_parts(exports: Vec<Export<'a>>, reexports: Vec<Export<'a>>) -> (r: Self)
        ensures
            r.export_list() == exports_view(exports@),
            r.reexport_list() == exports_view(reexports@),
    {
        Analysis { exports, reexports }
    }

    /// Number of named exports.
    pub fn exports_count(&self) -> (r: usize)
        ensures
            r == self.export_list().len(),
    {
        self.exports.len()
    }

    /// Number of re-exports.
    pub fn reexports_count(&self) -> (r: usize)
        ensures
            r == self.reexport_list().len(),
    {
        self.reexports.len()
    }

    /// The name of the export at `index`; `None` past the end.
    pub fn export_name(&self, index: usize) -> (r: Option<&'a str>)
        ensures
            index < self.export_list().len() ==> r is Some && r->0@ == self.export_list()[index as int].0,
            index >= self.export_list().len() ==> r is None,
    {
        if index >= self.exports.len() {
            return None;
        }
        Some(self.exports[index].name)
    }

    /// The line of the export at `index`; `None` past the end or for line 0.
    pub fn export_line(&self, index: usize) -> (r: Option<u32>)
        ensures
            r == line_at(self.export_list(), index as int),
    {
        if index >= self.exports.len() {
            return None;
        }
        let line = self.exports[index].line;
        if line == 0 {
            None
        } else {
            Some(line)
        }
    }

    /// The module specifier of the re-export at `index`; `None` past the end.
    pub fn reexport_name(&self, index: usize) -> (r: Option<&'a str>)
        ensures
            index < self.reexport_list().len() ==> r is Some && r->0@ == self.reexport_list()[index as int].0,
            index >= self.reexport_list().len() ==> r is None,
    {
        if index >= self.reexports.len() {
            return None;
        }
        Some(self.reexports[index].name)
    }

    /// The line of the re-export at `index`; `None` past the end or for line 0.
    pub fn reexport_line(&self, index: usize) -> (r: Option<u32>)
        ensures
            r == line_at(self.reexport_list(), index as int),
    {
        if index >= self.reexports.len() {
            return None;
        }
        let line = self.reexports[index].line;
        if line == 0 {
            None
        } else {
            Some(line)
        }
    }

    /// An iterator over the named exports.
    pub fn exports(&self) -> (r: ExportIter<'a, '_>)
        ensures
            r.wf(),
            r.remaining() == self.export_list(),
    {
        ExportIter { analysis: self, kind: ExportKind::Export, index: 0, count: self.exports_count() }
    }

    /// An iterator over the re-exports.
    pub fn reexports(&self) -> (r: ExportIter<'a, '_>)
        ensures
            r.wf(),
            r.remaining() == self.reexport_list(),
    {
        ExportIter {
            analysis: self,
            kind: ExportKind::ReExport,
            index: 0,
            count: self.reexports_count(),
        }
    }
}

/// The line of entry `index`, where it exists and is not 0.
pub open spec fn line_at(list: Seq<ExportModel>, index: int) -> Option<u32> {
    if 0 <= index < list.len() && list[index].1 != 0 {
        Some(list[index].1)
    } else {
        None
    }
}

/// A walk over the exports or the re-exports of an analysis.
pub struct ExportIter<'a, 'b> {
    analysis: &'b Analysis<'a>,
    kind: ExportKind,
    index: usize,
    count: usize,
}

impl<'a, 'b> ExportIter<'a, 'b> {
    /// The list being walked.
    pub closed spec fn list(&self) -> Seq<ExportModel> {
        self.analysis.list_of(self.kind)
    }

    /// The position of the walk and the length of its list agree.
    pub closed spec fn wf(&self) -> bool {
        self.count == self.list().len() && self.index <= self.count
    }

    /// The entries not handed out yet.
    pub closed spec fn remaining(&self) -> Seq<ExportModel> {
        self.list().subrange(self.index as int, self.count as int)
    }

    /// The next entry, or `None` at the end. A line of 0 stays 0.
    pub fn next(&mut self) -> (r: Option<Export<'a>>)
        requires
            old(self).wf(),
        ensures
            final(self).wf(),
            old(self).remaining().len() == 0 ==> r is None && final(self).remaining() == old(
                self,
            ).remaining(),
            old(self).remaining().len() > 0 ==> r is Some && (r->0.name@, r->0.line)
                == old(self).remaining()[0] && final(self).remaining() == old(
                self,
            ).remaining().drop_first(),
    {
        if self.index >= self.count {
            return None;
        }
        let i = self.index;
        self.index = self.index + 1;
        let (name, line) = match self.kind {
            ExportKind::Export => (
                match self.analysis.export_name(i) {
                    Some(n) => n,
                    None => "",
                },
                match self.analysis.export_line(i) {
                    Some(l) => l,
                    None => 0,
                },
            ),
            ExportKind::ReExport => (
                match self.analysis.reexport_name(i) {
                    Some(n) => n,
                    None => "",
                },
                match self.analysis.reexport_line(i) {
                    Some(l) => l,
                    None => 0,
                },
            ),
        };
        assert(old(self).remaining().drop_first() =~= self.remaining());
        Some(Export { name, line })
    }

    /// How many entries are left.
    pub fn len(&self) -> (r: usize)
        requires
            self.wf(),
        ensures
            r == self.remaining().len(),
    {
        self.count - self.index
    }

    /// The exact bounds on the number of entries left.
    pub fn size_hint(&self) -> (r: (usize, Option<usize>))
        requires
            self.wf(),
        ensures
            r.0 == self.remaining().len(),
            r.1 == Some(r.0),
    {
        let remaining = self.count - self.index;
        (remaining, Some(remaining))
    }
}

} // verus!
