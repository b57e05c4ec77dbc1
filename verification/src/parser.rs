//! Parse results handed to the validation engine: languages, source positions,
//! syntax nodes, parse diagnostics and the syntax tree of one document.

use vstd::prelude::*;

verus! {

/// Document languages known to the engine.
#[derive(Debug, Clone, Copy, PartialEq, Eq, Structural, Hash)]
pub enum LanguageId {
    PlainText,
    Yaml,
    Dockerfile,
}

/// The display name of a language.
pub open spec fn language_name(l: LanguageId) -> Seq<char> {
    match l {
        LanguageId::PlainText => "PlainText"@,
        LanguageId::Yaml => "Yaml"@,
        LanguageId::Dockerfile => "Dockerfile"@,
    }
}

impl LanguageId {
    /// True when the two languages are the same.
    pub fn same_as(&self, other: &LanguageId) -> (r: bool)
        ensures
            r == (*self == *other),
    {
        match (self, other) {
            (LanguageId::PlainText, LanguageId::PlainText) => true,
            (LanguageId::Yaml, LanguageId::Yaml) => true,
            (LanguageId::Dockerfile, LanguageId::Dockerfile) => true,
            _ => false,
        }
    }

    /// Returns the display name of the language.
    pub fn name(&self) -> (r: &'static str)
        ensures
            r@ == language_name(*self),
    {
        match self {
            LanguageId::PlainText => "PlainText",
            LanguageId::Yaml => "Yaml",
            LanguageId::Dockerfile => "Dockerfile",
        }
    }
}

/// A 0-based line/column position with an absolute byte offset.
#[derive(Debug, Clone, Copy, PartialEq, Eq, Structural, Hash)]
pub struct Position {
    pub line: usize,
    pub column: usize,
    pub byte_offset: usize,
}

impl Position {
    /// Creates a position.
    pub fn new(line: usize, column: usize, byte_offset: usize) -> (r: Self)
        ensures
            r == (Position { line, column, byte_offset }),
    {
        Position { line, column, byte_offset }
    }

    /// The start of a document.
    pub fn zero() -> (r: Self)
        ensures
            r == (Position { line: 0, column: 0, byte_offset: 0 }),
    {
        Position { line: 0, column: 0, byte_offset: 0 }
    }
}

/// A source span from `start` (inclusive) to `end` (exclusive).
#[derive(Debug, Clone, Copy, PartialEq, Eq, Structural, Hash)]
pub struct TextRange {
    pub start: Position,
    pub end: Position,
}

impl TextRange {
    /// Creates a range.
    pub fn new(start: Position, end: Position) -> (r: Self)
        ensures
            r == (TextRange { start, end }),
    {
        TextRange { start, end }
    }

    /// An empty range at a position.
    pub fn empty(at: Position) -> (r: Self)
        ensures
            r == (TextRange { start: at, end: at }),
    {
        TextRange { start: at, end: at }
    }
}

/// Kinds of syntax nodes.
#[derive(Debug, Clone, Copy, PartialEq, Eq, Structural, Hash)]
pub enum NodeKind {
    Document,
}

/// A node of a syntax tree with a label and its children.
#[derive(Debug)]
pub struct SyntaxNode {
    pub kind: NodeKind,
    pub label: String,
    pub range: TextRange,
    pub children: Vec<SyntaxNode>,
}

impl SyntaxNode {
    /// Creates a node.
    pub fn new(kind: NodeKind, label: &str, range: TextRange, children: Vec<SyntaxNode>) -> (r:
        Self)
        ensures
            r.kind == kind,
            r.label@ == label@,
            r.range == range,
            r.children@ == children@,
    {
        SyntaxNode { kind, label: label.to_owned(), range, children }
    }
}

/// Severity of a parse diagnostic.
#[derive(Debug, Clone, Copy, PartialEq, Eq, Structural, Hash)]
pub enum DiagnosticSeverity {
    Error,
    Warning,
    Information,
    Hint,
}

/// A problem the parser reported, with the range, message and reporting source.
#[derive(Debug, Clone, PartialEq, Eq)]
pub struct ParseDiagnostic {
    pub range: TextRange,
    pub severity: DiagnosticSeverity,
    pub message: String,
    pub source: String,
}

impl ParseDiagnostic {
    /// Creates an error diagnostic.
    pub fn error(range: TextRange, message: &str, source: &str) -> (r: Self)
        ensures
            r.range == range,
            r.severity == DiagnosticSeverity::Error,
            r.message@ == message@,
            r.source@ == source@,
    {
        ParseDiagnostic {
            range,
            severity: DiagnosticSeverity::Error,
            message: message.to_owned(),
            source: source.to_owned(),
        }
    }
}

/// The parse of one document: its language, root node, error nodes, parse
/// diagnostics, and the hash and length of the source it was made from.
#[derive(Debug)]
pub struct SyntaxTree {
    pub language: LanguageId,
    pub root: SyntaxNode,
    pub error_nodes: Vec<SyntaxNode>,
    pub diagnostics: Vec<ParseDiagnostic>,
    pub source_hash: u64,
    pub source_len: usize,
}

impl SyntaxTree {
    /// Creates a syntax tree.
    pub fn new(
        language: LanguageId,
        root: SyntaxNode,
        error_nodes: Vec<SyntaxNode>,
        diagnostics: Vec<ParseDiagnostic>,
        source_hash: u64,
        source_len: usize,
    ) -> (r: Self)
        ensures
            r.language == language,
            r.root == root,
            r.error_nodes@ == error_nodes@,
            r.diagnostics@ == diagnostics@,
            r.source_hash == source_hash,
            r.source_len == source_len,
    {
        SyntaxTree { language, root, error_nodes, diagnostics, source_hash, source_len }
    }
}

} // verus!
