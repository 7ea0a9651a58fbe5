//! The statement tree that the rule scans, reduced to the data the rule
//! actually reads. The host framework parses source text into blocks and
//! hands one block at a time to the scanner; whether a span originates from
//! macro expansion is the answer of the host's macro-origin oracle, carried
//! here as a plain field so that the scan is a pure function of its input.

use vstd::prelude::*;

verus! {

/// A source-location handle. `lo` and `hi` identify the source extent;
/// `from_macro` records whether the location is attributed to the expansion
/// of a macro rather than to literally authored source text.
#[derive(Clone, Copy, PartialEq, Eq, Structural, Debug)]
pub struct Span {
    pub lo: u32,
    pub hi: u32,
    pub from_macro: bool,
}

/// One statement of a block, classified as far as the rule cares:
/// a bare expression, a local `let` binding, a named item declaration
/// (which carries its own span, the place a diagnostic would point at),
/// or some other declarative form that is neither.
#[derive(Clone, Copy, PartialEq, Eq, Structural, Debug)]
pub enum Statement {
    /// A bare expression evaluated for effect.
    Expression,
    /// A local variable declaration (`let x = ...`).
    LocalBinding,
    /// A named, scope-wide declaration; its span is where it is written.
    ItemDeclaration(Span),
    /// A declaration statement that is neither a local binding nor an item.
    Other,
}

/// A lexical block: its own span and its statements in literal source order.
pub struct Block {
    pub span: Span,
    pub stmts: Vec<Statement>,
}

/// One warning, as handed to the host's diagnostic sink: the span it points
/// at and the message text.
pub struct Diagnostic {
    pub span: Span,
    pub message: String,
}

/// How a lint reports by default.
#[derive(Clone, Copy, PartialEq, Eq, Structural, Debug)]
pub enum LintLevel {
    Allow,
    Warn,
    Deny,
    Forbid,
}

/// The registration record for one lint: its name, default level and a
/// one-line description, as the host framework expects them.
pub struct Lint {
    pub name: String,
    pub level: LintLevel,
    pub description: String,
}

} // verus!
