//! Positions, ranges and diagnostics, with their mathematical views.
use vstd::prelude::*;

verus! {

/// A zero-based line and column in a document.
#[derive(Clone, Copy, Debug, PartialEq, Eq, Structural)]
pub struct Position {
    pub line: u32,
    pub character: u32,
}

/// A span between two positions of a document.
#[derive(Clone, Copy, Debug, PartialEq, Eq, Structural)]
pub struct Range {
    pub start: Position,
    pub end: Position,
}

/// How serious a diagnostic is; `Error` is the most severe.
#[derive(Clone, Copy, Debug, PartialEq, Eq, Structural)]
pub enum Severity {
    Error,
    Warning,
    Hint,
}

/// The code action that a diagnostic offers.
#[derive(Clone, Copy, Debug, PartialEq, Eq, Structural)]
pub enum CodeAction {
    PrefixUnderscore,
    Remove,
    RemoveBackslash,
    Trim,
    Enquote,
}

/// A diagnostic of another document that an import brings in.
#[derive(Clone, Debug, PartialEq, Eq)]
pub struct RelatedInformation {
    pub uri: String,
    pub range: Range,
    pub message: String,
}

/// A message attached to a range of a query document.
#[derive(Clone, Debug, PartialEq, Eq)]
pub struct Diagnostic {
    pub range: Range,
    pub severity: Severity,
    pub message: String,
    /// Whether the flagged text is unnecessary (shown faded by editors).
    pub unnecessary: bool,
    pub related_information: Vec<RelatedInformation>,
    pub action: Option<CodeAction>,
}

pub struct RelatedView {
    pub uri: Seq<char>,
    pub range: Range,
    pub message: Seq<char>,
}

pub struct DiagnosticView {
    pub range: Range,
    pub severity: Severity,
    pub message: Seq<char>,
    pub unnecessary: bool,
    pub related: Seq<RelatedView>,
    pub action: Option<CodeAction>,
}

impl View for RelatedInformation {
    type V = RelatedView;

    open spec fn view(&self) -> RelatedView {
        RelatedView { uri: self.uri@, range: self.range, message: self.message@ }
    }
}

impl View for Diagnostic {
    type V = DiagnosticView;

    open spec fn view(&self) -> DiagnosticView {
        DiagnosticView {
            range: self.range,
            severity: self.severity,
            message: self.message@,
            unnecessary: self.unnecessary,
            related: self.related_information@.map_values(|r: RelatedInformation| r@),
            action: self.action,
        }
    }
}

/// The views of a sequence of diagnostics.
pub open spec fn views(ds: Seq<Diagnostic>) -> Seq<DiagnosticView> {
    ds.map_values(|d: Diagnostic| d@)
}

/// Pushing a diagnostic pushes its view.
pub proof fn lemma_views_push(ds: Seq<Diagnostic>, d: Diagnostic)
    ensures
        views(ds.push(d)) == views(ds).push(d@),
{
    assert(views(ds.push(d)) =~= views(ds).push(d@));
}

/// A diagnostic with no related information, tag or action.
pub open spec fn plain(range: Range, severity: Severity, message: Seq<char>) -> DiagnosticView {
    DiagnosticView {
        range,
        severity,
        message,
        unnecessary: false,
        related: Seq::empty(),
        action: None,
    }
}

/// A diagnostic that offers a code action.
pub open spec fn with_action(
    range: Range,
    severity: Severity,
    message: Seq<char>,
    unnecessary: bool,
    action: CodeAction,
) -> DiagnosticView {
    DiagnosticView { range, severity, message, unnecessary, related: Seq::empty(), action: Some(action) }
}

/// Lexicographic order on positions.
pub open spec fn position_le(a: Position, b: Position) -> bool {
    a.line < b.line || (a.line == b.line && a.character <= b.character)
}

/// The range is well ordered and ends no later than `end`.
pub open spec fn range_within(r: Range, end: Position) -> bool {
    position_le(r.start, r.end) && position_le(r.end, end)
}

/// The range lies on the first line.
pub open spec fn on_first_line(r: Range) -> bool {
    r.start.line == 0 && r.end.line == 0
}

impl Diagnostic {
    pub fn new_plain(range: Range, severity: Severity, message: String) -> (r: Diagnostic)
        ensures
            r@ == plain(range, severity, message@),
    {
        let d = Diagnostic {
            range,
            severity,
            message,
            unnecessary: false,
            related_information: Vec::new(),
            action: None,
        };
        assert(d@.related =~= Seq::<RelatedView>::empty());
        d
    }

    pub fn new_with_action(
        range: Range,
        severity: Severity,
        message: String,
        unnecessary: bool,
        action: CodeAction,
    ) -> (r: Diagnostic)
        ensures
            r@ == with_action(range, severity, message@, unnecessary, action),
    {
        let d = Diagnostic {
            range,
            severity,
            message,
            unnecessary,
            related_information: Vec::new(),
            action: Some(action),
        };
        assert(d@.related =~= Seq::<RelatedView>::empty());
        d
    }
}

/// Builds `prefix + body + suffix`.
pub fn enclose(prefix: &str, body: &str, suffix: &str) -> (r: String)
    ensures
        r@ == prefix@ + body@ + suffix@,
{
    let mut m = String::from_str(prefix);
    m.append(body);
    m.append(suffix);
    m
}

} // verus!
