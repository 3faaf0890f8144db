//! Diagnostics engine for tree-sitter query documents.
//!
//! A query document is described to the library by the sites of interest that a
//! scan of its syntax tree found (node literals, fields, captures, predicate
//! calls, strings, ...). The library decides, for each site, which diagnostics
//! it yields, walks `; inherits:` imports across documents with cycle
//! detection, and memoizes the structural scan of single patterns.
use vstd::prelude::*;

pub mod text;
pub mod types;
pub mod options;
pub mod predicate;
pub mod sites;
pub mod document;
pub mod scan;
pub mod selection;

pub use document::{diagnostic, get_diagnostics, DiagnosticError, DocumentStore, Import, QueryDocument};
pub use options::{
    CaptureName, CaptureTable, DiagnosticOptions, LanguageData, NamedPredicate, Options, Predicate,
    PredicateParameter, PredicateParameterArity, PredicateParameterType, StringArgumentStyle,
    Supertype, SymbolInfo,
};
pub use predicate::{validate_predicate, Parameter, PredicateCall};
pub use scan::{
    get_pattern_diagnostic, get_pattern_diagnostic_cached, structure_error_offset,
    PatternScanCache, QueryErrorKind, QueryFailure,
};
pub use selection::selection_range;
pub use sites::{check_site, Site};
pub use text::{is_identifier, remove_unnecessary_escapes};
pub use types::{CodeAction, Diagnostic, Position, Range, RelatedInformation, Severity};

verus! {

} // verus!
