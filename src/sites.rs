//! The sites of a query document that a scan of its syntax tree reports, and
//! the diagnostics that each of them yields.
use vstd::prelude::*;
use crate::options::{
    capture_table_index, contains_capture_name, contains_string, contains_symbol,
    find_capture_table, find_schema_entry, find_supertype, has_capture_name, has_string,
    has_symbol, schema_index, supertype_index, CaptureTable, LanguageData, NamedPredicate, Options,
    StringArgumentStyle,
};
use crate::predicate::{predicate_diagnostics, validate_predicate, PredicateCall};
use crate::text::{
    is_identifier, is_identifier_text, is_recognized_escape, is_recognized_escape_char,
    remove_unnecessary_escapes, unescaped,
};
use crate::types::{
    enclose, lemma_views_push, plain, views, with_action, CodeAction, Diagnostic, DiagnosticView, Position, Range,
    Severity,
};

verus! {

/// A place of interest in a query document, with what the checks read of it.
#[derive(Clone, Debug, PartialEq, Eq)]
pub enum Site {
    /// A named node literal such as `(identifier)`.
    NamedNode { label: String, range: Range },
    /// An anonymous node literal such as `"+"`, with its escapes as written.
    AnonymousNode { label: String, range: Range },
    /// A supertype in `(supertype/subtype)`, with the subtype that follows it.
    Supertype { label: String, range: Range, subtype: String, subtype_range: Range },
    /// A field name, as in `name:` or `!name`.
    Field { name: String, range: Range },
    /// Text that the query grammar could not parse.
    Error { range: Range },
    /// A node that the parser inserted, of the given kind.
    Missing { kind: String, range: Range },
    /// A capture used as an argument of a predicate or directive; `definitions`
    /// holds the texts of the captures defined in its top-level pattern.
    CaptureReference { text: String, range: Range, definitions: Vec<String> },
    /// A capture attached to a node; `references` holds the texts of the
    /// captures used as arguments in its top-level pattern.
    CaptureDefinition { text: String, range: Range, references: Vec<String> },
    /// A predicate call (`#name?`).
    Predicate { call: PredicateCall },
    /// A directive call (`#name!`).
    Directive { call: PredicateCall },
    /// An escape sequence inside a string.
    Escape { text: String, range: Range },
    /// A top-level pattern, and whether it holds any capture.
    Pattern { range: Range, has_captures: bool },
    /// The contents of a quoted string argument, without the quotes.
    QuotedString { text: String, range: Range, has_escapes: bool },
    /// An unquoted string argument.
    Identifier { range: Range },
}

/// The language data behind an optional reference.
pub open spec fn deref_language(l: Option<&LanguageData>) -> Option<LanguageData> {
    match l {
        Some(l) => Some(*l),
        None => None,
    }
}

/// A quoted string's range has a column on each side for its quotes.
pub open spec fn site_wf(site: Site) -> bool {
    match site {
        Site::QuotedString { range, .. } => 1 <= range.start.character && range.end.character
            < u32::MAX,
        _ => true,
    }
}

/// The range widened by one column on each side.
pub open spec fn widened(r: Range) -> Range {
    Range {
        start: Position { line: r.start.line, character: (r.start.character - 1) as u32 },
        end: Position { line: r.end.line, character: (r.end.character + 1) as u32 },
    }
}

pub open spec fn invalid_node_message(label: Seq<char>) -> Seq<char> {
    "Invalid node type: \""@ + label + "\""@
}

pub open spec fn not_subtype_message(sub: Seq<char>, sup: Seq<char>) -> Seq<char> {
    "Node \""@ + sub + "\" is not a subtype of \""@ + sup + "\""@
}

pub open spec fn not_supertype_message(label: Seq<char>) -> Seq<char> {
    "Node \""@ + label + "\" is not a supertype"@
}

pub open spec fn invalid_field_message(name: Seq<char>) -> Seq<char> {
    "Invalid field name: \""@ + name + "\""@
}

pub open spec fn missing_node_message(kind: Seq<char>) -> Seq<char> {
    "Missing \""@ + kind + "\""@
}

pub open spec fn undeclared_message(text: Seq<char>) -> Seq<char> {
    "Undeclared capture: \""@ + text + "\""@
}

pub open spec fn unsupported_message(text: Seq<char>) -> Seq<char> {
    "Unsupported capture name \""@ + text + "\" (fix available)"@
}

pub open spec fn unrecognized_message(word: Seq<char>, name: Seq<char>) -> Seq<char> {
    "Unrecognized "@ + word + " \""@ + name + "\""@
}

/// The capture table of the options for the grammar `basename`, if any.
pub open spec fn capture_table_for(options: Options, basename: Seq<char>) -> Option<CaptureTable> {
    match capture_table_index(options.valid_captures@, basename) {
        Some(i) => Some(options.valid_captures@[i]),
        None => None,
    }
}

/// The diagnostics of a predicate or directive call against a schema; an
/// empty schema checks nothing.
pub open spec fn call_diagnostics(
    call: PredicateCall,
    schema: Seq<NamedPredicate>,
    word: Seq<char>,
) -> Seq<DiagnosticView> {
    if schema.len() == 0 {
        Seq::empty()
    } else {
        match schema_index(schema, call.name@) {
            Some(i) => predicate_diagnostics(call, schema[i].predicate.parameters@),
            None => seq![
                plain(call.name_range, Severity::Warning, unrecognized_message(word, call.name@)),
            ],
        }
    }
}

/// The diagnostics of a capture definition `text` (with its `@`).
pub open spec fn definition_diagnostics(
    text: Seq<char>,
    range: Range,
    references: Seq<String>,
    options: Options,
    basename: Seq<char>,
) -> Seq<DiagnosticView> {
    if text.len() == 0 || text[0] != '@' {
        Seq::empty()
    } else {
        let suffix = text.subrange(1, text.len() as int);
        if !(suffix.len() > 0 && suffix[0] == '_') {
            match capture_table_for(options, basename) {
                Some(t) => if has_capture_name(t.captures@, suffix) {
                    Seq::empty()
                } else {
                    seq![
                        with_action(
                            range,
                            Severity::Warning,
                            unsupported_message(text),
                            false,
                            CodeAction::PrefixUnderscore,
                        ),
                    ]
                },
                None => Seq::empty(),
            }
        } else if options.diagnostic_options.warn_unused_underscore_captures && !has_string(
            references,
            text,
        ) {
            seq![
                with_action(
                    range,
                    Severity::Warning,
                    "Unused `_`-prefixed capture (fix available)"@,
                    true,
                    CodeAction::Remove,
                ),
            ]
        } else {
            Seq::empty()
        }
    }
}

/// The diagnostics that one site yields. Checks that need the grammar are
/// skipped when `language` is absent.
pub open spec fn site_diagnostics(
    site: Site,
    language: Option<LanguageData>,
    options: Options,
    basename: Seq<char>,
) -> Seq<DiagnosticView> {
    match site {
        Site::NamedNode { label, range } => match language {
            Some(l) => if has_symbol(l.symbols@, label@, true) {
                Seq::empty()
            } else {
                seq![plain(range, Severity::Error, invalid_node_message(label@))]
            },
            None => Seq::empty(),
        },
        Site::AnonymousNode { label, range } => match language {
            Some(l) => if has_symbol(l.symbols@, unescaped(label@), false) {
                Seq::empty()
            } else {
                seq![plain(range, Severity::Error, invalid_node_message(unescaped(label@)))]
            },
            None => Seq::empty(),
        },
        Site::Supertype { label, range, subtype, subtype_range } => match language {
            Some(l) => match supertype_index(l.supertypes@, label@) {
                Some(i) => {
                    let subs = l.supertypes@[i].subtypes@;
                    if subs.len() > 0 && !has_symbol(subs, subtype@, true) {
                        seq![
                            plain(
                                subtype_range,
                                Severity::Error,
                                not_subtype_message(subtype@, label@),
                            ),
                        ]
                    } else if subs.len() == 0 && !has_symbol(l.symbols@, subtype@, true) {
                        seq![plain(subtype_range, Severity::Error, invalid_node_message(subtype@))]
                    } else {
                        Seq::empty()
                    }
                },
                None => seq![plain(range, Severity::Error, not_supertype_message(label@))],
            },
            None => Seq::empty(),
        },
        Site::Field { name, range } => match language {
            Some(l) => if has_string(l.fields@, name@) {
                Seq::empty()
            } else {
                seq![plain(range, Severity::Error, invalid_field_message(name@))]
            },
            None => Seq::empty(),
        },
        Site::Error { range } => seq![plain(range, Severity::Error, "Invalid syntax"@)],
        Site::Missing { kind, range } => seq![
            plain(range, Severity::Error, missing_node_message(kind@)),
        ],
        Site::CaptureReference { text, range, definitions } => if has_string(
            definitions@,
            text@,
        ) {
            Seq::empty()
        } else {
            seq![plain(range, Severity::Error, undeclared_message(text@))]
        },
        Site::CaptureDefinition { text, range, references } => definition_diagnostics(
            text@,
            range,
            references@,
            options,
            basename,
        ),
        Site::Predicate { call } => call_diagnostics(
            call,
            options.valid_predicates@,
            "predicate"@,
        ),
        Site::Directive { call } => call_diagnostics(
            call,
            options.valid_directives@,
            "directive"@,
        ),
        Site::Escape { text, range } => if text@.len() < 2 || is_recognized_escape(text@[1]) {
            Seq::empty()
        } else {
            seq![
                with_action(
                    range,
                    Severity::Warning,
                    "Unnecessary escape sequence (fix available)"@,
                    false,
                    CodeAction::RemoveBackslash,
                ),
            ]
        },
        Site::Pattern { range, has_captures } => if has_captures {
            Seq::empty()
        } else {
            seq![
                with_action(
                    range,
                    Severity::Warning,
                    "This pattern has no captures, and will not be processed"@,
                    true,
                    CodeAction::Remove,
                ),
            ]
        },
        Site::QuotedString { text, range, has_escapes } => if options.diagnostic_options.string_argument_style
            == StringArgumentStyle::PreferUnquoted && !has_escapes && is_identifier_text(text@) {
            seq![
                with_action(
                    widened(range),
                    Severity::Hint,
                    "Unnecessary quotations (fix available)"@,
                    false,
                    CodeAction::Trim,
                ),
            ]
        } else {
            Seq::empty()
        },
        Site::Identifier { range } => if options.diagnostic_options.string_argument_style
            == StringArgumentStyle::PreferQuoted {
            seq![
                with_action(
                    range,
                    Severity::Hint,
                    "Unquoted string argument (fix available)"@,
                    false,
                    CodeAction::Enquote,
                ),
            ]
        } else {
            Seq::empty()
        },
    }
}

/// An `Undeclared capture` diagnostic of a capture reference comes only when
/// its top-level pattern defines no capture with the same text.
pub proof fn lemma_undeclared_capture(
    text: String,
    range: Range,
    definitions: Vec<String>,
    language: Option<LanguageData>,
    options: Options,
    basename: Seq<char>,
    k: int,
)
    requires
        0 <= k < site_diagnostics(
            Site::CaptureReference { text, range, definitions },
            language,
            options,
            basename,
        ).len(),
    ensures
        site_diagnostics(
            Site::CaptureReference { text, range, definitions },
            language,
            options,
            basename,
        )[k] == plain(range, Severity::Error, undeclared_message(text@)),
        forall|i: int| 0 <= i < definitions@.len() ==> definitions@[i]@ != text@,
{
}

/// An `Unused _-prefixed capture` diagnostic of a capture definition comes
/// only when its top-level pattern uses no capture with the same text as an
/// argument.
pub proof fn lemma_unused_capture(
    text: String,
    range: Range,
    references: Vec<String>,
    language: Option<LanguageData>,
    options: Options,
    basename: Seq<char>,
    k: int,
)
    requires
        0 <= k < site_diagnostics(
            Site::CaptureDefinition { text, range, references },
            language,
            options,
            basename,
        ).len(),
        site_diagnostics(
            Site::CaptureDefinition { text, range, references },
            language,
            options,
            basename,
        )[k].message == "Unused `_`-prefixed capture (fix available)"@,
    ensures
        forall|i: int| 0 <= i < references@.len() ==> references@[i]@ != text@,
{
    let suffix = text@.subrange(1, text@.len() as int);
    if text@.len() > 0 && text@[0] == '@' && !(suffix.len() > 0 && suffix[0] == '_') {
        if let Some(t) = capture_table_for(options, basename) {
            if !has_capture_name(t.captures@, suffix) {
                let m = unsupported_message(text@);
                reveal_strlit("Unsupported capture name \"");
                reveal_strlit("Unused `_`-prefixed capture (fix available)");
                assert(m[0] == 'U' && m[2] == 's');
                assert("Unused `_`-prefixed capture (fix available)"@[2] == 'u');
            }
        }
    }
}

fn push_diagnostic(diagnostics: &mut Vec<Diagnostic>, d: Diagnostic)
    ensures
        views(final(diagnostics)@) == views(old(diagnostics)@).push(d@),
{
    proof {
        lemma_views_push(diagnostics@, d);
    }
    diagnostics.push(d);
}

fn check_call(
    diagnostics: &mut Vec<Diagnostic>,
    call: &PredicateCall,
    schema: &Vec<NamedPredicate>,
    word: &str,
)
    ensures
        views(final(diagnostics)@) == views(old(diagnostics)@) + call_diagnostics(
            *call,
            schema@,
            word@,
        ),
{
    if schema.len() == 0 {
        assert(views(diagnostics@) =~= views(diagnostics@) + Seq::<DiagnosticView>::empty());
        return ;
    }
    match find_schema_entry(schema, &call.name) {
        Some(i) => validate_predicate(diagnostics, call, &schema[i].predicate.parameters),
        None => {
            let mut m = String::from_str("Unrecognized ");
            m.append(word);
            m.append(" \"");
            m.append(call.name.as_str());
            m.append("\"");
            assert(m@ =~= unrecognized_message(word@, call.name@));
            let d = Diagnostic::new_plain(call.name_range, Severity::Warning, m);
            push_diagnostic(diagnostics, d);
        },
    }
}

fn check_definition(
    diagnostics: &mut Vec<Diagnostic>,
    text: &String,
    range: Range,
    references: &Vec<String>,
    options: &Options,
    captures: Option<&CaptureTable>,
    Ghost(basename): Ghost<Seq<char>>,
)
    requires
        captures matches Some(t) ==> capture_table_for(*options, basename) == Some(*t),
        captures is None ==> capture_table_for(*options, basename) is None,
    ensures
        views(final(diagnostics)@) == views(old(diagnostics)@) + definition_diagnostics(
            text@,
            range,
            references@,
            *options,
            basename,
        ),
{
    let ghost old_views = views(diagnostics@);
    let n = text.unicode_len();
    if n == 0 || text.as_str().get_char(0) != '@' {
        assert(views(diagnostics@) =~= old_views + Seq::<DiagnosticView>::empty());
        return ;
    }
    let underscore = n > 1 && text.as_str().get_char(1) == '_';
    let suffix = String::from_str(text.as_str().substring_char(1, n));
    assert(suffix@.len() > 0 ==> suffix@[0] == text@[1]);
    if !underscore {
        match captures {
            Some(t) => {
                if contains_capture_name(&t.captures, &suffix) {
                    assert(views(diagnostics@) =~= old_views + Seq::<DiagnosticView>::empty());
                } else {
                    let m = enclose("Unsupported capture name \"", text.as_str(), "\" (fix available)");
                    let d = Diagnostic::new_with_action(
                        range,
                        Severity::Warning,
                        m,
                        false,
                        CodeAction::PrefixUnderscore,
                    );
                    push_diagnostic(diagnostics, d);
                }
            },
            None => {
                assert(views(diagnostics@) =~= old_views + Seq::<DiagnosticView>::empty());
            },
        }
    } else if options.diagnostic_options.warn_unused_underscore_captures && !contains_string(
        references,
        text,
    ) {
        let d = Diagnostic::new_with_action(
            range,
            Severity::Warning,
            String::from_str("Unused `_`-prefixed capture (fix available)"),
            true,
            CodeAction::Remove,
        );
        push_diagnostic(diagnostics, d);
    } else {
        assert(views(diagnostics@) =~= old_views + Seq::<DiagnosticView>::empty());
    }
}

/// The checks against the grammar: node types, supertypes and fields.
fn check_grammar_site(
    diagnostics: &mut Vec<Diagnostic>,
    site: &Site,
    language: Option<&LanguageData>,
    options: &Options,
    Ghost(basename): Ghost<Seq<char>>,
)
    requires
        site is NamedNode || site is AnonymousNode || site is Supertype || site is Field,
    ensures
        views(final(diagnostics)@) == views(old(diagnostics)@) + site_diagnostics(
            *site,
            deref_language(language),
            *options,
            basename,
        ),
{
    let ghost old_views = views(diagnostics@);
    let ghost expected = site_diagnostics(*site, deref_language(language), *options, basename);
    match site {
        Site::NamedNode { label, range } => {
            if let Some(l) = language {
                if !contains_symbol(&l.symbols, label, true) {
                    let m = enclose("Invalid node type: \"", label.as_str(), "\"");
                    push_diagnostic(diagnostics, Diagnostic::new_plain(*range, Severity::Error, m));
                    return ;
                }
            }
        },
        Site::AnonymousNode { label, range } => {
            if let Some(l) = language {
                let label = remove_unnecessary_escapes(label.as_str());
                if !contains_symbol(&l.symbols, &label, false) {
                    let m = enclose("Invalid node type: \"", label.as_str(), "\"");
                    push_diagnostic(diagnostics, Diagnostic::new_plain(*range, Severity::Error, m));
                    return ;
                }
            }
        },
        Site::Supertype { label, range, subtype, subtype_range } => {
            if let Some(l) = language {
                match find_supertype(&l.supertypes, label) {
                    Some(i) => {
                        let subs = &l.supertypes[i].subtypes;
                        if subs.len() > 0 && !contains_symbol(subs, subtype, true) {
                            let mut m = enclose("Node \"", subtype.as_str(), "\" is not a subtype of \"");
                            m.append(label.as_str());
                            m.append("\"");
                            assert(m@ =~= not_subtype_message(subtype@, label@));
                            push_diagnostic(
                                diagnostics,
                                Diagnostic::new_plain(*subtype_range, Severity::Error, m),
                            );
                            return ;
                        } else if subs.len() == 0 && !contains_symbol(&l.symbols, subtype, true) {
                            let m = enclose("Invalid node type: \"", subtype.as_str(), "\"");
                            push_diagnostic(
                                diagnostics,
                                Diagnostic::new_plain(*subtype_range, Severity::Error, m),
                            );
                            return ;
                        }
                    },
                    None => {
                        let m = enclose("Node \"", label.as_str(), "\" is not a supertype");
                        push_diagnostic(diagnostics, Diagnostic::new_plain(*range, Severity::Error, m));
                        return ;
                    },
                }
            }
        },
        Site::Field { name, range } => {
            if let Some(l) = language {
                if !contains_string(&l.fields, name) {
                    let m = enclose("Invalid field name: \"", name.as_str(), "\"");
                    push_diagnostic(diagnostics, Diagnostic::new_plain(*range, Severity::Error, m));
                    return ;
                }
            }
        },
        _ => {},
    }
    assert(expected =~= Seq::<DiagnosticView>::empty());
    assert(views(diagnostics@) =~= old_views + Seq::<DiagnosticView>::empty());
}

/// The checks of captures and of predicate and directive calls.
fn check_capture_site(
    diagnostics: &mut Vec<Diagnostic>,
    site: &Site,
    language: Option<&LanguageData>,
    options: &Options,
    captures: Option<&CaptureTable>,
    Ghost(basename): Ghost<Seq<char>>,
)
    requires
        captures matches Some(t) ==> capture_table_for(*options, basename) == Some(*t),
        captures is None ==> capture_table_for(*options, basename) is None,
        site is CaptureReference || site is CaptureDefinition || site is Predicate || site is Directive,
    ensures
        views(final(diagnostics)@) == views(old(diagnostics)@) + site_diagnostics(
            *site,
            deref_language(language),
            *options,
            basename,
        ),
{
    let ghost old_views = views(diagnostics@);
    let ghost expected = site_diagnostics(*site, deref_language(language), *options, basename);
    match site {
        Site::CaptureReference { text, range, definitions } => {
            if !contains_string(definitions, text) {
                let m = enclose("Undeclared capture: \"", text.as_str(), "\"");
                push_diagnostic(diagnostics, Diagnostic::new_plain(*range, Severity::Error, m));
                return ;
            }
        },
        Site::CaptureDefinition { text, range, references } => {
            check_definition(
                diagnostics,
                text,
                *range,
                references,
                options,
                captures,
                Ghost(basename),
            );
            return ;
        },
        Site::Predicate { call } => {
            check_call(diagnostics, call, &options.valid_predicates, "predicate");
            return ;
        },
        Site::Directive { call } => {
            check_call(diagnostics, call, &options.valid_directives, "directive");
            return ;
        },
        _ => {},
    }
    assert(expected =~= Seq::<DiagnosticView>::empty());
    assert(views(diagnostics@) =~= old_views + Seq::<DiagnosticView>::empty());
}

/// The checks that read the site alone: syntax errors, escapes, patterns
/// without captures and the string argument style.
fn check_lexical_site(
    diagnostics: &mut Vec<Diagnostic>,
    site: &Site,
    language: Option<&LanguageData>,
    options: &Options,
    Ghost(basename): Ghost<Seq<char>>,
)
    requires
        site_wf(*site),
        site is Error || site is Missing || site is Escape || site is Pattern || site is QuotedString || site is Identifier,
    ensures
        views(final(diagnostics)@) == views(old(diagnostics)@) + site_diagnostics(
            *site,
            deref_language(language),
            *options,
            basename,
        ),
{
    let ghost old_views = views(diagnostics@);
    let ghost expected = site_diagnostics(*site, deref_language(language), *options, basename);
    match site {
        Site::Error { range } => {
            let m = String::from_str("Invalid syntax");
            push_diagnostic(diagnostics, Diagnostic::new_plain(*range, Severity::Error, m));
            return ;
        },
        Site::Missing { kind, range } => {
            let m = enclose("Missing \"", kind.as_str(), "\"");
            push_diagnostic(diagnostics, Diagnostic::new_plain(*range, Severity::Error, m));
            return ;
        },
        Site::Escape { text, range } => {
            if text.unicode_len() >= 2 && !is_recognized_escape_char(text.as_str().get_char(1)) {
                let d = Diagnostic::new_with_action(
                    *range,
                    Severity::Warning,
                    String::from_str("Unnecessary escape sequence (fix available)"),
                    false,
                    CodeAction::RemoveBackslash,
                );
                push_diagnostic(diagnostics, d);
                return ;
            }
        },
        Site::Pattern { range, has_captures } => {
            if !*has_captures {
                let d = Diagnostic::new_with_action(
                    *range,
                    Severity::Warning,
                    String::from_str("This pattern has no captures, and will not be processed"),
                    true,
                    CodeAction::Remove,
                );
                push_diagnostic(diagnostics, d);
                return ;
            }
        },
        Site::QuotedString { text, range, has_escapes } => {
            if options.diagnostic_options.string_argument_style
                == StringArgumentStyle::PreferUnquoted && !*has_escapes && is_identifier(
                text.as_str(),
            ) {
                let wide = Range {
                    start: Position {
                        line: range.start.line,
                        character: range.start.character - 1,
                    },
                    end: Position { line: range.end.line, character: range.end.character + 1 },
                };
                let d = Diagnostic::new_with_action(
                    wide,
                    Severity::Hint,
                    String::from_str("Unnecessary quotations (fix available)"),
                    false,
                    CodeAction::Trim,
                );
                push_diagnostic(diagnostics, d);
                return ;
            }
        },
        Site::Identifier { range } => {
            if options.diagnostic_options.string_argument_style
                == StringArgumentStyle::PreferQuoted {
                let d = Diagnostic::new_with_action(
                    *range,
                    Severity::Hint,
                    String::from_str("Unquoted string argument (fix available)"),
                    false,
                    CodeAction::Enquote,
                );
                push_diagnostic(diagnostics, d);
                return ;
            }
        },
        _ => {},
    }
    assert(expected =~= Seq::<DiagnosticView>::empty());
    assert(views(diagnostics@) =~= old_views + Seq::<DiagnosticView>::empty());
}

/// Appends to `diagnostics` what `site` yields, as `site_diagnostics` states,
/// for a document whose grammar key is `basename`.
pub fn check_site(
    diagnostics: &mut Vec<Diagnostic>,
    site: &Site,
    language: Option<&LanguageData>,
    options: &Options,
    basename: &String,
)
    requires
        site_wf(*site),
    ensures
        views(final(diagnostics)@) == views(old(diagnostics)@) + site_diagnostics(
            *site,
            deref_language(language),
            *options,
            basename@,
        ),
{
    let captures = match find_capture_table(&options.valid_captures, basename) {
        Some(t) => Some(&options.valid_captures[t]),
        None => None,
    };
    check_site_with(diagnostics, site, language, options, captures, Ghost(basename@));
}

/// `check_site` with the capture table of the document's grammar looked up
/// beforehand.
pub(crate) fn check_site_with(
    diagnostics: &mut Vec<Diagnostic>,
    site: &Site,
    language: Option<&LanguageData>,
    options: &Options,
    captures: Option<&CaptureTable>,
    Ghost(basename): Ghost<Seq<char>>,
)
    requires
        site_wf(*site),
        captures matches Some(t) ==> capture_table_for(*options, basename) == Some(*t),
        captures is None ==> capture_table_for(*options, basename) is None,
    ensures
        views(final(diagnostics)@) == views(old(diagnostics)@) + site_diagnostics(
            *site,
            deref_language(language),
            *options,
            basename,
        ),
{
    match site {
        Site::NamedNode { .. } | Site::AnonymousNode { .. } | Site::Supertype { .. }
        | Site::Field { .. } => {
            check_grammar_site(diagnostics, site, language, options, Ghost(basename))
        },
        Site::CaptureReference { .. } | Site::CaptureDefinition { .. } | Site::Predicate { .. }
        | Site::Directive { .. } => {
            check_capture_site(diagnostics, site, language, options, captures, Ghost(basename))
        },
        _ => check_lexical_site(diagnostics, site, language, options, Ghost(basename)),
    }
}

} // verus!
