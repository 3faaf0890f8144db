use ts_query_ls::{
    diagnostic, CaptureName, CaptureTable, CodeAction, Diagnostic, DiagnosticError,
    DiagnosticOptions, DocumentStore, Import, LanguageData, NamedPredicate, Options, Parameter,
    Position, Predicate, PredicateCall, PredicateParameter, PredicateParameterArity,
    PredicateParameterType, QueryDocument, Range, RelatedInformation, Severity, Site,
    StringArgumentStyle, Supertype, SymbolInfo,
};

const TEST_URI: &str = "file:///tmp/queries/js/test.scm";
const TEST_URI_2: &str = "file:///tmp/queries/css/test.scm";

fn rng(l1: u32, c1: u32, l2: u32, c2: u32) -> Range {
    Range {
        start: Position { line: l1, character: c1 },
        end: Position { line: l2, character: c2 },
    }
}

fn s(x: &str) -> String {
    String::from(x)
}

fn language(name: &str, symbols: &[(&str, bool)], fields: &[&str], supertypes: &[&str]) -> LanguageData {
    let subtypes = vec![
        SymbolInfo { label: s("test"), named: true },
        SymbolInfo { label: s("test2"), named: true },
    ];
    LanguageData {
        name: s(name),
        symbols: symbols.iter().map(|(l, n)| SymbolInfo { label: s(l), named: *n }).collect(),
        fields: fields.iter().map(|f| s(f)).collect(),
        supertypes: supertypes
            .iter()
            .map(|t| Supertype {
                symbol: SymbolInfo { label: s(t), named: true },
                subtypes: subtypes.clone(),
            })
            .collect(),
    }
}

fn document(uri: &str, language_name: &str, end: Position, imports: Vec<Import>, sites: Vec<Site>) -> QueryDocument {
    QueryDocument {
        uri: s(uri),
        basename: s("test"),
        language_name: Some(s(language_name)),
        end,
        imports,
        structure_errors: Vec::new(),
        sites,
    }
}

fn captures(names: &[&str]) -> Vec<CaptureTable> {
    vec![CaptureTable {
        grammar: s("test"),
        captures: names
            .iter()
            .map(|n| CaptureName { name: s(n), description: String::new() })
            .collect(),
    }]
}

fn schema(name: &str, params: &[(PredicateParameterType, PredicateParameterArity)]) -> Vec<NamedPredicate> {
    vec![NamedPredicate {
        name: s(name),
        predicate: Predicate {
            description: s("Checks for equality"),
            parameters: params
                .iter()
                .map(|(t, a)| PredicateParameter { type_: *t, arity: *a, description: None })
                .collect(),
        },
    }]
}

fn param(text: &str, range: Range) -> Parameter {
    Parameter { text: s(text), is_capture: text.starts_with('@'), is_missing: false, range }
}

fn call(name: &str, name_range: Range, parameters: Vec<Parameter>, parameters_range: Range, call_range: Range) -> PredicateCall {
    PredicateCall { name: s(name), name_range, parameters, parameters_range, call_range }
}

fn plain(range: Range, severity: Severity, message: &str) -> Diagnostic {
    Diagnostic {
        range,
        severity,
        message: s(message),
        unnecessary: false,
        related_information: Vec::new(),
        action: None,
    }
}

fn with_action(range: Range, severity: Severity, message: &str, unnecessary: bool, action: CodeAction) -> Diagnostic {
    Diagnostic { action: Some(action), unnecessary, ..plain(range, severity, message) }
}

fn def(text: &str, range: Range, references: &[&str]) -> Site {
    Site::CaptureDefinition { text: s(text), range, references: references.iter().map(|r| s(r)).collect() }
}

fn reference(text: &str, range: Range, definitions: &[&str]) -> Site {
    Site::CaptureReference { text: s(text), range, definitions: definitions.iter().map(|r| s(r)).collect() }
}

fn named(label: &str, range: Range) -> Site {
    Site::NamedNode { label: s(label), range }
}

fn anonymous(label: &str, range: Range) -> Site {
    Site::AnonymousNode { label: s(label), range }
}

fn pattern(range: Range, has_captures: bool) -> Site {
    Site::Pattern { range, has_captures }
}

fn run(documents: Vec<QueryDocument>, languages: Vec<LanguageData>, options: &Options) -> Vec<Diagnostic> {
    let store = DocumentStore { documents, languages };
    diagnostic(&store, &s(TEST_URI), options).unwrap()
}

fn js(symbols: &[(&str, bool)]) -> LanguageData {
    language("js", symbols, &["operator"], &["supertype"])
}

/// The two-line pattern `((identifier) @<def>\n(#<name>? <args>))` as sites.
fn match_pattern_sites(definition: &str, def_end: u32, predicate: Site, extra: Vec<Site>, line1_end: u32) -> Vec<Site> {
    let mut sites = vec![
        pattern(rng(0, 0, 1, line1_end), true),
        named("identifier", rng(0, 2, 0, 12)),
        def(definition, rng(0, 14, 0, def_end), &[]),
        predicate,
    ];
    sites.extend(extra);
    sites
}

#[test]
fn server_diagnostics() {
    // ((identifier) @constant
    // (#match? @cons "^[A-Z][A-Z\\d_]*$"))
    let match_call = call(
        "match",
        rng(1, 2, 1, 7),
        vec![param("@cons", rng(1, 9, 1, 14)), param("^[A-Z][A-Z\\\\d_]*$", rng(1, 16, 1, 33))],
        rng(1, 9, 1, 34),
        rng(1, 0, 1, 35),
    );
    let sites = match_pattern_sites(
        "@constant",
        23,
        Site::Predicate { call: match_call },
        vec![
            reference("@cons", rng(1, 9, 1, 14), &["@constant"]),
            Site::QuotedString { text: s("^[A-Z][A-Z\\\\d_]*$"), range: rng(1, 16, 1, 33), has_escapes: true },
            Site::Escape { text: s("\\\\"), range: rng(1, 26, 1, 28) },
        ],
        36,
    );
    let options = Options { valid_captures: captures(&["variable", "variable.parameter"]), ..Default::default() };
    let actual = run(
        vec![document(TEST_URI, "js", Position { line: 1, character: 36 }, vec![], sites)],
        vec![js(&[("identifier", true)])],
        &options,
    );
    assert_eq!(
        actual,
        vec![
            with_action(
                rng(0, 14, 0, 23),
                Severity::Warning,
                "Unsupported capture name \"@constant\" (fix available)",
                false,
                CodeAction::PrefixUnderscore,
            ),
            plain(rng(1, 9, 1, 14), Severity::Error, "Undeclared capture: \"@cons\""),
        ]
    );
}

fn single_capture_case(source_sites: Vec<Site>, symbols: &[(&str, bool)], expected: Vec<Diagnostic>) {
    let options = Options { valid_captures: captures(&["variable", "variable.parameter"]), ..Default::default() };
    let actual = run(
        vec![document(TEST_URI, "js", Position { line: 1, character: 60 }, vec![], source_sites)],
        vec![js(symbols)],
        &options,
    );
    assert_eq!(actual, expected);
}

#[test]
fn unsupported_capture_on_anonymous_node() {
    // ("*" @constant
    // (#match? @constant "^[A-Z][A-Z\\d_]*$"))
    single_capture_case(
        vec![
            pattern(rng(0, 0, 1, 40), true),
            anonymous("*", rng(0, 2, 0, 3)),
            def("@constant", rng(0, 5, 0, 14), &["@constant"]),
            reference("@constant", rng(1, 9, 1, 18), &["@constant"]),
        ],
        &[("*", false)],
        vec![with_action(
            rng(0, 5, 0, 14),
            Severity::Warning,
            "Unsupported capture name \"@constant\" (fix available)",
            false,
            CodeAction::PrefixUnderscore,
        )],
    );
}

#[test]
fn unsupported_capture_on_missing_list_and_grouping() {
    // (MISSING "*") @keyword    [ "*" ] @keyword    ("*") @keyword
    for (anon, capture) in [(rng(0, 10, 0, 11), rng(0, 14, 0, 22)), (rng(0, 3, 0, 4), rng(0, 8, 0, 16)), (rng(0, 2, 0, 3), rng(0, 6, 0, 14))] {
        single_capture_case(
            vec![pattern(rng(0, 0, 0, capture.end.character), true), anonymous("*", anon), def("@keyword", capture, &[])],
            &[("*", false)],
            vec![with_action(
                capture,
                Severity::Warning,
                "Unsupported capture name \"@keyword\" (fix available)",
                false,
                CodeAction::PrefixUnderscore,
            )],
        );
    }
}

#[test]
fn invalid_node_type() {
    // ((identifierr) @_constant
    // (#match? @_constant "^[A-Z][A-Z\\d_]*$"))
    //
    // (identifier) @variable
    single_capture_case(
        vec![
            pattern(rng(0, 0, 1, 41), true),
            named("identifierr", rng(0, 2, 0, 13)),
            def("@_constant", rng(0, 15, 0, 25), &["@_constant"]),
            reference("@_constant", rng(1, 9, 1, 19), &["@_constant"]),
            pattern(rng(3, 0, 3, 22), true),
            named("identifier", rng(3, 1, 3, 11)),
            def("@variable", rng(3, 13, 3, 22), &[]),
        ],
        &[("identifier", true)],
        vec![plain(rng(0, 2, 0, 13), Severity::Error, "Invalid node type: \"identifierr\"")],
    );
}

#[test]
fn valid_match_predicate() {
    single_capture_case(
        vec![
            pattern(rng(0, 0, 1, 40), true),
            named("identifier", rng(0, 2, 0, 12)),
            def("@variable", rng(0, 14, 0, 23), &["@variable"]),
            reference("@variable", rng(1, 9, 1, 18), &["@variable"]),
        ],
        &[("identifier", true)],
        vec![],
    );
}

fn builtin_case(
    predicates: Vec<NamedPredicate>,
    directives: Vec<NamedPredicate>,
    style: StringArgumentStyle,
    site: Site,
    extra: Vec<Site>,
) -> Vec<Diagnostic> {
    let options = Options {
        valid_predicates: predicates,
        valid_directives: directives,
        valid_captures: captures(&["variable.builtin"]),
        diagnostic_options: DiagnosticOptions { string_argument_style: style, warn_unused_underscore_captures: true },
    };
    let mut sites = vec![
        pattern(rng(0, 0, 1, 60), true),
        named("identifier", rng(0, 2, 0, 12)),
        def("@variable.builtin", rng(0, 14, 0, 31), &["@variable.builtin"]),
        site,
    ];
    sites.extend(extra);
    run(
        vec![document(TEST_URI, "js", Position { line: 1, character: 60 }, vec![], sites)],
        vec![js(&[("identifier", true)])],
        &options,
    )
}

fn eq_schema() -> Vec<NamedPredicate> {
    schema(
        "eq",
        &[
            (PredicateParameterType::Capture, PredicateParameterArity::Required),
            (PredicateParameterType::Any, PredicateParameterArity::Required),
        ],
    )
}

fn set_schema(tail: PredicateParameterType, arity: PredicateParameterArity) -> Vec<NamedPredicate> {
    schema("set", &[(PredicateParameterType::Capture, PredicateParameterArity::Required), (tail, arity)])
}

/// `(#<name> @variable.builtin <args>)` on line 1, with the name starting at column 2.
fn builtin_call(name: &str, args: &[&str]) -> PredicateCall {
    let name_end = 2 + name.len() as u32;
    let mut column = name_end + 2;
    let mut parameters = vec![param("@variable.builtin", rng(1, column, 1, column + 17))];
    column += 18;
    for a in args {
        let len = a.len() as u32;
        let (text, start, end) = if let Some(inner) = a.strip_prefix('"') {
            (inner.trim_end_matches('"'), column + 1, column + len - 1)
        } else {
            (*a, column, column + len)
        };
        parameters.push(Parameter { text: s(text), is_capture: text.starts_with('@'), is_missing: false, range: rng(1, start, 1, end) });
        column += len + 1;
    }
    let params_end = column - 1;
    call(name, rng(1, 2, 1, name_end), parameters, rng(1, name_end + 2, 1, params_end), rng(1, 0, 1, params_end + 1))
}

#[test]
fn eq_predicate_with_all_parameters() {
    let c = builtin_call("eq", &["self"]);
    assert_eq!(builtin_case(eq_schema(), vec![], StringArgumentStyle::Any, Site::Predicate { call: c }, vec![]), vec![]);
}

#[test]
fn eq_predicate_missing_parameter() {
    // (#eq? @variable.builtin))
    let c = builtin_call("eq", &[]);
    assert_eq!(c.call_range, rng(1, 0, 1, 24));
    assert_eq!(
        builtin_case(eq_schema(), vec![], StringArgumentStyle::Any, Site::Predicate { call: c }, vec![]),
        vec![plain(rng(1, 0, 1, 24), Severity::Warning, "Missing parameter of type \"any\"")]
    );
}

#[test]
fn eq_predicate_unexpected_parameter() {
    // (#eq? @variable.builtin self @variable.builtin))
    let c = builtin_call("eq", &["self", "@variable.builtin"]);
    assert_eq!(
        builtin_case(eq_schema(), vec![], StringArgumentStyle::Any, Site::Predicate { call: c }, vec![]),
        vec![plain(rng(1, 29, 1, 46), Severity::Warning, "Unexpected parameter: \"@variable.builtin\"")]
    );
}

#[test]
fn set_directive_with_quoted_strings() {
    // (#set! @variable.builtin "self" "asdf" bar))
    let c = builtin_call("set", &["\"self\"", "\"asdf\"", "bar"]);
    let directives = set_schema(PredicateParameterType::String, PredicateParameterArity::Variadic);
    assert_eq!(builtin_case(vec![], directives, StringArgumentStyle::Any, Site::Directive { call: c }, vec![]), vec![]);
}

#[test]
fn prefer_unquoted_strings() {
    // (#set! @variable.builtin self asdf "bar"))
    let c = builtin_call("set", &["self", "asdf", "\"bar\""]);
    let bar = c.parameters[3].range;
    assert_eq!(bar, rng(1, 36, 1, 39));
    let directives = set_schema(PredicateParameterType::String, PredicateParameterArity::Variadic);
    let extra = vec![
        Site::Identifier { range: rng(1, 25, 1, 29) },
        Site::Identifier { range: rng(1, 30, 1, 34) },
        Site::QuotedString { text: s("bar"), range: bar, has_escapes: false },
    ];
    assert_eq!(
        builtin_case(vec![], directives, StringArgumentStyle::PreferUnquoted, Site::Directive { call: c }, extra),
        vec![with_action(rng(1, 35, 1, 40), Severity::Hint, "Unnecessary quotations (fix available)", false, CodeAction::Trim)]
    );
}

#[test]
fn prefer_quoted_strings() {
    // (#set! @variable.builtin self _ "bar"))
    let c = builtin_call("set", &["self", "_", "\"bar\""]);
    let directives = set_schema(PredicateParameterType::String, PredicateParameterArity::Variadic);
    let extra = vec![
        Site::Identifier { range: rng(1, 25, 1, 29) },
        Site::Identifier { range: rng(1, 30, 1, 31) },
        Site::QuotedString { text: s("bar"), range: rng(1, 33, 1, 36), has_escapes: false },
    ];
    let hint = |r| with_action(r, Severity::Hint, "Unquoted string argument (fix available)", false, CodeAction::Enquote);
    assert_eq!(
        builtin_case(vec![], directives, StringArgumentStyle::PreferQuoted, Site::Directive { call: c }, extra),
        vec![hint(rng(1, 25, 1, 29)), hint(rng(1, 30, 1, 31))]
    );
}

#[test]
fn unused_underscore_capture() {
    // (identifier) @_capture
    let options = Options { valid_captures: captures(&["variable.builtin"]), ..Default::default() };
    let sites = vec![pattern(rng(0, 0, 0, 22), true), named("identifier", rng(0, 1, 0, 11)), def("@_capture", rng(0, 13, 0, 22), &[])];
    let actual = run(
        vec![document(TEST_URI, "js", Position { line: 0, character: 22 }, vec![], sites)],
        vec![js(&[("identifier", true)])],
        &options,
    );
    assert_eq!(
        actual,
        vec![with_action(rng(0, 13, 0, 22), Severity::Warning, "Unused `_`-prefixed capture (fix available)", true, CodeAction::Remove)]
    );
}

#[test]
fn variadic_string_rejects_capture() {
    // (#set! @variable.builtin self asdf bar @variable.builtin))
    let c = builtin_call("set", &["self", "asdf", "bar", "@variable.builtin"]);
    let directives = set_schema(PredicateParameterType::String, PredicateParameterArity::Variadic);
    assert_eq!(
        builtin_case(vec![], directives, StringArgumentStyle::Any, Site::Directive { call: c }, vec![]),
        vec![plain(rng(1, 39, 1, 56), Severity::Warning, "Parameter type mismatch: expected \"string\", got \"capture\"")]
    );
}

#[test]
fn variadic_any_accepts_everything() {
    let directives = set_schema(PredicateParameterType::Any, PredicateParameterArity::Variadic);
    let c = builtin_call("set", &["self", "asdf", "bar", "@variable.builtin"]);
    assert_eq!(builtin_case(vec![], directives.clone(), StringArgumentStyle::Any, Site::Directive { call: c }, vec![]), vec![]);
    let c = builtin_call("set", &[]);
    assert_eq!(builtin_case(vec![], directives, StringArgumentStyle::Any, Site::Directive { call: c }, vec![]), vec![]);
}

#[test]
fn optional_parameter() {
    let directives = set_schema(PredicateParameterType::Any, PredicateParameterArity::Optional);
    for args in [&[][..], &["self"][..]] {
        let c = builtin_call("set", args);
        assert_eq!(builtin_case(vec![], directives.clone(), StringArgumentStyle::Any, Site::Directive { call: c }, vec![]), vec![]);
    }
    // (#set! @variable.builtin self asdf))
    let c = builtin_call("set", &["self", "asdf"]);
    assert_eq!(
        builtin_case(vec![], directives, StringArgumentStyle::Any, Site::Directive { call: c }, vec![]),
        vec![plain(rng(1, 30, 1, 34), Severity::Warning, "Unexpected parameter: \"asdf\"")]
    );
}

#[test]
fn unrecognized_directive() {
    // (#sett! @variable.builtin self asdf bar @variable.builtin))
    let c = builtin_call("sett", &["self", "asdf", "bar", "@variable.builtin"]);
    assert_eq!(c.name_range, rng(1, 2, 1, 6));
    let directives = set_schema(PredicateParameterType::Any, PredicateParameterArity::Variadic);
    assert_eq!(
        builtin_case(vec![], directives, StringArgumentStyle::Any, Site::Directive { call: c }, vec![]),
        vec![plain(rng(1, 2, 1, 6), Severity::Warning, "Unrecognized directive \"sett\"")]
    );
}

#[test]
fn unnecessary_escape() {
    // "\p" @_cap  "\\" @_anothercap
    let options = Options {
        diagnostic_options: DiagnosticOptions { warn_unused_underscore_captures: false, ..Default::default() },
        ..Default::default()
    };
    let sites = vec![
        pattern(rng(0, 0, 0, 9), true),
        anonymous("\\p", rng(0, 1, 0, 3)),
        Site::Escape { text: s("\\p"), range: rng(0, 1, 0, 3) },
        def("@_cap", rng(0, 5, 0, 9), &[]),
        pattern(rng(0, 11, 0, 29), true),
        anonymous("\\\\", rng(0, 12, 0, 14)),
        Site::Escape { text: s("\\\\"), range: rng(0, 12, 0, 14) },
        def("@_anothercap", rng(0, 17, 0, 29), &[]),
    ];
    let lang = LanguageData { name: s("js"), symbols: vec![SymbolInfo { label: s("\\\\"), named: false }, SymbolInfo { label: s("p"), named: false }], fields: vec![], supertypes: vec![] };
    let actual = run(vec![document(TEST_URI, "js", Position { line: 0, character: 30 }, vec![], sites)], vec![lang], &options);
    assert_eq!(
        actual,
        vec![with_action(rng(0, 1, 0, 3), Severity::Warning, "Unnecessary escape sequence (fix available)", false, CodeAction::RemoveBackslash)]
    );
}

#[test]
fn pattern_without_captures() {
    // (identifier (identifier) (#set! foo bar))
    let sites = vec![
        pattern(rng(0, 0, 0, 41), false),
        named("identifier", rng(0, 1, 0, 11)),
        named("identifier", rng(0, 13, 0, 23)),
        Site::Directive { call: call("set", rng(0, 27, 0, 30), vec![param("foo", rng(0, 32, 0, 35)), param("bar", rng(0, 36, 0, 39))], rng(0, 32, 0, 39), rng(0, 25, 0, 40)) },
    ];
    let lang = language("js", &[("identifier", true)], &[], &[]);
    let actual = run(vec![document(TEST_URI, "js", Position { line: 0, character: 41 }, vec![], sites)], vec![lang], &Options::default());
    assert_eq!(
        actual,
        vec![with_action(rng(0, 0, 0, 41), Severity::Warning, "This pattern has no captures, and will not be processed", true, CodeAction::Remove)]
    );
}

#[test]
fn invalid_field_names() {
    let options = Options { valid_captures: captures(&["capture"]), ..Default::default() };
    let lang = || language("js", &[("identifier", true)], &["name"], &[]);
    // (identifier name: (identifier) @capture)  (identifier asdf: (identifier) @capture)
    let sites = vec![
        Site::Field { name: s("name"), range: rng(0, 12, 0, 16) },
        Site::Field { name: s("asdf"), range: rng(0, 54, 0, 58) },
    ];
    let actual = run(vec![document(TEST_URI, "js", Position { line: 0, character: 82 }, vec![], sites)], vec![lang()], &options);
    assert_eq!(actual, vec![plain(rng(0, 54, 0, 58), Severity::Error, "Invalid field name: \"asdf\"")]);
    // (identifier !asdf) @capture
    let sites = vec![Site::Field { name: s("asdf"), range: rng(0, 13, 0, 17) }];
    let actual = run(vec![document(TEST_URI, "js", Position { line: 0, character: 27 }, vec![], sites)], vec![lang()], &options);
    assert_eq!(actual, vec![plain(rng(0, 13, 0, 17), Severity::Error, "Invalid field name: \"asdf\"")]);
}

fn import_case(module_sites: Vec<Site>) -> Vec<Diagnostic> {
    // ; inherits: css
    // (identifier) @capture
    let importer = document(
        TEST_URI,
        "js",
        Position { line: 1, character: 21 },
        vec![Import { start: 10, end: 13, uri: Some(s(TEST_URI_2)) }],
        vec![pattern(rng(1, 0, 1, 21), true), named("identifier", rng(1, 1, 1, 11)), def("@capture", rng(1, 13, 1, 21), &[])],
    );
    let module = document(TEST_URI_2, "css", Position { line: 0, character: 12 }, vec![], module_sites);
    let options = Options { valid_captures: captures(&["capture"]), ..Default::default() };
    run(
        vec![importer, module],
        vec![language("js", &[("identifier", true)], &[], &[]), language("css", &[("squid", true)], &[], &[])],
        &options,
    )
}

fn related(range: Range, message: &str) -> RelatedInformation {
    RelatedInformation { uri: s(TEST_URI_2), range, message: s(message) }
}

#[test]
fn issues_in_imported_module() {
    // (squid)
    let actual = import_case(vec![pattern(rng(0, 0, 0, 7), false), named("squid", rng(0, 1, 0, 6))]);
    assert_eq!(
        actual,
        vec![Diagnostic {
            related_information: vec![
                related(rng(0, 0, 0, 7), "This pattern has no captures, and will not be processed"),
                related(rng(0, 1, 0, 6), "Invalid node type: \"squid\""),
            ],
            ..plain(rng(0, 10, 0, 13), Severity::Error, "Issues in module")
        }]
    );
}

#[test]
fn warnings_in_imported_module() {
    // (identifier)
    let actual = import_case(vec![pattern(rng(0, 0, 0, 12), false), named("identifier", rng(0, 1, 0, 11))]);
    assert_eq!(
        actual,
        vec![Diagnostic {
            related_information: vec![related(rng(0, 0, 0, 12), "This pattern has no captures, and will not be processed")],
            ..plain(rng(0, 10, 0, 13), Severity::Warning, "Issues in module")
        }]
    );
}

#[test]
fn missing_document_is_an_error() {
    let store = DocumentStore { documents: vec![], languages: vec![] };
    assert_eq!(diagnostic(&store, &s(TEST_URI), &Options::default()), Err(DiagnosticError::DocumentNotFound));
}
