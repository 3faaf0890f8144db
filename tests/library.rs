use ts_query_ls::{
    check_site, get_diagnostics, is_identifier, remove_unnecessary_escapes, selection_range,
    structure_error_offset, validate_predicate, CaptureName, CaptureTable, CodeAction, Diagnostic,
    Import, LanguageData, Options, Parameter, PatternScanCache, Position, PredicateCall,
    PredicateParameter, PredicateParameterArity, PredicateParameterType, QueryDocument,
    QueryErrorKind, QueryFailure, Range, Severity, Site, Supertype, SymbolInfo,
};

fn rng(l1: u32, c1: u32, l2: u32, c2: u32) -> Range {
    Range {
        start: Position { line: l1, character: c1 },
        end: Position { line: l2, character: c2 },
    }
}

fn s(x: &str) -> String {
    String::from(x)
}

fn sym(label: &str, named: bool) -> SymbolInfo {
    SymbolInfo { label: s(label), named }
}

fn grammar() -> LanguageData {
    LanguageData {
        name: s("js"),
        symbols: vec![sym("identifier", true), sym("expression", true), sym("+", false)],
        fields: vec![s("name")],
        supertypes: vec![
            Supertype { symbol: sym("expression", true), subtypes: vec![sym("identifier", true)] },
            Supertype { symbol: sym("old", true), subtypes: vec![] },
        ],
    }
}

fn site_diagnostics(site: &Site, language: Option<&LanguageData>, options: &Options) -> Vec<Diagnostic> {
    let mut out = Vec::new();
    check_site(&mut out, site, language, options, &s("test"));
    out
}

fn messages(ds: &[Diagnostic]) -> Vec<String> {
    ds.iter().map(|d| d.message.clone()).collect()
}

#[test]
fn escapes_are_normalized() {
    assert_eq!(remove_unnecessary_escapes("\\p"), "p");
    assert_eq!(remove_unnecessary_escapes("\\\\"), "\\\\");
    assert_eq!(remove_unnecessary_escapes("a\\\"b\\n\\t\\r\\0"), "a\\\"b\\n\\t\\r\\0");
    assert_eq!(remove_unnecessary_escapes("\\(x\\)"), "(x)");
    assert_eq!(remove_unnecessary_escapes("end\\"), "end");
    assert_eq!(remove_unnecessary_escapes(""), "");
}

#[test]
fn identifier_texts() {
    assert!(is_identifier("bar"));
    assert!(is_identifier("a.b-c_9"));
    assert!(is_identifier("-x"));
    assert!(!is_identifier(".x"));
    assert!(!is_identifier(""));
    assert!(!is_identifier("a b"));
    assert!(!is_identifier("ab\n"));
    assert!(!is_identifier("^[A-Z]"));
}

#[test]
fn only_structural_errors_are_reported() {
    let f = |kind, offset| Some(QueryFailure { kind, offset });
    assert_eq!(structure_error_offset(f(QueryErrorKind::Structure, 7)), Some(7));
    assert_eq!(structure_error_offset(f(QueryErrorKind::Syntax, 7)), None);
    assert_eq!(structure_error_offset(f(QueryErrorKind::NodeType, 3)), None);
    assert_eq!(structure_error_offset(f(QueryErrorKind::Language, 0)), None);
    assert_eq!(structure_error_offset(None), None);
}

#[test]
fn scan_cache_returns_stored_values() {
    let mut cache = PatternScanCache::new();
    assert_eq!(cache.get(&s("js"), &s("(a)")), None);
    cache.insert(s("js"), s("(a)"), Some(4));
    cache.insert(s("js"), s("(b)"), None);
    assert_eq!(cache.get(&s("js"), &s("(a)")), Some(Some(4)));
    assert_eq!(cache.get(&s("js"), &s("(b)")), Some(None));
    assert_eq!(cache.get(&s("css"), &s("(a)")), None);
    // The same key always yields the same outcome.
    assert_eq!(cache.get(&s("js"), &s("(a)")), cache.get(&s("js"), &s("(a)")));
}

#[test]
fn selection_ranges_skip_repeated_ranges() {
    let paths = vec![
        vec![rng(0, 0, 3, 0), rng(0, 0, 1, 31), rng(0, 0, 1, 31), rng(1, 1, 1, 30), rng(1, 10, 1, 19)],
        vec![rng(0, 0, 3, 0)],
        vec![],
    ];
    assert_eq!(
        selection_range(&paths),
        vec![
            vec![rng(0, 0, 3, 0), rng(0, 0, 1, 31), rng(1, 1, 1, 30), rng(1, 10, 1, 19)],
            vec![rng(0, 0, 3, 0)],
            vec![],
        ]
    );
}

#[test]
fn supertype_checks() {
    let g = grammar();
    let options = Options::default();
    let site = |label: &str, sub: &str| Site::Supertype {
        label: s(label),
        range: rng(0, 1, 0, 11),
        subtype: s(sub),
        subtype_range: rng(0, 12, 0, 22),
    };
    assert!(site_diagnostics(&site("expression", "identifier"), Some(&g), &options).is_empty());
    let d = site_diagnostics(&site("expression", "number"), Some(&g), &options);
    assert_eq!(messages(&d), vec![s("Node \"number\" is not a subtype of \"expression\"")]);
    assert_eq!(d[0].range, rng(0, 12, 0, 22));
    let d = site_diagnostics(&site("identifier", "number"), Some(&g), &options);
    assert_eq!(messages(&d), vec![s("Node \"identifier\" is not a supertype")]);
    assert_eq!(d[0].range, rng(0, 1, 0, 11));
    let d = site_diagnostics(&site("old", "number"), Some(&g), &options);
    assert_eq!(messages(&d), vec![s("Invalid node type: \"number\"")]);
    assert!(site_diagnostics(&site("old", "identifier"), Some(&g), &options).is_empty());
    assert!(site_diagnostics(&site("nothing", "number"), None, &options).is_empty());
}

#[test]
fn grammar_checks_need_a_grammar() {
    let options = Options::default();
    let bad = Site::NamedNode { label: s("nope"), range: rng(0, 1, 0, 5) };
    assert!(site_diagnostics(&bad, None, &options).is_empty());
    assert_eq!(site_diagnostics(&bad, Some(&grammar()), &options).len(), 1);
    let anon = Site::AnonymousNode { label: s("\\+"), range: rng(0, 1, 0, 3) };
    assert!(site_diagnostics(&anon, Some(&grammar()), &options).is_empty());
    let field = Site::Field { name: s("value"), range: rng(0, 1, 0, 6) };
    assert!(site_diagnostics(&field, None, &options).is_empty());
}

#[test]
fn syntax_errors() {
    let options = Options::default();
    let d = site_diagnostics(&Site::Error { range: rng(2, 0, 2, 4) }, None, &options);
    assert_eq!(d, vec![Diagnostic {
        range: rng(2, 0, 2, 4),
        severity: Severity::Error,
        message: s("Invalid syntax"),
        unnecessary: false,
        related_information: vec![],
        action: None,
    }]);
    let d = site_diagnostics(&Site::Missing { kind: s(")"), range: rng(2, 4, 2, 4) }, None, &options);
    assert_eq!(messages(&d), vec![s("Missing \")\"")]);
    assert_eq!(d[0].severity, Severity::Error);
}

#[test]
fn undeclared_reference_has_no_definition() {
    let options = Options::default();
    let site = |defs: Vec<String>| Site::CaptureReference { text: s("@x"), range: rng(1, 2, 1, 4), definitions: defs };
    let d = site_diagnostics(&site(vec![s("@y"), s("@xx")]), None, &options);
    assert_eq!(messages(&d), vec![s("Undeclared capture: \"@x\"")]);
    assert!(site_diagnostics(&site(vec![s("@y"), s("@x")]), None, &options).is_empty());
}

#[test]
fn unused_underscore_capture_has_no_reference() {
    let options = Options::default();
    let site = |refs: Vec<String>| Site::CaptureDefinition { text: s("@_x"), range: rng(0, 5, 0, 8), references: refs };
    let d = site_diagnostics(&site(vec![s("@_y")]), None, &options);
    assert_eq!(d[0].action, Some(CodeAction::Remove));
    assert!(d[0].unnecessary);
    assert!(site_diagnostics(&site(vec![s("@_x")]), None, &options).is_empty());
}

#[test]
fn capture_names_without_a_table_are_accepted() {
    let mut options = Options::default();
    let site = Site::CaptureDefinition { text: s("@anything"), range: rng(0, 5, 0, 14), references: vec![] };
    assert!(site_diagnostics(&site, None, &options).is_empty());
    options.valid_captures = vec![CaptureTable {
        grammar: s("other"),
        captures: vec![CaptureName { name: s("variable"), description: s("") }],
    }];
    assert!(site_diagnostics(&site, None, &options).is_empty());
}

fn spec(type_: PredicateParameterType, arity: PredicateParameterArity) -> PredicateParameter {
    PredicateParameter { type_, arity, description: None }
}

#[test]
fn empty_parameter_specification() {
    let call = PredicateCall {
        name: s("x"),
        name_range: rng(0, 2, 0, 3),
        parameters: vec![Parameter { text: s("a"), is_capture: false, is_missing: false, range: rng(0, 5, 0, 6) }],
        parameters_range: rng(0, 5, 0, 6),
        call_range: rng(0, 0, 0, 7),
    };
    let mut out = Vec::new();
    validate_predicate(&mut out, &call, &vec![]);
    assert_eq!(messages(&out), vec![s("Parameter specification must not be empty")]);
    assert_eq!(out[0].range, rng(0, 5, 0, 6));
}

#[test]
fn inserted_arguments_are_skipped() {
    let arg = |text: &str, missing: bool, c: u32| Parameter {
        text: s(text),
        is_capture: text.starts_with('@'),
        is_missing: missing,
        range: rng(0, c, 0, c + 1),
    };
    let call = PredicateCall {
        name: s("eq"),
        name_range: rng(0, 2, 0, 4),
        parameters: vec![arg("a", false, 6), arg("", true, 8), arg("@c", false, 10)],
        parameters_range: rng(0, 6, 0, 12),
        call_range: rng(0, 0, 0, 13),
    };
    let specs = vec![
        spec(PredicateParameterType::Capture, PredicateParameterArity::Required),
        spec(PredicateParameterType::String, PredicateParameterArity::Required),
    ];
    let mut out = Vec::new();
    validate_predicate(&mut out, &call, &specs);
    assert_eq!(
        messages(&out),
        vec![
            s("Parameter type mismatch: expected \"capture\", got \"string\""),
            s("Parameter type mismatch: expected \"string\", got \"capture\""),
        ]
    );
    assert_eq!(out[0].range, rng(0, 6, 0, 7));
    assert_eq!(out[1].range, rng(0, 10, 0, 11));
}

fn doc(uri: &str, imports: Vec<Import>, sites: Vec<Site>) -> QueryDocument {
    QueryDocument {
        uri: s(uri),
        basename: s("test"),
        language_name: None,
        end: Position { line: 5, character: 0 },
        imports,
        structure_errors: vec![],
        sites,
    }
}

fn import(uri: Option<&str>, start: u32) -> Import {
    Import { start, end: start + 3, uri: uri.map(s) }
}

#[test]
fn import_cycles_end() {
    let a = doc("a", vec![import(Some("b"), 10)], vec![Site::Pattern { range: rng(1, 0, 1, 5), has_captures: false }]);
    let b = doc("b", vec![import(Some("a"), 12)], vec![]);
    let out = get_diagnostics(&vec![a, b], 0, None, &Options::default());
    assert_eq!(out.len(), 2);
    assert_eq!(out[0].message, "Issues in module");
    assert_eq!(out[0].range, rng(0, 10, 0, 13));
    assert_eq!(out[0].severity, Severity::Warning);
    assert_eq!(out[0].related_information.len(), 1);
    assert_eq!(out[0].related_information[0].uri, "b");
    assert_eq!(out[0].related_information[0].message, "Issues in module");
    assert_eq!(out[0].related_information[0].range, rng(0, 12, 0, 15));
    assert_eq!(out[1].message, "This pattern has no captures, and will not be processed");
    // A module that imports itself.
    let c = doc("c", vec![import(Some("c"), 10)], vec![]);
    assert!(get_diagnostics(&vec![c], 0, None, &Options::default()).is_empty());
}

#[test]
fn missing_modules_are_reported_at_each_import() {
    let a = doc("a", vec![import(None, 10), import(Some("zz"), 20), import(Some("zz"), 30)], vec![]);
    let out = get_diagnostics(&vec![a], 0, None, &Options::default());
    assert_eq!(
        messages(&out),
        vec![s("Query module not found"), s("Query module not found"), s("Query module not found")]
    );
    assert_eq!(out[0].range, rng(0, 10, 0, 13));
    assert_eq!(out[1].range, rng(0, 20, 0, 23));
    assert_eq!(out[2].range, rng(0, 30, 0, 33));
    assert_eq!(out[0].severity, Severity::Warning);
}

#[test]
fn a_module_imported_twice_is_walked_once() {
    let m = doc("m", vec![], vec![Site::Error { range: rng(2, 0, 2, 1) }]);
    let a = doc("a", vec![import(Some("m"), 10), import(Some("m"), 20)], vec![]);
    let out = get_diagnostics(&vec![a, m], 0, None, &Options::default());
    assert_eq!(messages(&out), vec![s("Issues in module")]);
    assert_eq!(out[0].range, rng(0, 10, 0, 13));
}

#[test]
fn module_severity_is_the_most_severe() {
    let m = doc(
        "m",
        vec![],
        vec![
            Site::Identifier { range: rng(0, 0, 0, 1) },
            Site::Pattern { range: rng(1, 0, 1, 5), has_captures: false },
            Site::Error { range: rng(2, 0, 2, 1) },
        ],
    );
    let a = doc("a", vec![import(Some("m"), 10)], vec![]);
    let out = get_diagnostics(&vec![a, m], 0, None, &Options::default());
    assert_eq!(out.len(), 1);
    assert_eq!(out[0].severity, Severity::Error);
    assert_eq!(out[0].related_information.len(), 2);
}

#[test]
fn structure_errors_come_before_site_diagnostics() {
    let mut a = doc("a", vec![import(None, 10)], vec![Site::Error { range: rng(3, 0, 3, 1) }]);
    a.structure_errors = vec![rng(1, 2, 1, 4)];
    let out = get_diagnostics(&vec![a], 0, None, &Options::default());
    assert_eq!(
        messages(&out),
        vec![s("Query module not found"), s("Invalid pattern structure"), s("Invalid syntax")]
    );
    assert_eq!(out[1].range, rng(1, 2, 1, 4));
    assert_eq!(out[1].severity, Severity::Error);
}

#[test]
fn diagnostic_ranges_lie_in_the_document() {
    let end = Position { line: 5, character: 0 };
    let within = |r: &Range| {
        let le = |a: &Position, b: &Position| a.line < b.line || (a.line == b.line && a.character <= b.character);
        le(&r.start, &r.end) && le(&r.end, &end)
    };
    let a = doc(
        "a",
        vec![import(Some("b"), 10), import(None, 20)],
        vec![
            Site::Pattern { range: rng(1, 0, 1, 5), has_captures: false },
            Site::QuotedString { text: s("x"), range: rng(2, 1, 2, 2), has_escapes: false },
            Site::Error { range: rng(4, 0, 4, 3) },
        ],
    );
    let b = doc("b", vec![], vec![Site::Error { range: rng(4, 0, 4, 9) }]);
    let mut options = Options::default();
    options.diagnostic_options.string_argument_style = ts_query_ls::StringArgumentStyle::PreferUnquoted;
    let out = get_diagnostics(&vec![a, b], 0, None, &options);
    assert_eq!(out.len(), 5);
    assert_eq!(out[3].range, rng(2, 0, 2, 3));
    for d in &out {
        assert!(within(&d.range) || (d.range.start.line == 0 && d.range.end.line == 0));
    }
}
