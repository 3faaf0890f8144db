//! Query documents, the diagnostics of one document, and the walk over the
//! documents that it imports.
use vstd::prelude::*;
use crate::options::{find_capture_table, first_index, lemma_first_index, LanguageData, Options};
use crate::predicate::{
    arguments_diagnostics, parameter_diagnostics, predicate_diagnostics, present_arguments, Parameter,
    PredicateCall,
};
use crate::sites::{
    capture_table_for, check_site_with, deref_language, site_diagnostics, site_wf, widened, Site,
};
use crate::types::{
    lemma_views_push, on_first_line, plain, range_within, views, Diagnostic, DiagnosticView,
    Position, Range, RelatedInformation, RelatedView, Severity,
};

verus! {

/// An `; inherits:` import on the first line: the columns of the module name
/// and the document that it resolved to, if any.
#[derive(Clone, Debug, PartialEq, Eq)]
pub struct Import {
    pub start: u32,
    pub end: u32,
    pub uri: Option<String>,
}

/// What the diagnostics read of one query document.
#[derive(Clone, Debug, PartialEq, Eq)]
pub struct QueryDocument {
    pub uri: String,
    /// The grammar key of the document, under which the options list its
    /// capture names.
    pub basename: String,
    /// The grammar that the document's queries target, if known.
    pub language_name: Option<String>,
    /// The position just past the document's last character.
    pub end: Position,
    pub imports: Vec<Import>,
    /// For each top-level pattern that does not fit the grammar's structure,
    /// the range of the node at which the structural error lies.
    pub structure_errors: Vec<Range>,
    /// The sites that the scan of the document's syntax tree reported, in order.
    pub sites: Vec<Site>,
}

/// The open documents and the grammars known to the server.
#[derive(Clone, Debug, PartialEq, Eq)]
pub struct DocumentStore {
    pub documents: Vec<QueryDocument>,
    pub languages: Vec<LanguageData>,
}

/// Why no diagnostics could be computed.
#[derive(Clone, Copy, Debug, PartialEq, Eq, Structural)]
pub enum DiagnosticError {
    DocumentNotFound,
}

pub open spec fn document_wf(doc: QueryDocument) -> bool {
    forall|i: int| 0 <= i < doc.sites@.len() ==> site_wf(#[trigger] doc.sites@[i])
}

pub open spec fn documents_wf(docs: Seq<QueryDocument>) -> bool {
    forall|i: int| 0 <= i < docs.len() ==> document_wf(#[trigger] docs[i])
}

/// The first document with this URI.
pub open spec fn document_index(docs: Seq<QueryDocument>, uri: Seq<char>) -> Option<int> {
    first_index(docs, |d: QueryDocument| d.uri@ == uri)
}

/// The first grammar with this name.
pub open spec fn language_index(langs: Seq<LanguageData>, name: Seq<char>) -> Option<int> {
    first_index(langs, |l: LanguageData| l.name@ == name)
}

pub open spec fn structure_diagnostic(r: Range) -> DiagnosticView {
    plain(r, Severity::Error, "Invalid pattern structure"@)
}

pub open spec fn structure_diagnostics(errors: Seq<Range>) -> Seq<DiagnosticView> {
    errors.map_values(|r: Range| structure_diagnostic(r))
}

pub open spec fn sites_diagnostics(
    sites: Seq<Site>,
    language: Option<LanguageData>,
    options: Options,
    basename: Seq<char>,
) -> Seq<DiagnosticView>
    decreases sites.len(),
{
    if sites.len() == 0 {
        Seq::empty()
    } else {
        sites_diagnostics(sites.drop_last(), language, options, basename) + site_diagnostics(
            sites.last(),
            language,
            options,
            basename,
        )
    }
}

/// The diagnostics of a document itself: its structural errors, then what its
/// sites yield.
pub open spec fn local_diagnostics(
    doc: QueryDocument,
    language: Option<LanguageData>,
    options: Options,
) -> Seq<DiagnosticView> {
    structure_diagnostics(doc.structure_errors@) + sites_diagnostics(
        doc.sites@,
        language,
        options,
        doc.basename@,
    )
}

pub open spec fn import_range(imp: Import) -> Range {
    Range {
        start: Position { line: 0, character: imp.start },
        end: Position { line: 0, character: imp.end },
    }
}

pub open spec fn not_found_diagnostic(imp: Import) -> DiagnosticView {
    plain(import_range(imp), Severity::Warning, "Query module not found"@)
}

pub open spec fn severity_rank(s: Severity) -> int {
    match s {
        Severity::Error => 0,
        Severity::Warning => 1,
        Severity::Hint => 2,
    }
}

/// The most severe of the diagnostics' severities; `Hint` for none.
pub open spec fn most_severe(ds: Seq<DiagnosticView>) -> Severity
    decreases ds.len(),
{
    if ds.len() == 0 {
        Severity::Hint
    } else {
        let s = most_severe(ds.drop_last());
        if severity_rank(ds.last().severity) < severity_rank(s) {
            ds.last().severity
        } else {
            s
        }
    }
}

pub open spec fn related_of(uri: Seq<char>, inner: Seq<DiagnosticView>) -> Seq<RelatedView> {
    inner.map_values(|d: DiagnosticView| RelatedView { uri, range: d.range, message: d.message })
}

/// The one diagnostic that folds the diagnostics of an imported module.
pub open spec fn issues_diagnostic(
    imp: Import,
    uri: Seq<char>,
    inner: Seq<DiagnosticView>,
) -> DiagnosticView {
    DiagnosticView {
        range: import_range(imp),
        severity: most_severe(inner),
        message: "Issues in module"@,
        unnecessary: false,
        related: related_of(uri, inner),
        action: None,
    }
}

/// The diagnostics of a list of imports and the seen set after them. An
/// import whose module is unresolved or absent is reported, every time; a
/// module that exists is walked only the first time its URI is met. `fuel`
/// bounds the depth of the walk.
pub open spec fn walk_imports(
    docs: Seq<QueryDocument>,
    imports: Seq<Import>,
    language: Option<LanguageData>,
    options: Options,
    seen: Set<Seq<char>>,
    fuel: nat,
) -> (Seq<DiagnosticView>, Set<Seq<char>>)
    decreases fuel, 0nat, imports.len(),
{
    if imports.len() == 0 {
        (Seq::empty(), seen)
    } else {
        let imp = imports[0];
        let rest = imports.drop_first();
        match imp.uri {
            None => {
                let (d, s) = walk_imports(docs, rest, language, options, seen, fuel);
                (seq![not_found_diagnostic(imp)] + d, s)
            },
            Some(u) => match document_index(docs, u@) {
                None => {
                    let (d, s) = walk_imports(docs, rest, language, options, seen, fuel);
                    (seq![not_found_diagnostic(imp)] + d, s)
                },
                Some(j) => if seen.contains(u@) {
                    walk_imports(docs, rest, language, options, seen, fuel)
                } else if fuel == 0 {
                    (Seq::empty(), seen.insert(u@))
                } else {
                    let seen1 = seen.insert(u@);
                    let (inner, seen2) = walk_document(
                        docs,
                        j,
                        language,
                        options,
                        seen1,
                        (fuel - 1) as nat,
                    );
                    let (d, s) = walk_imports(docs, rest, language, options, seen2, fuel);
                    let head = if inner.len() > 0 {
                        seq![issues_diagnostic(imp, u@, inner)]
                    } else {
                        Seq::empty()
                    };
                    (head + d, s)
                },
            },
        }
    }
}

/// The diagnostics of document `i` (its imports first, then its own) and the
/// seen set after them.
pub open spec fn walk_document(
    docs: Seq<QueryDocument>,
    i: int,
    language: Option<LanguageData>,
    options: Options,
    seen: Set<Seq<char>>,
    fuel: nat,
) -> (Seq<DiagnosticView>, Set<Seq<char>>)
    decreases fuel, 1nat, 0nat,
{
    if 0 <= i < docs.len() {
        let (d, s) = walk_imports(docs, docs[i].imports@, language, options, seen, fuel);
        (d + local_diagnostics(docs[i], language, options), s)
    } else {
        (Seq::empty(), seen)
    }
}

/// The diagnostics of document `i`, walked with a fresh seen set.
pub open spec fn document_diagnostics(
    docs: Seq<QueryDocument>,
    i: int,
    language: Option<LanguageData>,
    options: Options,
) -> Seq<DiagnosticView> {
    walk_document(docs, i, language, options, Set::empty(), (docs.len() + 1) as nat).0
}

/// The grammar of a document, looked up by its name.
pub open spec fn document_language(
    langs: Seq<LanguageData>,
    doc: QueryDocument,
) -> Option<LanguageData> {
    match doc.language_name {
        Some(n) => match language_index(langs, n@) {
            Some(k) => Some(langs[k]),
            None => None,
        },
        None => None,
    }
}

/// The set of texts that a vector of strings holds.
pub open spec fn uri_set(v: Seq<String>) -> Set<Seq<char>> {
    Set::new(|u: Seq<char>| exists|i: int| 0 <= i < v.len() && v[i]@ == u)
}

/// The number of documents whose URI is not yet seen.
pub open spec fn unseen(docs: Seq<QueryDocument>, seen: Set<Seq<char>>) -> nat
    decreases docs.len(),
{
    if docs.len() == 0 {
        0
    } else {
        unseen(docs.drop_last(), seen) + if seen.contains(docs.last().uri@) {
            0nat
        } else {
            1nat
        }
    }
}

proof fn lemma_unseen_bound(docs: Seq<QueryDocument>, seen: Set<Seq<char>>)
    ensures
        unseen(docs, seen) <= docs.len(),
    decreases docs.len(),
{
    if docs.len() > 0 {
        lemma_unseen_bound(docs.drop_last(), seen);
    }
}

proof fn lemma_unseen_monotone(docs: Seq<QueryDocument>, s1: Set<Seq<char>>, s2: Set<Seq<char>>)
    requires
        s1.subset_of(s2),
    ensures
        unseen(docs, s2) <= unseen(docs, s1),
    decreases docs.len(),
{
    if docs.len() > 0 {
        lemma_unseen_monotone(docs.drop_last(), s1, s2);
    }
}

proof fn lemma_unseen_insert(docs: Seq<QueryDocument>, seen: Set<Seq<char>>, j: int)
    requires
        0 <= j < docs.len(),
        !seen.contains(docs[j].uri@),
    ensures
        unseen(docs, seen.insert(docs[j].uri@)) < unseen(docs, seen),
    decreases docs.len(),
{
    let s2 = seen.insert(docs[j].uri@);
    if j == docs.len() - 1 {
        lemma_unseen_monotone(docs.drop_last(), seen, s2);
    } else {
        assert(docs.drop_last()[j] == docs[j]);
        lemma_unseen_insert(docs.drop_last(), seen, j);
    }
}

proof fn lemma_uri_set_push(v: Seq<String>, s: String)
    ensures
        uri_set(v.push(s)) == uri_set(v).insert(s@),
{
    let a = uri_set(v.push(s));
    let b = uri_set(v).insert(s@);
    assert forall|u: Seq<char>| a.contains(u) <==> b.contains(u) by {
        if a.contains(u) {
            let i = choose|i: int| 0 <= i < v.push(s).len() && v.push(s)[i]@ == u;
            if i < v.len() {
                assert(v[i]@ == u);
            }
        }
        if b.contains(u) && u != s@ {
            let i = choose|i: int| 0 <= i < v.len() && v[i]@ == u;
            assert(v.push(s)[i]@ == u);
        }
        if u == s@ {
            assert(v.push(s)[v.len() as int]@ == u);
        }
    }
    assert(a =~= b);
}

fn find_document(docs: &Vec<QueryDocument>, uri: &String) -> (r: Option<usize>)
    ensures
        r matches Some(i) ==> i < docs@.len() && document_index(docs@, uri@) == Some(i as int)
            && docs@[i as int].uri@ == uri@,
        r is None ==> document_index(docs@, uri@) is None,
{
    let ghost p = |d: QueryDocument| d.uri@ == uri@;
    let mut i: usize = 0;
    while i < docs.len()
        invariant
            i <= docs@.len(),
            p == (|d: QueryDocument| d.uri@ == uri@),
            forall|j: int| 0 <= j < i ==> !p(docs@[j]),
        decreases docs.len() - i,
    {
        if docs[i].uri == *uri {
            proof {
                lemma_first_index(docs@, p, i as int);
            }
            return Some(i);
        }
        i = i + 1;
    }
    None
}

fn find_language(langs: &Vec<LanguageData>, name: &String) -> (r: Option<usize>)
    ensures
        r matches Some(i) ==> i < langs@.len() && language_index(langs@, name@) == Some(i as int),
        r is None ==> language_index(langs@, name@) is None,
{
    let ghost p = |l: LanguageData| l.name@ == name@;
    let mut i: usize = 0;
    while i < langs.len()
        invariant
            i <= langs@.len(),
            p == (|l: LanguageData| l.name@ == name@),
            forall|j: int| 0 <= j < i ==> !p(langs@[j]),
        decreases langs.len() - i,
    {
        if langs[i].name == *name {
            proof {
                lemma_first_index(langs@, p, i as int);
            }
            return Some(i);
        }
        i = i + 1;
    }
    None
}

fn contains_uri(seen: &Vec<String>, uri: &String) -> (r: bool)
    ensures
        r == uri_set(seen@).contains(uri@),
{
    let mut i: usize = 0;
    while i < seen.len()
        invariant
            i <= seen@.len(),
            forall|j: int| 0 <= j < i ==> seen@[j]@ != uri@,
        decreases seen.len() - i,
    {
        if seen[i] == *uri {
            return true;
        }
        i = i + 1;
    }
    false
}

/// Appends the diagnostics of a document itself, as `local_diagnostics` states.
pub fn append_local_diagnostics(
    diagnostics: &mut Vec<Diagnostic>,
    doc: &QueryDocument,
    language: Option<&LanguageData>,
    options: &Options,
)
    requires
        document_wf(*doc),
    ensures
        views(final(diagnostics)@) == views(old(diagnostics)@) + local_diagnostics(
            *doc,
            deref_language(language),
            *options,
        ),
{
    let ghost start = views(diagnostics@);
    let ghost lang = deref_language(language);
    let mut k: usize = 0;
    while k < doc.structure_errors.len()
        invariant
            k <= doc.structure_errors@.len(),
            views(diagnostics@) == start + structure_diagnostics(
                doc.structure_errors@.subrange(0, k as int),
            ),
        decreases doc.structure_errors.len() - k,
    {
        let d = Diagnostic::new_plain(
            doc.structure_errors[k],
            Severity::Error,
            String::from_str("Invalid pattern structure"),
        );
        proof {
            lemma_views_push(diagnostics@, d);
            assert(structure_diagnostics(doc.structure_errors@.subrange(0, k + 1)) =~= structure_diagnostics(
                doc.structure_errors@.subrange(0, k as int),
            ).push(d@));
        }
        diagnostics.push(d);
        k = k + 1;
    }
    assert(doc.structure_errors@.subrange(0, k as int) =~= doc.structure_errors@);
    let ghost mid = views(diagnostics@);
    let captures = match find_capture_table(&options.valid_captures, &doc.basename) {
        Some(t) => Some(&options.valid_captures[t]),
        None => None,
    };
    let mut s: usize = 0;
    while s < doc.sites.len()
        invariant
            s <= doc.sites@.len(),
            document_wf(*doc),
            lang == deref_language(language),
            captures matches Some(t) ==> capture_table_for(*options, doc.basename@) == Some(*t),
            captures is None ==> capture_table_for(*options, doc.basename@) is None,
            views(diagnostics@) == mid + sites_diagnostics(
                doc.sites@.subrange(0, s as int),
                lang,
                *options,
                doc.basename@,
            ),
        decreases doc.sites.len() - s,
    {
        let ghost before = views(diagnostics@);
        let ghost sub = doc.sites@.subrange(0, s + 1);
        proof {
            assert(site_wf(doc.sites@[s as int]));
            assert(sub.drop_last() =~= doc.sites@.subrange(0, s as int));
            assert(sub.last() == doc.sites@[s as int]);
        }
        check_site_with(diagnostics, &doc.sites[s], language, options, captures, Ghost(doc.basename@));
        assert(sites_diagnostics(sub, lang, *options, doc.basename@) == sites_diagnostics(
            sub.drop_last(),
            lang,
            *options,
            doc.basename@,
        ) + site_diagnostics(sub.last(), lang, *options, doc.basename@));
        assert(views(diagnostics@) =~= mid + sites_diagnostics(sub, lang, *options, doc.basename@));
        s = s + 1;
    }
    assert(doc.sites@.subrange(0, s as int) =~= doc.sites@);
}

/// Folds the diagnostics of the module `uri` into one diagnostic at the
/// import: the most severe of their severities, and each of them as related
/// information.
fn issues_in_module(imp: &Import, uri: &String, inner: &Vec<Diagnostic>) -> (r: Diagnostic)
    ensures
        r@ == issues_diagnostic(*imp, uri@, views(inner@)),
{
    let ghost iv = views(inner@);
    let mut severity = Severity::Hint;
    let mut related: Vec<RelatedInformation> = Vec::new();
    let mut t: usize = 0;
    while t < inner.len()
        invariant
            t <= inner@.len(),
            iv == views(inner@),
            severity == most_severe(iv.subrange(0, t as int)),
            related@.map_values(|r: RelatedInformation| r@) == related_of(
                uri@,
                iv.subrange(0, t as int),
            ),
        decreases inner.len() - t,
    {
        let d = &inner[t];
        proof {
            let sub = iv.subrange(0, t + 1);
            assert(sub.drop_last() =~= iv.subrange(0, t as int));
            assert(sub.last() == d@);
        }
        if rank(d.severity) < rank(severity) {
            severity = d.severity;
        }
        let info = RelatedInformation { uri: uri.clone(), range: d.range, message: d.message.clone() };
        let ghost before = related@;
        related.push(info);
        proof {
            assert(related@.map_values(|r: RelatedInformation| r@) =~= before.map_values(
                |r: RelatedInformation| r@,
            ).push(info@));
            assert(related_of(uri@, iv.subrange(0, t + 1)) =~= related_of(
                uri@,
                iv.subrange(0, t as int),
            ).push(info@));
        }
        t = t + 1;
    }
    assert(iv.subrange(0, t as int) =~= iv);
    Diagnostic {
        range: Range {
            start: Position { line: 0, character: imp.start },
            end: Position { line: 0, character: imp.end },
        },
        severity,
        message: String::from_str("Issues in module"),
        unnecessary: false,
        related_information: related,
        action: None,
    }
}

fn rank(s: Severity) -> (r: u8)
    ensures
        r as int == severity_rank(s),
{
    match s {
        Severity::Error => 0,
        Severity::Warning => 1,
        Severity::Hint => 2,
    }
}

fn not_found(imp: &Import) -> (r: Diagnostic)
    ensures
        r@ == not_found_diagnostic(*imp),
{
    let range = Range {
        start: Position { line: 0, character: imp.start },
        end: Position { line: 0, character: imp.end },
    };
    Diagnostic::new_plain(range, Severity::Warning, String::from_str("Query module not found"))
}

fn walk(
    docs: &Vec<QueryDocument>,
    index: usize,
    language: Option<&LanguageData>,
    options: &Options,
    seen: &mut Vec<String>,
    Ghost(fuel): Ghost<nat>,
) -> (r: Vec<Diagnostic>)
    requires
        index < docs@.len(),
        documents_wf(docs@),
        fuel > unseen(docs@, uri_set(old(seen)@)),
    ensures
        (views(r@), uri_set(final(seen)@)) == walk_document(
            docs@,
            index as int,
            deref_language(language),
            *options,
            uri_set(old(seen)@),
            fuel,
        ),
        uri_set(old(seen)@).subset_of(uri_set(final(seen)@)),
    decreases fuel,
{
    let ghost lang = deref_language(language);
    let ghost seen0 = uri_set(seen@);
    let doc = &docs[index];
    let ghost imports = doc.imports@;
    let mut items: Vec<Diagnostic> = Vec::new();
    let mut k: usize = 0;
    assert(imports.subrange(0, imports.len() as int) =~= imports);
    assert(views(items@) =~= Seq::<DiagnosticView>::empty());
    while k < doc.imports.len()
        invariant
            k <= imports.len(),
            imports == docs@[index as int].imports@,
            index < docs@.len(),
            *doc == docs@[index as int],
            lang == deref_language(language),
            documents_wf(docs@),
            fuel > unseen(docs@, seen0),
            seen0.subset_of(uri_set(seen@)),
            walk_imports(docs@, imports, lang, *options, seen0, fuel) == (
                views(items@) + walk_imports(
                    docs@,
                    imports.subrange(k as int, imports.len() as int),
                    lang,
                    *options,
                    uri_set(seen@),
                    fuel,
                ).0,
                walk_imports(
                    docs@,
                    imports.subrange(k as int, imports.len() as int),
                    lang,
                    *options,
                    uri_set(seen@),
                    fuel,
                ).1,
            ),
        decreases imports.len() - k,
    {
        let imp = &doc.imports[k];
        let ghost rest = imports.subrange(k as int, imports.len() as int);
        let ghost next = imports.subrange(k + 1, imports.len() as int);
        let ghost seen_k = uri_set(seen@);
        let ghost items_k = views(items@);
        assert(rest.drop_first() =~= next);
        assert(rest[0] == *imp);
        match &imp.uri {
            None => {
                let d = not_found(imp);
                proof {
                    lemma_views_push(items@, d);
                }
                items.push(d);
                assert(items_k + (seq![d@] + walk_imports(docs@, next, lang, *options, seen_k, fuel).0)
                    =~= views(items@) + walk_imports(docs@, next, lang, *options, seen_k, fuel).0);
            },
            Some(u) => {
                match find_document(docs, u) {
                    None => {
                        let d = not_found(imp);
                        proof {
                            lemma_views_push(items@, d);
                        }
                        items.push(d);
                        assert(items_k + (seq![d@] + walk_imports(
                            docs@,
                            next,
                            lang,
                            *options,
                            seen_k,
                            fuel,
                        ).0) =~= views(items@) + walk_imports(
                            docs@,
                            next,
                            lang,
                            *options,
                            seen_k,
                            fuel,
                        ).0);
                    },
                    Some(j) => {
                        if !contains_uri(seen, u) {
                            proof {
                                lemma_uri_set_push(seen@, *u);
                                lemma_unseen_insert(docs@, seen_k, j as int);
                                lemma_unseen_monotone(docs@, seen0, seen_k);
                            }
                            seen.push(u.clone());
                            let inner = walk(
                                docs,
                                j,
                                language,
                                options,
                                seen,
                                Ghost((fuel - 1) as nat),
                            );
                            if inner.len() > 0 {
                                let d = issues_in_module(imp, u, &inner);
                                proof {
                                    lemma_views_push(items@, d);
                                }
                                items.push(d);
                            }
                            let ghost seen2 = uri_set(seen@);
                            let ghost head = if views(inner@).len() > 0 {
                                seq![issues_diagnostic(*imp, u@, views(inner@))]
                            } else {
                                Seq::<DiagnosticView>::empty()
                            };
                            assert(views(items@) =~= items_k + head);
                            assert(items_k + (head + walk_imports(
                                docs@,
                                next,
                                lang,
                                *options,
                                seen2,
                                fuel,
                            ).0) =~= views(items@) + walk_imports(
                                docs@,
                                next,
                                lang,
                                *options,
                                seen2,
                                fuel,
                            ).0);
                        }
                    },
                }
            },
        }
        k = k + 1;
    }
    assert(imports.subrange(k as int, imports.len() as int) =~= Seq::<Import>::empty());
    assert(views(items@) + Seq::<DiagnosticView>::empty() =~= views(items@));
    append_local_diagnostics(&mut items, doc, language, options);
    items
}

/// The diagnostics of document `index` of `documents`: those of the modules
/// it imports, each folded into one diagnostic at its import, then its
/// structural errors, then what its sites yield. Each module is walked at
/// most once per call, so import cycles end.
pub fn get_diagnostics(
    documents: &Vec<QueryDocument>,
    index: usize,
    language: Option<&LanguageData>,
    options: &Options,
) -> (r: Vec<Diagnostic>)
    requires
        index < documents@.len(),
        documents_wf(documents@),
    ensures
        views(r@) == document_diagnostics(
            documents@,
            index as int,
            deref_language(language),
            *options,
        ),
{
    let mut seen: Vec<String> = Vec::new();
    proof {
        assert(uri_set(seen@) =~= Set::<Seq<char>>::empty());
        lemma_unseen_bound(documents@, Set::empty());
    }
    walk(documents, index, language, options, &mut seen, Ghost((documents.len() + 1) as nat))
}

/// The diagnostics of the document `uri` of the store, with the grammar that
/// its language name selects; an error when the store has no such document.
pub fn diagnostic(store: &DocumentStore, uri: &String, options: &Options) -> (r: Result<
    Vec<Diagnostic>,
    DiagnosticError,
>)
    requires
        documents_wf(store.documents@),
    ensures
        match document_index(store.documents@, uri@) {
            None => r == Err::<Vec<Diagnostic>, DiagnosticError>(DiagnosticError::DocumentNotFound),
            Some(i) => r matches Ok(ds) && views(ds@) == document_diagnostics(
                store.documents@,
                i,
                document_language(store.languages@, store.documents@[i]),
                *options,
            ),
        },
{
    match find_document(&store.documents, uri) {
        None => Err(DiagnosticError::DocumentNotFound),
        Some(i) => {
            let doc = &store.documents[i];
            let language = match &doc.language_name {
                Some(name) => match find_language(&store.languages, name) {
                    Some(k) => Some(&store.languages[k]),
                    None => None,
                },
                None => None,
            };
            Ok(get_diagnostics(&store.documents, i, language, options))
        },
    }
}

/// The walk of a document ends on every import graph, cycles included: any
/// depth bound above the number of documents not yet seen gives the same
/// diagnostics and seen set, so the bound of `document_diagnostics` is never
/// what stops it. The seen set only grows.
pub proof fn lemma_walk_document_terminates(
    docs: Seq<QueryDocument>,
    i: int,
    language: Option<LanguageData>,
    options: Options,
    seen: Set<Seq<char>>,
    f1: nat,
    f2: nat,
)
    requires
        f1 > unseen(docs, seen),
        f2 > unseen(docs, seen),
    ensures
        walk_document(docs, i, language, options, seen, f1) == walk_document(
            docs,
            i,
            language,
            options,
            seen,
            f2,
        ),
        seen.subset_of(walk_document(docs, i, language, options, seen, f1).1),
    decreases f1, 1nat, 0nat,
{
    if 0 <= i < docs.len() {
        lemma_walk_imports_terminates(docs, docs[i].imports@, language, options, seen, f1, f2);
    }
}

/// The walk of a list of imports gives the same outcome under any depth bound
/// above the number of documents not yet seen, and only grows the seen set.
pub proof fn lemma_walk_imports_terminates(
    docs: Seq<QueryDocument>,
    imports: Seq<Import>,
    language: Option<LanguageData>,
    options: Options,
    seen: Set<Seq<char>>,
    f1: nat,
    f2: nat,
)
    requires
        f1 > unseen(docs, seen),
        f2 > unseen(docs, seen),
    ensures
        walk_imports(docs, imports, language, options, seen, f1) == walk_imports(
            docs,
            imports,
            language,
            options,
            seen,
            f2,
        ),
        seen.subset_of(walk_imports(docs, imports, language, options, seen, f1).1),
    decreases f1, 0nat, imports.len(),
{
    if imports.len() > 0 {
        let imp = imports[0];
        let rest = imports.drop_first();
        match imp.uri {
            None => {
                lemma_walk_imports_terminates(docs, rest, language, options, seen, f1, f2);
            },
            Some(u) => match document_index(docs, u@) {
                None => {
                    lemma_walk_imports_terminates(docs, rest, language, options, seen, f1, f2);
                },
                Some(j) => if seen.contains(u@) {
                    lemma_walk_imports_terminates(docs, rest, language, options, seen, f1, f2);
                } else {
                    let seen1 = seen.insert(u@);
                    crate::options::lemma_first_index_bounds(docs, |d: QueryDocument| d.uri@ == u@);
                    lemma_unseen_insert(docs, seen, j);
                    lemma_walk_document_terminates(
                        docs,
                        j,
                        language,
                        options,
                        seen1,
                        (f1 - 1) as nat,
                        (f2 - 1) as nat,
                    );
                    let seen2 = walk_document(docs, j, language, options, seen1, (f1 - 1) as nat).1;
                    lemma_unseen_monotone(docs, seen1, seen2);
                    lemma_walk_imports_terminates(docs, rest, language, options, seen2, f1, f2);
                    assert(seen.subset_of(seen1));
                },
            },
        }
    }
}

/// Every range that the call's diagnostics may take lies within `end`.
pub open spec fn call_in_bounds(call: PredicateCall, end: Position) -> bool {
    &&& range_within(call.name_range, end)
    &&& range_within(call.parameters_range, end)
    &&& range_within(call.call_range, end)
    &&& forall|i: int|
        0 <= i < call.parameters@.len() ==> range_within(#[trigger] call.parameters@[i].range, end)
}

/// Every range that the site's diagnostics may take lies within `end`; for a
/// quoted string, that includes its quotes.
pub open spec fn site_in_bounds(site: Site, end: Position) -> bool {
    match site {
        Site::NamedNode { range, .. } => range_within(range, end),
        Site::AnonymousNode { range, .. } => range_within(range, end),
        Site::Supertype { range, subtype_range, .. } => range_within(range, end) && range_within(
            subtype_range,
            end,
        ),
        Site::Field { range, .. } => range_within(range, end),
        Site::Error { range } => range_within(range, end),
        Site::Missing { range, .. } => range_within(range, end),
        Site::CaptureReference { range, .. } => range_within(range, end),
        Site::CaptureDefinition { range, .. } => range_within(range, end),
        Site::Predicate { call } => call_in_bounds(call, end),
        Site::Directive { call } => call_in_bounds(call, end),
        Site::Escape { range, .. } => range_within(range, end),
        Site::Pattern { range, .. } => range_within(range, end),
        Site::QuotedString { range, .. } => range_within(widened(range), end),
        Site::Identifier { range } => range_within(range, end),
    }
}

/// The ranges that a scan of the document reported lie within the document.
pub open spec fn document_in_bounds(doc: QueryDocument) -> bool {
    &&& forall|i: int|
        0 <= i < doc.structure_errors@.len() ==> range_within(
            #[trigger] doc.structure_errors@[i],
            doc.end,
        )
    &&& forall|i: int| 0 <= i < doc.sites@.len() ==> site_in_bounds(#[trigger] doc.sites@[i], doc.end)
}

proof fn lemma_arguments_in_bounds(
    params: Seq<Parameter>,
    specs: Seq<crate::options::PredicateParameter>,
    end: Position,
)
    requires
        specs.len() > 0,
        forall|i: int| 0 <= i < params.len() ==> range_within(#[trigger] params[i].range, end),
    ensures
        forall|k: int|
            0 <= k < arguments_diagnostics(params, specs).len() ==> range_within(
                (#[trigger] arguments_diagnostics(params, specs)[k]).range,
                end,
            ) && arguments_diagnostics(params, specs)[k].related.len() == 0,
    decreases params.len(),
{
    if params.len() > 0 {
        lemma_arguments_in_bounds(params.drop_last(), specs, end);
        let a = arguments_diagnostics(params.drop_last(), specs);
        let b = parameter_diagnostics(params.last(), params.len() - 1, specs);
        assert(range_within(params[params.len() - 1].range, end));
        assert forall|k: int| 0 <= k < (a + b).len() implies range_within((a + b)[k].range, end)
            && (a + b)[k].related.len() == 0 by {
            if k >= a.len() {
                assert(b[k - a.len()].range == params.last().range);
                assert(b[k - a.len()].related.len() == 0);
            } else {
                assert(range_within(a[k].range, end) && a[k].related.len() == 0);
            }
        }
    }
}

proof fn lemma_present_in_bounds(params: Seq<Parameter>, end: Position)
    requires
        forall|i: int| 0 <= i < params.len() ==> range_within(#[trigger] params[i].range, end),
    ensures
        forall|i: int|
            0 <= i < present_arguments(params).len() ==> range_within(
                #[trigger] present_arguments(params)[i].range,
                end,
            ),
    decreases params.len(),
{
    if params.len() > 0 {
        let init = params.drop_last();
        assert forall|i: int| 0 <= i < init.len() implies range_within(#[trigger] init[i].range, end) by {
            assert(init[i] == params[i]);
        }
        lemma_present_in_bounds(init, end);
        let kept = present_arguments(init);
        let all = present_arguments(params);
        assert(range_within(params[params.len() - 1].range, end));
        assert forall|i: int| 0 <= i < all.len() implies range_within(#[trigger] all[i].range, end) by {
            if i < kept.len() {
                assert(all[i] == kept[i]);
            } else {
                assert(all[i] == params.last());
            }
        }
    }
}

proof fn lemma_call_in_bounds(
    call: PredicateCall,
    specs: Seq<crate::options::PredicateParameter>,
    end: Position,
)
    requires
        call_in_bounds(call, end),
    ensures
        forall|k: int|
            0 <= k < predicate_diagnostics(call, specs).len() ==> range_within(
                (#[trigger] predicate_diagnostics(call, specs)[k]).range,
                end,
            ) && predicate_diagnostics(call, specs)[k].related.len() == 0,
{
    if specs.len() > 0 {
        lemma_present_in_bounds(call.parameters@, end);
        lemma_arguments_in_bounds(present_arguments(call.parameters@), specs, end);
    }
}

proof fn lemma_site_in_bounds(
    site: Site,
    language: Option<LanguageData>,
    options: Options,
    basename: Seq<char>,
    end: Position,
)
    requires
        site_in_bounds(site, end),
    ensures
        forall|k: int|
            0 <= k < site_diagnostics(site, language, options, basename).len() ==> range_within(
                (#[trigger] site_diagnostics(site, language, options, basename)[k]).range,
                end,
            ) && site_diagnostics(site, language, options, basename)[k].related.len() == 0,
{
    match site {
        Site::Predicate { call } => {
            if options.valid_predicates@.len() > 0 {
                if let Some(i) = crate::options::schema_index(options.valid_predicates@, call.name@) {
                    lemma_call_in_bounds(call, options.valid_predicates@[i].predicate.parameters@, end);
                }
            }
        },
        Site::Directive { call } => {
            if options.valid_directives@.len() > 0 {
                if let Some(i) = crate::options::schema_index(options.valid_directives@, call.name@) {
                    lemma_call_in_bounds(call, options.valid_directives@[i].predicate.parameters@, end);
                }
            }
        },
        _ => {},
    }
}

proof fn lemma_sites_in_bounds(
    sites: Seq<Site>,
    language: Option<LanguageData>,
    options: Options,
    basename: Seq<char>,
    end: Position,
)
    requires
        forall|i: int| 0 <= i < sites.len() ==> site_in_bounds(#[trigger] sites[i], end),
    ensures
        forall|k: int|
            0 <= k < sites_diagnostics(sites, language, options, basename).len() ==> range_within(
                (#[trigger] sites_diagnostics(sites, language, options, basename)[k]).range,
                end,
            ) && sites_diagnostics(sites, language, options, basename)[k].related.len() == 0,
    decreases sites.len(),
{
    if sites.len() > 0 {
        lemma_sites_in_bounds(sites.drop_last(), language, options, basename, end);
        assert(site_in_bounds(sites[sites.len() - 1], end));
        lemma_site_in_bounds(sites.last(), language, options, basename, end);
        let a = sites_diagnostics(sites.drop_last(), language, options, basename);
        let b = site_diagnostics(sites.last(), language, options, basename);
        assert forall|k: int| 0 <= k < (a + b).len() implies range_within((a + b)[k].range, end)
            && (a + b)[k].related.len() == 0 by {
            if k >= a.len() {
                assert(range_within(b[k - a.len()].range, end) && b[k - a.len()].related.len() == 0);
            } else {
                assert(range_within(a[k].range, end) && a[k].related.len() == 0);
            }
        }
    }
}

/// The range is the range of one of the imports.
pub open spec fn is_import_range(r: Range, imports: Seq<Import>) -> bool {
    exists|m: int| 0 <= m < imports.len() && r == import_range(#[trigger] imports[m])
}

proof fn lemma_prepend_import_ranges(
    head: Seq<DiagnosticView>,
    d: Seq<DiagnosticView>,
    imports: Seq<Import>,
)
    requires
        imports.len() > 0,
        forall|k: int| 0 <= k < head.len() ==> (#[trigger] head[k]).range == import_range(imports[0]),
        forall|k: int| 0 <= k < d.len() ==> is_import_range((#[trigger] d[k]).range, imports.drop_first()),
    ensures
        forall|k: int|
            0 <= k < (head + d).len() ==> is_import_range((#[trigger] (head + d)[k]).range, imports),
{
    let rest = imports.drop_first();
    assert forall|k: int| 0 <= k < (head + d).len() implies is_import_range(
        (#[trigger] (head + d)[k]).range,
        imports,
    ) by {
        if k < head.len() {
            assert((head + d)[k] == head[k]);
            assert((head + d)[k].range == import_range(imports[0]));
        } else {
            let kk = k - head.len();
            assert((head + d)[k] == d[kk]);
            assert(is_import_range(d[kk].range, rest));
            let m = choose|m: int| 0 <= m < rest.len() && d[kk].range == import_range(#[trigger] rest[m]);
            assert(rest[m] == imports[m + 1]);
            assert(d[kk].range == import_range(imports[m + 1]));
        }
    }
}

/// Each diagnostic that a list of imports yields sits at one of the imports.
proof fn lemma_import_ranges(
    docs: Seq<QueryDocument>,
    imports: Seq<Import>,
    language: Option<LanguageData>,
    options: Options,
    seen: Set<Seq<char>>,
    fuel: nat,
)
    ensures
        forall|k: int|
            0 <= k < walk_imports(docs, imports, language, options, seen, fuel).0.len()
                ==> is_import_range(
                (#[trigger] walk_imports(docs, imports, language, options, seen, fuel).0[k]).range,
                imports,
            ),
    decreases imports.len(),
{
    if imports.len() > 0 {
        let imp = imports[0];
        let rest = imports.drop_first();
        let nf = seq![not_found_diagnostic(imp)];
        match imp.uri {
            None => {
                lemma_import_ranges(docs, rest, language, options, seen, fuel);
                lemma_prepend_import_ranges(
                    nf,
                    walk_imports(docs, rest, language, options, seen, fuel).0,
                    imports,
                );
            },
            Some(u) => match document_index(docs, u@) {
                None => {
                    lemma_import_ranges(docs, rest, language, options, seen, fuel);
                    lemma_prepend_import_ranges(
                        nf,
                        walk_imports(docs, rest, language, options, seen, fuel).0,
                        imports,
                    );
                },
                Some(j) => if seen.contains(u@) {
                    lemma_import_ranges(docs, rest, language, options, seen, fuel);
                    let d = walk_imports(docs, rest, language, options, seen, fuel).0;
                    lemma_prepend_import_ranges(Seq::empty(), d, imports);
                    assert(Seq::<DiagnosticView>::empty() + d =~= d);
                } else if fuel > 0 {
                    let seen1 = seen.insert(u@);
                    let (inner, seen2) = walk_document(
                        docs,
                        j,
                        language,
                        options,
                        seen1,
                        (fuel - 1) as nat,
                    );
                    lemma_import_ranges(docs, rest, language, options, seen2, fuel);
                    let head = if inner.len() > 0 {
                        seq![issues_diagnostic(imp, u@, inner)]
                    } else {
                        Seq::<DiagnosticView>::empty()
                    };
                    lemma_prepend_import_ranges(
                        head,
                        walk_imports(docs, rest, language, options, seen2, fuel).0,
                        imports,
                    );
                },
            },
        }
    }
}

/// How many of a document's diagnostics stand for its imports; they come
/// first.
pub open spec fn import_diagnostic_count(
    docs: Seq<QueryDocument>,
    i: int,
    language: Option<LanguageData>,
    options: Options,
) -> int {
    walk_imports(
        docs,
        docs[i].imports@,
        language,
        options,
        Set::empty(),
        (docs.len() + 1) as nat,
    ).0.len() as int
}

/// The diagnostics that stand for a document's imports come first and each
/// sits at the columns of one of its imports, on the first line; every other
/// diagnostic lies within the document.
pub proof fn lemma_diagnostic_ranges(
    docs: Seq<QueryDocument>,
    i: int,
    language: Option<LanguageData>,
    options: Options,
)
    requires
        0 <= i < docs.len(),
        document_in_bounds(docs[i]),
    ensures
        forall|k: int|
            0 <= k < import_diagnostic_count(docs, i, language, options) ==> is_import_range(
                (#[trigger] document_diagnostics(docs, i, language, options)[k]).range,
                docs[i].imports@,
            ),
        forall|k: int|
            import_diagnostic_count(docs, i, language, options) <= k < document_diagnostics(
                docs,
                i,
                language,
                options,
            ).len() ==> range_within(
                (#[trigger] document_diagnostics(docs, i, language, options)[k]).range,
                docs[i].end,
            ),
{
    let doc = docs[i];
    let fuel = (docs.len() + 1) as nat;
    let seen = Set::<Seq<char>>::empty();
    lemma_import_ranges(docs, doc.imports@, language, options, seen, fuel);
    lemma_sites_in_bounds(doc.sites@, language, options, doc.basename@, doc.end);
    let a = walk_imports(docs, doc.imports@, language, options, seen, fuel).0;
    let s = structure_diagnostics(doc.structure_errors@);
    let b = sites_diagnostics(doc.sites@, language, options, doc.basename@);
    let all = document_diagnostics(docs, i, language, options);
    assert(all == a + (s + b));
    assert forall|k: int| 0 <= k < a.len() implies is_import_range(
        (#[trigger] all[k]).range,
        doc.imports@,
    ) by {
        assert(all[k] == a[k]);
    }
    assert forall|k: int| a.len() <= k < all.len() implies range_within(
        (#[trigger] all[k]).range,
        doc.end,
    ) by {
        if k < a.len() + s.len() {
            assert(all[k] == s[k - a.len()]);
            assert(range_within(doc.structure_errors@[k - a.len()], doc.end));
        } else {
            assert(all[k] == b[k - a.len() - s.len()]);
        }
    }
}

/// The columns of each of the document's imports lie within the document.
pub open spec fn imports_in_bounds(doc: QueryDocument) -> bool {
    forall|m: int|
        0 <= m < doc.imports@.len() ==> range_within(import_range(#[trigger] doc.imports@[m]), doc.end)
}

/// Every document of the store has its scanned ranges and its imports within
/// itself.
pub open spec fn store_in_bounds(docs: Seq<QueryDocument>) -> bool {
    forall|j: int|
        0 <= j < docs.len() ==> document_in_bounds(#[trigger] docs[j]) && imports_in_bounds(docs[j])
}

/// Each related entry of the diagnostic names a document of the store and lies
/// within that document.
pub open spec fn related_in_store(d: DiagnosticView, docs: Seq<QueryDocument>) -> bool {
    forall|r: int|
        0 <= r < d.related.len() ==> exists|j: int|
            0 <= j < docs.len() && (#[trigger] docs[j]).uri@ == (#[trigger] d.related[r]).uri
                && range_within(d.related[r].range, docs[j].end)
}

/// The diagnostic lies within `end` and its related entries within theirs.
pub open spec fn bounded(d: DiagnosticView, end: Position, docs: Seq<QueryDocument>) -> bool {
    range_within(d.range, end) && related_in_store(d, docs)
}

proof fn lemma_concat_bounded(
    a: Seq<DiagnosticView>,
    b: Seq<DiagnosticView>,
    end: Position,
    docs: Seq<QueryDocument>,
)
    requires
        forall|k: int| 0 <= k < a.len() ==> bounded(#[trigger] a[k], end, docs),
        forall|k: int| 0 <= k < b.len() ==> bounded(#[trigger] b[k], end, docs),
    ensures
        forall|k: int| 0 <= k < (a + b).len() ==> bounded(#[trigger] (a + b)[k], end, docs),
{
    assert forall|k: int| 0 <= k < (a + b).len() implies bounded(#[trigger] (a + b)[k], end, docs) by {
        if k < a.len() {
            assert((a + b)[k] == a[k]);
        } else {
            assert((a + b)[k] == b[k - a.len()]);
        }
    }
}

proof fn lemma_unrelated_bounded(ds: Seq<DiagnosticView>, end: Position, docs: Seq<QueryDocument>)
    requires
        forall|k: int|
            0 <= k < ds.len() ==> range_within((#[trigger] ds[k]).range, end) && ds[k].related.len()
                == 0,
    ensures
        forall|k: int| 0 <= k < ds.len() ==> bounded(#[trigger] ds[k], end, docs),
{
    assert forall|k: int| 0 <= k < ds.len() implies bounded(#[trigger] ds[k], end, docs) by {
        assert(ds[k].related.len() == 0);
    }
}

proof fn lemma_walk_document_bounded(
    docs: Seq<QueryDocument>,
    j: int,
    language: Option<LanguageData>,
    options: Options,
    seen: Set<Seq<char>>,
    fuel: nat,
)
    requires
        store_in_bounds(docs),
        0 <= j < docs.len(),
    ensures
        forall|k: int|
            0 <= k < walk_document(docs, j, language, options, seen, fuel).0.len() ==> bounded(
                #[trigger] walk_document(docs, j, language, options, seen, fuel).0[k],
                docs[j].end,
                docs,
            ),
    decreases fuel, 1nat, 0nat,
{
    let doc = docs[j];
    assert(document_in_bounds(doc) && imports_in_bounds(doc));
    lemma_walk_imports_bounded(docs, doc.imports@, doc.end, language, options, seen, fuel);
    lemma_sites_in_bounds(doc.sites@, language, options, doc.basename@, doc.end);
    let a = walk_imports(docs, doc.imports@, language, options, seen, fuel).0;
    let st = structure_diagnostics(doc.structure_errors@);
    let b = sites_diagnostics(doc.sites@, language, options, doc.basename@);
    assert forall|k: int| 0 <= k < st.len() implies range_within((#[trigger] st[k]).range, doc.end)
        && st[k].related.len() == 0 by {
        assert(range_within(doc.structure_errors@[k], doc.end));
    }
    lemma_unrelated_bounded(st, doc.end, docs);
    lemma_unrelated_bounded(b, doc.end, docs);
    lemma_concat_bounded(st, b, doc.end, docs);
    lemma_concat_bounded(a, st + b, doc.end, docs);
    assert(walk_document(docs, j, language, options, seen, fuel).0 == a + (st + b));
}

proof fn lemma_walk_imports_bounded(
    docs: Seq<QueryDocument>,
    imports: Seq<Import>,
    end: Position,
    language: Option<LanguageData>,
    options: Options,
    seen: Set<Seq<char>>,
    fuel: nat,
)
    requires
        store_in_bounds(docs),
        forall|m: int| 0 <= m < imports.len() ==> range_within(import_range(#[trigger] imports[m]), end),
    ensures
        forall|k: int|
            0 <= k < walk_imports(docs, imports, language, options, seen, fuel).0.len() ==> bounded(
                #[trigger] walk_imports(docs, imports, language, options, seen, fuel).0[k],
                end,
                docs,
            ),
    decreases fuel, 0nat, imports.len(),
{
    if imports.len() > 0 {
        let imp = imports[0];
        let rest = imports.drop_first();
        assert(range_within(import_range(imports[0]), end));
        assert forall|m: int| 0 <= m < rest.len() implies range_within(
            import_range(#[trigger] rest[m]),
            end,
        ) by {
            assert(rest[m] == imports[m + 1]);
        }
        let nf = seq![not_found_diagnostic(imp)];
        lemma_unrelated_bounded(nf, end, docs);
        match imp.uri {
            None => {
                lemma_walk_imports_bounded(docs, rest, end, language, options, seen, fuel);
                lemma_concat_bounded(nf, walk_imports(docs, rest, language, options, seen, fuel).0, end, docs);
            },
            Some(u) => match document_index(docs, u@) {
                None => {
                    lemma_walk_imports_bounded(docs, rest, end, language, options, seen, fuel);
                    lemma_concat_bounded(
                        nf,
                        walk_imports(docs, rest, language, options, seen, fuel).0,
                        end,
                        docs,
                    );
                },
                Some(j) => if seen.contains(u@) {
                    lemma_walk_imports_bounded(docs, rest, end, language, options, seen, fuel);
                } else if fuel > 0 {
                    crate::options::lemma_first_index_bounds(docs, |d: QueryDocument| d.uri@ == u@);
                    let seen1 = seen.insert(u@);
                    let (inner, seen2) = walk_document(
                        docs,
                        j,
                        language,
                        options,
                        seen1,
                        (fuel - 1) as nat,
                    );
                    lemma_walk_document_bounded(docs, j, language, options, seen1, (fuel - 1) as nat);
                    lemma_walk_imports_bounded(docs, rest, end, language, options, seen2, fuel);
                    let head = if inner.len() > 0 {
                        seq![issues_diagnostic(imp, u@, inner)]
                    } else {
                        Seq::<DiagnosticView>::empty()
                    };
                    if inner.len() > 0 {
                        let h = issues_diagnostic(imp, u@, inner);
                        assert forall|r: int| 0 <= r < h.related.len() implies exists|i: int|
                            0 <= i < docs.len() && (#[trigger] docs[i]).uri@ == (
                            #[trigger] h.related[r]).uri && range_within(
                                h.related[r].range,
                                docs[i].end,
                            ) by {
                            assert(h.related[r].uri == u@);
                            assert(h.related[r].range == inner[r].range);
                            assert(bounded(inner[r], docs[j].end, docs));
                            assert(docs[j].uri@ == u@);
                        }
                        assert(bounded(h, end, docs));
                        assert(bounded(head[0], end, docs));
                    }
                    lemma_concat_bounded(
                        head,
                        walk_imports(docs, rest, language, options, seen2, fuel).0,
                        end,
                        docs,
                    );
                },
            },
        }
    }
}

/// Where every document of the store keeps its scanned ranges and its
/// imports within itself, every diagnostic of a document lies within it, and
/// each entry of related information names a document of the store and lies
/// within that document.
pub proof fn lemma_related_ranges(
    docs: Seq<QueryDocument>,
    i: int,
    language: Option<LanguageData>,
    options: Options,
)
    requires
        0 <= i < docs.len(),
        store_in_bounds(docs),
    ensures
        forall|k: int|
            0 <= k < document_diagnostics(docs, i, language, options).len() ==> range_within(
                (#[trigger] document_diagnostics(docs, i, language, options)[k]).range,
                docs[i].end,
            ) && related_in_store(document_diagnostics(docs, i, language, options)[k], docs),
{
    lemma_walk_document_bounded(
        docs,
        i,
        language,
        options,
        Set::empty(),
        (docs.len() + 1) as nat,
    );
}

} // verus!
