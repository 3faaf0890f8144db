//! The structural scan of single patterns against a target grammar, and the
//! cache that memoizes it.
use vstd::prelude::*;
use tree_sitter::QueryErrorKind as TsErrorKind;

verus! {

#[verifier::external_type_specification]
#[verifier::external_body]
pub struct ExLanguage(tree_sitter::Language);

#[verifier::external_type_specification]
#[verifier::external_body]
#[verifier::reject_recursive_types(K)]
#[verifier::reject_recursive_types(V)]
#[verifier::reject_recursive_types(S)]
pub struct ExDashMap<K, V, S>(dashmap::DashMap<K, V, S>);

/// What kind of error compiling a query reported.
#[derive(Clone, Copy, Debug, PartialEq, Eq, Structural)]
pub enum QueryErrorKind {
    Syntax,
    NodeType,
    Field,
    Capture,
    Predicate,
    Structure,
    Language,
}

/// A failed compilation: the kind of error and its byte offset in the source.
#[derive(Clone, Copy, Debug, PartialEq, Eq, Structural)]
pub struct QueryFailure {
    pub kind: QueryErrorKind,
    pub offset: usize,
}

/// The offset of a structural error; any other outcome is reported by the
/// scan of the document's own syntax tree, so it yields nothing here.
pub open spec fn structural_offset(f: Option<QueryFailure>) -> Option<usize> {
    match f {
        Some(QueryFailure { kind: QueryErrorKind::Structure, offset }) => Some(offset),
        _ => None,
    }
}

/// What compiling `source` against the grammar reports: `None` on success,
/// else the error's kind and byte offset.
pub uninterp spec fn query_failure_of(language: tree_sitter::Language, source: Seq<char>) -> Option<
    QueryFailure,
>;

/// Relies on tree_sitter::Query::new to compile `source` against the grammar,
/// keeping only the kind and byte offset of the error it reports; the outcome
/// depends on the grammar and the source alone.
#[verifier::external_body]
fn compile_query(language: &tree_sitter::Language, source: &str) -> (r: Option<QueryFailure>)
    ensures
        r == query_failure_of(*language, source@),
{
    let e = match tree_sitter::Query::new(language, source) {
        Ok(_) => return None,
        Err(e) => e,
    };
    let kind = match e.kind {
        TsErrorKind::Syntax => QueryErrorKind::Syntax,
        TsErrorKind::NodeType => QueryErrorKind::NodeType,
        TsErrorKind::Field => QueryErrorKind::Field,
        TsErrorKind::Capture => QueryErrorKind::Capture,
        TsErrorKind::Predicate => QueryErrorKind::Predicate,
        TsErrorKind::Structure => QueryErrorKind::Structure,
        TsErrorKind::Language => QueryErrorKind::Language,
    };
    Some(QueryFailure { kind, offset: e.offset })
}

/// The byte offset of the structural error of a compilation outcome, if it
/// has one.
pub fn structure_error_offset(failure: Option<QueryFailure>) -> (r: Option<usize>)
    ensures
        r == structural_offset(failure),
        forall|k: usize|
            r == Some(k) <==> (failure matches Some(f) && f.kind == QueryErrorKind::Structure
                && f.offset == k),
{
    match failure {
        Some(f) => if f.kind == QueryErrorKind::Structure {
            Some(f.offset)
        } else {
            None
        },
        None => None,
    }
}

/// Compiles one pattern against a grammar and returns the byte offset, in the
/// pattern, of its structural error.
pub fn get_pattern_diagnostic(pattern_text: &str, language: &tree_sitter::Language) -> (r: Option<
    usize,
>)
    ensures
        r == structural_offset(query_failure_of(*language, pattern_text@)),
{
    let failure = compile_query(language, pattern_text);
    structure_error_offset(failure)
}

/// The map behind a scan cache.
pub type ScanMap = dashmap::DashMap<(String, String), Option<usize>>;

/// What a scan cache holds: the scan outcome of each (grammar, pattern) key.
pub uninterp spec fn scan_entries(
    m: ScanMap,
) -> Map<(Seq<char>, Seq<char>), Option<usize>>;

/// Relies on dashmap::DashMap::new: a new map is empty.
#[verifier::external_body]
fn new_scan_map() -> (r: ScanMap)
    ensures
        scan_entries(r) =~= Map::empty(),
{
    dashmap::DashMap::new()
}

/// Relies on dashmap::DashMap::get: the value stored under an equal key, if any.
#[verifier::external_body]
fn scan_map_get(m: &ScanMap, key: &(String, String)) -> (r:
    Option<Option<usize>>)
    ensures
        r == (if scan_entries(*m).contains_key((key.0@, key.1@)) {
            Some(scan_entries(*m)[(key.0@, key.1@)])
        } else {
            None
        }),
{
    m.get(key).map(|e| *e)
}

/// Relies on dashmap::DashMap::insert: the key maps to the value afterwards,
/// and no other entry changes.
#[verifier::external_body]
fn scan_map_insert(
    m: &mut ScanMap,
    key: (String, String),
    value: Option<usize>,
)
    ensures
        scan_entries(*final(m)) == scan_entries(*old(m)).insert((key.0@, key.1@), value),
{
    m.insert(key, value);
}

/// A memo of structural scans, keyed by grammar name and exact pattern text.
pub struct PatternScanCache {
    entries: ScanMap,
}

impl View for PatternScanCache {
    type V = Map<(Seq<char>, Seq<char>), Option<usize>>;

    closed spec fn view(&self) -> Map<(Seq<char>, Seq<char>), Option<usize>> {
        scan_entries(self.entries)
    }
}

impl PatternScanCache {
    pub fn new() -> (r: PatternScanCache)
        ensures
            r@ == Map::<(Seq<char>, Seq<char>), Option<usize>>::empty(),
    {
        PatternScanCache { entries: new_scan_map() }
    }

    /// The scan outcome stored for the key, if any.
    pub fn get(&self, language_name: &String, pattern_text: &String) -> (r: Option<Option<usize>>)
        ensures
            self@.contains_key((language_name@, pattern_text@)) ==> r == Some(
                self@[(language_name@, pattern_text@)],
            ),
            !self@.contains_key((language_name@, pattern_text@)) ==> r is None,
    {
        let key = (language_name.clone(), pattern_text.clone());
        scan_map_get(&self.entries, &key)
    }

    /// Stores a scan outcome under the key.
    pub fn insert(&mut self, language_name: String, pattern_text: String, offset: Option<usize>)
        ensures
            final(self)@ == old(self)@.insert((language_name@, pattern_text@), offset),
    {
        scan_map_insert(&mut self.entries, (language_name, pattern_text), offset);
    }
}

/// The outcome of a cached scan: a hit returns the stored value and leaves
/// the cache as it was; a miss returns `fresh` and stores it.
pub open spec fn cached_scan(
    before: Map<(Seq<char>, Seq<char>), Option<usize>>,
    after: Map<(Seq<char>, Seq<char>), Option<usize>>,
    key: (Seq<char>, Seq<char>),
    r: Option<usize>,
    fresh: Option<usize>,
) -> bool {
    if before.contains_key(key) {
        r == before[key] && after == before
    } else {
        r == fresh && after == before.insert(key, r)
    }
}

/// The structural error offset of a pattern, looked up in the cache under
/// (grammar name, pattern text) and computed and stored on a miss.
pub fn get_pattern_diagnostic_cached(
    cache: &mut PatternScanCache,
    pattern_text: &String,
    language_name: &String,
    language: &tree_sitter::Language,
) -> (r: Option<usize>)
    ensures
        cached_scan(
            old(cache)@,
            final(cache)@,
            (language_name@, pattern_text@),
            r,
            structural_offset(query_failure_of(*language, pattern_text@)),
        ),
{
    if let Some(cached) = cache.get(language_name, pattern_text) {
        return cached;
    }
    let offset = get_pattern_diagnostic(pattern_text.as_str(), language);
    cache.insert(language_name.clone(), pattern_text.clone(), offset);
    offset
}

/// Every entry of the cache under `language_name` is the structural offset
/// that compiling its pattern against `language` gives.
pub open spec fn entries_agree(
    m: Map<(Seq<char>, Seq<char>), Option<usize>>,
    language_name: Seq<char>,
    language: tree_sitter::Language,
) -> bool {
    forall|p: Seq<char>|
        #[trigger] m.contains_key((language_name, p)) ==> m[(language_name, p)] == structural_offset(
            query_failure_of(language, p),
        )
}

/// Cache determinism: where the cache holds, under a grammar's name, only
/// what compiling against that grammar gives, a cached scan
/// (`get_pattern_diagnostic_cached`) returns what a fresh compilation
/// (`get_pattern_diagnostic`) returns, and the cache keeps holding only such
/// values.
pub proof fn lemma_cache_determinism(
    before: Map<(Seq<char>, Seq<char>), Option<usize>>,
    after: Map<(Seq<char>, Seq<char>), Option<usize>>,
    language_name: Seq<char>,
    language: tree_sitter::Language,
    pattern: Seq<char>,
    r: Option<usize>,
)
    requires
        entries_agree(before, language_name, language),
        cached_scan(
            before,
            after,
            (language_name, pattern),
            r,
            structural_offset(query_failure_of(language, pattern)),
        ),
    ensures
        r == structural_offset(query_failure_of(language, pattern)),
        entries_agree(after, language_name, language),
{
    let key = (language_name, pattern);
    if !before.contains_key(key) {
        assert forall|p: Seq<char>| #[trigger] after.contains_key((language_name, p)) implies after[(
            language_name,
            p,
        )] == structural_offset(query_failure_of(language, p)) by {
            if p != pattern {
                assert(before.contains_key((language_name, p)));
            }
        }
    }
}

} // verus!
