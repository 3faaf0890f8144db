//! Grammar introspection tables and the user's diagnostic options.
use vstd::prelude::*;

verus! {

/// A node type of a grammar: its label and whether it is named.
#[derive(Clone, Debug, PartialEq, Eq)]
pub struct SymbolInfo {
    pub label: String,
    pub named: bool,
}

/// A supertype of a grammar with the subtypes it stands for. An empty list
/// means that the grammar is too old to report its subtypes.
#[derive(Clone, Debug, PartialEq, Eq)]
pub struct Supertype {
    pub symbol: SymbolInfo,
    pub subtypes: Vec<SymbolInfo>,
}

/// What the diagnostics need to know of a target grammar.
#[derive(Clone, Debug, PartialEq, Eq)]
pub struct LanguageData {
    pub name: String,
    pub symbols: Vec<SymbolInfo>,
    pub fields: Vec<String>,
    pub supertypes: Vec<Supertype>,
}

#[derive(Clone, Copy, Debug, PartialEq, Eq, Structural)]
pub enum PredicateParameterType {
    Capture,
    String,
    Any,
}

#[derive(Clone, Copy, Debug, PartialEq, Eq, Structural)]
pub enum PredicateParameterArity {
    Required,
    Optional,
    Variadic,
}

#[derive(Clone, Debug, PartialEq, Eq)]
pub struct PredicateParameter {
    pub type_: PredicateParameterType,
    pub arity: PredicateParameterArity,
    pub description: Option<String>,
}

#[derive(Clone, Debug, PartialEq, Eq)]
pub struct Predicate {
    pub description: String,
    pub parameters: Vec<PredicateParameter>,
}

/// An entry of a predicate or directive schema.
#[derive(Clone, Debug, PartialEq, Eq)]
pub struct NamedPredicate {
    pub name: String,
    pub predicate: Predicate,
}

/// A capture name that a grammar's queries may use, with its description.
#[derive(Clone, Debug, PartialEq, Eq)]
pub struct CaptureName {
    pub name: String,
    pub description: String,
}

/// The capture names allowed in the queries of one grammar.
#[derive(Clone, Debug, PartialEq, Eq)]
pub struct CaptureTable {
    pub grammar: String,
    pub captures: Vec<CaptureName>,
}

#[derive(Clone, Copy, Debug, PartialEq, Eq, Structural)]
pub enum StringArgumentStyle {
    PreferQuoted,
    PreferUnquoted,
    Any,
}

#[derive(Clone, Debug, PartialEq, Eq)]
pub struct DiagnosticOptions {
    pub string_argument_style: StringArgumentStyle,
    pub warn_unused_underscore_captures: bool,
}

#[derive(Clone, Debug, PartialEq, Eq)]
pub struct Options {
    pub valid_captures: Vec<CaptureTable>,
    pub valid_predicates: Vec<NamedPredicate>,
    pub valid_directives: Vec<NamedPredicate>,
    pub diagnostic_options: DiagnosticOptions,
}

impl Default for DiagnosticOptions {
    fn default() -> (r: DiagnosticOptions)
        ensures
            r.string_argument_style == StringArgumentStyle::Any,
            r.warn_unused_underscore_captures,
    {
        DiagnosticOptions {
            string_argument_style: StringArgumentStyle::Any,
            warn_unused_underscore_captures: true,
        }
    }
}

impl Default for Options {
    fn default() -> (r: Options)
        ensures
            r.valid_captures@.len() == 0,
            r.valid_predicates@.len() == 0,
            r.valid_directives@.len() == 0,
            r.diagnostic_options.string_argument_style == StringArgumentStyle::Any,
            r.diagnostic_options.warn_unused_underscore_captures,
    {
        Options {
            valid_captures: Vec::new(),
            valid_predicates: Vec::new(),
            valid_directives: Vec::new(),
            diagnostic_options: DiagnosticOptions::default(),
        }
    }
}

/// The first index of `s` whose element satisfies `p`.
pub open spec fn first_index<A>(s: Seq<A>, p: spec_fn(A) -> bool) -> Option<int> {
    if exists|i: int| 0 <= i < s.len() && #[trigger] p(s[i]) {
        Some(
            choose|i: int|
                0 <= i < s.len() && #[trigger] p(s[i]) && forall|j: int| 0 <= j < i ==> !p(s[j]),
        )
    } else {
        None
    }
}

/// An index that satisfies `p` with no earlier one is what `first_index` picks.
pub proof fn lemma_first_index<A>(s: Seq<A>, p: spec_fn(A) -> bool, i: int)
    requires
        0 <= i < s.len(),
        p(s[i]),
        forall|j: int| 0 <= j < i ==> !p(s[j]),
    ensures
        first_index(s, p) == Some(i),
{
    let k = choose|k: int|
        0 <= k < s.len() && #[trigger] p(s[k]) && forall|j: int| 0 <= j < k ==> !p(s[j]);
    assert(0 <= k < s.len() && p(s[k]) && forall|j: int| 0 <= j < k ==> !p(s[j])) by {
        lemma_first_index_exists(s, p, i);
    }
    if k < i {
        assert(!p(s[k]));
    } else if k > i {
        assert(!p(s[i]));
    }
}

/// What `first_index` picks is an index of `s` that satisfies `p`.
pub proof fn lemma_first_index_bounds<A>(s: Seq<A>, p: spec_fn(A) -> bool)
    ensures
        first_index(s, p) matches Some(i) ==> 0 <= i < s.len() && p(s[i]),
{
    if exists|i: int| 0 <= i < s.len() && #[trigger] p(s[i]) {
        let i = choose|i: int| 0 <= i < s.len() && #[trigger] p(s[i]);
        let m = lemma_least_index(s, p, i);
        lemma_first_index_exists(s, p, m);
    }
}

proof fn lemma_least_index<A>(s: Seq<A>, p: spec_fn(A) -> bool, i: int) -> (m: int)
    requires
        0 <= i < s.len(),
        p(s[i]),
    ensures
        0 <= m <= i,
        p(s[m]),
        forall|j: int| 0 <= j < m ==> !p(s[j]),
    decreases i,
{
    if exists|j: int| 0 <= j < i && #[trigger] p(s[j]) {
        let j = choose|j: int| 0 <= j < i && #[trigger] p(s[j]);
        lemma_least_index(s, p, j)
    } else {
        i
    }
}

proof fn lemma_first_index_exists<A>(s: Seq<A>, p: spec_fn(A) -> bool, i: int)
    requires
        0 <= i < s.len(),
        p(s[i]),
        forall|j: int| 0 <= j < i ==> !p(s[j]),
    ensures
        exists|k: int|
            0 <= k < s.len() && #[trigger] p(s[k]) && forall|j: int| 0 <= j < k ==> !p(s[j]),
{
}

/// `s` contains a symbol with this label and namedness.
pub open spec fn has_symbol(s: Seq<SymbolInfo>, label: Seq<char>, named: bool) -> bool {
    exists|i: int| 0 <= i < s.len() && s[i].label@ == label && s[i].named == named
}

/// The first supertype entry whose symbol is the named node `label`.
pub open spec fn supertype_index(s: Seq<Supertype>, label: Seq<char>) -> Option<int> {
    first_index(s, |t: Supertype| t.symbol.label@ == label && t.symbol.named)
}

/// The first schema entry with this name.
pub open spec fn schema_index(s: Seq<NamedPredicate>, name: Seq<char>) -> Option<int> {
    first_index(s, |e: NamedPredicate| e.name@ == name)
}

/// The first capture table for this grammar.
pub open spec fn capture_table_index(s: Seq<CaptureTable>, grammar: Seq<char>) -> Option<int> {
    first_index(s, |t: CaptureTable| t.grammar@ == grammar)
}

/// `s` holds the string `t`.
pub open spec fn has_string(s: Seq<String>, t: Seq<char>) -> bool {
    exists|i: int| 0 <= i < s.len() && s[i]@ == t
}

/// `s` holds a capture named `name`.
pub open spec fn has_capture_name(s: Seq<CaptureName>, name: Seq<char>) -> bool {
    exists|i: int| 0 <= i < s.len() && s[i].name@ == name
}

pub fn contains_symbol(s: &Vec<SymbolInfo>, label: &String, named: bool) -> (r: bool)
    ensures
        r == has_symbol(s@, label@, named),
{
    let mut i: usize = 0;
    while i < s.len()
        invariant
            i <= s@.len(),
            forall|j: int| 0 <= j < i ==> !(s@[j].label@ == label@ && s@[j].named == named),
        decreases s.len() - i,
    {
        if s[i].named == named && s[i].label == *label {
            return true;
        }
        i = i + 1;
    }
    false
}

pub fn contains_string(s: &Vec<String>, t: &String) -> (r: bool)
    ensures
        r == has_string(s@, t@),
{
    let mut i: usize = 0;
    while i < s.len()
        invariant
            i <= s@.len(),
            forall|j: int| 0 <= j < i ==> s@[j]@ != t@,
        decreases s.len() - i,
    {
        if s[i] == *t {
            return true;
        }
        i = i + 1;
    }
    false
}

pub fn contains_capture_name(s: &Vec<CaptureName>, name: &String) -> (r: bool)
    ensures
        r == has_capture_name(s@, name@),
{
    let mut i: usize = 0;
    while i < s.len()
        invariant
            i <= s@.len(),
            forall|j: int| 0 <= j < i ==> s@[j].name@ != name@,
        decreases s.len() - i,
    {
        if s[i].name == *name {
            return true;
        }
        i = i + 1;
    }
    false
}

pub fn find_supertype(s: &Vec<Supertype>, label: &String) -> (r: Option<usize>)
    ensures
        r matches Some(i) ==> i < s@.len() && supertype_index(s@, label@) == Some(i as int),
        r is None ==> supertype_index(s@, label@) is None,
{
    let ghost p = |t: Supertype| t.symbol.label@ == label@ && t.symbol.named;
    let mut i: usize = 0;
    while i < s.len()
        invariant
            i <= s@.len(),
            p == (|t: Supertype| t.symbol.label@ == label@ && t.symbol.named),
            forall|j: int| 0 <= j < i ==> !p(s@[j]),
        decreases s.len() - i,
    {
        if s[i].symbol.named && s[i].symbol.label == *label {
            proof {
                lemma_first_index(s@, p, i as int);
            }
            return Some(i);
        }
        i = i + 1;
    }
    None
}

pub fn find_schema_entry(s: &Vec<NamedPredicate>, name: &String) -> (r: Option<usize>)
    ensures
        r matches Some(i) ==> i < s@.len() && schema_index(s@, name@) == Some(i as int),
        r is None ==> schema_index(s@, name@) is None,
{
    let ghost p = |e: NamedPredicate| e.name@ == name@;
    let mut i: usize = 0;
    while i < s.len()
        invariant
            i <= s@.len(),
            p == (|e: NamedPredicate| e.name@ == name@),
            forall|j: int| 0 <= j < i ==> !p(s@[j]),
        decreases s.len() - i,
    {
        if s[i].name == *name {
            proof {
                lemma_first_index(s@, p, i as int);
            }
            return Some(i);
        }
        i = i + 1;
    }
    None
}

pub fn find_capture_table(s: &Vec<CaptureTable>, grammar: &String) -> (r: Option<usize>)
    ensures
        r matches Some(i) ==> i < s@.len() && capture_table_index(s@, grammar@) == Some(i as int),
        r is None ==> capture_table_index(s@, grammar@) is None,
{
    let ghost p = |t: CaptureTable| t.grammar@ == grammar@;
    let mut i: usize = 0;
    while i < s.len()
        invariant
            i <= s@.len(),
            p == (|t: CaptureTable| t.grammar@ == grammar@),
            forall|j: int| 0 <= j < i ==> !p(s@[j]),
        decreases s.len() - i,
    {
        if s[i].grammar == *grammar {
            proof {
                lemma_first_index(s@, p, i as int);
            }
            return Some(i);
        }
        i = i + 1;
    }
    None
}

} // verus!
