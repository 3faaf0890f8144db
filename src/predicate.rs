//! Checks a predicate or directive call against its parameter schema.
use vstd::prelude::*;
use crate::options::{
    PredicateParameter, PredicateParameterArity,
    PredicateParameterType,
};
use crate::types::{
    enclose, lemma_views_push, plain, views, Diagnostic, DiagnosticView, Range, Severity,
};

verus! {

/// One argument of a predicate or directive call.
#[derive(Clone, Debug, PartialEq, Eq)]
pub struct Parameter {
    pub text: String,
    /// The argument is a capture (`@name`); otherwise it is a string.
    pub is_capture: bool,
    /// The parser inserted this argument to recover from an error.
    pub is_missing: bool,
    pub range: Range,
}

/// A predicate (`#name?`) or directive (`#name!`) call of a pattern.
#[derive(Clone, Debug, PartialEq, Eq)]
pub struct PredicateCall {
    pub name: String,
    pub name_range: Range,
    pub parameters: Vec<Parameter>,
    /// The range of the argument list.
    pub parameters_range: Range,
    /// The range of the whole call.
    pub call_range: Range,
}

pub open spec fn parameter_type_label(t: PredicateParameterType) -> Seq<char> {
    match t {
        PredicateParameterType::Capture => "capture"@,
        PredicateParameterType::String => "string"@,
        PredicateParameterType::Any => "any"@,
    }
}

pub open spec fn argument_kind(is_capture: bool) -> Seq<char> {
    if is_capture {
        "capture"@
    } else {
        "string"@
    }
}

/// An argument of this kind does not fit a parameter of type `t`.
pub open spec fn mismatches(is_capture: bool, t: PredicateParameterType) -> bool {
    (is_capture && t == PredicateParameterType::String) || (!is_capture && t
        == PredicateParameterType::Capture)
}

pub open spec fn mismatch_message(t: PredicateParameterType, is_capture: bool) -> Seq<char> {
    "Parameter type mismatch: expected \""@ + parameter_type_label(t) + "\", got \""@ + argument_kind(
        is_capture,
    ) + "\""@
}

pub open spec fn unexpected_message(text: Seq<char>) -> Seq<char> {
    "Unexpected parameter: \""@ + text + "\""@
}

pub open spec fn missing_message(t: PredicateParameterType) -> Seq<char> {
    "Missing parameter of type \""@ + parameter_type_label(t) + "\""@
}

/// What the argument at position `j` yields against the parameter list
/// `specs` (not empty): past its end, the last parameter applies again if it
/// is variadic.
pub open spec fn parameter_diagnostics(
    p: Parameter,
    j: int,
    specs: Seq<PredicateParameter>,
) -> Seq<DiagnosticView> {
    if j < specs.len() {
        if mismatches(p.is_capture, specs[j].type_) {
            seq![plain(p.range, Severity::Warning, mismatch_message(specs[j].type_, p.is_capture))]
        } else {
            Seq::empty()
        }
    } else if specs.last().arity != PredicateParameterArity::Variadic {
        seq![plain(p.range, Severity::Warning, unexpected_message(p.text@))]
    } else if mismatches(p.is_capture, specs.last().type_) {
        seq![plain(p.range, Severity::Warning, mismatch_message(specs.last().type_, p.is_capture))]
    } else {
        Seq::empty()
    }
}

pub open spec fn arguments_diagnostics(
    params: Seq<Parameter>,
    specs: Seq<PredicateParameter>,
) -> Seq<DiagnosticView>
    decreases params.len(),
{
    if params.len() == 0 {
        Seq::empty()
    } else {
        arguments_diagnostics(params.drop_last(), specs) + parameter_diagnostics(
            params.last(),
            params.len() - 1,
            specs,
        )
    }
}

/// The arguments of a call without those that the parser inserted.
pub open spec fn present_arguments(params: Seq<Parameter>) -> Seq<Parameter>
    decreases params.len(),
{
    if params.len() == 0 {
        Seq::empty()
    } else {
        let kept = present_arguments(params.drop_last());
        if params.last().is_missing {
            kept
        } else {
            kept.push(params.last())
        }
    }
}

/// The diagnostics of a call whose name the schema lists with `specs`.
pub open spec fn predicate_diagnostics(
    call: PredicateCall,
    specs: Seq<PredicateParameter>,
) -> Seq<DiagnosticView> {
    if specs.len() == 0 {
        seq![
            plain(
                call.parameters_range,
                Severity::Warning,
                "Parameter specification must not be empty"@,
            ),
        ]
    } else {
        let present = present_arguments(call.parameters@);
        let m = present.len() as int;
        arguments_diagnostics(present, specs) + if m < specs.len()
            && specs[m].arity == PredicateParameterArity::Required {
            seq![plain(call.call_range, Severity::Warning, missing_message(specs[m].type_))]
        } else {
            Seq::empty()
        }
    }
}

fn type_label(t: PredicateParameterType) -> (r: &'static str)
    ensures
        r@ == parameter_type_label(t),
{
    match t {
        PredicateParameterType::Capture => "capture",
        PredicateParameterType::String => "string",
        PredicateParameterType::Any => "any",
    }
}

fn mismatch_diagnostic(p: &Parameter, t: PredicateParameterType) -> (r: Diagnostic)
    ensures
        r@ == plain(p.range, Severity::Warning, mismatch_message(t, p.is_capture)),
{
    let kind = if p.is_capture {
        "capture"
    } else {
        "string"
    };
    let mut m = enclose("Parameter type mismatch: expected \"", type_label(t), "\", got \"");
    m.append(kind);
    m.append("\"");
    Diagnostic::new_plain(p.range, Severity::Warning, m)
}

fn type_mismatch(is_capture: bool, t: PredicateParameterType) -> (r: bool)
    ensures
        r == mismatches(is_capture, t),
{
    (is_capture && t == PredicateParameterType::String) || (!is_capture && t
        == PredicateParameterType::Capture)
}

/// Appends to `diagnostics` what the call yields against the parameter list
/// `specs` that the schema gives for its name: a type mismatch for each
/// argument of the wrong kind, an unexpected argument past a list that does
/// not end in a variadic parameter, and a missing required parameter. An
/// empty list is itself reported. Arguments that the parser inserted are
/// skipped and consume no parameter.
pub fn validate_predicate(
    diagnostics: &mut Vec<Diagnostic>,
    call: &PredicateCall,
    specs: &Vec<PredicateParameter>,
)
    ensures
        views(final(diagnostics)@) == views(old(diagnostics)@) + predicate_diagnostics(*call, specs@),
{
    if specs.len() == 0 {
        let d = Diagnostic::new_plain(
            call.parameters_range,
            Severity::Warning,
            String::from_str("Parameter specification must not be empty"),
        );
        proof {
            lemma_views_push(diagnostics@, d);
        }
        diagnostics.push(d);
        return ;
    }
    let ghost start = views(diagnostics@);
    let ghost params = call.parameters@;
    let last = specs.len() - 1;
    let n = call.parameters.len();
    let mut j: usize = 0;
    let mut c: usize = 0;
    while j < n
        invariant
            n == params.len(),
            params == call.parameters@,
            last + 1 == specs@.len(),
            j <= n,
            c <= j,
            c == present_arguments(params.subrange(0, j as int)).len(),
            views(diagnostics@) == start + arguments_diagnostics(
                present_arguments(params.subrange(0, j as int)),
                specs@,
            ),
        decreases n - j,
    {
        let p = &call.parameters[j];
        let ghost sub = params.subrange(0, j + 1);
        let ghost kept = present_arguments(params.subrange(0, j as int));
        proof {
            assert(sub.drop_last() =~= params.subrange(0, j as int));
            assert(sub.last() == params[j as int]);
        }
        if !p.is_missing {
            let ghost before = views(diagnostics@);
            if c < specs.len() {
                if type_mismatch(p.is_capture, specs[c].type_) {
                    let d = mismatch_diagnostic(p, specs[c].type_);
                    proof {
                        lemma_views_push(diagnostics@, d);
                    }
                    diagnostics.push(d);
                }
            } else if specs[last].arity != PredicateParameterArity::Variadic {
                let m = enclose("Unexpected parameter: \"", p.text.as_str(), "\"");
                let d = Diagnostic::new_plain(p.range, Severity::Warning, m);
                proof {
                    lemma_views_push(diagnostics@, d);
                }
                diagnostics.push(d);
            } else if type_mismatch(p.is_capture, specs[last].type_) {
                let d = mismatch_diagnostic(p, specs[last].type_);
                proof {
                    lemma_views_push(diagnostics@, d);
                }
                diagnostics.push(d);
            }
            proof {
                let pushed = kept.push(params[j as int]);
                assert(pushed.drop_last() =~= kept);
                let pd = parameter_diagnostics(params[j as int], c as int, specs@);
                assert(views(diagnostics@) =~= before + pd);
            }
            c = c + 1;
        }
        j = j + 1;
    }
    assert(params.subrange(0, j as int) =~= params);
    if c < specs.len() && specs[c].arity == PredicateParameterArity::Required {
        let m = enclose("Missing parameter of type \"", type_label(specs[c].type_), "\"");
        let d = Diagnostic::new_plain(call.call_range, Severity::Warning, m);
        proof {
            lemma_views_push(diagnostics@, d);
        }
        diagnostics.push(d);
    } else {
        assert(views(diagnostics@) =~= views(diagnostics@) + Seq::<DiagnosticView>::empty());
    }
}

} // verus!
