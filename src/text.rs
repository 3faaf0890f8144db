//! Character-level helpers on query text.
use vstd::prelude::*;

verus! {

/// The escape letters that a query string recognizes after a backslash.
pub open spec fn is_recognized_escape(c: char) -> bool {
    c == '"' || c == '\\' || c == 'n' || c == 'r' || c == 't' || c == '0'
}

/// The text with every backslash that precedes a character other than a
/// recognized escape letter removed; a trailing lone backslash is dropped too.
pub open spec fn unescaped(s: Seq<char>) -> Seq<char>
    decreases s.len(),
{
    if s.len() == 0 {
        Seq::<char>::empty()
    } else if s[0] == '\\' {
        if s.len() == 1 {
            Seq::<char>::empty()
        } else if is_recognized_escape(s[1]) {
            seq!['\\', s[1]] + unescaped(s.subrange(2, s.len() as int))
        } else {
            seq![s[1]] + unescaped(s.subrange(2, s.len() as int))
        }
    } else {
        seq![s[0]] + unescaped(s.subrange(1, s.len() as int))
    }
}

pub(crate) fn is_recognized_escape_char(c: char) -> (r: bool)
    ensures
        r == is_recognized_escape(c),
{
    c == '"' || c == '\\' || c == 'n' || c == 'r' || c == 't' || c == '0'
}

/// Removes the backslashes of escape sequences that a query string does not
/// need, keeping the recognized escapes (`\"`, `\\`, `\n`, `\r`, `\t`, `\0`).
pub fn remove_unnecessary_escapes(input: &str) -> (r: String)
    ensures
        r@ == unescaped(input@),
{
    let n = input.unicode_len();
    let mut result = String::new();
    let mut i: usize = 0;
    assert(input@.subrange(0, n as int) =~= input@);
    assert(result@ + unescaped(input@) =~= unescaped(input@));
    while i < n
        invariant
            n == input@.len(),
            i <= n,
            result@ + unescaped(input@.subrange(i as int, n as int)) == unescaped(input@),
        decreases n - i,
    {
        let ghost rest = input@.subrange(i as int, n as int);
        let c = input.get_char(i);
        if c == '\\' {
            if i + 1 == n {
                assert(unescaped(rest) == Seq::<char>::empty());
                assert(rest.subrange(1, rest.len() as int) =~= Seq::<char>::empty());
                i = n;
            } else {
                let next = input.get_char(i + 1);
                let piece = if is_recognized_escape_char(next) {
                    input.substring_char(i, i + 2)
                } else {
                    input.substring_char(i + 1, i + 2)
                };
                assert(rest.subrange(2, rest.len() as int) =~= input@.subrange(i + 2, n as int));
                result.append(piece);
                assert(piece@ =~= (if is_recognized_escape(next) {
                    seq!['\\', next]
                } else {
                    seq![next]
                }));
                i = i + 2;
            }
        } else {
            let piece = input.substring_char(i, i + 1);
            assert(rest.subrange(1, rest.len() as int) =~= input@.subrange(i + 1, n as int));
            assert(piece@ =~= seq![c]);
            result.append(piece);
            i = i + 1;
        }
        assert(i == n ==> input@.subrange(i as int, n as int) =~= Seq::<char>::empty());
    }
    assert(input@.subrange(n as int, n as int) =~= Seq::<char>::empty());
    assert(unescaped(Seq::<char>::empty()) == Seq::<char>::empty());
    assert(result@ + Seq::<char>::empty() =~= result@);
    result
}

/// A character that may start an unquoted string argument.
pub open spec fn is_identifier_start(c: char) -> bool {
    ('a' <= c && c <= 'z') || ('A' <= c && c <= 'Z') || ('0' <= c && c <= '9') || c == '_' || c
        == '-'
}

/// A character that may continue an unquoted string argument.
pub open spec fn is_identifier_char(c: char) -> bool {
    is_identifier_start(c) || c == '.'
}

/// The text can be written as an unquoted string argument.
pub open spec fn is_identifier_text(s: Seq<char>) -> bool {
    s.len() > 0 && is_identifier_start(s[0]) && forall|i: int|
        1 <= i < s.len() ==> #[trigger] is_identifier_char(s[i])
}

/// The regular expression that `is_identifier_text` describes.
pub open spec fn identifier_pattern() -> Seq<char> {
    "^[a-zA-Z0-9_-][a-zA-Z0-9_.-]*$"@
}

/// Relies on regex::Regex::new and regex::Regex::is_match: the pattern compiles,
/// and without the multi-line flag `^` and `$` anchor at the ends of the text,
/// so the identifier pattern matches exactly the texts of `is_identifier_text`.
#[verifier::external_body]
fn regex_is_match(pattern: &str, text: &str) -> (r: Option<bool>)
    ensures
        pattern@ == identifier_pattern() ==> r == Some(is_identifier_text(text@)),
{
    match regex::Regex::new(pattern) {
        Ok(re) => Some(re.is_match(text)),
        Err(_) => None,
    }
}

/// Whether the text can stand as an unquoted string argument.
pub fn is_identifier(text: &str) -> (r: bool)
    ensures
        r == is_identifier_text(text@),
{
    match regex_is_match("^[a-zA-Z0-9_-][a-zA-Z0-9_.-]*$", text) {
        Some(b) => b,
        None => false,
    }
}

} // verus!
