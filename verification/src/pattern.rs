//! Regular expressions, from the `regex` crate.

use regex::RegexBuilder;
use vstd::prelude::*;

verus! {

/// The matches of a regular expression in a text, left to right and
/// without overlap, as `Regex::captures_iter` finds them: for each match,
/// the byte span of every group (the whole match first), where the group
/// took part. `None` when the expression does not compile.
pub uninterp spec fn regex_captures_of(pattern: Seq<char>, case_insensitive: bool, text: Seq<char>) -> Option<
    Seq<Seq<Option<(usize, usize)>>>,
>;

/// The characters that mean something in a regular expression.
pub open spec fn is_meta_character(c: char) -> bool {
    c == '\\' || c == '.' || c == '+' || c == '*' || c == '?' || c == '(' || c == ')' || c == '|' || c == '['
        || c == ']' || c == '{' || c == '}' || c == '^' || c == '$' || c == '#' || c == '&' || c == '-' || c
        == '~'
}

/// The text with a backslash before every meta character, as
/// `regex::escape` writes it.
pub open spec fn regex_escaped(text: Seq<char>) -> Seq<char>
    decreases text.len(),
{
    if text.len() == 0 {
        Seq::empty()
    } else {
        let c = text.last();
        regex_escaped(text.drop_last()) + if is_meta_character(c) { seq!['\\', c] } else { seq![c] }
    }
}

pub open spec fn groups_view(v: Seq<Vec<Option<(usize, usize)>>>) -> Seq<Seq<Option<(usize, usize)>>> {
    v.map_values(|g: Vec<Option<(usize, usize)>>| g@)
}

/// Compiles `pattern` (`RegexBuilder`, case-insensitive when asked) and
/// lists its matches in `text` with the spans of their groups. An
/// expression that does not compile gives the compiler's message.
#[verifier::external_body]
pub(crate) fn regex_captures(pattern: &str, case_insensitive: bool, text: &str) -> (r: Result<
    Vec<Vec<Option<(usize, usize)>>>,
    String,
>)
    ensures
        match r {
            Ok(ms) => regex_captures_of(pattern@, case_insensitive, text@) == Some(groups_view(ms@)),
            Err(_) => regex_captures_of(pattern@, case_insensitive, text@) is None,
        },
{
    match RegexBuilder::new(pattern).case_insensitive(case_insensitive).build() {
        Ok(re) => Ok(
            re.captures_iter(text).map(|c| c.iter().map(|g| g.map(|m| (m.start(), m.end()))).collect()).collect(),
        ),
        Err(error) => Err(error.to_string()),
    }
}

fn meta_character(c: char) -> (b: bool)
    ensures
        b == is_meta_character(c),
{
    c == '\\' || c == '.' || c == '+' || c == '*' || c == '?' || c == '(' || c == ')' || c == '|' || c == '['
        || c == ']' || c == '{' || c == '}' || c == '^' || c == '$' || c == '#' || c == '&' || c == '-' || c
        == '~'
}

/// The text with a backslash before every regex meta character, so that
/// it matches literally.
pub(crate) fn regex_escape(text: &str) -> (r: String)
    ensures
        r@ == regex_escaped(text@),
{
    let chars = crate::chars::str_to_chars(text);
    let mut out: Vec<char> = Vec::new();
    let mut i: usize = 0;
    while i < chars.len()
        invariant
            i <= chars@.len(),
            chars@ == text@,
            out@ == regex_escaped(chars@.take(i as int)),
        decreases chars.len() - i,
    {
        assert(chars@.take(i + 1).drop_last() =~= chars@.take(i as int));
        let c = chars[i];
        if meta_character(c) {
            out.push('\\');
        }
        out.push(c);
        assert(out@ =~= regex_escaped(chars@.take(i + 1)));
        i = i + 1;
    }
    assert(chars@.take(i as int) =~= chars@);
    crate::chars::chars_to_string(out.as_slice())
}

} // verus!
