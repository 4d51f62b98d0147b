//! How a language server is started, and the URIs it is given.

use vstd::prelude::*;

use crate::chars::{chars_to_string, lit, push_all, str_to_chars};

verus! {

/// How to start a language server for a workspace.
#[derive(Debug, Clone)]
pub struct LspClientConfig {
    pub command: String,
    pub args: Vec<String>,
    pub root: String,
    pub root_markers: Vec<String>,
    pub language_id: String,
}

/// Spaces escaped as `%20`, everything else kept.
pub open spec fn escape_spaces(s: Seq<char>) -> Seq<char>
    decreases s.len(),
{
    if s.len() == 0 {
        Seq::empty()
    } else {
        escape_spaces(s.drop_last()) + if s.last() == ' ' { seq!['%', '2', '0'] } else { seq![s.last()] }
    }
}

/// The `file://` URI the server is given for a path.
pub fn path_uri(path: &str) -> (r: String)
    ensures
        r@ == "file://"@ + escape_spaces(path@),
{
    let s = str_to_chars(path);
    let mut out = lit("file://");
    let ghost head = out@;
    let mut i: usize = 0;
    while i < s.len()
        invariant
            i <= s@.len(),
            out@ == head + escape_spaces(s@.take(i as int)),
        decreases s.len() - i,
    {
        assert(s@.take(i + 1).drop_last() =~= s@.take(i as int));
        if s[i] == ' ' {
            out.push('%');
            out.push('2');
            out.push('0');
        } else {
            out.push(s[i]);
        }
        i = i + 1;
        assert(out@ =~= head + escape_spaces(s@.take(i as int)));
    }
    assert(s@.take(i as int) =~= s@);
    chars_to_string(out.as_slice())
}

} // verus!
