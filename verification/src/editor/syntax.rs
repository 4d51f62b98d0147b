//! Syntax languages, their comment tokens, and how highlight captures
//! become highlight spans in char offsets.

use vstd::prelude::*;

use crate::chars::{char_utf8_width, chars_eq, lit, str_to_chars, utf8_width};
use vstd::utf8::{char_is_scalar, encode_utf8};
use std::sync::atomic::AtomicU64;
use streaming_iterator::StreamingIterator;
use tree_sitter::{Language, Parser, Query, QueryCursor, Tree};
use crate::search::buffer::current_generation;

verus! {

#[derive(Debug, Clone, Copy, PartialEq, Eq, Structural)]
pub enum HighlightKind {
    Keyword,
    Function,
    Type,
    String,
    Number,
    Comment,
    Variable,
    Constant,
}

/// A highlighted range of a buffer, in char offsets.
#[derive(Debug, Clone, PartialEq, Eq, Structural)]
pub struct HighlightSpan {
    pub start_char: usize,
    pub end_char: usize,
    pub kind: HighlightKind,
}

/// Languages with built-in syntax highlighting.
#[derive(Debug, Clone, Copy, PartialEq, Eq, Structural)]
pub enum SyntaxLanguage {
    Rust,
    C,
    Cpp,
    Python,
    Json,
    Markdown,
    Toml,
    Yaml,
    Bash,
    JavaScript,
    TypeScript,
    Tsx,
    Html,
    Css,
}

/// Why highlighting failed.
#[derive(Debug, Clone, PartialEq, Eq)]
pub enum SyntaxError {
    Language(String),
    Query(String),
    MissingTree,
}

impl SyntaxError {
    /// The error's message.
    pub fn message(&self) -> (r: String)
        ensures
            r@ == match self {
                SyntaxError::Language(e) => "failed to load parser: "@ + e@,
                SyntaxError::Query(e) => "failed to compile highlight query: "@ + e@,
                SyntaxError::MissingTree => "parser did not return a syntax tree"@,
            },
    {
        match self {
            SyntaxError::Language(e) => {
                let mut out = lit("failed to load parser: ");
                crate::chars::push_all(&mut out, &str_to_chars(e.as_str()));
                crate::chars::chars_to_string(out.as_slice())
            },
            SyntaxError::Query(e) => {
                let mut out = lit("failed to compile highlight query: ");
                crate::chars::push_all(&mut out, &str_to_chars(e.as_str()));
                crate::chars::chars_to_string(out.as_slice())
            },
            SyntaxError::MissingTree => {
                crate::chars::chars_to_string(lit("parser did not return a syntax tree").as_slice())
            },
        }
    }
}

/// Line comment token and, for block-only languages, the closing token.
pub open spec fn spec_comment_tokens(l: SyntaxLanguage) -> Option<(Seq<char>, Option<Seq<char>>)> {
    match l {
        SyntaxLanguage::Rust | SyntaxLanguage::C | SyntaxLanguage::Cpp
        | SyntaxLanguage::JavaScript | SyntaxLanguage::TypeScript | SyntaxLanguage::Tsx => Some(
            ("//"@, None),
        ),
        SyntaxLanguage::Python | SyntaxLanguage::Yaml | SyntaxLanguage::Bash
        | SyntaxLanguage::Toml => Some(("#"@, None)),
        SyntaxLanguage::Html | SyntaxLanguage::Markdown => Some(("<!--"@, Some("-->"@))),
        SyntaxLanguage::Css => Some(("/*"@, Some("*/"@))),
        SyntaxLanguage::Json => None,
    }
}

pub open spec fn tokens_view(t: Option<(&'static str, Option<&'static str>)>) -> Option<(Seq<char>, Option<Seq<char>>)> {
    match t {
        Some((open, close)) => Some(
            (
                open@,
                match close {
                    Some(c) => Some(c@),
                    None => None,
                },
            ),
        ),
        None => None,
    }
}

/// The language of a file extension (without the dot).
pub open spec fn spec_from_extension(e: Seq<char>) -> Option<SyntaxLanguage> {
    if e == "rs"@ {
        Some(SyntaxLanguage::Rust)
    } else if e == "c"@ || e == "h"@ {
        Some(SyntaxLanguage::C)
    } else if e == "cc"@ || e == "cpp"@ || e == "cxx"@ || e == "hh"@ || e == "hpp"@ || e == "hxx"@ {
        Some(SyntaxLanguage::Cpp)
    } else if e == "py"@ || e == "pyi"@ {
        Some(SyntaxLanguage::Python)
    } else if e == "json"@ || e == "jsonc"@ {
        Some(SyntaxLanguage::Json)
    } else if e == "md"@ || e == "markdown"@ {
        Some(SyntaxLanguage::Markdown)
    } else if e == "toml"@ {
        Some(SyntaxLanguage::Toml)
    } else if e == "yaml"@ || e == "yml"@ {
        Some(SyntaxLanguage::Yaml)
    } else if e == "sh"@ || e == "bash"@ {
        Some(SyntaxLanguage::Bash)
    } else if e == "js"@ || e == "jsx"@ || e == "mjs"@ || e == "cjs"@ {
        Some(SyntaxLanguage::JavaScript)
    } else if e == "ts"@ || e == "mts"@ || e == "cts"@ {
        Some(SyntaxLanguage::TypeScript)
    } else if e == "tsx"@ {
        Some(SyntaxLanguage::Tsx)
    } else if e == "html"@ || e == "htm"@ {
        Some(SyntaxLanguage::Html)
    } else if e == "css"@ {
        Some(SyntaxLanguage::Css)
    } else {
        None
    }
}

/// The language of a configured language name.
pub open spec fn spec_from_language_name(n: Seq<char>) -> Option<SyntaxLanguage> {
    if n == "rust"@ {
        Some(SyntaxLanguage::Rust)
    } else if n == "c_cpp"@ || n == "cpp"@ {
        Some(SyntaxLanguage::Cpp)
    } else if n == "c"@ {
        Some(SyntaxLanguage::C)
    } else if n == "python"@ {
        Some(SyntaxLanguage::Python)
    } else if n == "json"@ || n == "jsonc"@ {
        Some(SyntaxLanguage::Json)
    } else if n == "markdown"@ {
        Some(SyntaxLanguage::Markdown)
    } else if n == "toml"@ {
        Some(SyntaxLanguage::Toml)
    } else if n == "yaml"@ {
        Some(SyntaxLanguage::Yaml)
    } else if n == "bash"@ || n == "shell"@ {
        Some(SyntaxLanguage::Bash)
    } else if n == "javascript"@ {
        Some(SyntaxLanguage::JavaScript)
    } else if n == "typescript"@ {
        Some(SyntaxLanguage::TypeScript)
    } else if n == "tsx"@ {
        Some(SyntaxLanguage::Tsx)
    } else if n == "html"@ {
        Some(SyntaxLanguage::Html)
    } else if n == "css"@ {
        Some(SyntaxLanguage::Css)
    } else {
        None
    }
}

/// A word that names a language and is also a file extension names the same
/// language both ways, so highlighting chosen by a configured language name
/// and by extension agree.
pub proof fn lemma_language_name_agrees_with_extension(word: Seq<char>)
    requires
        spec_from_extension(word) is Some,
        spec_from_language_name(word) is Some,
    ensures
        spec_from_extension(word) == spec_from_language_name(word),
{
    reveal_strlit("bash");
    reveal_strlit("c");
    reveal_strlit("c_cpp");
    reveal_strlit("cc");
    reveal_strlit("cjs");
    reveal_strlit("cpp");
    reveal_strlit("css");
    reveal_strlit("cts");
    reveal_strlit("cxx");
    reveal_strlit("h");
    reveal_strlit("hh");
    reveal_strlit("hpp");
    reveal_strlit("htm");
    reveal_strlit("html");
    reveal_strlit("hxx");
    reveal_strlit("javascript");
    reveal_strlit("js");
    reveal_strlit("json");
    reveal_strlit("jsonc");
    reveal_strlit("jsx");
    reveal_strlit("markdown");
    reveal_strlit("md");
    reveal_strlit("mjs");
    reveal_strlit("mts");
    reveal_strlit("py");
    reveal_strlit("pyi");
    reveal_strlit("python");
    reveal_strlit("rs");
    reveal_strlit("rust");
    reveal_strlit("sh");
    reveal_strlit("shell");
    reveal_strlit("toml");
    reveal_strlit("ts");
    reveal_strlit("tsx");
    reveal_strlit("typescript");
    reveal_strlit("yaml");
    reveal_strlit("yml");
    if word == "rust"@ {
        assert(word.len() == 4 && word[0] == 'r' && word[1] == 'u' && word[2] == 's' && word[3] == 't');
        assert(spec_from_extension(word) == spec_from_language_name(word));
    }
    if word == "c_cpp"@ {
        assert(word.len() == 5 && word[0] == 'c' && word[1] == '_' && word[2] == 'c' && word[3] == 'p' && word[4] == 'p');
        assert(spec_from_extension(word) == spec_from_language_name(word));
    }
    if word == "cpp"@ {
        assert(word.len() == 3 && word[0] == 'c' && word[1] == 'p' && word[2] == 'p');
        assert(spec_from_extension(word) == spec_from_language_name(word));
    }
    if word == "c"@ {
        assert(word.len() == 1 && word[0] == 'c');
        assert(spec_from_extension(word) == spec_from_language_name(word));
    }
    if word == "python"@ {
        assert(word.len() == 6 && word[0] == 'p' && word[1] == 'y' && word[2] == 't' && word[3] == 'h' && word[4] == 'o' && word[5] == 'n');
        assert(spec_from_extension(word) == spec_from_language_name(word));
    }
    if word == "json"@ {
        assert(word.len() == 4 && word[0] == 'j' && word[1] == 's' && word[2] == 'o' && word[3] == 'n');
        assert(spec_from_extension(word) == spec_from_language_name(word));
    }
    if word == "jsonc"@ {
        assert(word.len() == 5 && word[0] == 'j' && word[1] == 's' && word[2] == 'o' && word[3] == 'n' && word[4] == 'c');
        assert(spec_from_extension(word) == spec_from_language_name(word));
    }
    if word == "markdown"@ {
        assert(word.len() == 8 && word[0] == 'm' && word[1] == 'a' && word[2] == 'r' && word[3] == 'k' && word[4] == 'd' && word[5] == 'o' && word[6] == 'w' && word[7] == 'n');
        assert(spec_from_extension(word) == spec_from_language_name(word));
    }
    if word == "toml"@ {
        assert(word.len() == 4 && word[0] == 't' && word[1] == 'o' && word[2] == 'm' && word[3] == 'l');
        assert(spec_from_extension(word) == spec_from_language_name(word));
    }
    if word == "yaml"@ {
        assert(word.len() == 4 && word[0] == 'y' && word[1] == 'a' && word[2] == 'm' && word[3] == 'l');
        assert(spec_from_extension(word) == spec_from_language_name(word));
    }
    if word == "bash"@ {
        assert(word.len() == 4 && word[0] == 'b' && word[1] == 'a' && word[2] == 's' && word[3] == 'h');
        assert(spec_from_extension(word) == spec_from_language_name(word));
    }
    if word == "shell"@ {
        assert(word.len() == 5 && word[0] == 's' && word[1] == 'h' && word[2] == 'e' && word[3] == 'l' && word[4] == 'l');
        assert(spec_from_extension(word) == spec_from_language_name(word));
    }
    if word == "javascript"@ {
        assert(word.len() == 10 && word[0] == 'j' && word[1] == 'a' && word[2] == 'v' && word[3] == 'a' && word[4] == 's' && word[5] == 'c' && word[6] == 'r' && word[7] == 'i' && word[8] == 'p' && word[9] == 't');
        assert(spec_from_extension(word) == spec_from_language_name(word));
    }
    if word == "typescript"@ {
        assert(word.len() == 10 && word[0] == 't' && word[1] == 'y' && word[2] == 'p' && word[3] == 'e' && word[4] == 's' && word[5] == 'c' && word[6] == 'r' && word[7] == 'i' && word[8] == 'p' && word[9] == 't');
        assert(spec_from_extension(word) == spec_from_language_name(word));
    }
    if word == "tsx"@ {
        assert(word.len() == 3 && word[0] == 't' && word[1] == 's' && word[2] == 'x');
        assert(spec_from_extension(word) == spec_from_language_name(word));
    }
    if word == "html"@ {
        assert(word.len() == 4 && word[0] == 'h' && word[1] == 't' && word[2] == 'm' && word[3] == 'l');
        assert(spec_from_extension(word) == spec_from_language_name(word));
    }
    if word == "css"@ {
        assert(word.len() == 3 && word[0] == 'c' && word[1] == 's' && word[2] == 's');
        assert(spec_from_extension(word) == spec_from_language_name(word));
    }
}

/// The file extensions the editor highlights, each with its language.
pub open spec fn extension_languages() -> Seq<(Seq<char>, SyntaxLanguage)> {
    seq![
        ("rs"@, SyntaxLanguage::Rust),
        ("c"@, SyntaxLanguage::C),
        ("h"@, SyntaxLanguage::C),
        ("cc"@, SyntaxLanguage::Cpp),
        ("cpp"@, SyntaxLanguage::Cpp),
        ("cxx"@, SyntaxLanguage::Cpp),
        ("hh"@, SyntaxLanguage::Cpp),
        ("hpp"@, SyntaxLanguage::Cpp),
        ("hxx"@, SyntaxLanguage::Cpp),
        ("py"@, SyntaxLanguage::Python),
        ("pyi"@, SyntaxLanguage::Python),
        ("json"@, SyntaxLanguage::Json),
        ("jsonc"@, SyntaxLanguage::Json),
        ("md"@, SyntaxLanguage::Markdown),
        ("markdown"@, SyntaxLanguage::Markdown),
        ("toml"@, SyntaxLanguage::Toml),
        ("yaml"@, SyntaxLanguage::Yaml),
        ("yml"@, SyntaxLanguage::Yaml),
        ("sh"@, SyntaxLanguage::Bash),
        ("bash"@, SyntaxLanguage::Bash),
        ("js"@, SyntaxLanguage::JavaScript),
        ("jsx"@, SyntaxLanguage::JavaScript),
        ("mjs"@, SyntaxLanguage::JavaScript),
        ("cjs"@, SyntaxLanguage::JavaScript),
        ("ts"@, SyntaxLanguage::TypeScript),
        ("mts"@, SyntaxLanguage::TypeScript),
        ("cts"@, SyntaxLanguage::TypeScript),
        ("tsx"@, SyntaxLanguage::Tsx),
        ("html"@, SyntaxLanguage::Html),
        ("htm"@, SyntaxLanguage::Html),
        ("css"@, SyntaxLanguage::Css),
    ]
}

/// Every listed extension names its language, and an extension names a
/// language only if it is listed.
#[verifier::spinoff_prover]
#[verifier::rlimit(100)]
pub proof fn lemma_extension_languages()
    ensures
        forall|k: int| 0 <= k < extension_languages().len() ==> spec_from_extension(
            (#[trigger] extension_languages()[k]).0,
        ) == Some(extension_languages()[k].1),
        forall|e: Seq<char>| #[trigger] spec_from_extension(e) is Some ==> exists|k: int|
            0 <= k < extension_languages().len() && extension_languages()[k].0 == e,
{
    let t = extension_languages();
    assert(t.len() == 31);
    reveal_strlit("rs");
    reveal_strlit("c");
    reveal_strlit("h");
    reveal_strlit("cc");
    reveal_strlit("cpp");
    reveal_strlit("cxx");
    reveal_strlit("hh");
    reveal_strlit("hpp");
    reveal_strlit("hxx");
    reveal_strlit("py");
    reveal_strlit("pyi");
    reveal_strlit("json");
    reveal_strlit("jsonc");
    reveal_strlit("md");
    reveal_strlit("markdown");
    reveal_strlit("toml");
    reveal_strlit("yaml");
    reveal_strlit("yml");
    reveal_strlit("sh");
    reveal_strlit("bash");
    reveal_strlit("js");
    reveal_strlit("jsx");
    reveal_strlit("mjs");
    reveal_strlit("cjs");
    reveal_strlit("ts");
    reveal_strlit("mts");
    reveal_strlit("cts");
    reveal_strlit("tsx");
    reveal_strlit("html");
    reveal_strlit("htm");
    reveal_strlit("css");
    assert("rs"@.len() == 2);
    assert("c"@.len() == 1);
    assert("h"@.len() == 1);
    assert("cc"@.len() == 2);
    assert("cpp"@.len() == 3);
    assert("cxx"@.len() == 3);
    assert("hh"@.len() == 2);
    assert("hpp"@.len() == 3);
    assert("hxx"@.len() == 3);
    assert("py"@.len() == 2);
    assert("pyi"@.len() == 3);
    assert("json"@.len() == 4);
    assert("jsonc"@.len() == 5);
    assert("md"@.len() == 2);
    assert("markdown"@.len() == 8);
    assert("toml"@.len() == 4);
    assert("yaml"@.len() == 4);
    assert("yml"@.len() == 3);
    assert("sh"@.len() == 2);
    assert("bash"@.len() == 4);
    assert("js"@.len() == 2);
    assert("jsx"@.len() == 3);
    assert("mjs"@.len() == 3);
    assert("cjs"@.len() == 3);
    assert("ts"@.len() == 2);
    assert("mts"@.len() == 3);
    assert("cts"@.len() == 3);
    assert("tsx"@.len() == 3);
    assert("html"@.len() == 4);
    assert("htm"@.len() == 3);
    assert("css"@.len() == 3);
    assert forall|k: int| 0 <= k < t.len() implies spec_from_extension((#[trigger] t[k]).0) == Some(t[k].1) by {
        if k == 0 {
            assert(t[0] == ("rs"@, SyntaxLanguage::Rust));
            assert(spec_from_extension("rs"@) == Some(SyntaxLanguage::Rust));
        } else if k == 1 {
            assert(t[1] == ("c"@, SyntaxLanguage::C));
            assert(spec_from_extension("c"@) == Some(SyntaxLanguage::C));
        } else if k == 2 {
            assert(t[2] == ("h"@, SyntaxLanguage::C));
            assert("h"@[0] != "c"@[0]);
            assert(spec_from_extension("h"@) == Some(SyntaxLanguage::C));
        } else if k == 3 {
            assert(t[3] == ("cc"@, SyntaxLanguage::Cpp));
            assert("cc"@[0] != "rs"@[0]);
            assert(spec_from_extension("cc"@) == Some(SyntaxLanguage::Cpp));
        } else if k == 4 {
            assert(t[4] == ("cpp"@, SyntaxLanguage::Cpp));
            assert(spec_from_extension("cpp"@) == Some(SyntaxLanguage::Cpp));
        } else if k == 5 {
            assert(t[5] == ("cxx"@, SyntaxLanguage::Cpp));
            assert("cxx"@[1] != "cpp"@[1]);
            assert(spec_from_extension("cxx"@) == Some(SyntaxLanguage::Cpp));
        } else if k == 6 {
            assert(t[6] == ("hh"@, SyntaxLanguage::Cpp));
            assert("hh"@[0] != "rs"@[0]);
            assert("hh"@[0] != "cc"@[0]);
            assert(spec_from_extension("hh"@) == Some(SyntaxLanguage::Cpp));
        } else if k == 7 {
            assert(t[7] == ("hpp"@, SyntaxLanguage::Cpp));
            assert("hpp"@[0] != "cpp"@[0]);
            assert("hpp"@[0] != "cxx"@[0]);
            assert(spec_from_extension("hpp"@) == Some(SyntaxLanguage::Cpp));
        } else if k == 8 {
            assert(t[8] == ("hxx"@, SyntaxLanguage::Cpp));
            assert("hxx"@[0] != "cpp"@[0]);
            assert("hxx"@[0] != "cxx"@[0]);
            assert("hxx"@[1] != "hpp"@[1]);
            assert(spec_from_extension("hxx"@) == Some(SyntaxLanguage::Cpp));
        } else if k == 9 {
            assert(t[9] == ("py"@, SyntaxLanguage::Python));
            assert("py"@[0] != "rs"@[0]);
            assert("py"@[0] != "cc"@[0]);
            assert("py"@[0] != "hh"@[0]);
            assert(spec_from_extension("py"@) == Some(SyntaxLanguage::Python));
        } else if k == 10 {
            assert(t[10] == ("pyi"@, SyntaxLanguage::Python));
            assert("pyi"@[0] != "cpp"@[0]);
            assert("pyi"@[0] != "cxx"@[0]);
            assert("pyi"@[0] != "hpp"@[0]);
            assert("pyi"@[0] != "hxx"@[0]);
            assert(spec_from_extension("pyi"@) == Some(SyntaxLanguage::Python));
        } else if k == 11 {
            assert(t[11] == ("json"@, SyntaxLanguage::Json));
            assert(spec_from_extension("json"@) == Some(SyntaxLanguage::Json));
        } else if k == 12 {
            assert(t[12] == ("jsonc"@, SyntaxLanguage::Json));
            assert(spec_from_extension("jsonc"@) == Some(SyntaxLanguage::Json));
        } else if k == 13 {
            assert(t[13] == ("md"@, SyntaxLanguage::Markdown));
            assert("md"@[0] != "rs"@[0]);
            assert("md"@[0] != "cc"@[0]);
            assert("md"@[0] != "hh"@[0]);
            assert("md"@[0] != "py"@[0]);
            assert(spec_from_extension("md"@) == Some(SyntaxLanguage::Markdown));
        } else if k == 14 {
            assert(t[14] == ("markdown"@, SyntaxLanguage::Markdown));
            assert(spec_from_extension("markdown"@) == Some(SyntaxLanguage::Markdown));
        } else if k == 15 {
            assert(t[15] == ("toml"@, SyntaxLanguage::Toml));
            assert("toml"@[0] != "json"@[0]);
            assert(spec_from_extension("toml"@) == Some(SyntaxLanguage::Toml));
        } else if k == 16 {
            assert(t[16] == ("yaml"@, SyntaxLanguage::Yaml));
            assert("yaml"@[0] != "json"@[0]);
            assert("yaml"@[0] != "toml"@[0]);
            assert(spec_from_extension("yaml"@) == Some(SyntaxLanguage::Yaml));
        } else if k == 17 {
            assert(t[17] == ("yml"@, SyntaxLanguage::Yaml));
            assert("yml"@[0] != "cpp"@[0]);
            assert("yml"@[0] != "cxx"@[0]);
            assert("yml"@[0] != "hpp"@[0]);
            assert("yml"@[0] != "hxx"@[0]);
            assert("yml"@[0] != "pyi"@[0]);
            assert(spec_from_extension("yml"@) == Some(SyntaxLanguage::Yaml));
        } else if k == 18 {
            assert(t[18] == ("sh"@, SyntaxLanguage::Bash));
            assert("sh"@[0] != "rs"@[0]);
            assert("sh"@[0] != "cc"@[0]);
            assert("sh"@[0] != "hh"@[0]);
            assert("sh"@[0] != "py"@[0]);
            assert("sh"@[0] != "md"@[0]);
            assert(spec_from_extension("sh"@) == Some(SyntaxLanguage::Bash));
        } else if k == 19 {
            assert(t[19] == ("bash"@, SyntaxLanguage::Bash));
            assert("bash"@[0] != "json"@[0]);
            assert("bash"@[0] != "toml"@[0]);
            assert("bash"@[0] != "yaml"@[0]);
            assert(spec_from_extension("bash"@) == Some(SyntaxLanguage::Bash));
        } else if k == 20 {
            assert(t[20] == ("js"@, SyntaxLanguage::JavaScript));
            assert("js"@[0] != "rs"@[0]);
            assert("js"@[0] != "cc"@[0]);
            assert("js"@[0] != "hh"@[0]);
            assert("js"@[0] != "py"@[0]);
            assert("js"@[0] != "md"@[0]);
            assert("js"@[0] != "sh"@[0]);
            assert(spec_from_extension("js"@) == Some(SyntaxLanguage::JavaScript));
        } else if k == 21 {
            assert(t[21] == ("jsx"@, SyntaxLanguage::JavaScript));
            assert("jsx"@[0] != "cpp"@[0]);
            assert("jsx"@[0] != "cxx"@[0]);
            assert("jsx"@[0] != "hpp"@[0]);
            assert("jsx"@[0] != "hxx"@[0]);
            assert("jsx"@[0] != "pyi"@[0]);
            assert("jsx"@[0] != "yml"@[0]);
            assert(spec_from_extension("jsx"@) == Some(SyntaxLanguage::JavaScript));
        } else if k == 22 {
            assert(t[22] == ("mjs"@, SyntaxLanguage::JavaScript));
            assert("mjs"@[0] != "cpp"@[0]);
            assert("mjs"@[0] != "cxx"@[0]);
            assert("mjs"@[0] != "hpp"@[0]);
            assert("mjs"@[0] != "hxx"@[0]);
            assert("mjs"@[0] != "pyi"@[0]);
            assert("mjs"@[0] != "yml"@[0]);
            assert("mjs"@[0] != "jsx"@[0]);
            assert(spec_from_extension("mjs"@) == Some(SyntaxLanguage::JavaScript));
        } else if k == 23 {
            assert(t[23] == ("cjs"@, SyntaxLanguage::JavaScript));
            assert("cjs"@[1] != "cpp"@[1]);
            assert("cjs"@[1] != "cxx"@[1]);
            assert("cjs"@[0] != "hpp"@[0]);
            assert("cjs"@[0] != "hxx"@[0]);
            assert("cjs"@[0] != "pyi"@[0]);
            assert("cjs"@[0] != "yml"@[0]);
            assert("cjs"@[0] != "jsx"@[0]);
            assert("cjs"@[0] != "mjs"@[0]);
            assert(spec_from_extension("cjs"@) == Some(SyntaxLanguage::JavaScript));
        } else if k == 24 {
            assert(t[24] == ("ts"@, SyntaxLanguage::TypeScript));
            assert("ts"@[0] != "rs"@[0]);
            assert("ts"@[0] != "cc"@[0]);
            assert("ts"@[0] != "hh"@[0]);
            assert("ts"@[0] != "py"@[0]);
            assert("ts"@[0] != "md"@[0]);
            assert("ts"@[0] != "sh"@[0]);
            assert("ts"@[0] != "js"@[0]);
            assert(spec_from_extension("ts"@) == Some(SyntaxLanguage::TypeScript));
        } else if k == 25 {
            assert(t[25] == ("mts"@, SyntaxLanguage::TypeScript));
            assert("mts"@[0] != "cpp"@[0]);
            assert("mts"@[0] != "cxx"@[0]);
            assert("mts"@[0] != "hpp"@[0]);
            assert("mts"@[0] != "hxx"@[0]);
            assert("mts"@[0] != "pyi"@[0]);
            assert("mts"@[0] != "yml"@[0]);
            assert("mts"@[0] != "jsx"@[0]);
            assert("mts"@[1] != "mjs"@[1]);
            assert("mts"@[0] != "cjs"@[0]);
            assert(spec_from_extension("mts"@) == Some(SyntaxLanguage::TypeScript));
        } else if k == 26 {
            assert(t[26] == ("cts"@, SyntaxLanguage::TypeScript));
            assert("cts"@[1] != "cpp"@[1]);
            assert("cts"@[1] != "cxx"@[1]);
            assert("cts"@[0] != "hpp"@[0]);
            assert("cts"@[0] != "hxx"@[0]);
            assert("cts"@[0] != "pyi"@[0]);
            assert("cts"@[0] != "yml"@[0]);
            assert("cts"@[0] != "jsx"@[0]);
            assert("cts"@[0] != "mjs"@[0]);
            assert("cts"@[1] != "cjs"@[1]);
            assert("cts"@[0] != "mts"@[0]);
            assert(spec_from_extension("cts"@) == Some(SyntaxLanguage::TypeScript));
        } else if k == 27 {
            assert(t[27] == ("tsx"@, SyntaxLanguage::Tsx));
            assert("tsx"@[0] != "cpp"@[0]);
            assert("tsx"@[0] != "cxx"@[0]);
            assert("tsx"@[0] != "hpp"@[0]);
            assert("tsx"@[0] != "hxx"@[0]);
            assert("tsx"@[0] != "pyi"@[0]);
            assert("tsx"@[0] != "yml"@[0]);
            assert("tsx"@[0] != "jsx"@[0]);
            assert("tsx"@[0] != "mjs"@[0]);
            assert("tsx"@[0] != "cjs"@[0]);
            assert("tsx"@[0] != "mts"@[0]);
            assert("tsx"@[0] != "cts"@[0]);
            assert(spec_from_extension("tsx"@) == Some(SyntaxLanguage::Tsx));
        } else if k == 28 {
            assert(t[28] == ("html"@, SyntaxLanguage::Html));
            assert("html"@[0] != "json"@[0]);
            assert("html"@[0] != "toml"@[0]);
            assert("html"@[0] != "yaml"@[0]);
            assert("html"@[0] != "bash"@[0]);
            assert(spec_from_extension("html"@) == Some(SyntaxLanguage::Html));
        } else if k == 29 {
            assert(t[29] == ("htm"@, SyntaxLanguage::Html));
            assert("htm"@[0] != "cpp"@[0]);
            assert("htm"@[0] != "cxx"@[0]);
            assert("htm"@[1] != "hpp"@[1]);
            assert("htm"@[1] != "hxx"@[1]);
            assert("htm"@[0] != "pyi"@[0]);
            assert("htm"@[0] != "yml"@[0]);
            assert("htm"@[0] != "jsx"@[0]);
            assert("htm"@[0] != "mjs"@[0]);
            assert("htm"@[0] != "cjs"@[0]);
            assert("htm"@[0] != "mts"@[0]);
            assert("htm"@[0] != "cts"@[0]);
            assert("htm"@[0] != "tsx"@[0]);
            assert(spec_from_extension("htm"@) == Some(SyntaxLanguage::Html));
        } else if k == 30 {
            assert(t[30] == ("css"@, SyntaxLanguage::Css));
            assert("css"@[1] != "cpp"@[1]);
            assert("css"@[1] != "cxx"@[1]);
            assert("css"@[0] != "hpp"@[0]);
            assert("css"@[0] != "hxx"@[0]);
            assert("css"@[0] != "pyi"@[0]);
            assert("css"@[0] != "yml"@[0]);
            assert("css"@[0] != "jsx"@[0]);
            assert("css"@[0] != "mjs"@[0]);
            assert("css"@[1] != "cjs"@[1]);
            assert("css"@[0] != "mts"@[0]);
            assert("css"@[1] != "cts"@[1]);
            assert("css"@[0] != "tsx"@[0]);
            assert("css"@[0] != "htm"@[0]);
            assert(spec_from_extension("css"@) == Some(SyntaxLanguage::Css));
        }
    }
    assert forall|e: Seq<char>| #[trigger] spec_from_extension(e) is Some implies exists|k: int|
        0 <= k < t.len() && t[k].0 == e by {
        if e == "rs"@ {
            assert(t[0].0 == e);
        }
        if e == "c"@ {
            assert(t[1].0 == e);
        }
        if e == "h"@ {
            assert(t[2].0 == e);
        }
        if e == "cc"@ {
            assert(t[3].0 == e);
        }
        if e == "cpp"@ {
            assert(t[4].0 == e);
        }
        if e == "cxx"@ {
            assert(t[5].0 == e);
        }
        if e == "hh"@ {
            assert(t[6].0 == e);
        }
        if e == "hpp"@ {
            assert(t[7].0 == e);
        }
        if e == "hxx"@ {
            assert(t[8].0 == e);
        }
        if e == "py"@ {
            assert(t[9].0 == e);
        }
        if e == "pyi"@ {
            assert(t[10].0 == e);
        }
        if e == "json"@ {
            assert(t[11].0 == e);
        }
        if e == "jsonc"@ {
            assert(t[12].0 == e);
        }
        if e == "md"@ {
            assert(t[13].0 == e);
        }
        if e == "markdown"@ {
            assert(t[14].0 == e);
        }
        if e == "toml"@ {
            assert(t[15].0 == e);
        }
        if e == "yaml"@ {
            assert(t[16].0 == e);
        }
        if e == "yml"@ {
            assert(t[17].0 == e);
        }
        if e == "sh"@ {
            assert(t[18].0 == e);
        }
        if e == "bash"@ {
            assert(t[19].0 == e);
        }
        if e == "js"@ {
            assert(t[20].0 == e);
        }
        if e == "jsx"@ {
            assert(t[21].0 == e);
        }
        if e == "mjs"@ {
            assert(t[22].0 == e);
        }
        if e == "cjs"@ {
            assert(t[23].0 == e);
        }
        if e == "ts"@ {
            assert(t[24].0 == e);
        }
        if e == "mts"@ {
            assert(t[25].0 == e);
        }
        if e == "cts"@ {
            assert(t[26].0 == e);
        }
        if e == "tsx"@ {
            assert(t[27].0 == e);
        }
        if e == "html"@ {
            assert(t[28].0 == e);
        }
        if e == "htm"@ {
            assert(t[29].0 == e);
        }
        if e == "css"@ {
            assert(t[30].0 == e);
        }
    }
}

/// The configured language names the editor highlights, each with its
/// language.
pub open spec fn language_names() -> Seq<(Seq<char>, SyntaxLanguage)> {
    seq![
        ("rust"@, SyntaxLanguage::Rust),
        ("c_cpp"@, SyntaxLanguage::Cpp),
        ("cpp"@, SyntaxLanguage::Cpp),
        ("c"@, SyntaxLanguage::C),
        ("python"@, SyntaxLanguage::Python),
        ("json"@, SyntaxLanguage::Json),
        ("jsonc"@, SyntaxLanguage::Json),
        ("markdown"@, SyntaxLanguage::Markdown),
        ("toml"@, SyntaxLanguage::Toml),
        ("yaml"@, SyntaxLanguage::Yaml),
        ("bash"@, SyntaxLanguage::Bash),
        ("shell"@, SyntaxLanguage::Bash),
        ("javascript"@, SyntaxLanguage::JavaScript),
        ("typescript"@, SyntaxLanguage::TypeScript),
        ("tsx"@, SyntaxLanguage::Tsx),
        ("html"@, SyntaxLanguage::Html),
        ("css"@, SyntaxLanguage::Css),
    ]
}

/// Every listed language name names its language, and a name names a
/// language only if it is listed.
#[verifier::spinoff_prover]
#[verifier::rlimit(100)]
pub proof fn lemma_language_names()
    ensures
        forall|k: int| 0 <= k < language_names().len() ==> spec_from_language_name(
            (#[trigger] language_names()[k]).0,
        ) == Some(language_names()[k].1),
        forall|e: Seq<char>| #[trigger] spec_from_language_name(e) is Some ==> exists|k: int|
            0 <= k < language_names().len() && language_names()[k].0 == e,
{
    let t = language_names();
    assert(t.len() == 17);
    reveal_strlit("rust");
    reveal_strlit("c_cpp");
    reveal_strlit("cpp");
    reveal_strlit("c");
    reveal_strlit("python");
    reveal_strlit("json");
    reveal_strlit("jsonc");
    reveal_strlit("markdown");
    reveal_strlit("toml");
    reveal_strlit("yaml");
    reveal_strlit("bash");
    reveal_strlit("shell");
    reveal_strlit("javascript");
    reveal_strlit("typescript");
    reveal_strlit("tsx");
    reveal_strlit("html");
    reveal_strlit("css");
    assert("rust"@.len() == 4);
    assert("c_cpp"@.len() == 5);
    assert("cpp"@.len() == 3);
    assert("c"@.len() == 1);
    assert("python"@.len() == 6);
    assert("json"@.len() == 4);
    assert("jsonc"@.len() == 5);
    assert("markdown"@.len() == 8);
    assert("toml"@.len() == 4);
    assert("yaml"@.len() == 4);
    assert("bash"@.len() == 4);
    assert("shell"@.len() == 5);
    assert("javascript"@.len() == 10);
    assert("typescript"@.len() == 10);
    assert("tsx"@.len() == 3);
    assert("html"@.len() == 4);
    assert("css"@.len() == 3);
    assert forall|k: int| 0 <= k < t.len() implies spec_from_language_name((#[trigger] t[k]).0) == Some(t[k].1) by {
        if k == 0 {
            assert(t[0] == ("rust"@, SyntaxLanguage::Rust));
            assert(spec_from_language_name("rust"@) == Some(SyntaxLanguage::Rust));
        } else if k == 1 {
            assert(t[1] == ("c_cpp"@, SyntaxLanguage::Cpp));
            assert(spec_from_language_name("c_cpp"@) == Some(SyntaxLanguage::Cpp));
        } else if k == 2 {
            assert(t[2] == ("cpp"@, SyntaxLanguage::Cpp));
            assert(spec_from_language_name("cpp"@) == Some(SyntaxLanguage::Cpp));
        } else if k == 3 {
            assert(t[3] == ("c"@, SyntaxLanguage::C));
            assert(spec_from_language_name("c"@) == Some(SyntaxLanguage::C));
        } else if k == 4 {
            assert(t[4] == ("python"@, SyntaxLanguage::Python));
            assert(spec_from_language_name("python"@) == Some(SyntaxLanguage::Python));
        } else if k == 5 {
            assert(t[5] == ("json"@, SyntaxLanguage::Json));
            assert("json"@[0] != "rust"@[0]);
            assert(spec_from_language_name("json"@) == Some(SyntaxLanguage::Json));
        } else if k == 6 {
            assert(t[6] == ("jsonc"@, SyntaxLanguage::Json));
            assert("jsonc"@[0] != "c_cpp"@[0]);
            assert(spec_from_language_name("jsonc"@) == Some(SyntaxLanguage::Json));
        } else if k == 7 {
            assert(t[7] == ("markdown"@, SyntaxLanguage::Markdown));
            assert(spec_from_language_name("markdown"@) == Some(SyntaxLanguage::Markdown));
        } else if k == 8 {
            assert(t[8] == ("toml"@, SyntaxLanguage::Toml));
            assert("toml"@[0] != "rust"@[0]);
            assert("toml"@[0] != "json"@[0]);
            assert(spec_from_language_name("toml"@) == Some(SyntaxLanguage::Toml));
        } else if k == 9 {
            assert(t[9] == ("yaml"@, SyntaxLanguage::Yaml));
            assert("yaml"@[0] != "rust"@[0]);
            assert("yaml"@[0] != "json"@[0]);
            assert("yaml"@[0] != "toml"@[0]);
            assert(spec_from_language_name("yaml"@) == Some(SyntaxLanguage::Yaml));
        } else if k == 10 {
            assert(t[10] == ("bash"@, SyntaxLanguage::Bash));
            assert("bash"@[0] != "rust"@[0]);
            assert("bash"@[0] != "json"@[0]);
            assert("bash"@[0] != "toml"@[0]);
            assert("bash"@[0] != "yaml"@[0]);
            assert(spec_from_language_name("bash"@) == Some(SyntaxLanguage::Bash));
        } else if k == 11 {
            assert(t[11] == ("shell"@, SyntaxLanguage::Bash));
            assert("shell"@[0] != "c_cpp"@[0]);
            assert("shell"@[0] != "jsonc"@[0]);
            assert(spec_from_language_name("shell"@) == Some(SyntaxLanguage::Bash));
        } else if k == 12 {
            assert(t[12] == ("javascript"@, SyntaxLanguage::JavaScript));
            assert(spec_from_language_name("javascript"@) == Some(SyntaxLanguage::JavaScript));
        } else if k == 13 {
            assert(t[13] == ("typescript"@, SyntaxLanguage::TypeScript));
            assert("typescript"@[0] != "javascript"@[0]);
            assert(spec_from_language_name("typescript"@) == Some(SyntaxLanguage::TypeScript));
        } else if k == 14 {
            assert(t[14] == ("tsx"@, SyntaxLanguage::Tsx));
            assert("tsx"@[0] != "cpp"@[0]);
            assert(spec_from_language_name("tsx"@) == Some(SyntaxLanguage::Tsx));
        } else if k == 15 {
            assert(t[15] == ("html"@, SyntaxLanguage::Html));
            assert("html"@[0] != "rust"@[0]);
            assert("html"@[0] != "json"@[0]);
            assert("html"@[0] != "toml"@[0]);
            assert("html"@[0] != "yaml"@[0]);
            assert("html"@[0] != "bash"@[0]);
            assert(spec_from_language_name("html"@) == Some(SyntaxLanguage::Html));
        } else if k == 16 {
            assert(t[16] == ("css"@, SyntaxLanguage::Css));
            assert("css"@[1] != "cpp"@[1]);
            assert("css"@[0] != "tsx"@[0]);
            assert(spec_from_language_name("css"@) == Some(SyntaxLanguage::Css));
        }
    }
    assert forall|e: Seq<char>| #[trigger] spec_from_language_name(e) is Some implies exists|k: int|
        0 <= k < t.len() && t[k].0 == e by {
        if e == "rust"@ {
            assert(t[0].0 == e);
        }
        if e == "c_cpp"@ {
            assert(t[1].0 == e);
        }
        if e == "cpp"@ {
            assert(t[2].0 == e);
        }
        if e == "c"@ {
            assert(t[3].0 == e);
        }
        if e == "python"@ {
            assert(t[4].0 == e);
        }
        if e == "json"@ {
            assert(t[5].0 == e);
        }
        if e == "jsonc"@ {
            assert(t[6].0 == e);
        }
        if e == "markdown"@ {
            assert(t[7].0 == e);
        }
        if e == "toml"@ {
            assert(t[8].0 == e);
        }
        if e == "yaml"@ {
            assert(t[9].0 == e);
        }
        if e == "bash"@ {
            assert(t[10].0 == e);
        }
        if e == "shell"@ {
            assert(t[11].0 == e);
        }
        if e == "javascript"@ {
            assert(t[12].0 == e);
        }
        if e == "typescript"@ {
            assert(t[13].0 == e);
        }
        if e == "tsx"@ {
            assert(t[14].0 == e);
        }
        if e == "html"@ {
            assert(t[15].0 == e);
        }
        if e == "css"@ {
            assert(t[16].0 == e);
        }
    }
}

fn is(e: &Vec<char>, l: &str) -> (b: bool)
    ensures
        b == (e@ == l@),
{
    chars_eq(e, &lit(l))
}

impl SyntaxLanguage {
    /// The comment tokens of the language: a line token, or an opening and
    /// closing token; none for JSON.
    pub fn comment_tokens(self) -> (r: Option<(&'static str, Option<&'static str>)>)
        ensures
            tokens_view(r) == spec_comment_tokens(self),
    {
        match self {
            SyntaxLanguage::Rust | SyntaxLanguage::C | SyntaxLanguage::Cpp
            | SyntaxLanguage::JavaScript | SyntaxLanguage::TypeScript | SyntaxLanguage::Tsx => {
                Some(("//", None))
            },
            SyntaxLanguage::Python | SyntaxLanguage::Yaml | SyntaxLanguage::Bash
            | SyntaxLanguage::Toml => Some(("#", None)),
            SyntaxLanguage::Html | SyntaxLanguage::Markdown => Some(("<!--", Some("-->"))),
            SyntaxLanguage::Css => Some(("/*", Some("*/"))),
            SyntaxLanguage::Json => None,
        }
    }

    /// The language of a file extension (without the leading dot); `None`
    /// for plain text.
    pub fn from_extension(extension: &str) -> (r: Option<SyntaxLanguage>)
        ensures
            r == spec_from_extension(extension@),
    {
        let e = str_to_chars(extension);
        if is(&e, "rs") {
            Some(SyntaxLanguage::Rust)
        } else if is(&e, "c") || is(&e, "h") {
            Some(SyntaxLanguage::C)
        } else if is(&e, "cc") || is(&e, "cpp") || is(&e, "cxx") || is(&e, "hh") || is(&e, "hpp")
            || is(&e, "hxx") {
            Some(SyntaxLanguage::Cpp)
        } else if is(&e, "py") || is(&e, "pyi") {
            Some(SyntaxLanguage::Python)
        } else if is(&e, "json") || is(&e, "jsonc") {
            Some(SyntaxLanguage::Json)
        } else if is(&e, "md") || is(&e, "markdown") {
            Some(SyntaxLanguage::Markdown)
        } else if is(&e, "toml") {
            Some(SyntaxLanguage::Toml)
        } else if is(&e, "yaml") || is(&e, "yml") {
            Some(SyntaxLanguage::Yaml)
        } else if is(&e, "sh") || is(&e, "bash") {
            Some(SyntaxLanguage::Bash)
        } else if is(&e, "js") || is(&e, "jsx") || is(&e, "mjs") || is(&e, "cjs") {
            Some(SyntaxLanguage::JavaScript)
        } else if is(&e, "ts") || is(&e, "mts") || is(&e, "cts") {
            Some(SyntaxLanguage::TypeScript)
        } else if is(&e, "tsx") {
            Some(SyntaxLanguage::Tsx)
        } else if is(&e, "html") || is(&e, "htm") {
            Some(SyntaxLanguage::Html)
        } else if is(&e, "css") {
            Some(SyntaxLanguage::Css)
        } else {
            None
        }
    }

    /// The language of a configured language name (`"rust"`,
    /// `"markdown"`, ...); `None` where no language matches.
    pub fn from_language_name(name: &str) -> (r: Option<SyntaxLanguage>)
        ensures
            r == spec_from_language_name(name@),
    {
        let n = str_to_chars(name);
        if is(&n, "rust") {
            Some(SyntaxLanguage::Rust)
        } else if is(&n, "c_cpp") || is(&n, "cpp") {
            Some(SyntaxLanguage::Cpp)
        } else if is(&n, "c") {
            Some(SyntaxLanguage::C)
        } else if is(&n, "python") {
            Some(SyntaxLanguage::Python)
        } else if is(&n, "json") || is(&n, "jsonc") {
            Some(SyntaxLanguage::Json)
        } else if is(&n, "markdown") {
            Some(SyntaxLanguage::Markdown)
        } else if is(&n, "toml") {
            Some(SyntaxLanguage::Toml)
        } else if is(&n, "yaml") {
            Some(SyntaxLanguage::Yaml)
        } else if is(&n, "bash") || is(&n, "shell") {
            Some(SyntaxLanguage::Bash)
        } else if is(&n, "javascript") {
            Some(SyntaxLanguage::JavaScript)
        } else if is(&n, "typescript") {
            Some(SyntaxLanguage::TypeScript)
        } else if is(&n, "tsx") {
            Some(SyntaxLanguage::Tsx)
        } else if is(&n, "html") {
            Some(SyntaxLanguage::Html)
        } else if is(&n, "css") {
            Some(SyntaxLanguage::Css)
        } else {
            None
        }
    }
}

/// The part of a capture name before its first `.`.
pub open spec fn capture_root(name: Seq<char>) -> Seq<char>
    decreases name.len(),
{
    if name.len() == 0 || name[0] == '.' {
        Seq::empty()
    } else {
        seq![name[0]] + capture_root(name.drop_first())
    }
}

/// The highlight kind of a capture name: a few Markdown names explicitly,
/// otherwise by the root of the name.
pub open spec fn spec_classify_capture(name: Seq<char>) -> Option<HighlightKind> {
    if name == "text.title"@ || name == "punctuation.special"@ {
        Some(HighlightKind::Keyword)
    } else if name == "text.literal"@ {
        Some(HighlightKind::String)
    } else if name == "text.uri"@ || name == "text.reference"@ {
        Some(HighlightKind::Type)
    } else if name == "text.emphasis"@ || name == "text.strong"@ {
        Some(HighlightKind::Constant)
    } else {
        let r = capture_root(name);
        if r == "keyword"@ || r == "operator"@ {
            Some(HighlightKind::Keyword)
        } else if r == "function"@ || r == "method"@ {
            Some(HighlightKind::Function)
        } else if r == "type"@ || r == "constructor"@ || r == "attribute"@ {
            Some(HighlightKind::Type)
        } else if r == "string"@ || r == "character"@ {
            Some(HighlightKind::String)
        } else if r == "number"@ || r == "float"@ {
            Some(HighlightKind::Number)
        } else if r == "comment"@ {
            Some(HighlightKind::Comment)
        } else if r == "variable"@ || r == "property"@ || r == "parameter"@ {
            Some(HighlightKind::Variable)
        } else if r == "constant"@ || r == "boolean"@ {
            Some(HighlightKind::Constant)
        } else {
            None
        }
    }
}

/// Maps a highlight capture name to its kind; `None` leaves the capture
/// unhighlighted.
pub fn classify_capture(name: &str) -> (r: Option<HighlightKind>)
    ensures
        r == spec_classify_capture(name@),
{
    let n = str_to_chars(name);
    if is(&n, "text.title") || is(&n, "punctuation.special") {
        return Some(HighlightKind::Keyword);
    }
    if is(&n, "text.literal") {
        return Some(HighlightKind::String);
    }
    if is(&n, "text.uri") || is(&n, "text.reference") {
        return Some(HighlightKind::Type);
    }
    if is(&n, "text.emphasis") || is(&n, "text.strong") {
        return Some(HighlightKind::Constant);
    }
    let mut root: Vec<char> = Vec::new();
    let mut i: usize = 0;
    assert(n@.skip(0) =~= n@);
    while i < n.len() && n[i] != '.'
        invariant
            i <= n@.len(),
            capture_root(n@) == root@ + capture_root(n@.skip(i as int)),
        decreases n.len() - i,
    {
        assert(n@.skip(i as int).drop_first() =~= n@.skip(i + 1));
        assert(n@.skip(i as int)[0] == n@[i as int]);
        root.push(n[i]);
        assert(root@ + capture_root(n@.skip(i + 1)) =~= (root@.drop_last()) + (seq![n@[i as int]]
            + capture_root(n@.skip(i + 1))));
        i = i + 1;
    }
    proof {
        if i < n@.len() {
            assert(n@.skip(i as int)[0] == n@[i as int]);
        }
        assert(capture_root(n@.skip(i as int)) =~= Seq::<char>::empty());
        assert(root@ =~= capture_root(n@));
    }
    if is(&root, "keyword") || is(&root, "operator") {
        Some(HighlightKind::Keyword)
    } else if is(&root, "function") || is(&root, "method") {
        Some(HighlightKind::Function)
    } else if is(&root, "type") || is(&root, "constructor") || is(&root, "attribute") {
        Some(HighlightKind::Type)
    } else if is(&root, "string") || is(&root, "character") {
        Some(HighlightKind::String)
    } else if is(&root, "number") || is(&root, "float") {
        Some(HighlightKind::Number)
    } else if is(&root, "comment") {
        Some(HighlightKind::Comment)
    } else if is(&root, "variable") || is(&root, "property") || is(&root, "parameter") {
        Some(HighlightKind::Variable)
    } else if is(&root, "constant") || is(&root, "boolean") {
        Some(HighlightKind::Constant)
    } else {
        None
    }
}


/// Bytes in the UTF-8 text of the first `i` chars of `s`.
pub open spec fn byte_offset(s: Seq<char>, i: int) -> nat
    decreases i,
{
    if i <= 0 {
        0
    } else {
        byte_offset(s, i - 1) + utf8_width(s[i - 1])
    }
}

/// The index of the char that starts at byte `byte` of `s`'s UTF-8 text,
/// the end of the text counting as a start; `None` inside a char or past
/// the end.
pub open spec fn char_at_byte(s: Seq<char>, byte: int) -> Option<int> {
    if exists|i: int| 0 <= i <= s.len() && byte_offset(s, i) == byte {
        Some(choose|i: int| 0 <= i <= s.len() && byte_offset(s, i) == byte)
    } else {
        None
    }
}

/// Each char takes at least one byte, so later chars start further on.
pub proof fn lemma_byte_offset_increasing(s: Seq<char>, i: int, j: int)
    requires
        0 <= i < j <= s.len(),
    ensures
        byte_offset(s, i) < byte_offset(s, j),
    decreases j,
{
    if i < j - 1 {
        lemma_byte_offset_increasing(s, i, j - 1);
    }
}

proof fn lemma_byte_offset_drop_first(s: Seq<char>, i: int)
    requires
        1 <= i <= s.len(),
    ensures
        byte_offset(s, i) == utf8_width(s[0]) + byte_offset(s.drop_first(), i - 1),
    decreases i,
{
    assert(byte_offset(s, 0) == 0);
    assert(byte_offset(s.drop_first(), 0) == 0);
    if i > 1 {
        lemma_byte_offset_drop_first(s, i - 1);
        assert(s.drop_first()[i - 2] == s[i - 1]);
    }
}

/// The UTF-8 text of `s` has `byte_offset(s, s.len())` bytes.
proof fn lemma_encoded_len(s: Seq<char>)
    ensures
        encode_utf8(s).len() == byte_offset(s, s.len() as int),
    decreases s.len(),
{
    if s.len() > 0 {
        lemma_encoded_len(s.drop_first());
        lemma_byte_offset_drop_first(s, s.len() as int);
        char_is_scalar(s[0]);
    }
}

/// The byte spans whose ends both start chars, in char offsets, in their
/// order; the others are left out.
pub open spec fn char_spans(s: Seq<char>, spans: Seq<(usize, usize, HighlightKind)>) -> Seq<HighlightSpan>
    decreases spans.len(),
{
    if spans.len() == 0 {
        Seq::empty()
    } else {
        let prev = char_spans(s, spans.drop_last());
        let (a, b, kind) = spans.last();
        match (char_at_byte(s, a as int), char_at_byte(s, b as int)) {
            (Some(x), Some(y)) => prev.push(HighlightSpan { start_char: x as usize, end_char: y as usize, kind }),
            _ => prev,
        }
    }
}

/// `a` comes before `b`: by start, then by end.
pub open spec fn span_before(a: HighlightSpan, b: HighlightSpan) -> bool {
    a.start_char < b.start_char || (a.start_char == b.start_char && a.end_char < b.end_char)
}

/// Where `x` goes among sorted spans: after every span it does not come
/// before.
pub open spec fn span_index(sorted: Seq<HighlightSpan>, x: HighlightSpan) -> int
    decreases sorted.len(),
{
    if sorted.len() == 0 {
        0
    } else if span_before(x, sorted.last()) {
        span_index(sorted.drop_last(), x)
    } else {
        sorted.len() as int
    }
}

/// The spans ordered by start, then end, equal ones keeping their order.
pub open spec fn sort_spans(s: Seq<HighlightSpan>) -> Seq<HighlightSpan>
    decreases s.len(),
{
    if s.len() == 0 {
        s
    } else {
        let sorted = sort_spans(s.drop_last());
        sorted.insert(span_index(sorted, s.last()), s.last())
    }
}

/// Finds `byte` among strictly increasing offsets.
fn find_offset(offsets: &Vec<usize>, byte: usize) -> (r: Option<usize>)
    requires
        forall|i: int, j: int| 0 <= i < j < offsets@.len() ==> offsets@[i] < offsets@[j],
    ensures
        match r {
            Some(i) => i < offsets@.len() && offsets@[i as int] == byte,
            None => forall|i: int| 0 <= i < offsets@.len() ==> offsets@[i] != byte,
        },
{
    let mut lo: usize = 0;
    let mut hi: usize = offsets.len();
    while lo < hi
        invariant
            lo <= hi <= offsets@.len(),
            forall|i: int, j: int| 0 <= i < j < offsets@.len() ==> offsets@[i] < offsets@[j],
            forall|i: int| 0 <= i < lo ==> offsets@[i] < byte,
            forall|i: int| hi <= i < offsets@.len() ==> offsets@[i] > byte,
        decreases hi - lo,
    {
        let mid = lo + (hi - lo) / 2;
        if offsets[mid] == byte {
            return Some(mid);
        } else if offsets[mid] < byte {
            lo = mid + 1;
        } else {
            hi = mid;
        }
    }
    None
}

/// Inserts `x` into spans sorted by `sort_spans`, after the equal ones.
fn insert_span(sorted: &mut Vec<HighlightSpan>, x: HighlightSpan)
    ensures
        final(sorted)@ == old(sorted)@.insert(span_index(old(sorted)@, x), x),
{
    let ghost s0 = sorted@;
    let mut p = sorted.len();
    assert(s0.take(p as int) =~= s0);
    while p > 0 && (x.start_char < sorted[p - 1].start_char || (x.start_char == sorted[p - 1].start_char
        && x.end_char < sorted[p - 1].end_char))
        invariant
            p <= sorted@.len(),
            sorted@ == s0,
            span_index(s0, x) == span_index(s0.take(p as int), x),
        decreases p,
    {
        assert(s0.take(p as int).last() == s0[p - 1]);
        assert(s0.take(p as int).drop_last() =~= s0.take(p - 1));
        p = p - 1;
    }
    assert(span_index(s0.take(p as int), x) == p) by {
        if p > 0 {
            assert(s0.take(p as int).last() == s0[p - 1]);
        }
    }
    sorted.insert(p, x);
}

/// Turns highlight spans in UTF-8 byte offsets of `source` into spans in
/// char offsets, ordered by start and then end. A span with an end inside a
/// char or past the text is dropped.
pub fn convert_byte_spans(source: &str, byte_spans: Vec<(usize, usize, HighlightKind)>) -> (r: Vec<HighlightSpan>)
    ensures
        r@ == sort_spans(char_spans(source@, byte_spans@)),
{
    let _ = source.as_bytes().len();
    proof {
        lemma_encoded_len(source@);
    }
    let chars = str_to_chars(source);
    let ghost s = chars@;
    let mut offsets: Vec<usize> = Vec::new();
    offsets.push(0);
    let mut off: usize = 0;
    let mut i: usize = 0;
    while i < chars.len()
        invariant
            i <= s.len(),
            s == chars@,
            s == source@,
            byte_offset(s, s.len() as int) <= usize::MAX,
            offsets@.len() == i + 1,
            off == byte_offset(s, i as int),
            forall|k: int| 0 <= k <= i ==> offsets@[k] == byte_offset(s, k),
        decreases chars.len() - i,
    {
        proof {
            if i + 1 < s.len() {
                lemma_byte_offset_increasing(s, i + 1, s.len() as int);
            }
        }
        off = off + char_utf8_width(chars[i]);
        offsets.push(off);
        i = i + 1;
    }
    proof {
        assert forall|a: int, b: int| 0 <= a < b < offsets@.len() implies offsets@[a] < offsets@[b] by {
            lemma_byte_offset_increasing(s, a, b);
        }
    }
    let mut converted: Vec<HighlightSpan> = Vec::new();
    let mut j: usize = 0;
    while j < byte_spans.len()
        invariant
            j <= byte_spans@.len(),
            s == source@,
            offsets@.len() == s.len() + 1,
            forall|k: int| 0 <= k <= s.len() ==> offsets@[k] == byte_offset(s, k),
            forall|a: int, b: int| 0 <= a < b < offsets@.len() ==> offsets@[a] < offsets@[b],
            converted@ == char_spans(s, byte_spans@.take(j as int)),
        decreases byte_spans.len() - j,
    {
        let (a, b, kind) = byte_spans[j];
        let fa = find_offset(&offsets, a);
        let fb = find_offset(&offsets, b);
        proof {
            assert(byte_spans@.take(j + 1).drop_last() =~= byte_spans@.take(j as int));
            assert(byte_spans@.take(j + 1).last() == byte_spans@[j as int]);
            lemma_char_at_found(s, a as int, fa);
            lemma_char_at_found(s, b as int, fb);
        }
        match (fa, fb) {
            (Some(x), Some(y)) => {
                converted.push(HighlightSpan { start_char: x, end_char: y, kind });
            },
            _ => {},
        }
        j = j + 1;
    }
    assert(byte_spans@.take(j as int) =~= byte_spans@);
    let ghost all = converted@;
    let mut sorted: Vec<HighlightSpan> = Vec::new();
    let mut k: usize = 0;
    assert(all.take(0) =~= Seq::<HighlightSpan>::empty());
    while k < converted.len()
        invariant
            k <= all.len(),
            converted@ == all,
            sorted@ == sort_spans(all.take(k as int)),
        decreases converted.len() - k,
    {
        assert(all.take(k + 1).drop_last() =~= all.take(k as int));
        assert(all.take(k + 1).last() == all[k as int]);
        let c = &converted[k];
        insert_span(&mut sorted, HighlightSpan { start_char: c.start_char, end_char: c.end_char, kind: c.kind });
        k = k + 1;
    }
    assert(all.take(k as int) =~= all);
    sorted
}

/// What `find_offset` found among the char offsets is `char_at_byte`.
proof fn lemma_char_at_found(s: Seq<char>, byte: int, found: Option<usize>)
    requires
        match found {
            Some(i) => i <= s.len() && byte_offset(s, i as int) == byte,
            None => forall|i: int| 0 <= i <= s.len() ==> byte_offset(s, i) != byte,
        },
    ensures
        match found {
            Some(i) => char_at_byte(s, byte) == Some(i as int),
            None => char_at_byte(s, byte) is None,
        },
{
    if let Some(i) = found {
        assert(0 <= i <= s.len() && byte_offset(s, i as int) == byte);
        let c = choose|k: int| 0 <= k <= s.len() && byte_offset(s, k) == byte;
        if c < i {
            lemma_byte_offset_increasing(s, c, i as int);
        } else if c > i {
            lemma_byte_offset_increasing(s, i as int, c);
        }
    }
}


#[verifier::external_type_specification]
#[verifier::external_body]
pub struct ExLanguage(Language);

#[verifier::external_type_specification]
#[verifier::external_body]
pub struct ExTree(Tree);

/// The tree-sitter grammars the editor highlights with.
#[derive(Debug, Clone, Copy, PartialEq, Eq, Structural)]
pub enum Grammar {
    Rust,
    C,
    Cpp,
    Python,
    Json,
    Toml,
    MarkdownBlock,
    MarkdownInline,
    Yaml,
    Bash,
    JavaScript,
    /// The TypeScript language with the TypeScript crate's query alone.
    TypeScriptAdditions,
    /// The TSX language with the TypeScript crate's query alone.
    TsxAdditions,
    /// The TypeScript language with JavaScript's query and then the
    /// TypeScript additions.
    TypeScript,
    /// The TSX language with JavaScript's query and then the TypeScript
    /// additions.
    Tsx,
    Html,
    Css,
}

/// A grammar's tree-sitter language and highlight query, loaded. Only the
/// grammar functions below make one, each for its own grammar.
pub struct LoadedGrammar {
    grammar: Grammar,
    language: Language,
    query: String,
}

impl LoadedGrammar {
    pub closed spec fn grammar(&self) -> Grammar {
        self.grammar
    }
}

/// A source parsed with a loaded grammar. Only `parse_source` makes one.
pub struct ParsedSource {
    grammar: Grammar,
    source: Ghost<Seq<char>>,
    tree: Tree,
}

impl ParsedSource {
    pub closed spec fn grammar(&self) -> Grammar {
        self.grammar
    }

    pub closed spec fn source(&self) -> Seq<char> {
        self.source@
    }
}

/// What highlighting `source` with a grammar gives: parsing it with the
/// grammar's tree-sitter language and running the grammar's highlight query
/// over the tree, the byte range and capture name of each capture in the
/// order the query cursor yields them; or the error of the language, the
/// parse or the query.
pub uninterp spec fn grammar_captures(grammar: Grammar, source: Seq<char>) -> Result<
    Seq<(usize, usize, Seq<char>)>,
    SyntaxError,
>;

/// `tree_sitter_rust::LANGUAGE` with `tree_sitter_rust::HIGHLIGHTS_QUERY`, as the `Rust` grammar.
#[verifier::external_body]
fn rust_grammar() -> (r: LoadedGrammar)
    ensures
        r.grammar() == Grammar::Rust,
{
    LoadedGrammar { grammar: Grammar::Rust, language: tree_sitter_rust::LANGUAGE.into(), query: tree_sitter_rust::HIGHLIGHTS_QUERY.to_owned() }
}

/// `tree_sitter_c::LANGUAGE` with `tree_sitter_c::HIGHLIGHT_QUERY`, as the `C` grammar.
#[verifier::external_body]
fn c_grammar() -> (r: LoadedGrammar)
    ensures
        r.grammar() == Grammar::C,
{
    LoadedGrammar { grammar: Grammar::C, language: tree_sitter_c::LANGUAGE.into(), query: tree_sitter_c::HIGHLIGHT_QUERY.to_owned() }
}

/// `tree_sitter_cpp::LANGUAGE` with `tree_sitter_cpp::HIGHLIGHT_QUERY`, as the `Cpp` grammar.
#[verifier::external_body]
fn cpp_grammar() -> (r: LoadedGrammar)
    ensures
        r.grammar() == Grammar::Cpp,
{
    LoadedGrammar { grammar: Grammar::Cpp, language: tree_sitter_cpp::LANGUAGE.into(), query: tree_sitter_cpp::HIGHLIGHT_QUERY.to_owned() }
}

/// `tree_sitter_python::LANGUAGE` with `tree_sitter_python::HIGHLIGHTS_QUERY`, as the `Python` grammar.
#[verifier::external_body]
fn python_grammar() -> (r: LoadedGrammar)
    ensures
        r.grammar() == Grammar::Python,
{
    LoadedGrammar { grammar: Grammar::Python, language: tree_sitter_python::LANGUAGE.into(), query: tree_sitter_python::HIGHLIGHTS_QUERY.to_owned() }
}

/// `tree_sitter_json::LANGUAGE` with `tree_sitter_json::HIGHLIGHTS_QUERY`, as the `Json` grammar.
#[verifier::external_body]
fn json_grammar() -> (r: LoadedGrammar)
    ensures
        r.grammar() == Grammar::Json,
{
    LoadedGrammar { grammar: Grammar::Json, language: tree_sitter_json::LANGUAGE.into(), query: tree_sitter_json::HIGHLIGHTS_QUERY.to_owned() }
}

/// `tree_sitter_toml_ng::LANGUAGE` with `tree_sitter_toml_ng::HIGHLIGHTS_QUERY`, as the `Toml` grammar.
#[verifier::external_body]
fn toml_grammar() -> (r: LoadedGrammar)
    ensures
        r.grammar() == Grammar::Toml,
{
    LoadedGrammar { grammar: Grammar::Toml, language: tree_sitter_toml_ng::LANGUAGE.into(), query: tree_sitter_toml_ng::HIGHLIGHTS_QUERY.to_owned() }
}

/// `tree_sitter_md::LANGUAGE` with `tree_sitter_md::HIGHLIGHT_QUERY_BLOCK`, as the `MarkdownBlock` grammar.
#[verifier::external_body]
fn markdown_block_grammar() -> (r: LoadedGrammar)
    ensures
        r.grammar() == Grammar::MarkdownBlock,
{
    LoadedGrammar { grammar: Grammar::MarkdownBlock, language: tree_sitter_md::LANGUAGE.into(), query: tree_sitter_md::HIGHLIGHT_QUERY_BLOCK.to_owned() }
}

/// `tree_sitter_md::INLINE_LANGUAGE` with `tree_sitter_md::HIGHLIGHT_QUERY_INLINE`, as the `MarkdownInline` grammar.
#[verifier::external_body]
fn markdown_inline_grammar() -> (r: LoadedGrammar)
    ensures
        r.grammar() == Grammar::MarkdownInline,
{
    LoadedGrammar { grammar: Grammar::MarkdownInline, language: tree_sitter_md::INLINE_LANGUAGE.into(), query: tree_sitter_md::HIGHLIGHT_QUERY_INLINE.to_owned() }
}

/// `tree_sitter_yaml::LANGUAGE` with `tree_sitter_yaml::HIGHLIGHTS_QUERY`, as the `Yaml` grammar.
#[verifier::external_body]
fn yaml_grammar() -> (r: LoadedGrammar)
    ensures
        r.grammar() == Grammar::Yaml,
{
    LoadedGrammar { grammar: Grammar::Yaml, language: tree_sitter_yaml::LANGUAGE.into(), query: tree_sitter_yaml::HIGHLIGHTS_QUERY.to_owned() }
}

/// `tree_sitter_bash::LANGUAGE` with `tree_sitter_bash::HIGHLIGHT_QUERY`, as the `Bash` grammar.
#[verifier::external_body]
fn bash_grammar() -> (r: LoadedGrammar)
    ensures
        r.grammar() == Grammar::Bash,
{
    LoadedGrammar { grammar: Grammar::Bash, language: tree_sitter_bash::LANGUAGE.into(), query: tree_sitter_bash::HIGHLIGHT_QUERY.to_owned() }
}

/// `tree_sitter_javascript::LANGUAGE` with `tree_sitter_javascript::HIGHLIGHT_QUERY`, as the `JavaScript` grammar.
#[verifier::external_body]
fn javascript_grammar() -> (r: LoadedGrammar)
    ensures
        r.grammar() == Grammar::JavaScript,
{
    LoadedGrammar { grammar: Grammar::JavaScript, language: tree_sitter_javascript::LANGUAGE.into(), query: tree_sitter_javascript::HIGHLIGHT_QUERY.to_owned() }
}

/// `tree_sitter_html::LANGUAGE` with `tree_sitter_html::HIGHLIGHTS_QUERY`, as the `Html` grammar.
#[verifier::external_body]
fn html_grammar() -> (r: LoadedGrammar)
    ensures
        r.grammar() == Grammar::Html,
{
    LoadedGrammar { grammar: Grammar::Html, language: tree_sitter_html::LANGUAGE.into(), query: tree_sitter_html::HIGHLIGHTS_QUERY.to_owned() }
}

/// `tree_sitter_css::LANGUAGE` with `tree_sitter_css::HIGHLIGHTS_QUERY`, as the `Css` grammar.
#[verifier::external_body]
fn css_grammar() -> (r: LoadedGrammar)
    ensures
        r.grammar() == Grammar::Css,
{
    LoadedGrammar { grammar: Grammar::Css, language: tree_sitter_css::LANGUAGE.into(), query: tree_sitter_css::HIGHLIGHTS_QUERY.to_owned() }
}

/// `tree_sitter_typescript::LANGUAGE_TYPESCRIPT` with
/// `tree_sitter_typescript::HIGHLIGHTS_QUERY`, as the `TypeScriptAdditions`
/// grammar.
#[verifier::external_body]
fn typescript_additions_grammar() -> (r: LoadedGrammar)
    ensures
        r.grammar() == Grammar::TypeScriptAdditions,
{
    LoadedGrammar {
        grammar: Grammar::TypeScriptAdditions,
        language: tree_sitter_typescript::LANGUAGE_TYPESCRIPT.into(),
        query: tree_sitter_typescript::HIGHLIGHTS_QUERY.to_owned(),
    }
}

/// `tree_sitter_typescript::LANGUAGE_TSX` with
/// `tree_sitter_typescript::HIGHLIGHTS_QUERY`, as the `TsxAdditions` grammar.
#[verifier::external_body]
fn tsx_additions_grammar() -> (r: LoadedGrammar)
    ensures
        r.grammar() == Grammar::TsxAdditions,
{
    LoadedGrammar {
        grammar: Grammar::TsxAdditions,
        language: tree_sitter_typescript::LANGUAGE_TSX.into(),
        query: tree_sitter_typescript::HIGHLIGHTS_QUERY.to_owned(),
    }
}

/// A TypeScript grammar whose query is JavaScript's, a line break and the
/// TypeScript additions: the TypeScript crate publishes only its additions
/// to the JavaScript captures.
fn with_javascript_base(javascript: LoadedGrammar, additions: LoadedGrammar) -> (r: LoadedGrammar)
    requires
        javascript.grammar() == Grammar::JavaScript,
        additions.grammar() == Grammar::TypeScriptAdditions || additions.grammar() == Grammar::TsxAdditions,
    ensures
        additions.grammar() == Grammar::TypeScriptAdditions ==> r.grammar() == Grammar::TypeScript,
        additions.grammar() == Grammar::TsxAdditions ==> r.grammar() == Grammar::Tsx,
        r.query@ == javascript.query@ + seq!['\n'] + additions.query@,
{
    let mut query = str_to_chars(javascript.query.as_str());
    query.push('\n');
    crate::chars::push_all(&mut query, &str_to_chars(additions.query.as_str()));
    let grammar = if additions.grammar == Grammar::TypeScriptAdditions { Grammar::TypeScript } else { Grammar::Tsx };
    LoadedGrammar { grammar, language: additions.language, query: crate::chars::chars_to_string(query.as_slice()) }
}

/// Parses `source` with the grammar's language (`Parser::set_language`,
/// then `Parser::parse`). A refused language is an error with the library's
/// message, a missing tree `MissingTree`; either is then what the grammar
/// gives for the source.
#[verifier::external_body]
fn parse_source(grammar: &LoadedGrammar, source: &str) -> (r: Result<ParsedSource, SyntaxError>)
    ensures
        match r {
            Ok(parsed) => parsed.grammar() == grammar.grammar() && parsed.source() == source@,
            Err(e) => grammar_captures(grammar.grammar(), source@) == Err::<Seq<(usize, usize, Seq<char>)>, SyntaxError>(e),
        },
{
    let mut parser = Parser::new();
    parser.set_language(&grammar.language).map_err(|error| SyntaxError::Language(error.to_string()))?;
    let tree = parser.parse(source, None).ok_or(SyntaxError::MissingTree)?;
    Ok(ParsedSource { grammar: grammar.grammar, source: Ghost(source@), tree })
}

/// Runs the grammar's highlight query over a parsed source (`Query::new`,
/// `QueryCursor::captures`): the byte range and capture name of each
/// capture, in the order the cursor yields them, or the query's error with
/// the library's message.
#[verifier::external_body]
fn query_captures(grammar: &LoadedGrammar, parsed: &ParsedSource, source: &str) -> (r: Result<Vec<(usize, usize, String)>, SyntaxError>)
    requires
        parsed.grammar() == grammar.grammar(),
        parsed.source() == source@,
    ensures
        match r {
            Ok(v) => grammar_captures(grammar.grammar(), source@) == Ok::<Seq<(usize, usize, Seq<char>)>, SyntaxError>(capture_views(v@)),
            Err(e) => grammar_captures(grammar.grammar(), source@) == Err::<Seq<(usize, usize, Seq<char>)>, SyntaxError>(e),
        },
{
    let query = Query::new(&grammar.language, &grammar.query).map_err(|error| SyntaxError::Query(error.to_string()))?;
    let names = query.capture_names();
    let mut cursor = QueryCursor::new();
    let mut captures = cursor.captures(&query, parsed.tree.root_node(), source.as_bytes());
    let mut out = Vec::new();
    while let Some((matched, index)) = captures.next() {
        let capture = matched.captures()[*index];
        out.push((capture.node.start_byte(), capture.node.end_byte(), names[capture.index as usize].to_owned()));
    }
    Ok(out)
}

/// Captures with their names as text.
pub open spec fn capture_views(captures: Seq<(usize, usize, String)>) -> Seq<(usize, usize, Seq<char>)> {
    captures.map_values(|c: (usize, usize, String)| (c.0, c.1, c.2@))
}

/// The captures whose names classify, as byte spans of that kind, in their
/// order.
pub open spec fn classified(captures: Seq<(usize, usize, Seq<char>)>) -> Seq<(usize, usize, HighlightKind)>
    decreases captures.len(),
{
    if captures.len() == 0 {
        Seq::empty()
    } else {
        let prev = classified(captures.drop_last());
        let (a, b, name) = captures.last();
        match spec_classify_capture(name) {
            Some(kind) => prev.push((a, b, kind)),
            None => prev,
        }
    }
}

/// The highlight spans, in char offsets, of `source` for its captures.
pub open spec fn spec_spans_from_captures(source: Seq<char>, captures: Seq<(usize, usize, Seq<char>)>) -> Seq<HighlightSpan> {
    sort_spans(char_spans(source, classified(captures)))
}

/// Classifies captures by name and turns them into sorted char spans of
/// `source`.
pub fn spans_from_captures(source: &str, captures: Vec<(usize, usize, String)>) -> (r: Vec<HighlightSpan>)
    ensures
        r@ == spec_spans_from_captures(source@, capture_views(captures@)),
{
    let ghost cv = capture_views(captures@);
    let mut byte_spans: Vec<(usize, usize, HighlightKind)> = Vec::new();
    let mut i: usize = 0;
    while i < captures.len()
        invariant
            i <= captures@.len(),
            cv == capture_views(captures@),
            byte_spans@ == classified(cv.take(i as int)),
        decreases captures.len() - i,
    {
        assert(cv.take(i + 1).drop_last() =~= cv.take(i as int));
        assert(cv.take(i + 1).last() == cv[i as int]);
        let (a, b, ref name) = captures[i];
        match classify_capture(name.as_str()) {
            Some(kind) => byte_spans.push((a, b, kind)),
            None => {},
        }
        i = i + 1;
    }
    assert(cv.take(i as int) =~= cv);
    convert_byte_spans(source, byte_spans)
}

/// The grammar of a language; for Markdown, the block grammar.
pub open spec fn main_grammar(language: SyntaxLanguage) -> Grammar {
    match language {
        SyntaxLanguage::Rust => Grammar::Rust,
        SyntaxLanguage::C => Grammar::C,
        SyntaxLanguage::Cpp => Grammar::Cpp,
        SyntaxLanguage::Python => Grammar::Python,
        SyntaxLanguage::Json => Grammar::Json,
        SyntaxLanguage::Markdown => Grammar::MarkdownBlock,
        SyntaxLanguage::Toml => Grammar::Toml,
        SyntaxLanguage::Yaml => Grammar::Yaml,
        SyntaxLanguage::Bash => Grammar::Bash,
        SyntaxLanguage::JavaScript => Grammar::JavaScript,
        SyntaxLanguage::TypeScript => Grammar::TypeScript,
        SyntaxLanguage::Tsx => Grammar::Tsx,
        SyntaxLanguage::Html => Grammar::Html,
        SyntaxLanguage::Css => Grammar::Css,
    }
}

/// The captures of a language: of its grammar; for Markdown, the block
/// grammar's followed by the inline grammar's. The first error stands.
pub open spec fn language_captures(language: SyntaxLanguage, source: Seq<char>) -> Result<
    Seq<(usize, usize, Seq<char>)>,
    SyntaxError,
> {
    let first = grammar_captures(main_grammar(language), source);
    if language == SyntaxLanguage::Markdown {
        match first {
            Ok(block) => match grammar_captures(Grammar::MarkdownInline, source) {
                Ok(inline) => Ok(block + inline),
                Err(e) => Err(e),
            },
            Err(e) => Err(e),
        }
    } else {
        first
    }
}

/// The captures of one grammar, or `None` once a generation read through
/// `current` (before parsing, before the query runs and after it) is not
/// `generation`.
fn collect_captures<F: Fn() -> u64>(grammar: LoadedGrammar, source: &str, current: &F, generation: u64) -> (r: Option<
    Result<Vec<(usize, usize, String)>, SyntaxError>,
>)
    requires
        call_requires(*current, ()),
    ensures
        r matches Some(result) ==> match result {
            Ok(v) => grammar_captures(grammar.grammar(), source@) == Ok::<Seq<(usize, usize, Seq<char>)>, SyntaxError>(capture_views(v@)),
            Err(e) => grammar_captures(grammar.grammar(), source@) == Err::<Seq<(usize, usize, Seq<char>)>, SyntaxError>(e),
        },
        (forall|v: u64| call_ensures(*current, (), v) ==> v == generation) ==> r is Some,
{
    if current() != generation {
        return None;
    }
    let parsed = match parse_source(&grammar, source) {
        Ok(parsed) => parsed,
        Err(error) => return Some(Err(error)),
    };
    if current() != generation {
        return None;
    }
    let captures = query_captures(&grammar, &parsed, source);
    if captures.is_ok() && current() != generation {
        return None;
    }
    Some(captures)
}

/// The loaded grammar of a language; for Markdown, the block grammar.
fn load_main_grammar(language: SyntaxLanguage) -> (r: LoadedGrammar)
    ensures
        r.grammar() == main_grammar(language),
{
    match language {
        SyntaxLanguage::Rust => rust_grammar(),
        SyntaxLanguage::C => c_grammar(),
        SyntaxLanguage::Cpp => cpp_grammar(),
        SyntaxLanguage::Python => python_grammar(),
        SyntaxLanguage::Json => json_grammar(),
        SyntaxLanguage::Markdown => markdown_block_grammar(),
        SyntaxLanguage::Toml => toml_grammar(),
        SyntaxLanguage::Yaml => yaml_grammar(),
        SyntaxLanguage::Bash => bash_grammar(),
        SyntaxLanguage::JavaScript => javascript_grammar(),
        SyntaxLanguage::TypeScript => with_javascript_base(javascript_grammar(), typescript_additions_grammar()),
        SyntaxLanguage::Tsx => with_javascript_base(javascript_grammar(), tsx_additions_grammar()),
        SyntaxLanguage::Html => html_grammar(),
        SyntaxLanguage::Css => css_grammar(),
    }
}

/// Highlights `source` as `language`: the captures of the language's
/// grammar (Markdown: the block grammar's, then the inline grammar's),
/// turned into spans by `spans_from_captures`. The generation is read
/// through `current` before highlighting and around each parse and query;
/// once a read is not `generation` the spans gathered so far are returned:
/// none, or for Markdown those of the block grammar. When every read gives
/// `generation`, the result is exactly that of the language's captures.
pub fn highlight_with<F: Fn() -> u64>(language: SyntaxLanguage, source: &str, current: &F, generation: u64) -> (r: Result<
    Vec<HighlightSpan>,
    SyntaxError,
>)
    requires
        call_requires(*current, ()),
    ensures
        language_captures(language, source@) is Ok ==> r is Ok,
        match r {
            Ok(spans) => {
                ||| (language_captures(language, source@) matches Ok(c) && spans@ == spec_spans_from_captures(source@, c))
                ||| spans@.len() == 0
                ||| (language == SyntaxLanguage::Markdown && (grammar_captures(Grammar::MarkdownBlock, source@) matches Ok(b)
                    && spans@ == spec_spans_from_captures(source@, b)))
            },
            Err(e) => language_captures(language, source@) == Err::<Seq<(usize, usize, Seq<char>)>, SyntaxError>(e),
        },
        (forall|v: u64| call_ensures(*current, (), v) ==> v == generation) ==> match r {
            Ok(spans) => language_captures(language, source@) matches Ok(c) && spans@ == spec_spans_from_captures(source@, c),
            Err(e) => language_captures(language, source@) == Err::<Seq<(usize, usize, Seq<char>)>, SyntaxError>(e),
        },
{
    let none: Vec<HighlightSpan> = Vec::new();
    if current() != generation {
        return Ok(none);
    }
    let main = load_main_grammar(language);
    let first = match collect_captures(main, source, current, generation) {
        None => return Ok(none),
        Some(Err(error)) => return Err(error),
        Some(Ok(captures)) => captures,
    };
    if language != SyntaxLanguage::Markdown {
        return Ok(spans_from_captures(source, first));
    }
    let ghost block = capture_views(first@);
    let inline = match collect_captures(markdown_inline_grammar(), source, current, generation) {
        None => {
            return Ok(spans_from_captures(source, first));
        },
        Some(Err(error)) => return Err(error),
        Some(Ok(captures)) => captures,
    };
    let mut all = first;
    let mut more = inline;
    let ghost iv = capture_views(more@);
    all.append(&mut more);
    assert(capture_views(all@) =~= block + iv);
    Ok(spans_from_captures(source, all))
}

/// Highlights `source` as `highlight_with` does, reading the generation
/// from `cancellation`.
pub fn highlight(language: SyntaxLanguage, source: &str, cancellation: &AtomicU64, generation: u64) -> (r: Result<
    Vec<HighlightSpan>,
    SyntaxError,
>)
    ensures
        language_captures(language, source@) is Ok ==> r is Ok,
        match r {
            Ok(spans) => {
                ||| (language_captures(language, source@) matches Ok(c) && spans@ == spec_spans_from_captures(source@, c))
                ||| spans@.len() == 0
                ||| (language == SyntaxLanguage::Markdown && (grammar_captures(Grammar::MarkdownBlock, source@) matches Ok(b)
                    && spans@ == spec_spans_from_captures(source@, b)))
            },
            Err(e) => language_captures(language, source@) == Err::<Seq<(usize, usize, Seq<char>)>, SyntaxError>(e),
        },
{
    let read = || current_generation(cancellation);
    highlight_with(language, source, &read, generation)
}

} // verus!
