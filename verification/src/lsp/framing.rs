//! The framing of language-server messages: a `Content-Length` header, a
//! blank line, then that many bytes of JSON.

use vstd::prelude::*;

use crate::chars::{chars_to_string, lit, parse_usize, push_all, push_decimal, split_once, str_to_chars, to_ascii_lower, trim_bounds};

verus! {

/// The largest message body read or written: 16 MiB.
pub const MAX_MESSAGE_BYTES: usize = 16 * 1024 * 1024;

/// Why a message could not be framed.
#[derive(Debug, Clone, PartialEq, Eq)]
pub enum LspFrameError {
    Io(String),
    MissingContentLength,
    InvalidContentLength(String),
    MessageTooLarge,
    Json(String),
}

impl LspFrameError {
    /// The message shown for the error.
    pub fn message(&self) -> (r: String)
        ensures
            r@ == match self {
                LspFrameError::Io(e) => "LSP I/O failed: "@ + e@,
                LspFrameError::MissingContentLength => "LSP message is missing Content-Length"@,
                LspFrameError::InvalidContentLength(v) => "invalid LSP Content-Length: "@ + v@,
                LspFrameError::MessageTooLarge => "LSP message exceeds 16777216 bytes"@,
                LspFrameError::Json(e) => "invalid LSP JSON: "@ + e@,
            },
    {
        let mut out: Vec<char> = Vec::new();
        match self {
            LspFrameError::Io(e) => {
                push_all(&mut out, &lit("LSP I/O failed: "));
                push_all(&mut out, &str_to_chars(e.as_str()));
            },
            LspFrameError::MissingContentLength => {
                push_all(&mut out, &lit("LSP message is missing Content-Length"));
            },
            LspFrameError::InvalidContentLength(v) => {
                push_all(&mut out, &lit("invalid LSP Content-Length: "));
                push_all(&mut out, &str_to_chars(v.as_str()));
            },
            LspFrameError::MessageTooLarge => {
                push_all(&mut out, &lit("LSP message exceeds 16777216 bytes"));
            },
            LspFrameError::Json(e) => {
                push_all(&mut out, &lit("invalid LSP JSON: "));
                push_all(&mut out, &str_to_chars(e.as_str()));
            },
        }
        chars_to_string(out.as_slice())
    }
}

/// What one header line tells a reader.
#[derive(Debug, Clone, Copy, PartialEq, Eq, Structural)]
pub enum HeaderLine {
    /// The blank line that ends the header.
    End,
    /// A `Content-Length` header with its value.
    ContentLength(usize),
    /// Any other header.
    Other,
}

/// A header line: the blank line ends the header; `Content-Length` (in any
/// ASCII case, around whitespace) must carry a length; others are skipped.
pub open spec fn spec_classify_header(line: Seq<char>) -> Result<HeaderLine, Seq<char>> {
    if line == seq!['\r', '\n'] || line == seq!['\n'] {
        Ok(HeaderLine::End)
    } else {
        match crate::chars::spec_split_once(line, seq![':']) {
            Some((name, value)) => if crate::chars::ascii_lower(crate::chars::spec_trim(name))
                == "content-length"@ {
                let v = crate::chars::spec_trim(value);
                match crate::chars::spec_parse_usize(v) {
                    Some(n) => Ok(HeaderLine::ContentLength(n)),
                    None => Err(v),
                }
            } else {
                Ok(HeaderLine::Other)
            },
            None => Ok(HeaderLine::Other),
        }
    }
}

/// Reads one header line; a `Content-Length` that is not a number is an
/// error carrying the value.
pub fn classify_header(line: &str) -> (r: Result<HeaderLine, LspFrameError>)
    ensures
        match r {
            Ok(h) => spec_classify_header(line@) == Ok::<HeaderLine, Seq<char>>(h),
            Err(LspFrameError::InvalidContentLength(v)) => spec_classify_header(line@) == Err::<
                HeaderLine,
                Seq<char>,
            >(v@),
            Err(_) => false,
        },
{
    let chars = str_to_chars(line);
    if (chars.len() == 2 && chars[0] == '\r' && chars[1] == '\n') || (chars.len() == 1 && chars[0] == '\n') {
        assert(chars.len() == 2 ==> line@ =~= seq!['\r', '\n']);
        assert(chars.len() == 1 ==> line@ =~= seq!['\n']);
        return Ok(HeaderLine::End);
    }
    assert(line@ != seq!['\r', '\n']) by {
        if line@ == seq!['\r', '\n'] {
            assert(chars@.len() == 2 && chars@[0] == '\r' && chars@[1] == '\n');
        }
    }
    assert(line@ != seq!['\n']) by {
        if line@ == seq!['\n'] {
            assert(chars@.len() == 1 && chars@[0] == '\n');
        }
    }
    let colon = lit(":");
    assert(colon@ =~= seq![':']) by {
        reveal_strlit(":");
    }
    match split_once(&chars, &colon) {
        Some((name, value)) => {
            let (a, b) = trim_bounds(&name);
            let trimmed = crate::chars::sub_vec(&name, a, b);
            let lower = to_ascii_lower(&trimmed);
            let expected = lit("content-length");
            if crate::chars::chars_eq(&lower, &expected) {
                let (c, d) = trim_bounds(&value);
                let v = crate::chars::sub_vec(&value, c, d);
                assert(v@.subrange(0, v@.len() as int) =~= v@);
                match parse_usize(&v, 0, v.len()) {
                    Some(n) => Ok(HeaderLine::ContentLength(n)),
                    None => Err(LspFrameError::InvalidContentLength(chars_to_string(v.as_slice()))),
                }
            } else {
                Ok(HeaderLine::Other)
            }
        },
        None => Ok(HeaderLine::Other),
    }
}

/// The body length to read once the header has ended: the last
/// `Content-Length` seen, which must be there and within the limit.
pub fn body_length(content_length: Option<usize>) -> (r: Result<usize, LspFrameError>)
    ensures
        match content_length {
            None => r == Err::<usize, LspFrameError>(LspFrameError::MissingContentLength),
            Some(n) => if n > MAX_MESSAGE_BYTES {
                r == Err::<usize, LspFrameError>(LspFrameError::MessageTooLarge)
            } else {
                r == Ok::<usize, LspFrameError>(n)
            },
        },
{
    match content_length {
        None => Err(LspFrameError::MissingContentLength),
        Some(n) => if n > MAX_MESSAGE_BYTES {
            Err(LspFrameError::MessageTooLarge)
        } else {
            Ok(n)
        },
    }
}

/// What the end of the input means: nothing to read if no header line came
/// first, else a message cut short before its header ended.
pub fn end_of_input(saw_header: bool) -> (r: Result<(), LspFrameError>)
    ensures
        saw_header <==> r is Err,
        r matches Err(e) ==> e == LspFrameError::MissingContentLength,
{
    if saw_header {
        Err(LspFrameError::MissingContentLength)
    } else {
        Ok(())
    }
}

/// The header written before a body of `len` bytes.
pub open spec fn spec_frame_header(len: nat) -> Seq<u8> {
    crate::chars::ascii_bytes("Content-Length: "@ + crate::chars::decimal_text(len) + "\r\n\r\n"@)
}

/// The header for a body, which must be within the limit.
pub fn frame_header(body_len: usize) -> (r: Result<Vec<u8>, LspFrameError>)
    ensures
        body_len > MAX_MESSAGE_BYTES <==> r is Err,
        match r {
            Ok(h) => h@ == spec_frame_header(body_len as nat),
            Err(e) => e == LspFrameError::MessageTooLarge,
        },
{
    if body_len > MAX_MESSAGE_BYTES {
        return Err(LspFrameError::MessageTooLarge);
    }
    let mut text: Vec<char> = Vec::new();
    push_all(&mut text, &lit("Content-Length: "));
    push_decimal(&mut text, body_len as u64);
    push_all(&mut text, &lit("\r\n\r\n"));
    Ok(crate::chars::ascii_to_bytes(&text))
}

} // verus!
