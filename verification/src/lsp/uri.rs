//! `file://` URIs for paths, percent-encoded byte by byte.

use vstd::prelude::*;

use crate::chars::chars_to_string;

verus! {

/// Bytes that stay as they are in a URI path.
pub open spec fn is_unreserved(b: u8) -> bool {
    (0x30 <= b && b <= 0x39) || (0x41 <= b && b <= 0x5A) || (0x61 <= b && b <= 0x7A)
        || b == 0x2F || b == 0x2D || b == 0x5F || b == 0x2E || b == 0x7E
}

/// Upper-case hex digit of a nibble.
pub open spec fn hex_digit(n: u8) -> char {
    if n < 10 { (0x30 + n) as char } else { (0x41 + n - 10) as char }
}

/// A byte as it appears in a URI: itself, or `%XX`.
pub open spec fn encode_byte(b: u8) -> Seq<char> {
    if is_unreserved(b) {
        seq![b as char]
    } else {
        seq!['%', hex_digit(b / 16), hex_digit(b % 16)]
    }
}

pub open spec fn encode_bytes(bs: Seq<u8>) -> Seq<char>
    decreases bs.len(),
{
    if bs.len() == 0 {
        Seq::empty()
    } else {
        encode_bytes(bs.drop_last()) + encode_byte(bs.last())
    }
}

/// `file://` followed by the percent-encoded UTF-8 bytes of the path.
pub open spec fn spec_file_uri(path: Seq<char>) -> Seq<char> {
    "file://"@ + encode_bytes(vstd::utf8::encode_utf8(path))
}

fn hex_char(n: u8) -> (c: char)
    requires
        n < 16,
    ensures
        c == hex_digit(n),
{
    if n < 10 { (0x30 + n) as char } else { (0x41 + n - 10) as char }
}

pub fn file_uri(path: &str) -> (uri: String)
    ensures
        uri@ == spec_file_uri(path@),
{
    let bytes = path.as_bytes();
    let mut out: Vec<char> = Vec::new();
    out.push('f');
    out.push('i');
    out.push('l');
    out.push('e');
    out.push(':');
    out.push('/');
    out.push('/');
    proof { reveal_strlit("file://"); }
    let ghost prefix = out@;
    assert(prefix =~= "file://"@);
    let mut i: usize = 0;
    while i < bytes.len()
        invariant
            i <= bytes@.len(),
            out@ == prefix + encode_bytes(bytes@.take(i as int)),
        decreases bytes.len() - i,
    {
        let b = bytes[i];
        assert(bytes@.take(i + 1).drop_last() =~= bytes@.take(i as int));
        if (0x30 <= b && b <= 0x39) || (0x41 <= b && b <= 0x5A) || (0x61 <= b && b <= 0x7A)
            || b == 0x2F || b == 0x2D || b == 0x5F || b == 0x2E || b == 0x7E {
            out.push(b as char);
        } else {
            out.push('%');
            out.push(hex_char(b / 16));
            out.push(hex_char(b % 16));
        }
        i = i + 1;
    }
    assert(bytes@.take(i as int) =~= bytes@);
    chars_to_string(out.as_slice())
}

/// Value of a hex digit byte.
pub open spec fn hex_value(b: u8) -> Option<u8> {
    if 0x30 <= b && b <= 0x39 {
        Some((b - 0x30) as u8)
    } else if 0x41 <= b && b <= 0x46 {
        Some((b - 0x41 + 10) as u8)
    } else if 0x61 <= b && b <= 0x66 {
        Some((b - 0x61 + 10) as u8)
    } else {
        None
    }
}

/// What `u8::from_str_radix(.., 16)` makes of two bytes: two hex digits, or
/// `+` and one hex digit.
pub open spec fn hex_pair(a: u8, b: u8) -> Option<u8> {
    if a == 0x2B {
        hex_value(b)
    } else {
        match (hex_value(a), hex_value(b)) {
            (Some(x), Some(y)) => Some((x * 16 + y) as u8),
            _ => None,
        }
    }
}

/// Percent-decoding: `%` followed by at least two more bytes must be a hex
/// pair; a `%` near the end stays as it is.
pub open spec fn percent_decode(bs: Seq<u8>) -> Option<Seq<u8>>
    decreases bs.len(),
{
    if bs.len() == 0 {
        Some(Seq::empty())
    } else if bs[0] == 0x25 && 2 < bs.len() {
        match (hex_pair(bs[1], bs[2]), percent_decode(bs.skip(3))) {
            (Some(v), Some(rest)) => Some(seq![v] + rest),
            _ => None,
        }
    } else {
        match percent_decode(bs.drop_first()) {
            Some(rest) => Some(seq![bs[0]] + rest),
            None => None,
        }
    }
}

/// The path of a `file://` URI, if it decodes to UTF-8.
pub open spec fn spec_file_uri_to_path(uri: Seq<char>) -> Option<Seq<char>> {
    let bytes = vstd::utf8::encode_utf8(uri);
    let prefix = vstd::utf8::encode_utf8("file://"@);
    if bytes.len() >= prefix.len() && bytes.take(prefix.len() as int) == prefix {
        match percent_decode(bytes.skip(prefix.len() as int)) {
            Some(d) => if vstd::utf8::valid_utf8(d) { Some(vstd::utf8::decode_utf8(d)) } else { None },
            None => None,
        }
    } else {
        None
    }
}

fn hex_val(b: u8) -> (r: Option<u8>)
    ensures
        r == hex_value(b),
{
    if 0x30 <= b && b <= 0x39 {
        Some(b - 0x30)
    } else if 0x41 <= b && b <= 0x46 {
        Some(b - 0x41 + 10)
    } else if 0x61 <= b && b <= 0x66 {
        Some(b - 0x61 + 10)
    } else {
        None
    }
}

/// `String::from_utf8`, as chars.
#[verifier::external_body]
fn utf8_to_string(bytes: Vec<u8>) -> (r: Option<String>)
    ensures
        r is Some <==> vstd::utf8::valid_utf8(bytes@),
        r matches Some(s) ==> s@ == vstd::utf8::decode_utf8(bytes@),
{
    String::from_utf8(bytes).ok()
}

pub fn file_uri_to_path(uri: &str) -> (r: Option<String>)
    ensures
        match r {
            Some(p) => spec_file_uri_to_path(uri@) == Some(p@),
            None => spec_file_uri_to_path(uri@) is None,
        },
{
    let bytes = uri.as_bytes();
    let prefix = "file://".as_bytes();
    let plen = prefix.len();
    if bytes.len() < plen {
        return None;
    }
    let mut k: usize = 0;
    while k < plen
        invariant
            k <= plen == prefix@.len() <= bytes@.len(),
            bytes@ == vstd::utf8::encode_utf8(uri@),
            prefix@ == vstd::utf8::encode_utf8("file://"@),
            forall|m: int| 0 <= m < k ==> bytes@[m] == prefix@[m],
        decreases plen - k,
    {
        if bytes[k] != prefix[k] {
            assert(bytes@.take(plen as int)[k as int] != prefix@[k as int]);
            return None;
        }
        k = k + 1;
    }
    assert(bytes@.take(plen as int) =~= prefix@);
    let n = bytes.len();
    let mut decoded: Vec<u8> = Vec::new();
    let mut index = plen;
    let ghost enc = bytes@.skip(plen as int);
    assert(bytes@.skip(plen as int) =~= bytes@.skip(index as int));
    while index < n
        invariant
            plen <= index <= n == bytes@.len(),
            plen == prefix@.len(),
            bytes@.take(plen as int) == prefix@,
            bytes@ == vstd::utf8::encode_utf8(uri@),
            prefix@ == vstd::utf8::encode_utf8("file://"@),
            enc == bytes@.skip(plen as int),
            percent_decode(enc) == match percent_decode(bytes@.skip(index as int)) {
                Some(rest) => Some(decoded@ + rest),
                None => None::<Seq<u8>>,
            },
        decreases n - index,
    {
        let ghost t = bytes@.skip(index as int);
        if bytes[index] == 0x25 && n - index > 2 {
            assert(t[1] == bytes@[index + 1] && t[2] == bytes@[index + 2]);
            assert(t.skip(3) =~= bytes@.skip(index + 3));
            let a = bytes[index + 1];
            let b = bytes[index + 2];
            let v = if a == 0x2B {
                hex_val(b)
            } else {
                match (hex_val(a), hex_val(b)) {
                    (Some(x), Some(y)) => Some(x * 16 + y),
                    _ => None,
                }
            };
            match v {
                Some(v) => {
                    let ghost before = decoded@;
                    decoded.push(v);
                    assert(decoded@ =~= before + seq![v]);
                    proof {
                        match percent_decode(bytes@.skip(index + 3)) {
                            Some(rest) => { assert(before + (seq![v] + rest) =~= decoded@ + rest); },
                            None => {},
                        }
                    }
                },
                None => {
                    assert(v == hex_pair(a, b));
                    assert(percent_decode(t) is None);
                    return None;
                },
            }
            index = index + 3;
        } else {
            assert(t.drop_first() =~= bytes@.skip(index + 1));
            let ghost before = decoded@;
            decoded.push(bytes[index]);
            proof {
                match percent_decode(bytes@.skip(index + 1)) {
                    Some(rest) => { assert(before + (seq![t[0]] + rest) =~= decoded@ + rest); },
                    None => {},
                }
            }
            index = index + 1;
        }
    }
    assert(bytes@.skip(index as int) =~= Seq::<u8>::empty());
    assert(decoded@ + Seq::<u8>::empty() =~= decoded@);
    utf8_to_string(decoded)
}


proof fn lemma_encode_utf8_concat(a: Seq<char>, b: Seq<char>)
    ensures
        vstd::utf8::encode_utf8(a + b) == vstd::utf8::encode_utf8(a) + vstd::utf8::encode_utf8(b),
    decreases a.len(),
{
    if a.len() == 0 {
        assert(a + b =~= b);
        assert(vstd::utf8::encode_utf8(a) =~= Seq::<u8>::empty());
        assert(vstd::utf8::encode_utf8(a) + vstd::utf8::encode_utf8(b) =~= vstd::utf8::encode_utf8(b));
    } else {
        assert((a + b).drop_first() =~= a.drop_first() + b);
        assert((a + b)[0] == a[0]);
        lemma_encode_utf8_concat(a.drop_first(), b);
        let head = vstd::utf8::encode_scalar(a[0] as u32);
        assert(vstd::utf8::encode_utf8(a + b) == head + vstd::utf8::encode_utf8((a + b).drop_first()));
        assert(vstd::utf8::encode_utf8(a) == head + vstd::utf8::encode_utf8(a.drop_first()));
        assert(head + (vstd::utf8::encode_utf8(a.drop_first()) + vstd::utf8::encode_utf8(b)) =~= (head
            + vstd::utf8::encode_utf8(a.drop_first())) + vstd::utf8::encode_utf8(b));
    }
}

/// All chars below 0x80.
pub open spec fn all_ascii(cs: Seq<char>) -> bool {
    forall|i: int| 0 <= i < cs.len() ==> (#[trigger] cs[i] as u32) < 0x80
}

proof fn lemma_encode_utf8_ascii(cs: Seq<char>)
    requires
        all_ascii(cs),
    ensures
        vstd::utf8::encode_utf8(cs) == crate::chars::ascii_bytes(cs),
    decreases cs.len(),
{
    if cs.len() > 0 {
        let rest = cs.drop_first();
        assert(all_ascii(rest)) by {
            assert forall|i: int| 0 <= i < rest.len() implies (#[trigger] rest[i] as u32) < 0x80 by {
                assert(rest[i] == cs[i + 1]);
            }
        }
        lemma_encode_utf8_ascii(rest);
        let c = cs[0] as u32;
        assert(c < 0x80);
        assert((c & 0x7F) as u8 == c as u8) by (bit_vector)
            requires
                c < 0x80,
        ;
        assert(crate::chars::ascii_bytes(cs) =~= seq![c as u8] + crate::chars::ascii_bytes(rest));
    } else {
        assert(crate::chars::ascii_bytes(cs) =~= Seq::<u8>::empty());
    }
}

proof fn lemma_encode_bytes_first(b: u8, rest: Seq<u8>)
    ensures
        encode_bytes(seq![b] + rest) == encode_byte(b) + encode_bytes(rest),
    decreases rest.len(),
{
    let s = seq![b] + rest;
    if rest.len() == 0 {
        assert(s =~= seq![b]);
        assert(s.drop_last() =~= Seq::<u8>::empty());
        assert(encode_bytes(rest) =~= Seq::<char>::empty());
        assert(encode_bytes(Seq::<u8>::empty()) =~= Seq::<char>::empty());
        assert(encode_bytes(s) =~= Seq::<char>::empty() + encode_byte(b));
        assert(encode_byte(b) + encode_bytes(rest) =~= encode_byte(b));
    } else {
        assert(s.drop_last() =~= seq![b] + rest.drop_last());
        assert(s.last() == rest.last());
        lemma_encode_bytes_first(b, rest.drop_last());
        assert(encode_byte(b) + encode_bytes(rest) =~= encode_byte(b) + encode_bytes(rest.drop_last()) + encode_byte(
            rest.last(),
        ));
    }
}

proof fn lemma_encode_byte_ascii(b: u8)
    ensures
        all_ascii(encode_byte(b)),
{
    if !is_unreserved(b) {
        let e = encode_byte(b);
        assert(e[0] == '%');
        assert((hex_digit(b / 16) as u32) < 0x80);
        assert((hex_digit(b % 16) as u32) < 0x80);
    }
}

proof fn lemma_encode_bytes_ascii(bs: Seq<u8>)
    ensures
        all_ascii(encode_bytes(bs)),
    decreases bs.len(),
{
    if bs.len() > 0 {
        lemma_encode_bytes_ascii(bs.drop_last());
        lemma_encode_byte_ascii(bs.last());
        let a = encode_bytes(bs.drop_last());
        let e = encode_byte(bs.last());
        assert forall|i: int| 0 <= i < (a + e).len() implies (#[trigger] (a + e)[i] as u32) < 0x80 by {
            if i < a.len() {
                assert((a + e)[i] == a[i]);
            } else {
                assert((a + e)[i] == e[i - a.len()]);
            }
        }
    }
}

proof fn lemma_hex_round_trip(n: u8)
    requires
        n < 16,
    ensures
        hex_value((hex_digit(n) as u32) as u8) == Some(n),
        (hex_digit(n) as u32) as u8 != 0x2B,
{
}

proof fn lemma_decode_encoded(bs: Seq<u8>)
    ensures
        percent_decode(crate::chars::ascii_bytes(encode_bytes(bs))) == Some(bs),
    decreases bs.len(),
{
    if bs.len() == 0 {
        assert(encode_bytes(bs) =~= Seq::<char>::empty());
        assert(crate::chars::ascii_bytes(encode_bytes(bs)) =~= Seq::<u8>::empty());
    } else {
        let b = bs[0];
        let rest = bs.drop_first();
        assert(bs =~= seq![b] + rest);
        lemma_encode_bytes_first(b, rest);
        let e = encode_byte(b);
        let er = encode_bytes(rest);
        let bytes = crate::chars::ascii_bytes(encode_bytes(bs));
        assert(bytes =~= crate::chars::ascii_bytes(e) + crate::chars::ascii_bytes(er));
        lemma_decode_encoded(rest);
        if is_unreserved(b) {
            assert(crate::chars::ascii_bytes(e) =~= seq![b]);
            assert(bytes[0] == b);
            assert(bytes.drop_first() =~= crate::chars::ascii_bytes(er));
            assert(seq![b] + rest =~= bs);
        } else {
            let h1 = (hex_digit(b / 16) as u32) as u8;
            let h2 = (hex_digit(b % 16) as u32) as u8;
            assert(crate::chars::ascii_bytes(e) =~= seq![0x25u8, h1, h2]);
            lemma_hex_round_trip(b / 16);
            lemma_hex_round_trip(b % 16);
            assert(bytes[0] == 0x25u8);
            assert(bytes[1] == h1);
            assert(bytes[2] == h2);
            assert(hex_pair(h1, h2) == Some(b)) by {
                assert(((b / 16) * 16 + b % 16) as u8 == b);
            }
            assert(bytes.skip(3) =~= crate::chars::ascii_bytes(er));
            assert(seq![b] + rest =~= bs);
        }
    }
}

/// A path made into a `file://` URI comes back unchanged.
pub proof fn lemma_file_uri_round_trip(path: Seq<char>)
    ensures
        spec_file_uri_to_path(spec_file_uri(path)) == Some(path),
{
    let bs = vstd::utf8::encode_utf8(path);
    let e = encode_bytes(bs);
    let head = "file://"@;
    lemma_encode_utf8_concat(head, e);
    lemma_encode_bytes_ascii(bs);
    lemma_encode_utf8_ascii(e);
    let prefix = vstd::utf8::encode_utf8(head);
    let bytes = vstd::utf8::encode_utf8(spec_file_uri(path));
    assert(bytes == prefix + crate::chars::ascii_bytes(e));
    assert(bytes.take(prefix.len() as int) =~= prefix);
    assert(bytes.skip(prefix.len() as int) =~= crate::chars::ascii_bytes(e));
    lemma_decode_encoded(bs);
    vstd::utf8::encode_utf8_valid_utf8(path);
    vstd::utf8::encode_utf8_decode_utf8(path);
}

} // verus!
