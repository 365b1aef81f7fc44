//! `file://` URIs <-> paths, with minimal percent-encoding of the path's UTF-8 bytes.
use vstd::prelude::*;
use vstd::utf8::*;
use vstd::string::*;

use crate::text::utf8_to_string;

verus! {

/// RFC 3986 unreserved bytes, plus '/' which stays a path separator.
pub open spec fn is_unreserved(b: u8) -> bool {
    (48 <= b <= 57) || (65 <= b <= 90) || (97 <= b <= 122) || b == 45 || b == 46 || b == 95
        || b == 126 || b == 47
}

/// Upper-case hex digit for a nibble.
pub open spec fn hex_upper(v: int) -> u8 {
    if v < 10 { (48 + v) as u8 } else { (55 + v) as u8 }
}

/// One byte as it appears in a URI.
pub open spec fn esc_byte(b: u8) -> Seq<u8> {
    if is_unreserved(b) {
        seq![b]
    } else {
        seq![37u8, hex_upper(b as int / 16), hex_upper(b as int % 16)]
    }
}

/// The percent-encoding of a byte string.
pub open spec fn esc(bs: Seq<u8>) -> Seq<u8>
    decreases bs.len(),
{
    if bs.len() == 0 {
        seq![]
    } else {
        esc_byte(bs[0]) + esc(bs.drop_first())
    }
}

/// ASCII bytes read as characters.
pub open spec fn ascii_chars(bs: Seq<u8>) -> Seq<char> {
    bs.map_values(|b: u8| b as char)
}

/// The URI `path_to_uri` produces for a path.
pub open spec fn uri_of(p: Seq<char>) -> Seq<char> {
    "file://"@ + ascii_chars(esc(encode_utf8(p)))
}

/// Value of an ASCII hex digit.
pub open spec fn hex_val(b: u8) -> Option<u8> {
    if 48 <= b <= 57 {
        Some((b - 48) as u8)
    } else if 97 <= b <= 102 {
        Some((b - 87) as u8)
    } else if 65 <= b <= 70 {
        Some((b - 55) as u8)
    } else {
        None
    }
}

/// Base-16 value of a two-byte text (an optional leading '+' is accepted).
pub open spec fn hex_pair(b1: u8, b2: u8) -> Option<u8> {
    if b1 == 43 {
        hex_val(b2)
    } else {
        match (hex_val(b1), hex_val(b2)) {
            (Some(h), Some(l)) => Some((h * 16 + l) as u8),
            _ => None,
        }
    }
}

pub open spec fn prepend(p: Seq<u8>, o: Option<Seq<u8>>) -> Option<Seq<u8>> {
    match o {
        Some(t) => Some(p + t),
        None => None,
    }
}

/// Percent-decoding of URI bytes: `None` when an escape's two bytes are not UTF-8.
pub open spec fn pct_decode(bs: Seq<u8>) -> Option<Seq<u8>>
    decreases bs.len(),
{
    if bs.len() == 0 {
        Some(seq![])
    } else if bs[0] == 37 && bs.len() >= 3 {
        if !valid_utf8(seq![bs[1], bs[2]]) {
            None
        } else {
            match hex_pair(bs[1], bs[2]) {
                Some(v) => prepend(seq![v], pct_decode(bs.skip(3))),
                None => prepend(seq![bs[0]], pct_decode(bs.skip(1))),
            }
        }
    } else {
        prepend(seq![bs[0]], pct_decode(bs.skip(1)))
    }
}

/// The bytes of "file://".
pub open spec fn file_prefix() -> Seq<u8> {
    seq![102u8, 105u8, 108u8, 101u8, 58u8, 47u8, 47u8]
}

/// The path `uri_to_path` reads out of URI bytes.
pub open spec fn path_of_uri(ub: Seq<u8>) -> Option<Seq<char>> {
    if ub.len() >= 7 && ub.take(7) == file_prefix() {
        match pct_decode(ub.skip(7)) {
            Some(bs) => if valid_utf8(bs) { Some(decode_utf8(bs)) } else { None },
            None => None,
        }
    } else {
        None
    }
}

proof fn lemma_esc_push(a: Seq<u8>, b: u8)
    ensures
        esc(a.push(b)) == esc(a) + esc_byte(b),
    decreases a.len(),
{
    if a.len() == 0 {
        assert(a.push(b).drop_first() =~= Seq::<u8>::empty());
        assert(esc(a.push(b)) =~= esc_byte(b) + esc(Seq::<u8>::empty()));
        assert(esc(a) + esc_byte(b) =~= esc_byte(b));
    } else {
        assert(a.push(b).drop_first() =~= a.drop_first().push(b));
        lemma_esc_push(a.drop_first(), b);
        assert(esc(a.push(b)) == esc_byte(a[0]) + esc(a.drop_first().push(b)));
        assert(esc(a.push(b)) =~= esc(a) + esc_byte(b));
    }
}

proof fn lemma_esc_ascii(bs: Seq<u8>)
    ensures
        forall|i: int| 0 <= i < esc(bs).len() ==> esc(bs)[i] < 128,
    decreases bs.len(),
{
    if bs.len() > 0 {
        lemma_esc_ascii(bs.drop_first());
        let e = esc_byte(bs[0]);
        assert forall|i: int| 0 <= i < e.len() implies e[i] < 128 by {
            if !is_unreserved(bs[0]) {
                assert(bs[0] as int / 16 < 16);
            }
        }
        let r = esc(bs.drop_first());
        assert forall|i: int| 0 <= i < esc(bs).len() implies esc(bs)[i] < 128 by {
            if i >= e.len() {
                assert(esc(bs)[i] == r[i - e.len()]);
            } else {
                assert(esc(bs)[i] == e[i]);
            }
        }
    }
}

fn hex_digit(v: u8) -> (c: char)
    requires
        v < 16,
    ensures
        c == hex_upper(v as int) as char,
{
    if v < 10 {
        (48u8 + v) as char
    } else {
        (55u8 + v) as char
    }
}

/// Converts a filesystem path to a `file://` URI, percent-encoding every byte
/// outside the unreserved set (and '/').
pub fn path_to_uri(path: &str) -> (s: String)
    ensures
        s@ == uri_of(path@),
{
    let bytes = path.as_bytes();
    let mut s = String::from_str("file://");
    let n = bytes.len();
    for i in 0..n
        invariant
            n == bytes@.len(),
            bytes@ == encode_utf8(path@),
            s@ == "file://"@ + ascii_chars(esc(bytes@.take(i as int))),
    {
        let b = bytes[i];
        let ghost prev = bytes@.take(i as int);
        proof {
            assert(bytes@.take(i + 1) == prev.push(b));
            lemma_esc_push(prev, b);
        }
        if (48 <= b && b <= 57) || (65 <= b && b <= 90) || (97 <= b && b <= 122) || b == 45 || b
            == 46 || b == 95 || b == 126 || b == 47 {
            s.push(b as char);
        } else {
            s.push('%');
            s.push(hex_digit(b / 16));
            s.push(hex_digit(b % 16));
        }
        proof {
            assert(ascii_chars(esc(prev) + esc_byte(b)) =~= ascii_chars(esc(prev)) + ascii_chars(esc_byte(b)));
        }
    }
    proof {
        assert(bytes@.take(n as int) == bytes@);
    }
    s
}

fn hex_value(b: u8) -> (r: Option<u8>)
    ensures
        r == hex_val(b),
{
    if 48 <= b && b <= 57 {
        Some(b - 48)
    } else if 97 <= b && b <= 102 {
        Some(b - 87)
    } else if 65 <= b && b <= 70 {
        Some(b - 55)
    } else {
        None
    }
}

fn hex_pair_value(b1: u8, b2: u8) -> (r: Option<u8>)
    ensures
        r == hex_pair(b1, b2),
{
    if b1 == 43 {
        hex_value(b2)
    } else {
        match (hex_value(b1), hex_value(b2)) {
            (Some(h), Some(l)) => Some(h * 16 + l),
            _ => None,
        }
    }
}

/// Parses a `file://` URI back into a path, decoding percent-escapes.
/// `None` when the prefix is missing or the decoded bytes are not UTF-8.
pub fn uri_to_path(uri: &str) -> (r: Option<String>)
    ensures
        r is Some <==> path_of_uri(uri.spec_bytes()) is Some,
        r is Some ==> r.unwrap()@ == path_of_uri(uri.spec_bytes()).unwrap(),
{
    let bytes = uri.as_bytes();
    let n = bytes.len();
    if n < 7 || bytes[0] != 102 || bytes[1] != 105 || bytes[2] != 108 || bytes[3] != 101
        || bytes[4] != 58 || bytes[5] != 47 || bytes[6] != 47 {
        proof {
            if n >= 7 {
                assert(bytes@.take(7)[0] == bytes@[0]);
                assert(bytes@.take(7)[1] == bytes@[1]);
                assert(bytes@.take(7)[2] == bytes@[2]);
                assert(bytes@.take(7)[3] == bytes@[3]);
                assert(bytes@.take(7)[4] == bytes@[4]);
                assert(bytes@.take(7)[5] == bytes@[5]);
                assert(bytes@.take(7)[6] == bytes@[6]);
            }
        }
        return None;
    }
    assert(bytes@.take(7) =~= file_prefix());
    let ghost rest = bytes@.skip(7);
    let mut out: Vec<u8> = Vec::new();
    let mut i: usize = 7;
    while i < n
        invariant
            n == bytes@.len(),
            7 <= i <= n,
            rest == bytes@.skip(7),
            bytes@ == uri.spec_bytes(),
            bytes@.take(7) == file_prefix(),
            pct_decode(rest) == prepend(out@, pct_decode(bytes@.skip(i as int))),
        decreases n - i,
    {
        let ghost cur = bytes@.skip(i as int);
        assert(cur.len() == n - i && cur[0] == bytes@[i as int]);
        if bytes[i] == 37 && n - i >= 3 {
            assert(cur[1] == bytes@[i + 1] && cur[2] == bytes@[i + 2]);
            let pair = vec![bytes[i + 1], bytes[i + 2]];
            assert(pair@ == seq![cur[1], cur[2]]);
            match utf8_to_string(pair) {
                None => {
                    assert(pct_decode(cur) is None);
                    return None;
                },
                Some(_) => {},
            }
            match hex_pair_value(bytes[i + 1], bytes[i + 2]) {
                Some(v) => {
                    proof {
                        assert(cur.skip(3) == bytes@.skip(i + 3));
                        assert(out@.push(v) == out@ + seq![v]);
                    }
                    out.push(v);
                    i = i + 3;
                    continue ;
                },
                None => {},
            }
        }
        proof {
            assert(cur.skip(1) == bytes@.skip(i + 1));
            assert(out@.push(bytes@[i as int]) == out@ + seq![cur[0]]);
        }
        out.push(bytes[i]);
        i = i + 1;
    }
    proof {
        assert(bytes@.skip(i as int) =~= Seq::<u8>::empty());
        assert(out@ + Seq::<u8>::empty() == out@);
    }
    utf8_to_string(out)
}

// ----- the round-trip law -----

proof fn lemma_decode_esc(bs: Seq<u8>)
    ensures
        pct_decode(esc(bs)) == Some(bs),
    decreases bs.len(),
{
    if bs.len() > 0 {
        let b = bs[0];
        let tail = bs.drop_first();
        lemma_decode_esc(tail);
        let e = esc(bs);
        assert(e == esc_byte(b) + esc(tail));
        if is_unreserved(b) {
            assert(e[0] == b);
            assert(e.skip(1) =~= esc(tail));
            assert(seq![b] + tail =~= bs);
        } else {
            let h = hex_upper(b as int / 16);
            let l = hex_upper(b as int % 16);
            assert(e[0] == 37u8 && e[1] == h && e[2] == l);
            assert(e.skip(3) =~= esc(tail));
            let cs = seq![h as char, l as char];
            assert(is_ascii_chars(cs));
            is_ascii_chars_encode_utf8(cs);
            assert(encode_utf8(cs) =~= seq![h, l]);
            encode_utf8_valid_utf8(cs);
            assert(hex_pair(h, l) == Some(b));
            assert(seq![b] + tail =~= bs);
        }
    }
}

/// Reading back the URI of a path gives the path itself.
pub proof fn law_uri_round_trip(p: Seq<char>)
    ensures
        path_of_uri(encode_utf8(uri_of(p))) == Some(p),
{
    let bs = encode_utf8(p);
    let e = esc(bs);
    lemma_esc_ascii(bs);
    reveal_strlit("file://");
    let u = uri_of(p);
    assert(is_ascii_chars(u)) by {
        assert forall|i: int| 0 <= i < u.len() implies '\0' <= #[trigger] u[i] <= '\u{7f}' by {
            if i >= 7 {
                assert(u[i] == e[i - 7] as char);
            }
        }
    }
    is_ascii_chars_encode_utf8(u);
    let ub = encode_utf8(u);
    assert(ub.take(7) =~= file_prefix());
    assert(ub.skip(7) =~= e);
    lemma_decode_esc(bs);
    encode_utf8_valid_utf8(p);
    encode_utf8_decode_utf8(p);
}

} // verus!
