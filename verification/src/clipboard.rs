//! Payload encoding for clipboard writes: RFC 4648 base64 and the OSC-52
//! terminal escape sequence that carries it.
use vstd::prelude::*;
use vstd::string::*;

verus! {

/// The base64 digit for a 6-bit value.
pub open spec fn b64_digit(v: int) -> char {
    if v < 26 {
        (65 + v) as char
    } else if v < 52 {
        (97 + (v - 26)) as char
    } else if v < 62 {
        (48 + (v - 52)) as char
    } else if v == 62 {
        '+'
    } else {
        '/'
    }
}

/// Standard RFC 4648 base64 with padding.
pub open spec fn base64_spec(d: Seq<u8>) -> Seq<char>
    decreases d.len(),
{
    if d.len() >= 3 {
        let (a, b, c) = (d[0] as int, d[1] as int, d[2] as int);
        seq![
            b64_digit(a / 4),
            b64_digit((a % 4) * 16 + b / 16),
            b64_digit((b % 16) * 4 + c / 64),
            b64_digit(c % 64),
        ] + base64_spec(d.skip(3))
    } else if d.len() == 2 {
        let (a, b) = (d[0] as int, d[1] as int);
        seq![b64_digit(a / 4), b64_digit((a % 4) * 16 + b / 16), b64_digit((b % 16) * 4), '=']
    } else if d.len() == 1 {
        let a = d[0] as int;
        seq![b64_digit(a / 4), b64_digit((a % 4) * 16), '=', '=']
    } else {
        seq![]
    }
}

fn digit(v: u8) -> (c: char)
    requires
        v < 64,
    ensures
        c == b64_digit(v as int),
{
    if v < 26 {
        (65u8 + v) as char
    } else if v < 52 {
        (97u8 + (v - 26)) as char
    } else if v < 62 {
        (48u8 + (v - 52)) as char
    } else if v == 62 {
        '+'
    } else {
        '/'
    }
}

/// Standard RFC 4648 base64 with padding.
pub fn base64(data: &[u8]) -> (out: String)
    ensures
        out@ == base64_spec(data@),
{
    let mut out = String::new();
    let n = data.len();
    let mut i: usize = 0;
    assert(data@.skip(0) == data@);
    while n - i >= 3
        invariant
            n == data@.len(),
            i <= n,
            out@ + base64_spec(data@.skip(i as int)) == base64_spec(data@),
        decreases n - i,
    {
        let (a, b, c) = (data[i], data[i + 1], data[i + 2]);
        proof {
            let rest = data@.skip(i as int);
            assert(rest.skip(3) == data@.skip(i + 3));
            assert(rest[0] == a && rest[1] == b && rest[2] == c);
        }
        out.push(digit(a / 4));
        out.push(digit((a % 4) * 16 + b / 16));
        out.push(digit((b % 16) * 4 + c / 64));
        out.push(digit(c % 64));
        i = i + 3;
    }
    let ghost rest = data@.skip(i as int);
    if n - i == 2 {
        let (a, b) = (data[i], data[i + 1]);
        assert(rest[0] == a && rest[1] == b);
        out.push(digit(a / 4));
        out.push(digit((a % 4) * 16 + b / 16));
        out.push(digit((b % 16) * 4));
        out.push('=');
    } else if n - i == 1 {
        let a = data[i];
        assert(rest[0] == a);
        out.push(digit(a / 4));
        out.push(digit((a % 4) * 16));
        out.push('=');
        out.push('=');
    }
    out
}

/// A soft practical ceiling for OSC-52 payloads (1 MiB of text).
pub const OSC52_MAX_BYTES: usize = 1048576;

/// The OSC-52 escape sequence (`ESC ] 52 ; c ; <base64> ESC \`) that asks the
/// terminal to put `text` on its clipboard; `None` for an empty or oversized text.
pub fn osc52_sequence(text: &str) -> (r: Option<String>)
    ensures
        r is None <==> (text.spec_bytes().len() == 0 || text.spec_bytes().len() > OSC52_MAX_BYTES),
        r is Some ==> r.unwrap()@ == "\x1b]52;c;"@ + base64_spec(text.spec_bytes()) + "\x1b\\"@,
{
    let bytes = text.as_bytes();
    if bytes.len() == 0 || bytes.len() > OSC52_MAX_BYTES {
        return None;
    }
    let mut buf = String::from_str("\x1b]52;c;");
    let enc = base64(bytes);
    buf.append(enc.as_str());
    buf.append("\x1b\\");
    Some(buf)
}

} // verus!
