//! The HTTP framing of the brain's server: where the body of a request begins, and the
//! bytes of a JSON response.

use vstd::prelude::*;
use vstd::string::StringSliceAdditionalSpecFns;

verus! {

/// `pat` occurs in `s` at offset `p`.
pub open spec fn occurs_at(s: Seq<u8>, pat: Seq<u8>, p: int) -> bool {
    &&& 0 <= p
    &&& p + pat.len() <= s.len()
    &&& s.subrange(p, p + pat.len()) == pat
}

/// `pat` occurs somewhere in `s`.
pub open spec fn occurs_in(s: Seq<u8>, pat: Seq<u8>) -> bool {
    exists|p: int| occurs_at(s, pat, p)
}

/// `p` is the first offset at which `pat` occurs in `s`.
pub open spec fn first_occurrence_at(s: Seq<u8>, pat: Seq<u8>, p: int) -> bool {
    &&& occurs_at(s, pat, p)
    &&& forall|q: int| 0 <= q < p ==> !occurs_at(s, pat, q)
}

/// The blank line "\r\n\r\n" that ends the headers of a request.
pub const CRLF_BLANK_LINE: [u8; 4] = [13, 10, 13, 10];

/// The bare blank line "\n\n", accepted when there is no "\r\n\r\n".
pub const LF_BLANK_LINE: [u8; 2] = [10, 10];

/// Whether `pat` occurs in `s` at offset `p`.
fn matches_at(s: &[u8], pat: &[u8], p: usize) -> (m: bool)
    requires
        p + pat@.len() <= s@.len(),
    ensures
        m == occurs_at(s@, pat@, p as int),
{
    let len = s.len();
    let mut k: usize = 0;
    while k < pat.len()
        invariant
            k <= pat@.len(),
            p + pat@.len() <= s@.len() == len,
            forall|j: int| 0 <= j < k ==> s@[p + j] == pat@[j],
        decreases pat@.len() - k,
    {
        if s[p + k] != pat[k] {
            assert(s@.subrange(p as int, p + pat@.len())[k as int] != pat@[k as int]);
            return false;
        }
        k = k + 1;
    }
    assert(s@.subrange(p as int, p + pat@.len()) =~= pat@);
    true
}

/// The first offset at which `pat` occurs in `s`, if it occurs.
fn find_first(s: &[u8], pat: &[u8]) -> (r: Option<usize>)
    ensures
        match r {
            Some(p) => first_occurrence_at(s@, pat@, p as int),
            None => !occurs_in(s@, pat@),
        },
{
    if pat.len() > s.len() {
        assert forall|q: int| !occurs_at(s@, pat@, q) by {}
        return None;
    }
    let last = s.len() - pat.len();
    let mut p: usize = 0;
    loop
        invariant
            last == s@.len() - pat@.len(),
            p <= last,
            forall|q: int| 0 <= q < p ==> !occurs_at(s@, pat@, q),
        decreases last - p,
    {
        if matches_at(s, pat, p) {
            return Some(p);
        }
        if p == last {
            assert forall|q: int| !occurs_at(s@, pat@, q) by {}
            return None;
        }
        p = p + 1;
    }
}

/// Where the body of an HTTP request begins: two bytes past the first "\r\n\r\n" (the
/// body then starts with the "\r\n" that trimming removes), else two bytes past the first
/// "\n\n", else 0.
pub fn request_body_start(req: &[u8]) -> (start: usize)
    ensures
        occurs_in(req@, CRLF_BLANK_LINE@) ==> first_occurrence_at(req@, CRLF_BLANK_LINE@, start - 2),
        !occurs_in(req@, CRLF_BLANK_LINE@) && occurs_in(req@, LF_BLANK_LINE@) ==> first_occurrence_at(
            req@,
            LF_BLANK_LINE@,
            start - 2,
        ),
        !occurs_in(req@, CRLF_BLANK_LINE@) && !occurs_in(req@, LF_BLANK_LINE@) ==> start == 0,
{
    let crlf = CRLF_BLANK_LINE.as_slice();
    let lf = LF_BLANK_LINE.as_slice();
    assert(crlf@.len() == 4 && lf@.len() == 2);
    let len = req.len();
    assert(req@.len() == len);
    match find_first(req, crlf) {
        Some(p) => p + 2,
        None => match find_first(req, lf) {
            Some(p) => p + 2,
            None => 0,
        },
    }
}

/// The decimal digits of `n` in ASCII, most significant first, without leading zeros.
pub open spec fn spec_decimal(n: nat) -> Seq<u8>
    decreases n,
{
    if n < 10 {
        seq![(48 + n) as u8]
    } else {
        spec_decimal(n / 10).push((48 + n % 10) as u8)
    }
}

/// Appends the decimal digits of `n` to `out`.
fn push_decimal(out: &mut Vec<u8>, n: usize)
    ensures
        final(out)@ == old(out)@ + spec_decimal(n as nat),
    decreases n,
{
    if n >= 10 {
        push_decimal(out, n / 10);
    }
    out.push((48 + n % 10) as u8);
    assert(out@ =~= old(out)@ + spec_decimal(n as nat));
}

/// Appends the bytes `bytes` to `out`.
fn push_all(out: &mut Vec<u8>, bytes: &[u8])
    ensures
        final(out)@ == old(out)@ + bytes@,
{
    let ghost start = out@;
    for k in 0..bytes.len()
        invariant
            out@ == start + bytes@.subrange(0, k as int),
    {
        out.push(bytes[k]);
        assert(out@ =~= start + bytes@.subrange(0, k + 1));
    }
    assert(bytes@.subrange(0, bytes@.len() as int) =~= bytes@);
}

/// The status line of a response: "200 OK" for status 200, "400 Bad Request" otherwise.
pub open spec fn spec_status_line(status: u16) -> Seq<u8> {
    if status == 200 {
        "HTTP/1.1 200 OK".spec_bytes()
    } else {
        "HTTP/1.1 400 Bad Request".spec_bytes()
    }
}

/// The bytes of a JSON response with body `body`: the status line, the content type, the
/// content length (the number of bytes of the body, in decimal), "Connection: close", a
/// blank line, and the body.
pub open spec fn spec_http_response(status: u16, body: Seq<u8>) -> Seq<u8> {
    spec_status_line(status) + "\r\nContent-Type: application/json\r\nContent-Length: ".spec_bytes()
        + spec_decimal(body.len()) + "\r\nConnection: close\r\n\r\n".spec_bytes() + body
}

/// The bytes of the JSON response with status `status` and body `body`.
pub fn http_response(status: u16, body: &[u8]) -> (response: Vec<u8>)
    ensures
        response@ == spec_http_response(status, body@),
{
    let mut out: Vec<u8> = Vec::new();
    let status_line = if status == 200 {
        "HTTP/1.1 200 OK"
    } else {
        "HTTP/1.1 400 Bad Request"
    };
    push_all(&mut out, status_line.as_bytes());
    push_all(&mut out, "\r\nContent-Type: application/json\r\nContent-Length: ".as_bytes());
    push_decimal(&mut out, body.len());
    push_all(&mut out, "\r\nConnection: close\r\n\r\n".as_bytes());
    push_all(&mut out, body);
    assert(out@ =~= spec_http_response(status, body@));
    out
}

} // verus!
