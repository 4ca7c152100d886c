//! The response side: status lines and the framing of a response as a status
//! line, one `Content-Length` header, a blank line and the body.
use vstd::prelude::*;
use crate::request::Route;

verus! {

/// `\r\n`
pub open spec fn crlf() -> Seq<u8> {
    seq![13u8, 10u8]
}

/// `HTTP/1.1 200 OK`
pub open spec fn ok_status_line() -> Seq<u8> {
    seq![72u8, 84u8, 84u8, 80u8, 47u8, 49u8, 46u8, 49u8, 32u8, 50u8, 48u8, 48u8, 32u8, 79u8, 75u8]
}

/// `HTTP/1.1 404 NOT FOUND`
pub open spec fn not_found_status_line() -> Seq<u8> {
    seq![
        72u8, 84u8, 84u8, 80u8, 47u8, 49u8, 46u8, 49u8, 32u8, 52u8, 48u8, 52u8, 32u8,
        78u8, 79u8, 84u8, 32u8, 70u8, 79u8, 85u8, 78u8, 68u8,
    ]
}

/// `Content-Length: `
pub open spec fn content_length_prefix() -> Seq<u8> {
    seq![
        67u8, 111u8, 110u8, 116u8, 101u8, 110u8, 116u8, 45u8,
        76u8, 101u8, 110u8, 103u8, 116u8, 104u8, 58u8, 32u8,
    ]
}

/// The status line sent for a route.
pub open spec fn status_line_of(route: Route) -> Seq<u8> {
    match route {
        Route::Root => ok_status_line(),
        Route::NotFound => not_found_status_line(),
    }
}

/// ASCII decimal digits of `n`, most significant first, with no leading zero.
pub open spec fn decimal(n: nat) -> Seq<u8>
    decreases n,
{
    if n < 10 {
        seq![(48 + n) as u8]
    } else {
        decimal(n / 10).push((48 + n % 10) as u8)
    }
}

/// The header line, without its line ending, announcing a body of `len` bytes.
pub open spec fn content_length_header(len: nat) -> Seq<u8> {
    content_length_prefix() + decimal(len)
}

/// A full response: status line, CRLF, the `Content-Length` header, a blank line, the body.
pub open spec fn frame(status_line: Seq<u8>, body: Seq<u8>) -> Seq<u8> {
    status_line + crlf() + content_length_header(body.len()) + crlf() + crlf() + body
}

/// The response sent for a route whose file holds `body`.
pub open spec fn response_of(route: Route, body: Seq<u8>) -> Seq<u8> {
    frame(status_line_of(route), body)
}

impl Route {
    /// The status line sent for this route, without its line ending.
    pub fn status_line(&self) -> (r: Vec<u8>)
        ensures
            r@ == status_line_of(*self),
    {
        match self {
            Route::Root => {
                let r = vec![72u8, 84u8, 84u8, 80u8, 47u8, 49u8, 46u8, 49u8, 32u8, 50u8, 48u8, 48u8, 32u8, 79u8, 75u8];
                assert(r@ =~= ok_status_line());
                r
            },
            Route::NotFound => {
                let r = vec![
                    72u8, 84u8, 84u8, 80u8, 47u8, 49u8, 46u8, 49u8, 32u8, 52u8, 48u8, 52u8, 32u8,
                    78u8, 79u8, 84u8, 32u8, 70u8, 79u8, 85u8, 78u8, 68u8,
                ];
                assert(r@ =~= not_found_status_line());
                r
            },
        }
    }
}

/// Appends `bytes` to `out`.
fn push_all(out: &mut Vec<u8>, bytes: &[u8])
    ensures
        final(out)@ == old(out)@ + bytes@,
{
    let mut i: usize = 0;
    while i < bytes.len()
        invariant
            i <= bytes@.len(),
            out@ == old(out)@ + bytes@.subrange(0, i as int),
        decreases bytes@.len() - i,
    {
        out.push(bytes[i]);
        i = i + 1;
        assert(out@ =~= old(out)@ + bytes@.subrange(0, i as int));
    }
    assert(bytes@.subrange(0, i as int) =~= bytes@);
}

/// Appends the decimal digits of `n` to `out`.
fn push_decimal(out: &mut Vec<u8>, n: usize)
    ensures
        final(out)@ == old(out)@ + decimal(n as nat),
    decreases n,
{
    if n < 10 {
        out.push(48u8 + n as u8);
        assert(out@ =~= old(out)@ + decimal(n as nat));
    } else {
        push_decimal(out, n / 10);
        out.push(48u8 + (n % 10) as u8);
        assert(out@ =~= old(out)@ + decimal(n as nat));
    }
}

/// Frames a response for `route` around `body`, the contents of the route's file.
/// The header announces exactly `body.len()` bytes.
pub fn build_response(route: Route, body: &[u8]) -> (r: Vec<u8>)
    ensures
        r@ == response_of(route, body@),
{
    let newline = vec![13u8, 10u8];
    assert(newline@ =~= crlf());
    let prefix = vec![
        67u8, 111u8, 110u8, 116u8, 101u8, 110u8, 116u8, 45u8,
        76u8, 101u8, 110u8, 103u8, 116u8, 104u8, 58u8, 32u8,
    ];
    assert(prefix@ =~= content_length_prefix());
    let mut r = route.status_line();
    push_all(&mut r, newline.as_slice());
    push_all(&mut r, prefix.as_slice());
    push_decimal(&mut r, body.len());
    push_all(&mut r, newline.as_slice());
    push_all(&mut r, newline.as_slice());
    push_all(&mut r, body);
    assert(r@ =~= response_of(route, body@));
    r
}

} // verus!
