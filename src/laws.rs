//! What holds of every request and every response.
use vstd::prelude::*;
use crate::request::{Route, is_root_request, root_request_line, route_of, file_name_of};
use crate::response::{
    crlf, ok_status_line, not_found_status_line, content_length_prefix, content_length_header,
    status_line_of, decimal, frame, response_of,
};

verus! {

/// The byte is an ASCII decimal digit.
pub open spec fn is_digit(b: u8) -> bool {
    48 <= b <= 57
}

/// The number that a sequence of ASCII decimal digits spells.
pub open spec fn digits_value(s: Seq<u8>) -> nat
    decreases s.len(),
{
    if s.len() == 0 {
        0
    } else {
        digits_value(s.drop_last()) * 10 + (s.last() - 48) as nat
    }
}

/// The sequence holds neither a carriage return nor a line feed, so it stays
/// within one line.
pub open spec fn single_line(s: Seq<u8>) -> bool {
    forall|i: int| 0 <= i < s.len() ==> s[i] != 13u8 && s[i] != 10u8
}

/// The digits of `decimal(n)` are non-empty, all decimal digits, and spell `n`.
pub proof fn lemma_decimal_spells(n: nat)
    ensures
        decimal(n).len() > 0,
        forall|i: int| 0 <= i < decimal(n).len() ==> is_digit(#[trigger] decimal(n)[i]),
        digits_value(decimal(n)) == n,
    decreases n,
{
    if n >= 10 {
        lemma_decimal_spells(n / 10);
        let d = decimal(n);
        assert(d.drop_last() =~= decimal(n / 10));
        assert(d.last() == (48 + n % 10) as u8);
        assert((d.last() - 48) as nat == n % 10);
        assert(n == (n / 10) * 10 + n % 10);
        assert(digits_value(d) == digits_value(decimal(n / 10)) * 10 + n % 10);
        assert forall|i: int| 0 <= i < d.len() implies is_digit(#[trigger] d[i]) by {
            if i < d.len() - 1 {
                assert(d[i] == decimal(n / 10)[i]);
            }
        }
    } else {
        let d = decimal(n);
        assert(d.drop_last() =~= Seq::<u8>::empty());
        assert(d.last() == (48 + n) as u8);
        assert(digits_value(d.drop_last()) == 0);
        assert(digits_value(d) == n);
    }
}

/// A response is its body preceded by everything else, so the body can be cut
/// off its end.
proof fn lemma_body_is_suffix(status_line: Seq<u8>, body: Seq<u8>)
    ensures
        frame(status_line, body).len() >= body.len(),
        frame(status_line, body).subrange(
            frame(status_line, body).len() - body.len(),
            frame(status_line, body).len() as int,
        ) == body,
{
    let f = frame(status_line, body);
    assert(f.subrange(f.len() - body.len(), f.len() as int) =~= body);
}

/// A request that begins with `GET / HTTP/1.1\r\n` is routed to the home page:
/// the response carries the success status line and ends with the home page's
/// contents, as read from `index.html`.
pub proof fn law_root_request_gets_home_page(request: Seq<u8>, body: Seq<u8>)
    requires
        request.len() >= root_request_line().len(),
        request.subrange(0, root_request_line().len() as int) == root_request_line(),
    ensures
        route_of(request) == Route::Root,
        file_name_of(route_of(request)) == "index.html"@,
        response_of(route_of(request), body) == frame(ok_status_line(), body),
        response_of(route_of(request), body).subrange(
            response_of(route_of(request), body).len() - body.len(),
            response_of(route_of(request), body).len() as int,
        ) == body,
{
    lemma_body_is_suffix(ok_status_line(), body);
}

/// Every other request, empty, short, malformed or of another method, path or
/// version, gets the not-found status line and the contents of `404.html`.
pub proof fn law_other_request_gets_not_found(request: Seq<u8>, body: Seq<u8>)
    requires
        !is_root_request(request),
    ensures
        route_of(request) == Route::NotFound,
        file_name_of(route_of(request)) == "404.html"@,
        response_of(route_of(request), body) == frame(not_found_status_line(), body),
        response_of(route_of(request), body).subrange(
            response_of(route_of(request), body).len() - body.len(),
            response_of(route_of(request), body).len() as int,
        ) == body,
{
    lemma_body_is_suffix(not_found_status_line(), body);
}

/// The `Content-Length` value is a run of decimal digits that spells the exact
/// byte length of the body following the blank line.
pub proof fn law_content_length_is_body_length(route: Route, body: Seq<u8>)
    ensures
        response_of(route, body) == status_line_of(route) + crlf() + content_length_prefix()
            + decimal(body.len()) + crlf() + crlf() + body,
        decimal(body.len()).len() > 0,
        forall|i: int|
            0 <= i < decimal(body.len()).len() ==> is_digit(#[trigger] decimal(body.len())[i]),
        digits_value(decimal(body.len())) == body.len(),
{
    lemma_decimal_spells(body.len());
    assert(response_of(route, body) =~= status_line_of(route) + crlf() + content_length_prefix()
        + decimal(body.len()) + crlf() + crlf() + body);
}

/// Between the status line and the blank line stands exactly one header line,
/// the `Content-Length` header: neither the status line nor that header holds a
/// line break.
pub proof fn law_content_length_is_the_only_header(route: Route, body: Seq<u8>)
    ensures
        response_of(route, body) == status_line_of(route) + crlf() + content_length_header(
            body.len(),
        ) + crlf() + crlf() + body,
        single_line(status_line_of(route)),
        single_line(content_length_header(body.len())),
        content_length_header(body.len()).subrange(0, content_length_prefix().len() as int)
            == content_length_prefix(),
{
    lemma_decimal_spells(body.len());
    let h = content_length_header(body.len());
    let d = decimal(body.len());
    let p = content_length_prefix();
    assert forall|i: int| 0 <= i < h.len() implies h[i] != 13u8 && h[i] != 10u8 by {
        if i >= p.len() {
            assert(h[i] == d[i - p.len()]);
            assert(is_digit(d[i - p.len()]));
        }
    }
    assert(h.subrange(0, p.len() as int) =~= p);
}

/// Identical requests get byte-identical responses: the response depends on the
/// request and the file's contents alone, and nothing carries over between
/// connections.
pub proof fn law_identical_requests_identical_responses(
    first: Seq<u8>,
    second: Seq<u8>,
    body: Seq<u8>,
)
    requires
        first == second,
    ensures
        route_of(first) == route_of(second),
        response_of(route_of(first), body) == response_of(route_of(second), body),
{
}

/// Only the first `root_request_line().len()` bytes decide the route: bytes
/// after them, such as those past the read buffer's capacity, change nothing.
pub proof fn law_only_leading_bytes_decide(request: Seq<u8>, rest: Seq<u8>)
    requires
        request.len() >= root_request_line().len(),
    ensures
        route_of(request + rest) == route_of(request),
{
    let n = root_request_line().len() as int;
    assert((request + rest).subrange(0, n) =~= request.subrange(0, n));
}

} // verus!
