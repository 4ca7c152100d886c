//! The request side: the fixed read buffer and the literal prefix match that
//! decides which page a connection is served.
use vstd::prelude::*;

verus! {

/// Number of bytes a connection's single read may fill.
pub const REQUEST_CAPACITY: usize = 1024;

/// The request line that selects the home page: `GET / HTTP/1.1\r\n`.
pub open spec fn root_request_line() -> Seq<u8> {
    seq![71u8, 69u8, 84u8, 32u8, 47u8, 32u8, 72u8, 84u8, 84u8, 80u8, 47u8, 49u8, 46u8, 49u8, 13u8, 10u8]
}

/// Which of the two pages a request is served.
#[derive(Clone, Copy, Debug, PartialEq, Eq, Structural)]
pub enum Route {
    /// The request begins with the root request line.
    Root,
    /// Anything else: another method, path, version or line ending, or too few bytes.
    NotFound,
}

/// The request's leading bytes are exactly the root request line.
pub open spec fn is_root_request(request: Seq<u8>) -> bool {
    &&& request.len() >= root_request_line().len()
    &&& request.subrange(0, root_request_line().len() as int) == root_request_line()
}

/// The page a request is served.
pub open spec fn route_of(request: Seq<u8>) -> Route {
    if is_root_request(request) {
        Route::Root
    } else {
        Route::NotFound
    }
}

/// The root request line as bytes.
fn root_request_line_bytes() -> (r: Vec<u8>)
    ensures
        r@ == root_request_line(),
{
    let r = vec![71u8, 69u8, 84u8, 32u8, 47u8, 32u8, 72u8, 84u8, 84u8, 80u8, 47u8, 49u8, 46u8, 49u8, 13u8, 10u8];
    assert(r@ =~= root_request_line());
    r
}

/// A fresh read buffer: `REQUEST_CAPACITY` zero bytes. Bytes that a read does not
/// fill stay zero and take part in classification.
pub fn new_request_buffer() -> (r: Vec<u8>)
    ensures
        r@.len() == REQUEST_CAPACITY,
        forall|i: int| 0 <= i < r@.len() ==> r@[i] == 0,
{
    let mut r: Vec<u8> = Vec::new();
    while r.len() < REQUEST_CAPACITY
        invariant
            r@.len() <= REQUEST_CAPACITY,
            forall|i: int| 0 <= i < r@.len() ==> r@[i] == 0,
        decreases REQUEST_CAPACITY - r@.len(),
    {
        r.push(0u8);
    }
    r
}

/// Decides the page for a request buffer by a byte-for-byte comparison of its
/// leading bytes with the root request line. Nothing is parsed.
pub fn classify(buffer: &[u8]) -> (r: Route)
    ensures
        r == route_of(buffer@),
{
    let line = root_request_line_bytes();
    if buffer.len() < line.len() {
        return Route::NotFound;
    }
    let mut i: usize = 0;
    while i < line.len()
        invariant
            line@ == root_request_line(),
            i <= line@.len() <= buffer@.len(),
            forall|j: int| 0 <= j < i ==> buffer@[j] == line@[j],
        decreases line@.len() - i,
    {
        if buffer[i] != line[i] {
            assert(buffer@.subrange(0, line@.len() as int)[i as int] != line@[i as int]);
            return Route::NotFound;
        }
        i = i + 1;
    }
    assert(buffer@.subrange(0, line@.len() as int) =~= root_request_line());
    Route::Root
}

impl Route {
    /// Name of the file whose contents are served for this route.
    pub fn file_name(&self) -> (r: &'static str)
        ensures
            r@ == file_name_of(*self),
    {
        match self {
            Route::Root => "index.html",
            Route::NotFound => "404.html",
        }
    }
}

/// The file served for each route.
pub open spec fn file_name_of(route: Route) -> Seq<char> {
    match route {
        Route::Root => "index.html"@,
        Route::NotFound => "404.html"@,
    }
}

} // verus!
