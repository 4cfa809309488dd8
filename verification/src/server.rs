//! The request-routing decision of the example HTTP server: which status
//! line and page a raw request is answered with, and whether the reply is
//! deliberately delayed.

use vstd::prelude::*;
use vstd::string::*;

verus! {

/// Whether `prefix` is a prefix of `s`.
pub open spec fn starts_with(s: Seq<u8>, prefix: Seq<u8>) -> bool {
    prefix.len() <= s.len() && s.subrange(0, prefix.len() as int) == prefix
}

/// Byte-wise prefix test.
pub fn slice_starts_with(s: &[u8], prefix: &[u8]) -> (r: bool)
    ensures
        r == starts_with(s@, prefix@),
{
    let m = prefix.len();
    if m > s.len() {
        return false;
    }
    let mut i: usize = 0;
    while i < m
        invariant
            0 <= i <= m,
            m == prefix@.len(),
            m <= s@.len(),
            forall|j: int| 0 <= j < i ==> s@[j] == prefix@[j],
        decreases m - i,
    {
        if s[i] != prefix[i] {
            return false;
        }
        i = i + 1;
    }
    proof {
        assert(s@.subrange(0, m as int) =~= prefix@);
    }
    true
}

/// The request line selecting the plain greeting page.
pub open spec fn spec_root_request() -> Seq<u8> {
    "GET / HTTP/1.1\r\n".spec_bytes()
}

/// The request line selecting the greeting page after a deliberate delay.
pub open spec fn spec_sleep_request() -> Seq<u8> {
    "GET /sleep HTTP/1.1\r\n".spec_bytes()
}

/// Where a raw request is routed.
#[derive(Clone, Copy, PartialEq, Eq, Structural, Debug)]
pub enum Route {
    Hello,
    SlowHello,
    NotFound,
}

/// Routes a raw request by its request line: the greeting page for the
/// root, the same page after a delay for the sleep path, and the missing
/// page otherwise.
pub fn route(request: &[u8]) -> (r: Route)
    ensures
        (r is Hello) <==> starts_with(request@, spec_root_request()),
        (r is SlowHello) <==> (!starts_with(request@, spec_root_request()) && starts_with(
            request@,
            spec_sleep_request(),
        )),
        (r is NotFound) <==> (!starts_with(request@, spec_root_request()) && !starts_with(
            request@,
            spec_sleep_request(),
        )),
{
    if slice_starts_with(request, "GET / HTTP/1.1\r\n".as_bytes()) {
        Route::Hello
    } else if slice_starts_with(request, "GET /sleep HTTP/1.1\r\n".as_bytes()) {
        Route::SlowHello
    } else {
        Route::NotFound
    }
}

impl Route {
    /// The status line the route is answered with.
    pub fn status_line(&self) -> (s: &'static str)
        ensures
            s@ == match *self {
                Route::Hello => "HTTP/1.1 200 OK\r\n\r\n"@,
                Route::SlowHello => "HTTP/1.1 200 OK\r\n\r\n"@,
                Route::NotFound => "HTTP/1.1 404 NOT FOUND\r\n\r\n"@,
            },
    {
        match self {
            Route::Hello => "HTTP/1.1 200 OK\r\n\r\n",
            Route::SlowHello => "HTTP/1.1 200 OK\r\n\r\n",
            Route::NotFound => "HTTP/1.1 404 NOT FOUND\r\n\r\n",
        }
    }

    /// The page file the route serves.
    pub fn filename(&self) -> (s: &'static str)
        ensures
            s@ == match *self {
                Route::Hello => "example/server/hello.html"@,
                Route::SlowHello => "example/server/hello.html"@,
                Route::NotFound => "example/server/404.html"@,
            },
    {
        match self {
            Route::Hello => "example/server/hello.html",
            Route::SlowHello => "example/server/hello.html",
            Route::NotFound => "example/server/404.html",
        }
    }

    /// Whether the reply is deliberately delayed.
    pub fn is_slow(&self) -> (b: bool)
        ensures
            b == (*self is SlowHello),
    {
        match self {
            Route::SlowHello => true,
            _ => false,
        }
    }
}

} // verus!
