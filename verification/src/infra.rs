//! The health endpoint of the infrastructure server: routing an HTTP request
//! line to a fixed response.

use vstd::prelude::*;
use vstd::string::StrSliceExecFns;

use crate::text::{is_unicode_whitespace, is_whitespace_exec, str_eq, trim_start_ws};

verus! {

/// The body the health endpoint answers with.
pub const HEALTH_BODY: &'static str = "{\"status\":\"ok\"}";

/// The full response to a health check.
pub const HTTP_200_HEALTH: &'static str = "HTTP/1.1 200 OK\r\nContent-Type: application/json\r\nContent-Length: 15\r\nConnection: close\r\n\r\n{\"status\":\"ok\"}";

/// The response to anything else.
pub const HTTP_404: &'static str = "HTTP/1.1 404 Not Found\r\nContent-Type: text/plain\r\nContent-Length: 9\r\nConnection: close\r\n\r\nNot Found";

/// Number of leading characters of `s` that are not whitespace.
pub open spec fn token_len(s: Seq<char>) -> nat
    decreases s.len(),
{
    if s.len() > 0 && !is_unicode_whitespace(s[0]) {
        1 + token_len(s.drop_first())
    } else {
        0
    }
}

/// The text after the first whitespace-separated token of `s`.
pub open spec fn after_first_token(s: Seq<char>) -> Seq<char> {
    let a = trim_start_ws(s);
    a.skip(token_len(a) as int)
}

/// The first whitespace-separated token of `s`, or empty.
pub open spec fn first_token(s: Seq<char>) -> Seq<char> {
    let a = trim_start_ws(s);
    a.take(token_len(a) as int)
}

/// The second whitespace-separated token of a request line (the path), or
/// empty when there is none.
pub open spec fn request_path(line: Seq<char>) -> Seq<char> {
    first_token(after_first_token(line))
}

/// Index in `s` after the leading whitespace from position `from`.
fn skip_whitespace(s: &str, from: usize) -> (r: usize)
    requires
        from <= s@.len(),
    ensures
        from <= r <= s@.len(),
        s@.skip(r as int) == trim_start_ws(s@.skip(from as int)),
{
    let n = s.unicode_len();
    let mut i = from;
    while i < n && is_whitespace_exec(s.get_char(i))
        invariant
            n == s@.len(),
            from <= i <= n,
            trim_start_ws(s@.skip(i as int)) == trim_start_ws(s@.skip(from as int)),
        decreases n - i,
    {
        assert(s@.skip(i as int).drop_first() =~= s@.skip(i + 1));
        i = i + 1;
    }
    i
}

/// Index in `s` at the end of the token that starts at `from`.
fn skip_token(s: &str, from: usize) -> (r: usize)
    requires
        from <= s@.len(),
    ensures
        from <= r <= s@.len(),
        r - from == token_len(s@.skip(from as int)),
{
    let n = s.unicode_len();
    let mut i = from;
    while i < n && !is_whitespace_exec(s.get_char(i))
        invariant
            n == s@.len(),
            from <= i <= n,
            token_len(s@.skip(from as int)) == (i - from) + token_len(s@.skip(i as int)),
        decreases n - i,
    {
        assert(s@.skip(i as int).drop_first() =~= s@.skip(i + 1));
        i = i + 1;
    }
    i
}

/// The path of an HTTP request line: its second whitespace-separated token.
pub fn path_of(line: &str) -> (r: &str)
    ensures
        r@ == request_path(line@),
{
    let n = line.unicode_len();
    assert(line@.skip(0) =~= line@);
    let a = skip_whitespace(line, 0);
    let b = skip_token(line, a);
    proof {
        let ta = trim_start_ws(line@);
        assert(ta == line@.skip(a as int));
        assert(ta.skip(token_len(ta) as int) =~= line@.skip(b as int));
    }
    let c = skip_whitespace(line, b);
    let d = skip_token(line, c);
    let r = line.substring_char(c, d);
    proof {
        let tc = line@.skip(c as int);
        assert(r@ =~= tc.take(token_len(tc) as int));
    }
    r
}

/// The response for a fixed body: the health response for the health body,
/// not found otherwise.
pub fn http_200(body: &'static str) -> (r: &'static str)
    ensures
        r@ == (if body@ == HEALTH_BODY@ {
            HTTP_200_HEALTH@
        } else {
            HTTP_404@
        }),
{
    if str_eq(body, HEALTH_BODY) {
        HTTP_200_HEALTH
    } else {
        HTTP_404
    }
}

/// The response for a request line: the health response for `/health`,
/// not found for anything else.
pub fn route(request_line: &str) -> (r: &'static str)
    ensures
        r@ == (if request_path(request_line@) == "/health"@ {
            HTTP_200_HEALTH@
        } else {
            HTTP_404@
        }),
{
    let path = path_of(request_line);
    if str_eq(path, "/health") {
        http_200(HEALTH_BODY)
    } else {
        HTTP_404
    }
}

} // verus!
