//! The route table: which handler serves a request, by method and path.
use vstd::prelude::*;

verus! {

/// Request methods as far as the route table tells them apart.
#[derive(PartialEq, Eq, Structural, Clone, Copy, Debug)]
pub enum Method {
    Get,
    Post,
    Other,
}

/// The handler a request goes to.
#[derive(PartialEq, Eq, Structural, Clone, Copy, Debug)]
pub enum Handler {
    /// Forward to the control endpoint as it is.
    Passthrough,
    /// Fetch the next unit of work through the poller.
    InvocationNext,
    /// No route matched: log the method and path, then forward as it is.
    NotFoundPassthrough,
}

/// What follows the version segment in a "next work" path.
pub open spec fn next_suffix() -> Seq<char> {
    "/runtime/invocation/next"@
}

/// What follows the version segment in a per-invocation path, before the id.
pub open spec fn invocation_infix() -> Seq<char> {
    "/runtime/invocation/"@
}

pub open spec fn response_suffix() -> Seq<char> {
    "/response"@
}

pub open spec fn error_suffix() -> Seq<char> {
    "/error"@
}

/// Index of the first '/' in `p` at or after `i`, or the length of `p`.
pub open spec fn first_slash_from(p: Seq<char>, i: int) -> int
    decreases p.len() - i,
{
    if i >= p.len() {
        p.len() as int
    } else if p[i] == '/' {
        i
    } else {
        first_slash_from(p, i + 1)
    }
}

/// End of the version segment: the first segment of the path.
pub open spec fn version_end(p: Seq<char>) -> int {
    first_slash_from(p, 1)
}

/// The path starts with '/' and a nonempty version segment.
pub open spec fn has_version(p: Seq<char>) -> bool {
    p.len() > 0 && p[0] == '/' && version_end(p) > 1
}

/// `/{version}/runtime/invocation/next`
pub open spec fn is_next_path(p: Seq<char>) -> bool {
    has_version(p) && p.skip(version_end(p)) == next_suffix()
}

/// End of the id segment of a per-invocation path.
pub open spec fn id_end(p: Seq<char>) -> int {
    first_slash_from(p, version_end(p) + invocation_infix().len())
}

/// `/{version}/runtime/invocation/{id}` followed by `tail`, with a nonempty id.
pub open spec fn is_invocation_path(p: Seq<char>, tail: Seq<char>) -> bool {
    let v = version_end(p);
    let i = v + invocation_infix().len();
    &&& has_version(p)
    &&& i <= p.len()
    &&& p.subrange(v, i) == invocation_infix()
    &&& id_end(p) > i
    &&& p.skip(id_end(p)) == tail
}

/// The route table: GET `/` and the per-invocation POSTs of a response or an
/// error are forwarded; GET of next work goes to the poller; anything else is
/// forwarded after being logged.
pub open spec fn route_of(method: Method, p: Seq<char>) -> Handler {
    match method {
        Method::Get => if p == "/"@ {
            Handler::Passthrough
        } else if is_next_path(p) {
            Handler::InvocationNext
        } else {
            Handler::NotFoundPassthrough
        },
        Method::Post => if is_invocation_path(p, response_suffix()) || is_invocation_path(
            p,
            error_suffix(),
        ) {
            Handler::Passthrough
        } else {
            Handler::NotFoundPassthrough
        },
        Method::Other => Handler::NotFoundPassthrough,
    }
}

/// Whether `s` holds `lit` starting at character `at`.
fn holds_at(s: &str, at: usize, lit: &str) -> (r: bool)
    ensures
        r == (at + lit@.len() <= s@.len() && s@.subrange(at as int, at + lit@.len()) == lit@),
{
    let n = s.unicode_len();
    let m = lit.unicode_len();
    if at > n || m > n - at {
        return false;
    }
    let mut i: usize = 0;
    while i < m
        invariant
            i <= m,
            m == lit@.len(),
            n == s@.len(),
            at + m <= n,
            forall|j: int| 0 <= j < i ==> s@[at + j] == lit@[j],
        decreases m - i,
    {
        if s.get_char(at + i) != lit.get_char(i) {
            assert(s@.subrange(at as int, at + m)[i as int] != lit@[i as int]);
            return false;
        }
        i = i + 1;
    }
    assert(s@.subrange(at as int, at + m) =~= lit@);
    true
}

/// Whether `s` from character `at` on is exactly `lit`.
fn ends_with_at(s: &str, at: usize, lit: &str) -> (r: bool)
    requires
        at <= s@.len(),
    ensures
        r == (s@.skip(at as int) == lit@),
{
    let r = holds_at(s, at, lit) && s.unicode_len() - at == lit.unicode_len();
    proof {
        if r {
            assert(s@.skip(at as int) =~= s@.subrange(at as int, at + lit@.len()));
        }
        if s@.skip(at as int) == lit@ {
            assert(s@.skip(at as int) =~= s@.subrange(at as int, at + lit@.len()));
        }
    }
    r
}

fn first_slash(s: &str, from: usize) -> (r: usize)
    requires
        from <= s@.len(),
    ensures
        r == first_slash_from(s@, from as int),
        from <= r <= s@.len(),
{
    let n = s.unicode_len();
    let mut i = from;
    while i < n
        invariant
            from <= i <= n,
            n == s@.len(),
            first_slash_from(s@, i as int) == first_slash_from(s@, from as int),
        decreases n - i,
    {
        if s.get_char(i) == '/' {
            return i;
        }
        i = i + 1;
    }
    i
}

fn invocation_path_with(path: &str, v: usize, tail: &str) -> (r: bool)
    requires
        has_version(path@),
        v == version_end(path@),
    ensures
        r == is_invocation_path(path@, tail@),
{
    let infix = "/runtime/invocation/";
    let n = path.unicode_len();
    let m = infix.unicode_len();
    if v > n || m > n - v || !holds_at(path, v, infix) {
        return false;
    }
    let i = v + m;
    let e = first_slash(path, i);
    e > i && ends_with_at(path, e, tail)
}

/// Picks the handler for a request by its method and path.
pub fn route(method: Method, path: &str) -> (r: Handler)
    ensures
        r == route_of(method, path@),
{
    let n = path.unicode_len();
    let root = "/";
    proof {
        reveal_strlit("/");
    }
    let versioned = n > 0 && path.get_char(0) == '/';
    let v: usize = if versioned {
        first_slash(path, 1)
    } else {
        0
    };
    let has_version = versioned && v > 1;
    match method {
        Method::Get => {
            if ends_with_at(path, 0, root) {
                assert(path@.skip(0) =~= path@);
                Handler::Passthrough
            } else {
                assert(path@.skip(0) =~= path@);
                if has_version && ends_with_at(path, v, "/runtime/invocation/next") {
                    Handler::InvocationNext
                } else {
                    Handler::NotFoundPassthrough
                }
            }
        },
        Method::Post => {
            if has_version && (invocation_path_with(path, v, "/response")
                || invocation_path_with(path, v, "/error")) {
                Handler::Passthrough
            } else {
                Handler::NotFoundPassthrough
            }
        },
        Method::Other => Handler::NotFoundPassthrough,
    }
}

} // verus!
