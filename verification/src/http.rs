//! Request dispatch and response bodies.
//!
//! The service has two routes: `GET /hello`, answered with a fixed greeting,
//! and `GET /fibonacci/{n}`, answered with the saturated Fibonacci value of
//! the path parameter. The dispatcher classifies a request by method and
//! path, validates the parameter by rejection, and produces the status code
//! and the exact JSON body; the embedding binary only moves bytes.

use vstd::prelude::*;
use crate::decimal::{dec_rep, dec_val, is_digit_seq, parse_u64, u64_to_string};
use crate::fib::{fibonacci, spec_fib_sat};

verus! {

/// The greeting response: one fixed text message.
pub struct HelloResponse {
    pub message: String,
}

/// The Fibonacci response: the requested index and the saturated value.
pub struct FibResponse {
    pub n: u64,
    pub result: u64,
}

/// A computed HTTP answer: a status code and a body, ready to be written
/// to the connection.
pub struct HttpResponse {
    pub status: u16,
    pub body: String,
}

/// The fixed greeting text.
pub open spec fn hello_message() -> Seq<char> {
    "Hello Dennis!!!"@
}

/// A one-field JSON object `{"message":"<msg>"}` around a message that
/// needs no escaping.
pub open spec fn json_message_obj(msg: Seq<char>) -> Seq<char> {
    "{\"message\":\""@ + msg + "\"}"@
}

/// The exact greeting body.
pub open spec fn hello_json() -> Seq<char> {
    "{\"message\":\"Hello Dennis!!!\"}"@
}

/// The greeting body composed from its pieces is exactly the fixed JSON
/// object, character for character.
pub proof fn lemma_hello_json()
    ensures
        json_message_obj(hello_message()) == hello_json(),
{
    reveal_strlit("{\"message\":\"");
    reveal_strlit("Hello Dennis!!!");
    reveal_strlit("\"}");
    reveal_strlit("{\"message\":\"Hello Dennis!!!\"}");
    assert(json_message_obj(hello_message()) =~= hello_json());
}

/// The JSON body `{"n":<n>,"result":<result>}` with both numbers in
/// canonical decimal.
pub open spec fn fib_json(n: nat, result: nat) -> Seq<char> {
    "{\"n\":"@ + dec_rep(n) + ",\"result\":"@ + dec_rep(result) + "}"@
}

/// The greeting handler: no input, the fixed message, no error case.
pub fn hello() -> (r: HelloResponse)
    ensures
        r.message@ == hello_message(),
{
    HelloResponse { message: String::from_str("Hello Dennis!!!") }
}

/// The Fibonacci handler: echoes the validated index and carries the
/// saturated Fibonacci value.
pub fn fib_response(n: u64) -> (r: FibResponse)
    ensures
        r.n == n,
        r.result == spec_fib_sat(n as nat),
{
    FibResponse { n, result: fibonacci(n) }
}

/// Renders the greeting response as its JSON body.
pub fn render_hello(r: &HelloResponse) -> (s: String)
    ensures
        s@ == json_message_obj(r.message@),
{
    let mut s = String::from_str("{\"message\":\"");
    s.append(r.message.as_str());
    s.append("\"}");
    proof {
        assert(s@ =~= json_message_obj(r.message@));
    }
    s
}

/// Renders the Fibonacci response as its JSON body.
pub fn render_fib(r: &FibResponse) -> (s: String)
    ensures
        s@ == fib_json(r.n as nat, r.result as nat),
{
    let mut s = String::from_str("{\"n\":");
    let ns = u64_to_string(r.n);
    s.append(ns.as_str());
    s.append(",\"result\":");
    let rs = u64_to_string(r.result);
    s.append(rs.as_str());
    s.append("}");
    proof {
        assert(s@ =~= fib_json(r.n as nat, r.result as nat));
    }
    s
}

/// Whether `p` is a prefix of `s`.
fn starts_with(s: &str, p: &str) -> (r: bool)
    ensures
        r <==> s@.len() >= p@.len() && s@.subrange(0, p@.len() as int) == p@,
{
    let sl = s.unicode_len();
    let pl = p.unicode_len();
    if sl < pl {
        return false;
    }
    let mut i: usize = 0;
    while i < pl
        invariant
            0 <= i <= pl,
            pl == p@.len(),
            sl == s@.len(),
            pl <= sl,
            forall|j: int| 0 <= j < i ==> s@[j] == p@[j],
        decreases pl - i,
    {
        if s.get_char(i) != p.get_char(i) {
            proof {
                assert(s@.subrange(0, pl as int)[i as int] == s@[i as int]);
            }
            return false;
        }
        i = i + 1;
    }
    proof {
        assert(s@.subrange(0, pl as int) =~= p@);
    }
    true
}

/// Whether two strings hold the same characters.
fn str_eq(a: &str, b: &str) -> (r: bool)
    ensures
        r <==> a@ == b@,
{
    if a.unicode_len() != b.unicode_len() {
        return false;
    }
    let r = starts_with(a, b);
    proof {
        assert(a@.subrange(0, a@.len() as int) =~= a@);
    }
    r
}

/// A request for the greeting route: `GET` on exactly `/hello`.
pub open spec fn is_hello_request(method: Seq<char>, path: Seq<char>) -> bool {
    method == "GET"@ && path == "/hello"@
}

/// A request for the Fibonacci route: `GET` on `/fibonacci/` followed by a
/// nonempty parameter.
pub open spec fn is_fib_request(method: Seq<char>, path: Seq<char>) -> bool {
    method == "GET"@ && path.len() > "/fibonacci/"@.len() && path.subrange(
        0,
        "/fibonacci/"@.len() as int,
    ) == "/fibonacci/"@
}

/// The parameter text of a Fibonacci route: what follows `/fibonacci/`.
pub open spec fn fib_param(path: Seq<char>) -> Seq<char> {
    path.subrange("/fibonacci/"@.len() as int, path.len() as int)
}

/// A well-formed parameter: a run of digits whose value fits in a `u64`.
pub open spec fn valid_fib_param(p: Seq<char>) -> bool {
    is_digit_seq(p) && dec_val(p) <= u64::MAX
}

/// Dispatches one request. The greeting route answers 200 with the fixed
/// body; the Fibonacci route validates its parameter by rejection and
/// answers 200 with the exact JSON body or 400 with an empty one; anything
/// else answers 404 with an empty body. No input panics the dispatcher.
pub fn handle_request(method: &str, path: &str) -> (r: HttpResponse)
    ensures
        is_hello_request(method@, path@) ==> r.status == 200 && r.body@ == hello_json(),
        is_fib_request(method@, path@) && valid_fib_param(fib_param(path@)) ==> r.status == 200
            && r.body@ == fib_json(
            dec_val(fib_param(path@)),
            spec_fib_sat(dec_val(fib_param(path@))),
        ),
        is_fib_request(method@, path@) && !valid_fib_param(fib_param(path@)) ==> r.status == 400
            && r.body@ == Seq::<char>::empty(),
        !is_hello_request(method@, path@) && !is_fib_request(method@, path@) ==> r.status == 404
            && r.body@ == Seq::<char>::empty(),
{
    proof {
        reveal_strlit("/hello");
        reveal_strlit("/fibonacci/");
    }
    if !str_eq(method, "GET") {
        return HttpResponse { status: 404, body: String::new() };
    }
    if str_eq(path, "/hello") {
        let body = render_hello(&hello());
        proof {
            lemma_hello_json();
        }
        return HttpResponse { status: 200, body };
    }
    if starts_with(path, "/fibonacci/") {
        let plen = "/fibonacci/".unicode_len();
        let len = path.unicode_len();
        if len > plen {
            let param = path.substring_char(plen, len);
            match parse_u64(param) {
                Some(n) => {
                    let body = render_fib(&fib_response(n));
                    return HttpResponse { status: 200, body };
                },
                None => {
                    return HttpResponse { status: 400, body: String::new() };
                },
            }
        }
    }
    HttpResponse { status: 404, body: String::new() }
}

/// The fixed bind address of the service.
pub fn listen_addr() -> (s: String)
    ensures
        s@ == "0.0.0.0:8080"@,
{
    String::from_str("0.0.0.0:8080")
}

} // verus!
