//! The server side around the pool: assembling the listen address,
//! recognising a calculation request in a raw payload, and rendering the
//! fixed HTTP responses. Listening and reading connections is the caller's
//! concern; everything here maps plain text to plain text.

use vstd::prelude::*;

verus! {

use vstd::string::{StrSliceExecFns, StringExecFns};
use crate::calc::{operand_tokens, parsed_operator, Calculation};
use crate::config::ServerConfig;
use crate::pool::{JobAction, WorkerPool, WORKER_POOL_MAX_SIZE, WORKER_POOL_MIN_SIZE};
use crate::text::{dec_digits, push_dec, starts_with_chars, starts_with_text, trim_spaces, trimmed};

/// Error returned when the server cannot be set up or serve.
#[derive(Debug)]
pub struct ServerError {
    pub msg: String,
}

impl ServerError {
    pub fn new(msg: String) -> (e: ServerError)
        ensures
            e.msg@ == msg@,
    {
        ServerError { msg }
    }
}

/// The service: a listen address and the worker pool that runs one job per
/// accepted connection. Accepting connections is the driver's concern.
pub struct Server<A: JobAction> {
    pub addr: String,
    pub pool: WorkerPool<A>,
}

impl<A: JobAction> Server<A> {
    /// Assemble the server: build the pool from the validated
    /// configuration and join host and port into the listen address.
    pub fn new(cfg: ServerConfig) -> (r: Result<Server<A>, ServerError>)
        ensures
            r is Ok <==> WORKER_POOL_MIN_SIZE <= cfg.pool_size <= WORKER_POOL_MAX_SIZE,
            r matches Ok(s) ==> {
                &&& s.addr@ == cfg.host@ + ":"@ + cfg.port@
                &&& s.pool.wf()
                &&& s.pool.open
                &&& s.pool.workers@.len() == cfg.pool_size
                &&& s.pool.queue@.len() == 0
                &&& s.pool.submitted@ == Seq::<u128>::empty()
                &&& s.pool.dispatched@ == Seq::<u128>::empty()
            },
    {
        let pool = match WorkerPool::<A>::new(cfg.pool_size) {
            Ok(p) => p,
            Err(e) => {
                return Err(ServerError::new(e.msg));
            },
        };
        let mut addr = String::new();
        addr.append(cfg.host.as_str());
        addr.append(":");
        addr.append(cfg.port.as_str());
        proof {
            assert(addr@ =~= cfg.host@ + ":"@ + cfg.port@);
        }
        Ok(Server { addr, pool })
    }
}

/// `p` occurs in `s` starting at `i`.
pub open spec fn occurs_at(s: Seq<char>, p: Seq<char>, i: int) -> bool {
    0 <= i && i + p.len() <= s.len() && s.subrange(i, i + p.len()) == p
}

/// `p` occurs somewhere in `s`.
pub open spec fn contains_text(s: Seq<char>, p: Seq<char>) -> bool {
    exists|i: int| occurs_at(s, p, i)
}

/// `s` splits into a prefix, the tag `operator=`, the operator text `a`,
/// the tag `&operands=`, and the operand text `b` running to the end.
pub open spec fn calc_request_form(s: Seq<char>, pre: Seq<char>, a: Seq<char>, b: Seq<char>) -> bool {
    s == pre + "operator="@ + a + "&operands="@ + b
}

/// Some such split of `s` exists.
pub open spec fn has_calc_form(s: Seq<char>) -> bool {
    exists|pre: Seq<char>, a: Seq<char>, b: Seq<char>| calc_request_form(s, pre, a, b)
}

/// Relies on `regex::Regex::captures` with the fixed pattern
/// `(?s)operator=(.*)&operands=(.*)` (built by `regex::Regex::new`, which
/// cannot fail on this valid pattern): a match splits the haystack into a
/// prefix, the literal `operator=`, the first capture, the literal
/// `&operands=`, and the second capture, which — both repetitions being
/// greedy — runs to the end of the haystack and contains no further
/// `&operands=`; and a match is found whenever such a split exists.
#[verifier::external_body]
fn capture_operator_operands(s: &str) -> (r: Option<(String, String)>)
    ensures
        r matches Some(c) ==> exists|pre: Seq<char>|
            calc_request_form(s@, pre, c.0@, c.1@) && !contains_text(c.1@, "&operands="@),
        has_calc_form(s@) ==> r is Some,
{
    let re = regex::Regex::new("(?s)operator=(.*)&operands=(.*)").unwrap();
    match re.captures(s) {
        Some(c) => Some((
            c.get(1).map_or("", |m| m.as_str()).to_string(),
            c.get(2).map_or("", |m| m.as_str()).to_string(),
        )),
        None => None,
    }
}

/// What a raw payload asks the server to do: answer with the fixed bad
/// request line, or evaluate a recognised calculation.
pub enum ResponsePlan {
    BadRequest,
    Calc(Calculation),
}

/// Decide what to answer to a raw request payload. A payload that is not a
/// `POST / HTTP/1.1` request, carries no `operator=`/`&operands=` pair, or
/// names an unknown operator is answered with the bad request line (the
/// worker must not crash on a malformed payload); otherwise the recognised
/// calculation is handed back for evaluation.
pub fn plan_response(req: &str) -> (r: ResponsePlan)
    ensures
        !starts_with_text(req@, "POST / HTTP/1.1"@) ==> r is BadRequest,
        starts_with_text(req@, "POST / HTTP/1.1"@) && !has_calc_form(trimmed(req@))
            ==> r is BadRequest,
        r matches ResponsePlan::Calc(c) ==> {
            &&& starts_with_text(req@, "POST / HTTP/1.1"@)
            &&& exists|pre: Seq<char>, a: Seq<char>, b: Seq<char>| {
                &&& #[trigger] calc_request_form(trimmed(req@), pre, a, b)
                &&& parsed_operator(trimmed(a)) == Some(c.operator)
                &&& c.operands.deep_view() == operand_tokens(b)
            }
        },
        r is BadRequest ==> {
            ||| !starts_with_text(req@, "POST / HTTP/1.1"@)
            ||| !has_calc_form(trimmed(req@))
            ||| exists|pre: Seq<char>, a: Seq<char>, b: Seq<char>|
                #[trigger] calc_request_form(trimmed(req@), pre, a, b)
                    && parsed_operator(trimmed(a)) is None
        },
{
    if !starts_with_chars(req, "POST / HTTP/1.1") {
        return ResponsePlan::BadRequest;
    }
    let t = trim_spaces(req);
    match capture_operator_operands(t) {
        None => ResponsePlan::BadRequest,
        Some((op, ops)) => {
            match Calculation::parse(op.as_str(), ops.as_str()) {
                Ok(c) => {
                    proof {
                        let pre = choose|pre: Seq<char>|
                            calc_request_form(t@, pre, op@, ops@)
                                && !contains_text(ops@, "&operands="@);
                        assert(c.operands.deep_view() =~= operand_tokens(ops@));
                        assert(calc_request_form(trimmed(req@), pre, op@, ops@)
                            && parsed_operator(trimmed(op@)) == Some(c.operator)
                            && c.operands.deep_view() == operand_tokens(ops@));
                    }
                    ResponsePlan::Calc(c)
                },
                Err(_) => {
                    proof {
                        let pre = choose|pre: Seq<char>|
                            calc_request_form(t@, pre, op@, ops@)
                                && !contains_text(ops@, "&operands="@);
                        assert(calc_request_form(trimmed(req@), pre, op@, ops@)
                            && parsed_operator(trimmed(op@)) is None);
                    }
                    ResponsePlan::BadRequest
                },
            }
        },
    }
}

/// The fixed answer to a malformed request.
pub fn bad_request_response() -> (r: String)
    ensures
        r@ == "HTTP/1.1 400 BAD REQUEST\r\n"@,
{
    String::from_str("HTTP/1.1 400 BAD REQUEST\r\n")
}

/// A status line followed by a `Content-Length` header and the body.
pub open spec fn http_response_text(head: Seq<char>, body: Seq<char>) -> Seq<char> {
    head + "Content-Length: "@ + dec_digits(body.len() as int) + "\r\n\r\n"@ + body
}

/// Render a response from its status line and body, with the body's length
/// as `Content-Length`.
pub fn render_http_response(head: &str, body: &str) -> (r: String)
    ensures
        r@ == http_response_text(head@, body@),
{
    let mut r = String::new();
    r.append(head);
    r.append("Content-Length: ");
    let n = body.unicode_len();
    push_dec(&mut r, n);
    r.append("\r\n\r\n");
    r.append(body);
    proof {
        assert(r@ =~= http_response_text(head@, body@));
    }
    r
}

/// The body served on the home page.
pub open spec fn home_ok_body() -> Seq<char> {
    "<!DOCTYPE html><html lang=\"en\"><head><meta charset=\"utf-8\"><title>ok</title></head><body><h1>ok</h1></body></html>"@
}

/// The body served for any other path.
pub open spec fn home_not_found_body() -> Seq<char> {
    "<!DOCTYPE html><html lang=\"en\"><head><meta charset=\"utf-8\"><title>not found</title></head><body><h1>not found</h1></body></html>"@
}

/// Answer a raw payload on the home listener: `200 OK` with the home body
/// for a `GET / HTTP/1.1` request, `404 NOT FOUND` otherwise.
pub fn render_home_response(req: &str) -> (r: String)
    ensures
        starts_with_text(req@, "GET / HTTP/1.1\r\n"@)
            ==> r@ == http_response_text("HTTP/1.1 200 OK\r\n"@, home_ok_body()),
        !starts_with_text(req@, "GET / HTTP/1.1\r\n"@)
            ==> r@ == http_response_text("HTTP/1.1 404 NOT FOUND\r\n"@, home_not_found_body()),
{
    if starts_with_chars(req, "GET / HTTP/1.1\r\n") {
        render_http_response(
            "HTTP/1.1 200 OK\r\n",
            "<!DOCTYPE html><html lang=\"en\"><head><meta charset=\"utf-8\"><title>ok</title></head><body><h1>ok</h1></body></html>",
        )
    } else {
        render_http_response(
            "HTTP/1.1 404 NOT FOUND\r\n",
            "<!DOCTYPE html><html lang=\"en\"><head><meta charset=\"utf-8\"><title>not found</title></head><body><h1>not found</h1></body></html>",
        )
    }
}

} // verus!
