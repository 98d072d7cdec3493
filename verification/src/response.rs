//! The response side of the protocol: the fixed responses, and the framing
//! of a body.

use crate::request::{ascii, literal};
use vstd::prelude::*;
use vstd::slice::slice_to_vec;
use vstd::string::*;

verus! {

/// The response to a request without a request line or without a path.
pub open spec fn bad_request() -> Seq<u8> {
    ascii("HTTP/1.1 400 Bad Request\r\n\r\n"@)
}

/// The response to a path that is not served.
pub open spec fn not_found() -> Seq<u8> {
    ascii("HTTP/1.1 404 Not Found\r\n\r\n"@)
}

/// The response to a method that is not served.
pub open spec fn method_not_allowed() -> Seq<u8> {
    ascii("HTTP/1.1 405 Method Not Allowed\r\n\r\n"@)
}

/// The response of a healthy server: a status line and no body.
pub open spec fn ok_empty() -> Seq<u8> {
    ascii("HTTP/1.1 200 Ok\r\n\r\n"@)
}

/// The response to a health check. An unhealthy server answers with no byte
/// at all: it hangs up.
pub open spec fn healthz(healthy: bool) -> Seq<u8> {
    if healthy {
        ok_empty()
    } else {
        Seq::empty()
    }
}

/// The decimal digits of a number, without leading zeros.
pub open spec fn decimal(n: nat) -> Seq<u8>
    decreases n,
{
    if n < 10 {
        seq![(48 + n) as u8]
    } else {
        decimal(n / 10).push((48 + n % 10) as u8)
    }
}

/// A response that carries a body: the status line, the length of the body,
/// an empty line, the body.
pub open spec fn ok_with_body(body: Seq<u8>) -> Seq<u8> {
    ascii("HTTP/1.1 200 Ok"@) + ascii("\r\nContent-Length: "@) + decimal(body.len()) + ascii(
        "\r\n\r\n"@,
    ) + body
}

/// `HTTP/1.1 400 Bad Request`, and no body.
pub fn bad_request_response() -> (response: Vec<u8>)
    ensures
        response@ == bad_request(),
{
    proof {
        reveal_strlit("HTTP/1.1 400 Bad Request\r\n\r\n");
    }
    slice_to_vec(literal("HTTP/1.1 400 Bad Request\r\n\r\n"))
}

/// `HTTP/1.1 404 Not Found`, and no body.
pub fn not_found_response() -> (response: Vec<u8>)
    ensures
        response@ == not_found(),
{
    proof {
        reveal_strlit("HTTP/1.1 404 Not Found\r\n\r\n");
    }
    slice_to_vec(literal("HTTP/1.1 404 Not Found\r\n\r\n"))
}

/// `HTTP/1.1 405 Method Not Allowed`, and no body.
pub fn method_not_allowed_response() -> (response: Vec<u8>)
    ensures
        response@ == method_not_allowed(),
{
    proof {
        reveal_strlit("HTTP/1.1 405 Method Not Allowed\r\n\r\n");
    }
    slice_to_vec(literal("HTTP/1.1 405 Method Not Allowed\r\n\r\n"))
}

/// The response to a health check: `HTTP/1.1 200 Ok` and no body where the
/// server is healthy, no byte at all where it is not.
pub fn healthz_response(healthy: bool) -> (response: Vec<u8>)
    ensures
        response@ == healthz(healthy),
{
    if healthy {
        proof {
            reveal_strlit("HTTP/1.1 200 Ok\r\n\r\n");
        }
        slice_to_vec(literal("HTTP/1.1 200 Ok\r\n\r\n"))
    } else {
        Vec::new()
    }
}

/// Appends the decimal digits of a number.
pub fn push_decimal(out: &mut Vec<u8>, n: usize)
    ensures
        final(out)@ == old(out)@ + decimal(n as nat),
    decreases n,
{
    if n < 10 {
        out.push(48 + n as u8);
        assert(out@ =~= old(out)@ + decimal(n as nat));
    } else {
        push_decimal(out, n / 10);
        out.push(48 + (n % 10) as u8);
        assert(out@ =~= old(out)@ + decimal(n as nat));
    }
}

/// `HTTP/1.1 200 Ok` with a body and its `Content-Length`.
pub fn ok_response(body: &[u8]) -> (response: Vec<u8>)
    ensures
        response@ == ok_with_body(body@),
{
    proof {
        reveal_strlit("HTTP/1.1 200 Ok");
        reveal_strlit("\r\nContent-Length: ");
        reveal_strlit("\r\n\r\n");
    }
    let mut response = slice_to_vec(literal("HTTP/1.1 200 Ok"));
    response.extend_from_slice(literal("\r\nContent-Length: "));
    push_decimal(&mut response, body.len());
    response.extend_from_slice(literal("\r\n\r\n"));
    response.extend_from_slice(body);
    response
}

} // verus!
