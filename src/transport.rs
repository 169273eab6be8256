//! The bytes of a signed API request, and what to make of the bytes that
//! have come back so far.

use vstd::prelude::*;
use vstd::string::StringSliceAdditionalSpecFns;
use vstd::utf8::encode_utf8;

verus! {

/// Size of the buffer a response is read into.
pub const RESPONSE_BUFFER: usize = 16384;

/// The two endpoints of the API.
#[derive(Clone, Copy, Debug, PartialEq, Eq, Structural)]
pub enum Endpoint {
    /// `POST /api/v1/workouts/list`, answered with 200 and the user's workouts.
    List,
    /// `POST /api/v1/workouts/new`, answered with 204 and no body.
    New,
}

impl Endpoint {
    /// The status that the endpoint answers a good request with.
    pub open spec fn spec_success_status(self) -> u16 {
        match self {
            Endpoint::List => 200,
            Endpoint::New => 204,
        }
    }

    /// The request path of the endpoint.
    pub open spec fn spec_path(self) -> Seq<char> {
        match self {
            Endpoint::List => "/api/v1/workouts/list"@,
            Endpoint::New => "/api/v1/workouts/new"@,
        }
    }

    /// The status that the endpoint answers a good request with.
    pub fn success_status(&self) -> (r: u16)
        ensures
            r == self.spec_success_status(),
    {
        match self {
            Endpoint::List => 200,
            Endpoint::New => 204,
        }
    }

    /// The request path of the endpoint.
    pub fn path(&self) -> (r: &'static str)
        ensures
            r@ == self.spec_path(),
    {
        match self {
            Endpoint::List => "/api/v1/workouts/list",
            Endpoint::New => "/api/v1/workouts/new",
        }
    }
}

/// The decimal digits of `n`, in ASCII, most significant first.
pub open spec fn decimal(n: nat) -> Seq<u8>
    decreases n,
{
    if n < 10 {
        seq![(48 + n) as u8]
    } else {
        decimal(n / 10).push((48 + n % 10) as u8)
    }
}

/// Appends the decimal digits of `n` to `out`.
pub fn push_decimal(out: &mut Vec<u8>, n: u64)
    ensures
        final(out)@ == old(out)@ + decimal(n as nat),
    decreases n,
{
    if n >= 10 {
        push_decimal(out, n / 10);
    }
    let digit = (n % 10) as u8;
    out.push(48u8 + digit);
    proof {
        if n >= 10 {
            assert(final(out)@ =~= old(out)@ + decimal(n as nat));
        } else {
            assert(final(out)@ =~= old(out)@ + decimal(n as nat));
        }
    }
}

/// Appends `b` to `out`.
pub fn push_bytes(out: &mut Vec<u8>, b: &[u8])
    ensures
        final(out)@ == old(out)@ + b@,
{
    let ghost start = out@;
    let mut i: usize = 0;
    while i < b.len()
        invariant
            i <= b@.len(),
            out@ == start + b@.subrange(0, i as int),
        decreases b@.len() - i,
    {
        out.push(b[i]);
        proof {
            assert(b@.subrange(0, i + 1) =~= b@.subrange(0, i as int).push(b@[i as int]));
        }
        i = i + 1;
    }
    assert(b@.subrange(0, b@.len() as int) =~= b@);
}

/// The full text of a request: method line, host, content type and length,
/// the timestamp and signature headers, a blank line and the JSON body.
pub open spec fn request_bytes(
    path: Seq<u8>,
    host: Seq<u8>,
    timestamp: nat,
    signature: Seq<u8>,
    body: Seq<u8>,
) -> Seq<u8> {
    "POST ".spec_bytes() + path + " HTTP/1.1\r\nhost: ".spec_bytes() + host
        + "\r\ncontent-type: application/json\r\ncontent-length: ".spec_bytes() + decimal(body.len())
        + "\r\nx-fitbod-access-timestamp: ".spec_bytes() + decimal(timestamp)
        + "\r\nx-fitbod-access-signature: ".spec_bytes() + signature
        + "\r\n\r\n".spec_bytes() + body
}

/// The request for `endpoint`, sent to `host`, signed at `timestamp` (unix
/// seconds) with `signature` over `body`.
pub fn build_request(endpoint: Endpoint, host: &str, timestamp: u64, signature: &str, body: &str) -> (r: Vec<u8>)
    ensures
        r@ == request_bytes(
            encode_utf8(endpoint.spec_path()),
            host.spec_bytes(),
            timestamp as nat,
            signature.spec_bytes(),
            body.spec_bytes(),
        ),
{
    let path = endpoint.path();
    let mut out: Vec<u8> = Vec::new();
    push_bytes(&mut out, "POST ".as_bytes());
    push_bytes(&mut out, path.as_bytes());
    push_bytes(&mut out, " HTTP/1.1\r\nhost: ".as_bytes());
    push_bytes(&mut out, host.as_bytes());
    push_bytes(&mut out, "\r\ncontent-type: application/json\r\ncontent-length: ".as_bytes());
    let body_bytes = body.as_bytes();
    push_decimal(&mut out, body_bytes.len() as u64);
    push_bytes(&mut out, "\r\nx-fitbod-access-timestamp: ".as_bytes());
    push_decimal(&mut out, timestamp);
    push_bytes(&mut out, "\r\nx-fitbod-access-signature: ".as_bytes());
    push_bytes(&mut out, signature.as_bytes());
    push_bytes(&mut out, "\r\n\r\n".as_bytes());
    push_bytes(&mut out, body_bytes);
    out
}

/// What `thhp` makes of the bytes of a response received so far: `None`
/// when they cannot begin a valid response, `Some(None)` when the head is
/// not complete yet, else the status and the offset where the body starts.
pub uninterp spec fn parsed_response_head(bytes: Seq<u8>) -> Option<Option<(u16, usize)>>;

/// Relies on `thhp::Response::parse`. The header list can hold as many
/// fields as there are bytes, so its capacity never decides the outcome.
/// The body offset is `buf.len()` minus what the parser left, so it lies
/// within the buffer.
#[verifier::external_body]
fn parse_head(buf: &[u8]) -> (r: Option<Option<(u16, usize)>>)
    ensures
        r == parsed_response_head(buf@),
        r matches Some(Some((_, off))) ==> off <= buf@.len(),
{
    let mut headers = Vec::<thhp::HeaderField>::with_capacity(buf.len());
    match thhp::Response::parse(buf, &mut headers) {
        Ok(thhp::Complete((resp, off))) => Some(Some((resp.status, off))),
        Ok(thhp::Incomplete) => Some(None),
        Err(_) => None,
    }
}

/// Where reading a response stands.
pub enum ResponseStep {
    /// The head is not complete: read more.
    Incomplete,
    /// The bytes are no valid response: the request failed.
    Malformed,
    /// A complete response with a status other than the endpoint's success
    /// status: the request failed.
    Rejected { status: u16 },
    /// A complete response with the success status; `body` is everything
    /// received after the head.
    Accepted { body: Vec<u8> },
}

/// The step that `head` (what the parser made of `received`) means for a
/// request to `endpoint`.
pub open spec fn step_matches(endpoint: Endpoint, head: Option<Option<(u16, usize)>>, received: Seq<u8>, r: ResponseStep) -> bool {
    match head {
        None => r is Malformed,
        Some(None) => r is Incomplete,
        Some(Some((status, off))) => if status == endpoint.spec_success_status() {
            r matches ResponseStep::Accepted { body } && body@ == received.subrange(off as int, received.len() as int)
        } else {
            r == (ResponseStep::Rejected { status })
        },
    }
}

/// Decides the step for a request to `endpoint` from the parser's outcome
/// `head` on `received`.
pub fn classify_head(endpoint: Endpoint, head: Option<Option<(u16, usize)>>, received: &[u8]) -> (r: ResponseStep)
    requires
        head matches Some(Some((_, off))) ==> off <= received@.len(),
    ensures
        step_matches(endpoint, head, received@, r),
{
    match head {
        None => ResponseStep::Malformed,
        Some(None) => ResponseStep::Incomplete,
        Some(Some((status, off))) => {
            if status == endpoint.success_status() {
                let mut body: Vec<u8> = Vec::new();
                let mut i: usize = off;
                while i < received.len()
                    invariant
                        off <= i <= received@.len(),
                        body@ == received@.subrange(off as int, i as int),
                    decreases received@.len() - i,
                {
                    body.push(received[i]);
                    proof {
                        assert(received@.subrange(off as int, i + 1) =~= received@.subrange(off as int, i as int).push(received@[i as int]));
                    }
                    i = i + 1;
                }
                ResponseStep::Accepted { body }
            } else {
                ResponseStep::Rejected { status }
            }
        },
    }
}

/// Parses the bytes received so far for a request to `endpoint` and says
/// what to do next.
pub fn assess_response(endpoint: Endpoint, received: &[u8]) -> (r: ResponseStep)
    ensures
        step_matches(endpoint, parsed_response_head(received@), received@, r),
{
    let head = parse_head(received);
    classify_head(endpoint, head, received)
}

} // verus!
