use vstd::prelude::*;

use crate::convert::{
    Adapter, Error, Header, HeaderView, Request, Response, Version, headers_view, request_converted,
    response_converted, HttpAdapter,
};

verus! {

broadcast use vstd::string::group_string_axioms;

/// A transport body as it arrives on an HTTP/1.1 or HTTP/2 connection: the
/// chunks of the stream, in order.
#[derive(Debug)]
pub struct ChunkedBody {
    pub chunks: Vec<Vec<u8>>,
}

/// The bytes of a sequence of chunks, one after another.
pub open spec fn flatten(chunks: Seq<Vec<u8>>) -> Seq<u8>
    decreases chunks.len(),
{
    if chunks.len() == 0 {
        Seq::empty()
    } else {
        flatten(chunks.drop_last()) + chunks.last()@
    }
}

impl ChunkedBody {
    /// The bytes that the body streams.
    pub open spec fn bytes(self) -> Seq<u8> {
        flatten(self.chunks@)
    }
}

/// The bytes of an ASCII text.
pub open spec fn ascii_bytes(s: Seq<char>) -> Seq<u8> {
    Seq::new(s.len(), |i: int| s[i] as u8)
}

/// The decimal digits of `n`, most significant first, in ASCII.
pub open spec fn decimal(n: nat) -> Seq<u8>
    decreases n,
{
    if n < 10 {
        seq![(48 + n) as u8]
    } else {
        decimal(n / 10).push((48 + n % 10) as u8)
    }
}

/// The value of the header that advertises the HTTP/3 endpoint on `port`.
pub open spec fn alt_svc_value(port: u16) -> Seq<u8> {
    ascii_bytes("h3=\":"@) + decimal(port as nat) + ascii_bytes("\"; ma=86400, h3-29=\":"@)
        + decimal(port as nat) + ascii_bytes("\"; ma=86400"@)
}

/// Appends the bytes of the ASCII text `s` to `out`.
fn push_ascii(out: &mut Vec<u8>, s: &str)
    requires
        s.is_ascii(),
    ensures
        final(out)@ == old(out)@ + ascii_bytes(s@),
{
    let bytes = s.as_bytes();
    proof {
        vstd::string::is_ascii_spec_bytes(s);
    }
    let ghost start = out@;
    let mut i: usize = 0;
    while i < bytes.len()
        invariant
            i <= bytes.len(),
            bytes@ == ascii_bytes(s@),
            out@ == start + ascii_bytes(s@).subrange(0, i as int),
        decreases bytes.len() - i,
    {
        out.push(bytes[i]);
        proof {
            assert(ascii_bytes(s@).subrange(0, i + 1) =~= ascii_bytes(s@).subrange(0, i as int).push(bytes@[i as int]));
        }
        i = i + 1;
    }
    proof {
        assert(ascii_bytes(s@).subrange(0, i as int) =~= ascii_bytes(s@));
    }
}

/// Appends the decimal digits of `n` to `out`.
fn push_decimal(out: &mut Vec<u8>, n: u16)
    ensures
        final(out)@ == old(out)@ + decimal(n as nat),
    decreases n,
{
    if n >= 10 {
        push_decimal(out, n / 10);
    }
    let digit: u8 = (n % 10) as u8;
    out.push(48 + digit);
    proof {
        if n >= 10 {
            assert(decimal(n as nat) == decimal((n / 10) as nat).push((48 + n % 10) as u8));
        }
    }
    assert(final(out)@ =~= old(out)@ + decimal(n as nat));
}

/// The value of the header that advertises the HTTP/3 endpoint on `port`:
/// `h3=":<port>"; ma=86400, h3-29=":<port>"; ma=86400`.
pub fn alt_svc(port: u16) -> (r: Vec<u8>)
    ensures
        r@ == alt_svc_value(port),
{
    let mut out: Vec<u8> = Vec::new();
    proof {
        reveal_strlit("h3=\":");
        reveal_strlit("\"; ma=86400, h3-29=\":");
        reveal_strlit("\"; ma=86400");
    }
    push_ascii(&mut out, "h3=\":");
    push_decimal(&mut out, port);
    push_ascii(&mut out, "\"; ma=86400, h3-29=\":");
    push_decimal(&mut out, port);
    push_ascii(&mut out, "\"; ma=86400");
    assert(out@ =~= alt_svc_value(port));
    out
}

/// The body adapter of the HTTP/1.1 and HTTP/2 endpoint. Responses sent
/// through it advertise the HTTP/3 endpoint on `port`.
pub struct BodyAdapter {
    pub port: u16,
}

impl BodyAdapter {
    pub fn new(port: u16) -> (r: Self)
        ensures
            r.port == port,
    {
        BodyAdapter { port }
    }
}

impl Adapter<ChunkedBody, Vec<u8>> for BodyAdapter {
    open spec fn u_to_v_gives(&self, u: ChunkedBody, v: Vec<u8>) -> bool {
        v@ == u.bytes()
    }

    open spec fn u_to_v_fails(&self, u: ChunkedBody) -> bool {
        false
    }

    open spec fn v_to_u_gives(&self, post: Self, v: Vec<u8>, u: ChunkedBody) -> bool {
        &&& post == *self
        &&& u.chunks@.len() == 1
        &&& u.chunks@[0]@ == v@
    }

    open spec fn v_to_u_fails(&self, v: Vec<u8>) -> bool {
        false
    }

    open spec fn added_headers(&self) -> Seq<HeaderView> {
        seq![("alt-svc"@, alt_svc_value(self.port))]
    }

    /// Collects the streamed chunks into one buffer, byte for byte.
    fn u_to_v(&self, u: ChunkedBody) -> (r: Result<Vec<u8>, Error>) {
        let chunks = u.chunks;
        let mut out: Vec<u8> = Vec::new();
        let mut i: usize = 0;
        while i < chunks.len()
            invariant
                i <= chunks.len(),
                out@ == flatten(chunks@.subrange(0, i as int)),
            decreases chunks.len() - i,
        {
            let mut chunk = chunks[i].clone();
            proof {
                let s = chunks@.subrange(0, i + 1);
                assert(s.drop_last() =~= chunks@.subrange(0, i as int));
                assert(s.last() == chunks@[i as int]);
            }
            out.append(&mut chunk);
            i = i + 1;
        }
        proof {
            assert(chunks@.subrange(0, chunks@.len() as int) =~= chunks@);
        }
        Ok(out)
    }

    /// Wraps the buffer as a body of one chunk.
    fn v_to_u(&mut self, v: Vec<u8>) -> (r: Result<ChunkedBody, Error>) {
        let mut chunks: Vec<Vec<u8>> = Vec::new();
        chunks.push(v);
        Ok(ChunkedBody { chunks })
    }

    fn response_headers(&self) -> (r: Vec<Header>) {
        let name = String::from_str("alt-svc");
        let value = alt_svc(self.port);
        let mut r: Vec<Header> = Vec::new();
        r.push(Header { name, value });
        assert(headers_view(r@) =~= self.added_headers());
        r
    }
}

/// Round trip of a body: a buffer wrapped as a transport body by the adapter
/// streams exactly the bytes of the buffer, so collecting it again gives them
/// back, byte for byte.
pub proof fn lemma_body_round_trip(adapter: BodyAdapter, post: BodyAdapter, v: Vec<u8>, u: ChunkedBody)
    requires
        adapter.v_to_u_gives(post, v, u),
    ensures
        u.bytes() == v@,
        forall|w: Vec<u8>| post.u_to_v_gives(u, w) ==> w@ == v@,
{
    assert(u.chunks@.drop_last() =~= Seq::<Vec<u8>>::empty());
    assert(flatten(u.chunks@.drop_last()) == Seq::<u8>::empty());
    assert(Seq::<u8>::empty() + u.chunks@[0]@ =~= u.chunks@[0]@);
}

/// Status of the response that replaces a request whose handling failed.
pub const INTERNAL_SERVER_ERROR: u16 = 500;

/// The response sent for one request: the handler's, or, where handling it
/// failed at any step, an empty 500 response, so that the connection and the
/// other requests on it carry on.
pub fn response_or_internal_error(outcome: Result<Response<ChunkedBody>, Error>) -> (r: Response<ChunkedBody>)
    ensures
        match outcome {
            Ok(resp) => r == resp,
            Err(_) => {
                &&& r.status == INTERNAL_SERVER_ERROR
                &&& r.version == Version::Http11
                &&& r.headers@.len() == 0
                &&& r.body.bytes().len() == 0
            },
        },
{
    match outcome {
        Ok(resp) => resp,
        Err(_) => Response {
            status: INTERNAL_SERVER_ERROR,
            version: Version::Http11,
            headers: Vec::new(),
            body: ChunkedBody { chunks: Vec::new() },
        },
    }
}

/// The request that the handler gets for a request read off a TCP
/// connection: the same envelope, with the streamed body collected.
pub fn adapt_request(request: Request<ChunkedBody>) -> (r: Request<Vec<u8>>)
    ensures
        request_converted(request, r),
        r.body@ == request.body.bytes(),
{
    // The port only shows in responses.
    let adapter = BodyAdapter::new(0);
    match adapter.request_u_to_v(request) {
        Ok(r) => r,
        Err(_) => {
            assert(false);
            Request {
                method: String::new(),
                uri: String::new(),
                version: Version::Http11,
                headers: Vec::new(),
                body: Vec::new(),
            }
        },
    }
}

/// The response written back on the TCP connection for the handler's
/// outcome: the handler's response with the header that advertises the
/// HTTP/3 endpoint on `port`, or an empty 500 response where handling the
/// request failed.
pub fn adapt_response(port: u16, outcome: Result<Response<Vec<u8>>, Error>) -> (r: Response<ChunkedBody>)
    ensures
        match outcome {
            Ok(resp) => {
                &&& response_converted(resp, r, seq![("alt-svc"@, alt_svc_value(port))])
                &&& r.body.bytes() == resp.body@
            },
            Err(_) => {
                &&& r.status == INTERNAL_SERVER_ERROR
                &&& r.version == Version::Http11
                &&& r.headers@.len() == 0
                &&& r.body.bytes().len() == 0
            },
        },
{
    let converted = match outcome {
        Ok(resp) => {
            let mut adapter = BodyAdapter::new(port);
            let ghost before = adapter;
            let ghost body = resp.body;
            let out = adapter.response_v_to_u(resp);
            proof {
                if out is Ok {
                    lemma_body_round_trip(before, adapter, body, out->Ok_0.body);
                }
            }
            out
        },
        Err(e) => Err(e),
    };
    response_or_internal_error(converted)
}

} // verus!
