use vstd::prelude::*;

verus! {

/// Protocol version carried by an envelope.
#[derive(Clone, Copy, Debug, PartialEq, Eq, Structural)]
pub enum Version {
    Http09,
    Http10,
    Http11,
    Http2,
    Http3,
}

/// One header line: a lower-case name and its raw value bytes.
#[derive(Debug)]
pub struct Header {
    pub name: String,
    pub value: Vec<u8>,
}

/// A request envelope with a body of type `B`.
#[derive(Debug)]
pub struct Request<B> {
    pub method: String,
    pub uri: String,
    pub version: Version,
    pub headers: Vec<Header>,
    pub body: B,
}

/// A response envelope with a body of type `B`.
#[derive(Debug)]
pub struct Response<B> {
    pub status: u16,
    pub version: Version,
    pub headers: Vec<Header>,
    pub body: B,
}

/// The failure of a body conversion, carrying a description of its cause.
#[derive(Debug)]
pub struct Error {
    pub message: String,
}

pub type HeaderView = (Seq<char>, Seq<u8>);

pub open spec fn header_view(h: Header) -> HeaderView {
    (h.name@, h.value@)
}

/// The headers as a sequence of (name, value) pairs, in order.
pub open spec fn headers_view(hs: Seq<Header>) -> Seq<HeaderView> {
    hs.map_values(|h: Header| header_view(h))
}

/// Everything of a request but its body: method, URI, version and headers.
pub open spec fn request_head<B>(r: Request<B>) -> (Seq<char>, Seq<char>, Version, Seq<HeaderView>) {
    (r.method@, r.uri@, r.version, headers_view(r.headers@))
}

/// Everything of a response but its body: status, version and headers.
pub open spec fn response_head<B>(r: Response<B>) -> (u16, Version, Seq<HeaderView>) {
    (r.status, r.version, headers_view(r.headers@))
}

impl Error {
    /// Wraps the description of an underlying failure.
    pub fn boxed(message: String) -> (r: Self)
        ensures
            r.message@ == message@,
    {
        Error { message }
    }

    /// The description of the failure.
    pub fn to_string(&self) -> (r: String)
        ensures
            r@ == self.message@,
    {
        self.message.clone()
    }
}

/// Converts message bodies between a transport type `U` and an application
/// type `V`, in both directions.
pub trait Adapter<U, V>: Sized {
    /// `v` is a result that converting `u` to the application type may give.
    spec fn u_to_v_gives(&self, u: U, v: V) -> bool;

    /// Converting `u` to the application type fails.
    spec fn u_to_v_fails(&self, u: U) -> bool;

    /// `u` is a result that converting `v` to the transport type may give, and
    /// `post` the adapter after that conversion.
    spec fn v_to_u_gives(&self, post: Self, v: V, u: U) -> bool;

    /// Converting `v` to the transport type fails.
    spec fn v_to_u_fails(&self, v: V) -> bool;

    /// Headers that this adapter adds to every response it sends.
    spec fn added_headers(&self) -> Seq<HeaderView>;

    fn u_to_v(&self, u: U) -> (r: Result<V, Error>)
        ensures
            r is Err <==> self.u_to_v_fails(u),
            r matches Ok(v) ==> self.u_to_v_gives(u, v),
    ;

    fn v_to_u(&mut self, v: V) -> (r: Result<U, Error>)
        ensures
            r is Err <==> old(self).v_to_u_fails(v),
            r matches Ok(u) ==> old(self).v_to_u_gives(*final(self), v, u),
            r is Err ==> *final(self) == *old(self),
    ;

    /// The headers of `added_headers`, appended to a response before its body.
    fn response_headers(&self) -> (r: Vec<Header>)
        ensures
            headers_view(r@) == self.added_headers(),
    ;
}

/// A copy of `h` with the same name and value.
pub fn clone_header(h: &Header) -> (r: Header)
    ensures
        header_view(r) == header_view(*h),
{
    Header { name: h.name.clone(), value: h.value.clone() }
}

/// Copies every header of `hs`, in order.
pub fn clone_headers(hs: &Vec<Header>) -> (r: Vec<Header>)
    ensures
        headers_view(r@) == headers_view(hs@),
{
    let mut out: Vec<Header> = Vec::new();
    let mut i: usize = 0;
    while i < hs.len()
        invariant
            i <= hs.len(),
            headers_view(out@) == headers_view(hs@.subrange(0, i as int)),
        decreases hs.len() - i,
    {
        let h = clone_header(&hs[i]);
        out.push(h);
        proof {
            assert(hs@.subrange(0, i + 1) == hs@.subrange(0, i as int).push(hs@[i as int]));
            assert(headers_view(out@) == headers_view(hs@.subrange(0, i as int)).push(header_view(hs@[i as int])));
        }
        i = i + 1;
    }
    proof {
        assert(hs@.subrange(0, hs@.len() as int) == hs@);
    }
    out
}

/// `out` is `input` with its body converted: method, URI, version and every
/// header copied unchanged.
pub open spec fn request_converted<U, V>(input: Request<U>, out: Request<V>) -> bool {
    request_head(out) == request_head(input)
}

/// `out` is `input` with its body converted: status and version copied, and
/// every header copied unchanged and followed by the headers `added`.
pub open spec fn response_converted<U, V>(input: Response<U>, out: Response<V>, added: Seq<HeaderView>) -> bool {
    &&& out.status == input.status
    &&& out.version == input.version
    &&& headers_view(out.headers@) == headers_view(input.headers@) + added
}

/// Hands a transport request to the application: the body goes through the
/// adapter and the rest of the envelope is copied.
pub fn transform_request<U, V, A: Adapter<U, V>>(adapter: &A, request: Request<U>) -> (r: Result<Request<V>, Error>)
    ensures
        r is Err <==> adapter.u_to_v_fails(request.body),
        r matches Ok(out) ==> request_converted(request, out) && adapter.u_to_v_gives(request.body, out.body),
{
    let Request { method, uri, version, headers, body } = request;
    let headers = clone_headers(&headers);
    match adapter.u_to_v(body) {
        Ok(body) => Ok(Request { method, uri, version, headers, body }),
        Err(e) => Err(e),
    }
}

/// Hands an application response to the transport: the body goes through the
/// adapter, the status, version and headers are copied, and the adapter's own
/// headers are appended.
pub fn transform_response<U, V, A: Adapter<U, V>>(adapter: &mut A, response: Response<V>) -> (r: Result<Response<U>, Error>)
    ensures
        r is Err <==> old(adapter).v_to_u_fails(response.body),
        r is Err ==> *final(adapter) == *old(adapter),
        r matches Ok(out) ==> {
            &&& response_converted(response, out, old(adapter).added_headers())
            &&& old(adapter).v_to_u_gives(*final(adapter), response.body, out.body)
        },
{
    let Response { status, version, headers, body } = response;
    let mut headers = clone_headers(&headers);
    let mut added = adapter.response_headers();
    let ghost kept = headers@;
    let ghost extra = added@;
    headers.append(&mut added);
    proof {
        assert(headers@ == kept + extra);
        assert(headers_view(kept + extra) =~= headers_view(kept) + headers_view(extra));
    }
    match adapter.v_to_u(body) {
        Ok(body) => Ok(Response { status, version, headers, body }),
        Err(e) => Err(e),
    }
}

/// Converts whole messages with an adapter's body conversion: requests from
/// the transport to the application, responses back.
pub trait HttpAdapter<U, V>: Adapter<U, V> {
    fn request_u_to_v(&self, request: Request<U>) -> (r: Result<Request<V>, Error>)
        ensures
            r is Err <==> self.u_to_v_fails(request.body),
            r matches Ok(out) ==> request_converted(request, out) && self.u_to_v_gives(request.body, out.body),
    ;

    fn response_v_to_u(&mut self, response: Response<V>) -> (r: Result<Response<U>, Error>)
        ensures
            r is Err <==> old(self).v_to_u_fails(response.body),
            r is Err ==> *final(self) == *old(self),
            r matches Ok(out) ==> {
                &&& response_converted(response, out, old(self).added_headers())
                &&& old(self).v_to_u_gives(*final(self), response.body, out.body)
            },
    ;
}

impl<U, V, T: Adapter<U, V>> HttpAdapter<U, V> for T {
    fn request_u_to_v(&self, request: Request<U>) -> (r: Result<Request<V>, Error>) {
        transform_request(self, request)
    }

    fn response_v_to_u(&mut self, response: Response<V>) -> (r: Result<Response<U>, Error>) {
        transform_response(self, response)
    }
}

/// Round trip of a request: converting a request's body to another type and
/// back leaves its method, URI, version and every header exactly as they were.
pub proof fn lemma_request_round_trip<U, V>(r0: Request<U>, r1: Request<V>, r2: Request<U>)
    requires
        request_converted(r0, r1),
        request_converted(r1, r2),
    ensures
        request_head(r2) == request_head(r0),
        r2.method@ == r0.method@,
        r2.uri@ == r0.uri@,
        r2.version == r0.version,
        headers_view(r2.headers@) == headers_view(r0.headers@),
{
}

/// Round trip of a response: converting a response's body to another type
/// and back keeps its status and version, and its headers are the original
/// ones, unchanged and in order, followed only by the headers that the two
/// conversions add.
pub proof fn lemma_response_round_trip<U, V>(
    s0: Response<V>,
    s1: Response<U>,
    s2: Response<V>,
    added1: Seq<HeaderView>,
    added2: Seq<HeaderView>,
)
    requires
        response_converted(s0, s1, added1),
        response_converted(s1, s2, added2),
    ensures
        s2.status == s0.status,
        s2.version == s0.version,
        headers_view(s2.headers@) == headers_view(s0.headers@) + added1 + added2,
        headers_view(s2.headers@).subrange(0, s0.headers@.len() as int) == headers_view(s0.headers@),
{
    assert(headers_view(s0.headers@).len() == s0.headers@.len());
    assert((headers_view(s0.headers@) + added1 + added2).subrange(0, s0.headers@.len() as int)
        =~= headers_view(s0.headers@));
}

} // verus!
