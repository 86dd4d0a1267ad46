use vstd::prelude::*;

use crate::convert::{
    Adapter, Error, Header, HeaderView, Request, Response, Version, headers_view, request_converted,
    response_converted, HttpAdapter,
};

verus! {

broadcast use vstd::string::group_string_axioms;

/// The body adapter of one HTTP/3 request: a buffer that holds the request
/// body until the handler runs, then the response body until it is sent.
///
/// The buffer has one owner. Other holders may be registered with `share`
/// and must be released with `unshare`. The buffer can be extracted once, and
/// only while no other holder remains.
pub struct BodyAdapter {
    buffer: Vec<u8>,
    holders: usize,
    taken: bool,
}

/// The description of the error that a refused extraction gives.
pub open spec fn ownership_error() -> Seq<char> {
    "Mutex error."@
}

impl BodyAdapter {
    /// The bytes in the buffer.
    pub closed spec fn contents(&self) -> Seq<u8> {
        self.buffer@
    }

    /// The number of holders of the buffer besides this adapter.
    pub closed spec fn other_holders(&self) -> nat {
        self.holders as nat
    }

    /// The buffer has already been extracted.
    pub closed spec fn taken(&self) -> bool {
        self.taken
    }

    /// An adapter over the bytes read off the request stream, with no other
    /// holder.
    pub fn new(bytes: Vec<u8>) -> (r: Self)
        ensures
            r.contents() == bytes@,
            r.other_holders() == 0,
            !r.taken(),
    {
        BodyAdapter { buffer: bytes, holders: 0, taken: false }
    }

    /// Registers one more holder of the buffer.
    pub fn share(&mut self)
        requires
            old(self).other_holders() < usize::MAX,
        ensures
            final(self).contents() == old(self).contents(),
            final(self).other_holders() == old(self).other_holders() + 1,
            final(self).taken() == old(self).taken(),
    {
        self.holders = self.holders + 1;
    }

    /// Releases one holder of the buffer.
    pub fn unshare(&mut self)
        requires
            old(self).other_holders() > 0,
        ensures
            final(self).contents() == old(self).contents(),
            final(self).other_holders() == old(self).other_holders() - 1,
            final(self).taken() == old(self).taken(),
    {
        self.holders = self.holders - 1;
    }

    /// Extracts the buffer, where no other holder remains and it was not
    /// extracted before; afterwards every extraction fails. Otherwise an
    /// ownership error, and the adapter is left as it was.
    pub fn as_inner(&mut self) -> (r: Result<Vec<u8>, Error>)
        ensures
            r is Ok <==> (old(self).other_holders() == 0 && !old(self).taken()),
            r matches Ok(b) ==> b@ == old(self).contents(),
            r matches Err(e) ==> e.message@ == ownership_error(),
            r is Ok ==> final(self).taken() && final(self).other_holders() == old(self).other_holders()
                && final(self).contents() == old(self).contents(),
            r is Err ==> *final(self) == *old(self),
    {
        if self.holders == 0 && !self.taken {
            self.taken = true;
            Ok(self.buffer.clone())
        } else {
            Err(Error::boxed(String::from_str("Mutex error.")))
        }
    }

    /// Consumes the adapter and hands out its buffer, where no other holder
    /// remains and it was not extracted before; otherwise an ownership error.
    pub fn into_inner(self) -> (r: Result<Vec<u8>, Error>)
        ensures
            r is Ok <==> (self.other_holders() == 0 && !self.taken()),
            r matches Ok(b) ==> b@ == self.contents(),
            r matches Err(e) ==> e.message@ == ownership_error(),
    {
        if self.holders == 0 && !self.taken {
            Ok(self.buffer)
        } else {
            Err(Error::boxed(String::from_str("Mutex error.")))
        }
    }
}

/// One extraction per adapter: once the buffer has been extracted, no
/// further extraction succeeds, whatever the holders; and while another
/// holder remains, none succeeds at all.
pub proof fn lemma_single_extraction(a: BodyAdapter)
    ensures
        a.taken() ==> !(a.other_holders() == 0 && !a.taken()),
        a.other_holders() > 0 ==> !(a.other_holders() == 0 && !a.taken()),
{
}

impl Adapter<(), Vec<u8>> for BodyAdapter {
    open spec fn u_to_v_gives(&self, u: (), v: Vec<u8>) -> bool {
        v@ == self.contents()
    }

    open spec fn u_to_v_fails(&self, u: ()) -> bool {
        false
    }

    open spec fn v_to_u_gives(&self, post: Self, v: Vec<u8>, u: ()) -> bool {
        &&& post.contents() == v@
        &&& post.other_holders() == self.other_holders()
        &&& post.taken() == self.taken()
    }

    open spec fn v_to_u_fails(&self, v: Vec<u8>) -> bool {
        false
    }

    open spec fn added_headers(&self) -> Seq<HeaderView> {
        Seq::empty()
    }

    /// A snapshot of the whole buffer.
    fn u_to_v(&self, u: ()) -> (r: Result<Vec<u8>, Error>) {
        Ok(self.buffer.clone())
    }

    /// Replaces the buffer by the response body.
    fn v_to_u(&mut self, v: Vec<u8>) -> (r: Result<(), Error>) {
        self.buffer = v;
        Ok(())
    }

    fn response_headers(&self) -> (r: Vec<Header>) {
        let r: Vec<Header> = Vec::new();
        assert(headers_view(r@) =~= Seq::<HeaderView>::empty());
        r
    }
}

/// The adapter for a request read off a QUIC stream, over the body bytes
/// read with it, and the request that the handler gets: the same envelope,
/// with those bytes as body.
pub fn adapt_request(request: Request<()>, body: Vec<u8>) -> (r: (BodyAdapter, Request<Vec<u8>>))
    ensures
        request_converted(request, r.1),
        r.1.body@ == body@,
        r.0.contents() == body@,
        r.0.other_holders() == 0,
        !r.0.taken(),
{
    let adapter = BodyAdapter::new(body);
    match adapter.request_u_to_v(request) {
        Ok(req) => (adapter, req),
        Err(_) => {
            assert(false);
            let empty = Request {
                method: String::new(),
                uri: String::new(),
                version: Version::Http3,
                headers: Vec::new(),
                body: Vec::new(),
            };
            (adapter, empty)
        },
    }
}

/// The response head to send on the QUIC stream for the handler's response,
/// and the body bytes to send after it, taken out of the adapter. Taking
/// them out fails where the buffer has another holder.
pub fn adapt_response(adapter: BodyAdapter, response: Response<Vec<u8>>) -> (r: Result<(Response<()>, Vec<u8>), Error>)
    ensures
        r is Ok <==> (adapter.other_holders() == 0 && !adapter.taken()),
        r matches Err(e) ==> e.message@ == ownership_error(),
        r matches Ok(sent) ==> response_converted(response, sent.0, Seq::empty()) && sent.1@ == response.body@,
{
    let mut adapter = adapter;
    match adapter.response_v_to_u(response) {
        Ok(head) => match adapter.into_inner() {
            Ok(body) => Ok((head, body)),
            Err(e) => Err(e),
        },
        Err(e) => Err(e),
    }
}

/// The value of a sequence of decimal digits.
pub open spec fn digits_value(s: Seq<u8>) -> nat
    decreases s.len(),
{
    if s.len() == 0 {
        0
    } else {
        digits_value(s.drop_last()) * 10 + (s.last() - 48) as nat
    }
}

pub open spec fn is_digit(b: u8) -> bool {
    48 <= b <= 57
}

pub open spec fn all_digits(s: Seq<u8>) -> bool {
    forall|i: int| 0 <= i < s.len() ==> is_digit(#[trigger] s[i])
}

/// The digits of a header value, after an optional leading `+`.
pub open spec fn unsigned_digits(s: Seq<u8>) -> Seq<u8> {
    if s.len() > 0 && s[0] == 43 {
        s.drop_first()
    } else {
        s
    }
}

/// The unsigned integer that `s` spells in decimal, with an optional
/// leading `+`, where it fits in a `usize`.
pub open spec fn parse_usize(s: Seq<u8>) -> Option<usize> {
    let d = unsigned_digits(s);
    if d.len() > 0 && all_digits(d) && digits_value(d) <= usize::MAX {
        Some(digits_value(d) as usize)
    } else {
        None
    }
}

/// Reads a header value as a decimal `usize`.
pub fn parse_decimal(s: &Vec<u8>) -> (r: Option<usize>)
    ensures
        r == parse_usize(s@),
{
    let start: usize = if s.len() > 0 && s[0] == 43u8 { 1 } else { 0 };
    let ghost d = unsigned_digits(s@);
    assert(d =~= s@.subrange(start as int, s@.len() as int));
    if start >= s.len() {
        return None;
    }
    let mut value: usize = 0;
    let mut i: usize = start;
    while i < s.len()
        invariant
            start <= i <= s.len(),
            d == unsigned_digits(s@),
            d == s@.subrange(start as int, s@.len() as int),
            forall|j: int| start <= j < i ==> is_digit(#[trigger] s@[j]),
            value as nat == digits_value(s@.subrange(start as int, i as int)),
        decreases s.len() - i,
    {
        let b = s[i];
        if b < 48u8 || b > 57u8 {
            assert(d[i - start] == s@[i as int]);
            assert(!is_digit(d[i - start]));
            assert(!all_digits(d));
            return None;
        }
        let digit: usize = (b - 48u8) as usize;
        proof {
            let p = s@.subrange(start as int, i + 1);
            assert(p.drop_last() =~= s@.subrange(start as int, i as int));
            assert(digits_value(p) == value * 10 + digit);
        }
        if value > (usize::MAX - digit) / 10 {
            proof {
                lemma_digits_value_grows(d, (i - start + 1) as int);
                assert(d.subrange(0, (i - start + 1) as int) =~= s@.subrange(start as int, i + 1));
                assert(value * 10 + digit > usize::MAX) by (nonlinear_arith)
                    requires
                        value > (usize::MAX - digit) / 10,
                        digit <= 9,
                ;
                assert(digits_value(d) > usize::MAX);
            }
            return None;
        }
        assert(value * 10 + digit <= usize::MAX) by (nonlinear_arith)
            requires
                value <= (usize::MAX - digit) / 10,
                digit <= 9,
        ;
        value = value * 10 + digit;
        i = i + 1;
    }
    assert(s@.subrange(start as int, s@.len() as int) =~= d);
    Some(value)
}

/// A prefix of a digit sequence never has a larger value than the whole.
proof fn lemma_digits_value_grows(d: Seq<u8>, k: int)
    requires
        0 <= k <= d.len(),
    ensures
        digits_value(d.subrange(0, k)) <= digits_value(d),
    decreases d.len() - k,
{
    if k < d.len() {
        lemma_digits_value_grows(d, k + 1);
        let p = d.subrange(0, k + 1);
        assert(p.drop_last() =~= d.subrange(0, k));
    } else {
        assert(d.subrange(0, k) =~= d);
    }
}

/// The value of the first header named `name`, if any.
pub open spec fn first_header_value(headers: Seq<HeaderView>, name: Seq<char>) -> Option<Seq<u8>>
    decreases headers.len(),
{
    if headers.len() == 0 {
        None
    } else if headers[0].0 == name {
        Some(headers[0].1)
    } else {
        first_header_value(headers.drop_first(), name)
    }
}

/// The body size that a request announces: the first `content-length` value
/// read as a decimal `usize`, and 0 where the header is absent or not such a
/// number.
pub open spec fn content_length_of(headers: Seq<HeaderView>) -> usize {
    match first_header_value(headers, "content-length"@) {
        Some(v) => match parse_usize(v) {
            Some(n) => n,
            None => 0,
        },
        None => 0,
    }
}

/// The size hint for the buffer of a request body, from its headers.
pub fn content_length_hint(headers: &Vec<Header>) -> (r: usize)
    ensures
        r == content_length_of(headers_view(headers@)),
{
    let name = String::from_str("content-length");
    let mut i: usize = 0;
    assert(headers_view(headers@).subrange(0, headers@.len() as int) =~= headers_view(headers@));
    while i < headers.len()
        invariant
            i <= headers.len(),
            name@ == "content-length"@,
            first_header_value(headers_view(headers@), "content-length"@) == first_header_value(
                headers_view(headers@).subrange(i as int, headers@.len() as int),
                "content-length"@,
            ),
        decreases headers.len() - i,
    {
        let ghost rest = headers_view(headers@).subrange(i as int, headers@.len() as int);
        assert(rest[0] == (headers@[i as int].name@, headers@[i as int].value@));
        if headers[i].name == name {
            return match parse_decimal(&headers[i].value) {
                Some(n) => n,
                None => 0,
            };
        }
        assert(rest.drop_first() =~= headers_view(headers@).subrange(i + 1, headers@.len() as int));
        i = i + 1;
    }
    0
}

/// The HTTP/3 code for a close without error.
pub const H3_NO_ERROR: u64 = 0x100;

/// How an HTTP/3 connection task came to an end.
#[derive(Clone, Copy, Debug, PartialEq, Eq, Structural)]
pub enum ConnectionEnd {
    /// The peer ended the connection and no request was pending.
    Finished,
    /// The QUIC handshake or the HTTP/3 control-stream setup failed.
    HandshakeFailed,
    /// An HTTP/3 error, with the application close code that it carries, if any.
    H3Error(Option<u64>),
    /// Any other connection-level error.
    OtherError,
}

/// The end is a close without error: the connection finished, or the HTTP/3
/// error carries the "no error" code or code 0.
pub open spec fn is_quiet_end(end: ConnectionEnd) -> bool {
    match end {
        ConnectionEnd::Finished => true,
        ConnectionEnd::H3Error(None) => false,
        ConnectionEnd::H3Error(Some(c)) => c == H3_NO_ERROR || c == 0,
        _ => false,
    }
}

/// Whether the end of a connection task is reported as an error; a close
/// without error is not.
pub fn logs_error(end: ConnectionEnd) -> (r: bool)
    ensures
        r == !is_quiet_end(end),
{
    match end {
        ConnectionEnd::Finished => false,
        ConnectionEnd::HandshakeFailed => true,
        ConnectionEnd::H3Error(None) => true,
        ConnectionEnd::H3Error(Some(c)) => !(c == H3_NO_ERROR || c == 0),
        ConnectionEnd::OtherError => true,
    }
}

/// The phases of an HTTP/3 connection.
#[derive(Clone, Copy, Debug, PartialEq, Eq, Structural)]
pub enum ConnectionState {
    Handshaking,
    Accepting,
    Closed,
}

/// What happened on the connection since the last step.
#[derive(Clone, Copy, Debug, PartialEq, Eq, Structural)]
pub enum ConnectionEvent {
    /// The handshake and the control-stream setup completed.
    Established,
    /// A request and its stream were accepted.
    Accepted,
    /// Accepting reported that the peer ended the connection.
    PeerClosed,
    /// The handshake or accepting failed.
    Failed(ConnectionEnd),
}

/// What the connection task does next.
#[derive(Clone, Copy, Debug, PartialEq, Eq, Structural)]
pub enum ConnectionAction {
    /// Wait for the next request.
    AcceptNext,
    /// Serve the request just accepted, then wait for the next one.
    Serve,
    /// End the task, reporting how it ended.
    End(ConnectionEnd),
}

/// The next state of the connection and the action it calls for.
pub open spec fn connection_next(state: ConnectionState, event: ConnectionEvent) -> (ConnectionState, ConnectionAction) {
    match (state, event) {
        (ConnectionState::Handshaking, ConnectionEvent::Established) => (ConnectionState::Accepting, ConnectionAction::AcceptNext),
        (ConnectionState::Handshaking, ConnectionEvent::Failed(_)) => (ConnectionState::Closed, ConnectionAction::End(ConnectionEnd::HandshakeFailed)),
        (ConnectionState::Accepting, ConnectionEvent::Accepted) => (ConnectionState::Accepting, ConnectionAction::Serve),
        (ConnectionState::Accepting, ConnectionEvent::PeerClosed) => (ConnectionState::Closed, ConnectionAction::End(ConnectionEnd::Finished)),
        (ConnectionState::Accepting, ConnectionEvent::Failed(e)) => (ConnectionState::Closed, ConnectionAction::End(e)),
        (ConnectionState::Closed, _) => (ConnectionState::Closed, ConnectionAction::End(ConnectionEnd::Finished)),
        _ => (ConnectionState::Closed, ConnectionAction::End(ConnectionEnd::OtherError)),
    }
}

/// One step of the connection's control loop: a handshake leads to accepting
/// requests, each accepted request is served in turn, and the peer's end or a
/// failure closes the connection.
pub fn connection_step(state: ConnectionState, event: ConnectionEvent) -> (r: (ConnectionState, ConnectionAction))
    ensures
        r == connection_next(state, event),
{
    match (state, event) {
        (ConnectionState::Handshaking, ConnectionEvent::Established) => (ConnectionState::Accepting, ConnectionAction::AcceptNext),
        (ConnectionState::Handshaking, ConnectionEvent::Failed(_)) => (ConnectionState::Closed, ConnectionAction::End(ConnectionEnd::HandshakeFailed)),
        (ConnectionState::Accepting, ConnectionEvent::Accepted) => (ConnectionState::Accepting, ConnectionAction::Serve),
        (ConnectionState::Accepting, ConnectionEvent::PeerClosed) => (ConnectionState::Closed, ConnectionAction::End(ConnectionEnd::Finished)),
        (ConnectionState::Accepting, ConnectionEvent::Failed(e)) => (ConnectionState::Closed, ConnectionAction::End(e)),
        (ConnectionState::Closed, _) => (ConnectionState::Closed, ConnectionAction::End(ConnectionEnd::Finished)),
        _ => (ConnectionState::Closed, ConnectionAction::End(ConnectionEnd::OtherError)),
    }
}

/// A peer that closes with the "no error" code (or code 0) ends
/// the connection task without an error report; any other close code is
/// reported. A peer that ends the connection between requests is not
/// reported either.
pub proof fn lemma_quiet_close(code: Option<u64>)
    ensures
        connection_next(ConnectionState::Accepting, ConnectionEvent::Failed(ConnectionEnd::H3Error(code)))
            == (ConnectionState::Closed, ConnectionAction::End(ConnectionEnd::H3Error(code))),
        is_quiet_end(ConnectionEnd::H3Error(code)) <==> (code == Some(H3_NO_ERROR) || code == Some(0u64)),
        connection_next(ConnectionState::Accepting, ConnectionEvent::PeerClosed)
            == (ConnectionState::Closed, ConnectionAction::End(ConnectionEnd::Finished)),
        is_quiet_end(ConnectionEnd::Finished),
{
}

/// Once closed, a connection stays closed and serves no more requests.
pub proof fn lemma_closed_is_final(event: ConnectionEvent)
    ensures
        connection_next(ConnectionState::Closed, event).0 == ConnectionState::Closed,
        connection_next(ConnectionState::Closed, event).1 != ConnectionAction::Serve,
{
}

} // verus!
