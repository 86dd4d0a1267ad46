use vstd::prelude::*;

use crate::convert::Error;

verus! {

/// The failure that stops the server: which endpoint failed, and why.
#[derive(Debug)]
pub enum JoinError {
    H12(Error),
    H3(Error),
}

/// Whether an endpoint is still serving.
#[derive(Clone, Copy, Debug, PartialEq, Eq, Structural)]
pub enum EndpointPhase {
    Running,
    Finished,
}

/// What the supervisor does after an endpoint has ended.
#[derive(Debug)]
pub enum Supervision {
    /// The other endpoint still runs: keep waiting for it.
    Wait,
    /// The server stops with this result; an endpoint that still runs is
    /// abandoned.
    Stop(Result<(), JoinError>),
}

/// The supervisor of the two endpoints, which serve the same handler on the
/// same address: HTTP/1.1 and HTTP/2 over TCP, HTTP/3 over QUIC. It runs both
/// and stops at the first failure of either.
pub struct Server {
    pub h12: EndpointPhase,
    pub h3: EndpointPhase,
    pub stopped: bool,
}

/// One of the two endpoints.
#[derive(Clone, Copy, Debug, PartialEq, Eq, Structural)]
pub enum Side {
    H12,
    H3,
}

/// Whether the server stops when the endpoint `side` ends, failed or not,
/// while the phases of the two endpoints are `h12` and `h3`: at the first
/// failure, or once both have ended.
pub open spec fn stops_after(h12: EndpointPhase, h3: EndpointPhase, side: Side, failed: bool) -> bool {
    failed || match side {
        Side::H12 => h3 == EndpointPhase::Finished,
        Side::H3 => h12 == EndpointPhase::Finished,
    }
}

/// The result with which the server stops when `side` ends with `result`.
pub open spec fn stop_result(side: Side, result: Result<(), Error>) -> Result<(), JoinError> {
    match result {
        Ok(()) => Ok(()),
        Err(e) => match side {
            Side::H12 => Err(JoinError::H12(e)),
            Side::H3 => Err(JoinError::H3(e)),
        },
    }
}

impl Server {
    /// The phase of the endpoint `side`.
    pub open spec fn phase(self, side: Side) -> EndpointPhase {
        match side {
            Side::H12 => self.h12,
            Side::H3 => self.h3,
        }
    }

    /// A supervisor with both endpoints running.
    pub fn new() -> (r: Self)
        ensures
            r.h12 == EndpointPhase::Running,
            r.h3 == EndpointPhase::Running,
            !r.stopped,
    {
        Server { h12: EndpointPhase::Running, h3: EndpointPhase::Running, stopped: false }
    }

    /// The endpoint `side` has ended with `result`. A failure stops the
    /// server with that failure at once, and the other endpoint is abandoned;
    /// a success stops it only once the other endpoint has ended too.
    pub fn ended(&mut self, side: Side, result: Result<(), Error>) -> (r: Supervision)
        requires
            !old(self).stopped,
            old(self).phase(side) == EndpointPhase::Running,
        ensures
            final(self).phase(side) == EndpointPhase::Finished,
            side == Side::H12 ==> final(self).h3 == old(self).h3,
            side == Side::H3 ==> final(self).h12 == old(self).h12,
            final(self).stopped == stops_after(old(self).h12, old(self).h3, side, result is Err),
            match r {
                Supervision::Wait => !final(self).stopped,
                Supervision::Stop(res) => final(self).stopped && res == stop_result(side, result),
            },
    {
        let other_finished = match side {
            Side::H12 => {
                self.h12 = EndpointPhase::Finished;
                self.h3 == EndpointPhase::Finished
            },
            Side::H3 => {
                self.h3 = EndpointPhase::Finished;
                self.h12 == EndpointPhase::Finished
            },
        };
        match result {
            Err(e) => {
                self.stopped = true;
                match side {
                    Side::H12 => Supervision::Stop(Err(JoinError::H12(e))),
                    Side::H3 => Supervision::Stop(Err(JoinError::H3(e))),
                }
            },
            Ok(()) => {
                if other_finished {
                    self.stopped = true;
                    Supervision::Stop(Ok(()))
                } else {
                    Supervision::Wait
                }
            },
        }
    }
}

/// The protocols that the TCP endpoint offers in the TLS handshake, in order
/// of preference: `h2`, then `http/1.1`.
pub fn h12_alpn_protocols() -> (r: Vec<Vec<u8>>)
    ensures
        r@.len() == 2,
        r@[0]@ == seq![104u8, 50u8],
        r@[1]@ == seq![104u8, 116u8, 116u8, 112u8, 47u8, 49u8, 46u8, 49u8],
{
    let mut r: Vec<Vec<u8>> = Vec::new();
    r.push(vec![104u8, 50u8]);
    r.push(vec![104u8, 116u8, 116u8, 112u8, 47u8, 49u8, 46u8, 49u8]);
    r
}

/// The protocol that the QUIC endpoint offers in the TLS handshake: `h3`.
pub fn h3_alpn_protocols() -> (r: Vec<Vec<u8>>)
    ensures
        r@.len() == 1,
        r@[0]@ == seq![104u8, 51u8],
{
    let mut r: Vec<Vec<u8>> = Vec::new();
    r.push(vec![104u8, 51u8]);
    r
}

/// The most early data that the QUIC endpoint accepts: no bound.
pub const H3_MAX_EARLY_DATA: u32 = 0xffff_ffff;

/// First failure wins: whichever endpoint fails, in whatever phase the
/// other one is, the server stops, and with that endpoint's failure.
pub proof fn lemma_first_failure_stops(h12: EndpointPhase, h3: EndpointPhase, side: Side, e: Error)
    ensures
        stops_after(h12, h3, side, true),
        stop_result(side, Err(e)) is Err,
        side == Side::H3 ==> stop_result(side, Err(e)) == Err::<(), JoinError>(JoinError::H3(e)),
        side == Side::H12 ==> stop_result(side, Err(e)) == Err::<(), JoinError>(JoinError::H12(e)),
{
}

/// No partial service: an endpoint's success stops the server only where the
/// other endpoint has ended too.
pub proof fn lemma_no_partial_stop(h12: EndpointPhase, h3: EndpointPhase, side: Side, failed: bool)
    requires
        stops_after(h12, h3, side, failed),
        !failed,
    ensures
        side == Side::H12 ==> h3 == EndpointPhase::Finished,
        side == Side::H3 ==> h12 == EndpointPhase::Finished,
{
}

} // verus!
