//! One exchange with a server: the request and its nonce, the checks that a
//! response has to pass, and the four instants that a good response leaves
//! behind, with the offset and the delay that follow from them.

use crate::error::{NtpError, RequestError};
use crate::packet::{read_u32_at, Mode, NTPPacket, NTPTimestamp};
use crate::precision::ClockPrecision;
use crate::time::{Duration, Instant};
use rand::rngs::OsRng;
use rand::RngCore;
use vstd::prelude::*;

verus! {

/// The four instants of one exchange: `t1` when the request left and `t4`
/// when the response arrived, both by the local clock; `t2` when the request
/// arrived and `t3` when the response left, both by the server's clock.
#[derive(Clone, Copy, Debug, PartialEq, Eq, Structural)]
pub struct NTPTimestamps {
    pub t1: Instant,
    pub t2: Instant,
    pub t3: Instant,
    pub t4: Instant,
}

impl NTPTimestamps {
    /// The local clock did not run backwards during the exchange: `t1` is
    /// not after `t4`. `t2` and `t3` are the server's word and bound by
    /// nothing.
    pub open spec fn wf(self) -> bool {
        self.t1@ <= self.t4@
    }

    /// The offset of the server's clock from the local one, in nanoseconds:
    /// `((t2 - t1) + (t3 - t4)) / 2`, rounded toward negative infinity.
    pub open spec fn offset_nanos(self) -> int {
        ((self.t2@ - self.t1@) + (self.t3@ - self.t4@)) / 2
    }

    /// The time on the network, in nanoseconds, before any clamp:
    /// `(t4 - t1) - (t2 - t3)`.
    pub open spec fn raw_delay_nanos(self) -> int {
        (self.t4@ - self.t1@) - (self.t2@ - self.t3@)
    }

    /// The delay in nanoseconds: the time on the network, but no less than the
    /// precision of the clock that measured it.
    pub open spec fn delay_nanos(self, precision: ClockPrecision) -> int {
        if self.raw_delay_nanos() >= precision@ {
            self.raw_delay_nanos()
        } else {
            precision@
        }
    }

    /// Theta, the offset of the server's clock from the local one.
    pub fn offset(&self) -> (theta: Duration)
        ensures
            theta@ == self.offset_nanos(),
    {
        let outbound: i128 = self.t2.since(self.t1).total_nanoseconds();
        let inbound: i128 = self.t3.since(self.t4).total_nanoseconds();
        let sum: i128 = outbound + inbound;
        let half: i128 = if sum >= 0 {
            sum / 2
        } else {
            -((1 - sum) / 2)
        };
        Duration::from_total_nanoseconds(half)
    }

    /// Delta, the delay of the round trip, for a record whose delay comes out
    /// above zero: a delay at or below zero is a defect of the measurement.
    pub fn delay(&self, precision: ClockPrecision) -> (delta: Duration)
        requires
            self.delay_nanos(precision) > 0,
        ensures
            delta@ == self.delay_nanos(precision),
            delta@ > 0,
    {
        let elapsed: i128 = self.t4.since(self.t1).total_nanoseconds();
        let remote: i128 = self.t2.since(self.t3).total_nanoseconds();
        let mut delta: i128 = elapsed - remote;
        // a delay below the precision of the clock is set to that precision
        if delta < precision.nanos as i128 {
            delta = precision.nanos as i128;
        }
        Duration::from_total_nanoseconds(delta)
    }

    /// The delay of the round trip, and `None` where it does not come out
    /// above zero.
    pub fn checked_delay(&self, precision: ClockPrecision) -> (delta: Option<Duration>)
        ensures
            match delta {
                Some(d) => d@ == self.delay_nanos(precision) && d@ > 0,
                None => self.delay_nanos(precision) <= 0,
            },
    {
        let elapsed: i128 = self.t4.since(self.t1).total_nanoseconds();
        let remote: i128 = self.t2.since(self.t3).total_nanoseconds();
        if elapsed - remote > 0 || precision.nanos > 0 {
            Some(self.delay(precision))
        } else {
            None
        }
    }
}

/// The request that carries `nonce`: a client packet whose transmit timestamp
/// is the nonce.
pub open spec fn request_for(nonce: NTPTimestamp) -> NTPPacket {
    NTPPacket {
        version: 4,
        mode: Mode::Client.spec_code(),
        transmit_timestamp: nonce,
        ..NTPPacket::zeroed()
    }
}

/// What the checks make of a response to the request that carried `nonce`:
/// the packet, or the first complaint in the order of the checks.
pub open spec fn checked_response(response: Seq<u8>, nonce: NTPTimestamp) -> Result<
    NTPPacket,
    NtpError,
> {
    if response.len() < 48 {
        Err(NtpError::MalformedResponse)
    } else {
        let packet = NTPPacket::from_wire(response);
        if packet.mode != Mode::Server.spec_code() {
            Err(NtpError::UnexpectedMode(packet.mode))
        } else if packet.stratum == 0 {
            Err(NtpError::ServerUnsynchronized)
        } else if packet.transmit_timestamp.is_zero() {
            Err(NtpError::InvalidTimestamp)
        } else if packet.origin_timestamp != nonce {
            Err(NtpError::ResponseMismatch)
        } else {
            Ok(packet)
        }
    }
}

/// What the transport saw of an exchange that it carried through: the
/// instant `t1` just before the request left, the bytes that came back, and
/// the instant `t4` just after they arrived.
#[derive(Debug)]
pub struct Exchange {
    pub t1: Instant,
    pub response: Vec<u8>,
    pub t4: Instant,
}

/// The outcome of an exchange whose request carried `nonce`. Where the
/// transport failed, its account of the failure is passed on as the cause of
/// a transport error. Where it did not, the response is put through the
/// checks; `t2` and `t3` of the record are the receive and the transmit
/// timestamp of a response that passes them.
pub open spec fn round_trip_outcome(nonce: NTPTimestamp, exchange: Result<Exchange, String>) -> Result<
    NTPTimestamps,
    NtpError,
> {
    match exchange {
        Err(cause) => Err(NtpError::TransportError(cause)),
        Ok(seen) => match checked_response(seen.response@, nonce) {
            Ok(packet) => Ok(
                NTPTimestamps {
                    t1: seen.t1,
                    t2: packet.receive_timestamp.spec_to_utc(),
                    t3: packet.transmit_timestamp.spec_to_utc(),
                    t4: seen.t4,
                },
            ),
            Err(complaint) => Err(complaint),
        },
    }
}

/// A response whose origin timestamp is not the nonce of the request is
/// rejected as a mismatch, though every other field is in order.
pub proof fn lemma_mismatch_is_rejected(response: NTPPacket, nonce: NTPTimestamp)
    requires
        response.wf(),
        response.mode == Mode::Server.spec_code(),
        response.stratum != 0,
        !response.transmit_timestamp.is_zero(),
        response.origin_timestamp != nonce,
    ensures
        checked_response(response.wire(), nonce) == Err::<NTPPacket, NtpError>(
            NtpError::ResponseMismatch,
        ),
{
    crate::packet::lemma_parse_build_roundtrip(response);
}

/// A server's response that answers the request is accepted as it stands.
pub proof fn lemma_answer_is_accepted(response: NTPPacket, nonce: NTPTimestamp)
    requires
        response.wf(),
        response.mode == Mode::Server.spec_code(),
        response.stratum != 0,
        !response.transmit_timestamp.is_zero(),
        response.origin_timestamp == nonce,
    ensures
        checked_response(response.wire(), nonce) == Ok::<NTPPacket, NtpError>(response),
{
    crate::packet::lemma_parse_build_roundtrip(response);
}

/// The error of the generators of `rand`, carried through as it comes.
#[verifier::external_type_specification]
#[verifier::external_body]
pub struct ExRandError(rand::Error);

/// Calls `RngCore::try_fill_bytes` on `rand::rngs::OsRng`, which fills the
/// whole buffer from the operating system's source of random bytes or gives
/// the failure back. Nothing is claimed of the bytes.
#[verifier::external_body]
fn random_bytes() -> Result<[u8; 8], rand::Error> {
    let mut bytes = [0u8; 8];
    OsRng.try_fill_bytes(&mut bytes)?;
    Ok(bytes)
}

/// The request that carries `nonce`.
pub fn request_with_nonce(nonce: NTPTimestamp) -> (request: NTPPacket)
    ensures
        request == request_for(nonce),
        request.wf(),
{
    let mut request = NTPPacket::client();
    request.transmit_timestamp = nonce;
    request
}

/// A request with a nonce of its own: the transmit timestamp is drawn at
/// random, to be found again in the origin timestamp of the response. All
/// else is as in every request. There is no request where the operating
/// system gives no random bytes.
pub fn new_request() -> (request: Result<NTPPacket, RequestError>)
    ensures
        request matches Ok(packet) ==> packet == request_for(packet.transmit_timestamp)
            && packet.wf(),
{
    match random_bytes() {
        Ok(bytes) => {
            let drawn = bytes.as_slice();
            let seconds = read_u32_at(drawn, 0);
            let fraction = read_u32_at(drawn, 4);
            Ok(request_with_nonce(NTPTimestamp { seconds, fraction }))
        },
        Err(_) => Err(RequestError::NoRandomness),
    }
}

/// Puts a response through the checks, in this order, and stops at the first
/// that fails: 48 bytes are there; the mode is `Server`; the stratum is not
/// zero; the transmit timestamp is not all zero; the origin timestamp is the
/// nonce of the request.
pub fn check_response(response: &[u8], nonce: NTPTimestamp) -> (checked: Result<
    NTPPacket,
    NtpError,
>)
    ensures
        checked == checked_response(response@, nonce),
{
    let packet = match NTPPacket::parse(response) {
        Ok(packet) => packet,
        Err(_) => {
            return Err(NtpError::MalformedResponse);
        },
    };
    if packet.mode != Mode::Server.code() {
        return Err(NtpError::UnexpectedMode(packet.mode));
    }
    if packet.stratum == 0 {
        return Err(NtpError::ServerUnsynchronized);
    }
    if packet.transmit_timestamp.seconds == 0 && packet.transmit_timestamp.fraction == 0 {
        return Err(NtpError::InvalidTimestamp);
    }
    if packet.origin_timestamp != nonce {
        return Err(NtpError::ResponseMismatch);
    }
    Ok(packet)
}

/// Makes the record of an exchange, whose request carried `nonce`, from what
/// the transport reports of it: what it saw of the exchange, or its account
/// of why there was none.
pub fn ntp_roundtrip(nonce: NTPTimestamp, exchange: Result<Exchange, String>) -> (outcome: Result<
    NTPTimestamps,
    NtpError,
>)
    ensures
        outcome == round_trip_outcome(nonce, exchange),
        outcome matches Ok(record) ==> exchange matches Ok(seen) && (record.wf() <==> seen.t1@
            <= seen.t4@),
{
    let seen = match exchange {
        Ok(seen) => seen,
        Err(cause) => {
            return Err(NtpError::TransportError(cause));
        },
    };
    match check_response(seen.response.as_slice(), nonce) {
        Ok(packet) => {
            let t2 = packet.receive_timestamp.to_utc();
            let t3 = packet.transmit_timestamp.to_utc();
            Ok(NTPTimestamps { t1: seen.t1, t2, t3, t4: seen.t4 })
        },
        Err(complaint) => Err(complaint),
    }
}

} // verus!
