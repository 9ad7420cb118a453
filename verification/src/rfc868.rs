//! The reply of a time server of the older protocol: four bytes that count
//! the seconds since 1900-01-01, and the offset that follows from them.

use crate::packet::{read_u32_at, u32_at};
use crate::time::Duration;
use vstd::prelude::*;

verus! {

/// Seconds from 1900-01-01 to the Unix epoch.
pub const TIME_EPOCH: i64 = 2_208_988_800;

/// Why a reply gave no offset.
#[derive(Clone, Copy, Debug, PartialEq, Eq, Structural)]
pub enum TimeError {
    /// The reply is not four bytes long; the length it has instead.
    BadLength(usize),
    /// The reply counts zero seconds, as some servers send to signal an
    /// error.
    ZeroTime,
}

/// The offset of the server's clock in milliseconds, from the seconds that
/// its reply counts and the local clock in milliseconds since the Unix epoch.
pub open spec fn offset_millis(seconds: u32, now_millis: i64) -> int {
    (seconds - TIME_EPOCH) * 1000 - now_millis
}

/// What a reply over a stream gives.
pub open spec fn tcp_offset_nanos(reply: Seq<u8>, now_millis: i64) -> Result<int, TimeError> {
    if reply.len() != 4 {
        Err(TimeError::BadLength(reply.len() as usize))
    } else {
        Ok(offset_millis(u32_at(reply, 0), now_millis) * 1_000_000)
    }
}

/// What a reply in a datagram gives.
pub open spec fn udp_offset_nanos(reply: Seq<u8>, now_millis: i64) -> Result<int, TimeError> {
    if reply.len() != 4 {
        Err(TimeError::BadLength(reply.len() as usize))
    } else if u32_at(reply, 0) == 0 {
        Err(TimeError::ZeroTime)
    } else {
        Ok(offset_millis(u32_at(reply, 0), now_millis) * 1_000_000)
    }
}

fn offset_of(seconds: u32, now_millis: i64) -> (offset: Duration)
    ensures
        offset@ == offset_millis(seconds, now_millis) * 1_000_000,
{
    let server_millis: i128 = (seconds as i128 - TIME_EPOCH as i128) * 1000;
    let millis: i128 = server_millis - now_millis as i128;
    Duration::from_total_nanoseconds(millis * 1_000_000)
}

/// The offset that a reply read from a stream shows against a local clock
/// that reads `now_millis` milliseconds since the Unix epoch.
pub fn get_time_tcp(reply: &[u8], now_millis: i64) -> (offset: Result<Duration, TimeError>)
    ensures
        match offset {
            Ok(d) => tcp_offset_nanos(reply@, now_millis) == Ok::<int, TimeError>(d@),
            Err(e) => tcp_offset_nanos(reply@, now_millis) == Err::<int, TimeError>(e),
        },
{
    if reply.len() != 4 {
        return Err(TimeError::BadLength(reply.len()));
    }
    Ok(offset_of(read_u32_at(reply, 0), now_millis))
}

/// The offset that a reply received as a datagram shows against a local clock
/// that reads `now_millis` milliseconds since the Unix epoch. A count of zero
/// seconds is taken as the server's signal of an error.
pub fn get_time_udp(reply: &[u8], now_millis: i64) -> (offset: Result<Duration, TimeError>)
    ensures
        match offset {
            Ok(d) => udp_offset_nanos(reply@, now_millis) == Ok::<int, TimeError>(d@),
            Err(e) => udp_offset_nanos(reply@, now_millis) == Err::<int, TimeError>(e),
        },
{
    if reply.len() != 4 {
        return Err(TimeError::BadLength(reply.len()));
    }
    let seconds = read_u32_at(reply, 0);
    if seconds == 0 {
        return Err(TimeError::ZeroTime);
    }
    Ok(offset_of(seconds, now_millis))
}

} // verus!
