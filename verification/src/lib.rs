//! An SNTP measurement engine: the packet codec, the validation of a server's
//! response, the statistics over a set of round trips and the bookkeeping of a
//! sampling session.

pub mod error;
pub mod packet;
pub mod precision;
pub mod rfc868;
pub mod roundtrip;
pub mod session;
pub mod stats;
pub mod time;

pub use error::{NtpError, RequestError};
pub use packet::{Mode, NTPPacket, NTPTimestamp, PacketError};
pub use precision::{clock_precision, ClockPrecision};
pub use roundtrip::{
    check_response, new_request, ntp_roundtrip, request_with_nonce, Exchange, NTPTimestamps,
};
pub use session::{
    AttemptFailure, SamplingSession, SessionAction, SessionState, MAX_ATTEMPTS, NUM_TIMINGS,
};
pub use stats::NTPResults;
pub use time::{Duration, Instant, TimeVal};
