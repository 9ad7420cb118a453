//! The 48-byte protocol message and its 64-bit timestamps: the wire image of a
//! packet, `build` and `parse` against that image, and the conversion of a
//! protocol timestamp to a point on the UTC time line.

use crate::time::Instant;
use byteorder::{BigEndian, ByteOrder};
use vstd::prelude::*;
use vstd::slice::slice_subrange;

verus! {

/// The number of bytes of every message.
pub const MESSAGE_LENGTH: usize = 48;

/// The port on which servers of the protocol listen.
pub const NTP_PORT: u16 = 123;

/// Seconds from the protocol's epoch, 1900-01-01, to the Unix epoch.
pub const NTP_EPOCH: i64 = 2_208_988_800;

/// The number that four bytes spell, most significant byte first.
pub open spec fn be_u32(b0: u8, b1: u8, b2: u8, b3: u8) -> int {
    b0 * 0x100_0000 + b1 * 0x1_0000 + b2 * 0x100 + b3
}

/// The big-endian number in the four bytes of `bytes` that start at `at`.
pub open spec fn u32_at(bytes: Seq<u8>, at: int) -> u32
    recommends
        0 <= at,
        at + 4 <= bytes.len(),
{
    be_u32(bytes[at], bytes[at + 1], bytes[at + 2], bytes[at + 3]) as u32
}

/// The four bytes of `value`, most significant byte first.
pub open spec fn be_bytes(value: u32) -> Seq<u8> {
    seq![
        (value / 0x100_0000) as u8,
        (value / 0x1_0000 % 0x100) as u8,
        (value / 0x100 % 0x100) as u8,
        (value % 0x100) as u8,
    ]
}

/// The first byte of a message: the leap indicator shifted to bits 7-6, the
/// version to bits 5-3, the mode in bits 2-0, joined by bitwise or.
pub open spec fn flags_byte(leap: u8, version: u8, mode: u8) -> u8 {
    (leap << 6) | (version << 3) | mode
}

/// Reading back the bytes of a number gives the number.
pub proof fn lemma_be_bytes_roundtrip(value: u32)
    ensures
        be_bytes(value).len() == 4,
        u32_at(be_bytes(value), 0) == value,
{
    assert((value / 0x100_0000) * 0x100_0000 + (value / 0x1_0000 % 0x100) * 0x1_0000 + (value
        / 0x100 % 0x100) * 0x100 + value % 0x100 == value && value / 0x100_0000 < 0x100)
        by (bit_vector);
}

/// Spelling out the number that four bytes hold gives the four bytes.
pub proof fn lemma_u32_at_roundtrip(bytes: Seq<u8>, at: int)
    requires
        0 <= at,
        at + 4 <= bytes.len(),
    ensures
        be_bytes(u32_at(bytes, at)) == bytes.subrange(at, at + 4),
{
    lemma_be_u32_digits(bytes[at], bytes[at + 1], bytes[at + 2], bytes[at + 3]);
    assert(be_bytes(u32_at(bytes, at)) =~= bytes.subrange(at, at + 4));
}

/// Four bytes spell a number of 32 bits whose digits to the base 256 they are.
pub proof fn lemma_be_u32_digits(b0: u8, b1: u8, b2: u8, b3: u8)
    ensures
        0 <= be_u32(b0, b1, b2, b3) <= u32::MAX,
        be_u32(b0, b1, b2, b3) / 0x100_0000 == b0,
        be_u32(b0, b1, b2, b3) / 0x1_0000 % 0x100 == b1,
        be_u32(b0, b1, b2, b3) / 0x100 % 0x100 == b2,
        be_u32(b0, b1, b2, b3) % 0x100 == b3,
{
    let value: u64 = be_u32(b0, b1, b2, b3) as u64;
    assert(value / 0x100_0000 == b0 && value / 0x1_0000 % 0x100 == b1 && value / 0x100 % 0x100
        == b2 && value % 0x100 == b3) by (bit_vector)
        requires
            value == (b0 as u64) * 0x100_0000 + (b1 as u64) * 0x1_0000 + (b2 as u64) * 0x100 + (
            b3 as u64),
    ;
}

/// With each field inside its bits, the first byte is
/// `leap * 64 + version * 8 + mode`, and each field can be read back from it.
pub proof fn lemma_flags_byte(leap: u8, version: u8, mode: u8)
    requires
        leap < 4,
        version < 8,
        mode < 8,
    ensures
        flags_byte(leap, version, mode) == leap * 64 + version * 8 + mode,
        flags_byte(leap, version, mode) / 64 == leap,
        flags_byte(leap, version, mode) / 8 % 8 == version,
        flags_byte(leap, version, mode) % 8 == mode,
{
    assert(leap < 4 && version < 8 && mode < 8 ==> ((leap << 6) | (version << 3) | mode) == leap
        * 64 + version * 8 + mode) by (bit_vector);
}

/// Calls `byteorder::BigEndian::read_u32`, which takes the first four bytes of
/// the slice as a big-endian number and panics on a shorter slice. Trusted:
/// the result is the number that those four bytes spell.
#[verifier::external_body]
fn read_u32_be(buf: &[u8]) -> (value: u32)
    requires
        buf@.len() >= 4,
    ensures
        value == be_u32(buf@[0], buf@[1], buf@[2], buf@[3]),
{
    BigEndian::read_u32(buf)
}

/// The big-endian number in the four bytes of `input` that start at `at`.
pub(crate) fn read_u32_at(input: &[u8], at: usize) -> (value: u32)
    requires
        at + 4 <= input@.len() <= usize::MAX,
    ensures
        value == u32_at(input@, at as int),
{
    read_u32_be(slice_subrange(input, at, at + 4))
}

/// Appends the four bytes of `value`, most significant byte first.
fn push_u32_be(data: &mut Vec<u8>, value: u32)
    ensures
        final(data)@ == old(data)@ + be_bytes(value),
{
    assert((value >> 24) as u8 == value / 0x100_0000) by (bit_vector);
    assert((value >> 16) as u8 == value / 0x1_0000 % 0x100) by (bit_vector);
    assert((value >> 8) as u8 == value / 0x100 % 0x100) by (bit_vector);
    assert(value as u8 == value % 0x100) by (bit_vector);
    data.push((value >> 24) as u8);
    data.push((value >> 16) as u8);
    data.push((value >> 8) as u8);
    data.push(value as u8);
    assert(data@ =~= old(data)@ + be_bytes(value));
}

/// A protocol timestamp: seconds since 1900-01-01 and a fraction of a second
/// in units of 2^-32 s. Two timestamps are equal when both fields are.
#[derive(Clone, Copy, Debug, PartialEq, Eq, Structural, Hash)]
pub struct NTPTimestamp {
    pub seconds: u32,
    pub fraction: u32,
}

/// The nanoseconds that a fraction of a second stands for: `fraction * 10^9 /
/// 2^32`, rounded to the nearest whole number, a half upward.
pub open spec fn fraction_nanos(fraction: u32) -> int {
    (fraction * 1_000_000_000 + 0x8000_0000) / 0x1_0000_0000
}

impl Default for NTPTimestamp {
    fn default() -> (ts: NTPTimestamp)
        ensures
            ts == (NTPTimestamp { seconds: 0, fraction: 0 }),
    {
        NTPTimestamp { seconds: 0, fraction: 0 }
    }
}

impl NTPTimestamp {
    /// The eight bytes of the timestamp on the wire.
    pub open spec fn wire(self) -> Seq<u8> {
        be_bytes(self.seconds) + be_bytes(self.fraction)
    }

    /// The timestamp in the eight bytes of `bytes` that start at `at`.
    pub open spec fn from_wire(bytes: Seq<u8>, at: int) -> NTPTimestamp
        recommends
            0 <= at,
            at + 8 <= bytes.len(),
    {
        NTPTimestamp { seconds: u32_at(bytes, at), fraction: u32_at(bytes, at + 4) }
    }

    /// The timestamp as nanoseconds since the Unix epoch.
    pub open spec fn utc_nanos(self) -> int {
        (self.seconds - NTP_EPOCH) * 1_000_000_000 + fraction_nanos(self.fraction)
    }

    pub open spec fn is_zero(self) -> bool {
        self.seconds == 0 && self.fraction == 0
    }

    pub open spec fn spec_to_utc(&self) -> Instant {
        Instant { unix_nanos: self.utc_nanos() as i64 }
    }

    /// The point on the UTC time line that the timestamp names. A timestamp
    /// without a fraction names a whole second.
    #[verifier::when_used_as_spec(spec_to_utc)]
    pub fn to_utc(&self) -> (t: Instant)
        ensures
            t == self.spec_to_utc(),
            t@ == self.utc_nanos(),
            self.fraction == 0 ==> t@ % 1_000_000_000 == 0,
    {
        let seconds: i64 = self.seconds as i64 - NTP_EPOCH;
        let nanos: u64 = (self.fraction as u64 * 1_000_000_000 + 0x8000_0000) / 0x1_0000_0000;
        Instant::from_unix_nanos(seconds * 1_000_000_000 + nanos as i64)
    }

    fn read(input: &[u8], at: usize) -> (ts: NTPTimestamp)
        requires
            at + 8 <= input@.len() <= usize::MAX,
        ensures
            ts == NTPTimestamp::from_wire(input@, at as int),
    {
        NTPTimestamp { seconds: read_u32_at(input, at), fraction: read_u32_at(input, at + 4) }
    }

    fn write(&self, data: &mut Vec<u8>)
        ensures
            final(data)@ == old(data)@ + self.wire(),
    {
        push_u32_be(data, self.seconds);
        push_u32_be(data, self.fraction);
        assert(data@ =~= old(data)@ + self.wire());
    }
}

impl From<NTPTimestamp> for Instant {
    fn from(ntp: NTPTimestamp) -> (t: Instant) {
        ntp.to_utc()
    }
}

impl vstd::std_specs::convert::FromSpecImpl<NTPTimestamp> for Instant {
    open spec fn obeys_from_spec() -> bool {
        true
    }

    open spec fn from_spec(ntp: NTPTimestamp) -> Instant {
        ntp.spec_to_utc()
    }
}

/// The association modes of the protocol, in the order of their codes.
#[derive(Clone, Copy, Debug, PartialEq, Eq, Structural)]
pub enum Mode {
    Reserved,
    SymmetricActive,
    SymmetricPassive,
    Client,
    Server,
    Broadcast,
    NTPControlMessage,
    ReservedPrivate,
}

impl Mode {
    pub open spec fn spec_code(self) -> u8 {
        match self {
            Mode::Reserved => 0,
            Mode::SymmetricActive => 1,
            Mode::SymmetricPassive => 2,
            Mode::Client => 3,
            Mode::Server => 4,
            Mode::Broadcast => 5,
            Mode::NTPControlMessage => 6,
            Mode::ReservedPrivate => 7,
        }
    }

    /// The three-bit code of the mode on the wire.
    #[verifier::when_used_as_spec(spec_code)]
    pub fn code(self) -> (code: u8)
        ensures
            code == self.spec_code(),
            code < 8,
    {
        match self {
            Mode::Reserved => 0,
            Mode::SymmetricActive => 1,
            Mode::SymmetricPassive => 2,
            Mode::Client => 3,
            Mode::Server => 4,
            Mode::Broadcast => 5,
            Mode::NTPControlMessage => 6,
            Mode::ReservedPrivate => 7,
        }
    }
}

/// Why bytes were not taken as a packet.
#[derive(Clone, Copy, Debug, PartialEq, Eq, Structural)]
pub enum PacketError {
    /// Fewer than 48 bytes were there to read.
    MalformedPacket,
}

/// One protocol message.
#[derive(Clone, Copy, Debug, PartialEq, Eq, Structural)]
pub struct NTPPacket {
    pub leap: u8,
    pub version: u8,
    pub mode: u8,
    pub stratum: u8,
    pub poll: u8,
    pub precision: u8,
    pub root_delay: u32,
    pub root_dispersion: u32,
    pub reference_id: u32,
    pub reference_timestamp: NTPTimestamp,
    pub origin_timestamp: NTPTimestamp,
    pub receive_timestamp: NTPTimestamp,
    pub transmit_timestamp: NTPTimestamp,
}

impl Default for NTPPacket {
    fn default() -> (packet: NTPPacket)
        ensures
            packet == NTPPacket::zeroed(),
    {
        let zero = NTPTimestamp { seconds: 0, fraction: 0 };
        NTPPacket {
            leap: 0,
            version: 0,
            mode: 0,
            stratum: 0,
            poll: 0,
            precision: 0,
            root_delay: 0,
            root_dispersion: 0,
            reference_id: 0,
            reference_timestamp: zero,
            origin_timestamp: zero,
            receive_timestamp: zero,
            transmit_timestamp: zero,
        }
    }
}

impl NTPPacket {
    /// The packet with every field zero.
    pub open spec fn zeroed() -> NTPPacket {
        NTPPacket {
            leap: 0,
            version: 0,
            mode: 0,
            stratum: 0,
            poll: 0,
            precision: 0,
            root_delay: 0,
            root_dispersion: 0,
            reference_id: 0,
            reference_timestamp: NTPTimestamp { seconds: 0, fraction: 0 },
            origin_timestamp: NTPTimestamp { seconds: 0, fraction: 0 },
            receive_timestamp: NTPTimestamp { seconds: 0, fraction: 0 },
            transmit_timestamp: NTPTimestamp { seconds: 0, fraction: 0 },
        }
    }

    /// The leap indicator fits in two bits, version and mode in three each.
    pub open spec fn wf(self) -> bool {
        self.leap < 4 && self.version < 8 && self.mode < 8
    }

    /// The 48 bytes of the packet on the wire.
    pub open spec fn wire(self) -> Seq<u8> {
        seq![flags_byte(self.leap, self.version, self.mode), self.stratum, self.poll, self.precision]
            + be_bytes(self.root_delay) + be_bytes(self.root_dispersion) + be_bytes(
            self.reference_id,
        ) + self.reference_timestamp.wire() + self.origin_timestamp.wire()
            + self.receive_timestamp.wire() + self.transmit_timestamp.wire()
    }

    /// The packet that the first 48 bytes of `bytes` hold.
    pub open spec fn from_wire(bytes: Seq<u8>) -> NTPPacket
        recommends
            bytes.len() >= 48,
    {
        NTPPacket {
            leap: bytes[0] / 64,
            version: bytes[0] / 8 % 8,
            mode: bytes[0] % 8,
            stratum: bytes[1],
            poll: bytes[2],
            precision: bytes[3],
            root_delay: u32_at(bytes, 4),
            root_dispersion: u32_at(bytes, 8),
            reference_id: u32_at(bytes, 12),
            reference_timestamp: NTPTimestamp::from_wire(bytes, 16),
            origin_timestamp: NTPTimestamp::from_wire(bytes, 24),
            receive_timestamp: NTPTimestamp::from_wire(bytes, 32),
            transmit_timestamp: NTPTimestamp::from_wire(bytes, 40),
        }
    }

    /// What `parse` makes of `bytes`.
    pub open spec fn parse_spec(bytes: Seq<u8>) -> Result<NTPPacket, PacketError> {
        if bytes.len() < 48 {
            Err(PacketError::MalformedPacket)
        } else {
            Ok(NTPPacket::from_wire(bytes))
        }
    }

    /// Reads a packet from the first 48 bytes of `input`, and fails where
    /// there are fewer.
    pub fn parse(input: &[u8]) -> (parsed: Result<NTPPacket, PacketError>)
        ensures
            parsed == NTPPacket::parse_spec(input@),
            parsed matches Ok(packet) ==> packet.wf(),
    {
        if input.len() < MESSAGE_LENGTH {
            return Err(PacketError::MalformedPacket);
        }
        let li_vn_mode = input[0];
        assert((li_vn_mode >> 6) & 0b11 == li_vn_mode / 64) by (bit_vector);
        assert((li_vn_mode >> 3) & 0b111 == li_vn_mode / 8 % 8) by (bit_vector);
        assert(li_vn_mode & 0b111 == li_vn_mode % 8) by (bit_vector);
        Ok(
            NTPPacket {
                leap: (li_vn_mode >> 6) & 0b11,
                version: (li_vn_mode >> 3) & 0b111,
                mode: li_vn_mode & 0b111,
                stratum: input[1],
                poll: input[2],
                precision: input[3],
                root_delay: read_u32_at(input, 4),
                root_dispersion: read_u32_at(input, 8),
                reference_id: read_u32_at(input, 12),
                reference_timestamp: NTPTimestamp::read(input, 16),
                origin_timestamp: NTPTimestamp::read(input, 24),
                receive_timestamp: NTPTimestamp::read(input, 32),
                transmit_timestamp: NTPTimestamp::read(input, 40),
            },
        )
    }

    /// A request as a client sends it: version 4, mode `Client`, all else zero.
    pub fn client() -> (packet: NTPPacket)
        ensures
            packet == (NTPPacket { version: 4, mode: Mode::Client.code(), ..NTPPacket::zeroed() }),
            packet.wf(),
    {
        let zero = NTPTimestamp { seconds: 0, fraction: 0 };
        NTPPacket {
            leap: 0,
            version: 4,
            mode: Mode::Client.code(),
            stratum: 0,
            poll: 0,
            precision: 0,
            root_delay: 0,
            root_dispersion: 0,
            reference_id: 0,
            reference_timestamp: zero,
            origin_timestamp: zero,
            receive_timestamp: zero,
            transmit_timestamp: zero,
        }
    }

    /// The packet as the 48 bytes that go on the wire.
    pub fn build(&self) -> (data: Vec<u8>)
        ensures
            data@ == self.wire(),
            data@.len() == 48,
    {
        let mut data: Vec<u8> = Vec::with_capacity(MESSAGE_LENGTH);
        let li_vn_mode: u8 = self.leap << 6 | self.version << 3 | self.mode;
        data.push(li_vn_mode);
        data.push(self.stratum);
        data.push(self.poll);
        data.push(self.precision);
        push_u32_be(&mut data, self.root_delay);
        push_u32_be(&mut data, self.root_dispersion);
        push_u32_be(&mut data, self.reference_id);
        self.reference_timestamp.write(&mut data);
        self.origin_timestamp.write(&mut data);
        self.receive_timestamp.write(&mut data);
        self.transmit_timestamp.write(&mut data);
        assert(data@ =~= self.wire());
        data
    }
}

/// Where each field of a packet lies in its wire image.
pub proof fn lemma_wire_layout(packet: NTPPacket)
    ensures
        packet.wire().len() == 48,
        packet.wire()[0] == flags_byte(packet.leap, packet.version, packet.mode),
        packet.wire()[1] == packet.stratum,
        packet.wire()[2] == packet.poll,
        packet.wire()[3] == packet.precision,
        packet.wire().subrange(4, 8) == be_bytes(packet.root_delay),
        packet.wire().subrange(8, 12) == be_bytes(packet.root_dispersion),
        packet.wire().subrange(12, 16) == be_bytes(packet.reference_id),
        packet.wire().subrange(16, 24) == packet.reference_timestamp.wire(),
        packet.wire().subrange(24, 32) == packet.origin_timestamp.wire(),
        packet.wire().subrange(32, 40) == packet.receive_timestamp.wire(),
        packet.wire().subrange(40, 48) == packet.transmit_timestamp.wire(),
{
    let bytes = packet.wire();
    assert(bytes.subrange(4, 8) =~= be_bytes(packet.root_delay));
    assert(bytes.subrange(8, 12) =~= be_bytes(packet.root_dispersion));
    assert(bytes.subrange(12, 16) =~= be_bytes(packet.reference_id));
    assert(bytes.subrange(16, 24) =~= packet.reference_timestamp.wire());
    assert(bytes.subrange(24, 32) =~= packet.origin_timestamp.wire());
    assert(bytes.subrange(32, 40) =~= packet.receive_timestamp.wire());
    assert(bytes.subrange(40, 48) =~= packet.transmit_timestamp.wire());
}

/// A packet whose fields lie inside their bits is read back from its own
/// bytes unchanged.
pub proof fn lemma_parse_build_roundtrip(packet: NTPPacket)
    requires
        packet.wf(),
    ensures
        packet.wire().len() == 48,
        NTPPacket::parse_spec(packet.wire()) == Ok::<NTPPacket, PacketError>(packet),
{
    let bytes = packet.wire();
    lemma_wire_layout(packet);
    lemma_flags_byte(packet.leap, packet.version, packet.mode);
    lemma_u32_at_window(bytes, 4);
    lemma_be_bytes_roundtrip(packet.root_delay);
    lemma_u32_at_window(bytes, 8);
    lemma_be_bytes_roundtrip(packet.root_dispersion);
    lemma_u32_at_window(bytes, 12);
    lemma_be_bytes_roundtrip(packet.reference_id);
    lemma_timestamp_window(bytes, 16);
    lemma_timestamp_roundtrip(packet.reference_timestamp);
    lemma_timestamp_window(bytes, 24);
    lemma_timestamp_roundtrip(packet.origin_timestamp);
    lemma_timestamp_window(bytes, 32);
    lemma_timestamp_roundtrip(packet.receive_timestamp);
    lemma_timestamp_window(bytes, 40);
    lemma_timestamp_roundtrip(packet.transmit_timestamp);
}

/// The first 48 bytes of any input are the wire image of the packet that is
/// read from them: reading loses nothing.
pub proof fn lemma_build_parse_roundtrip(bytes: Seq<u8>)
    requires
        bytes.len() >= 48,
    ensures
        NTPPacket::from_wire(bytes).wf(),
        NTPPacket::from_wire(bytes).wire() == bytes.subrange(0, 48),
{
    let packet = NTPPacket::from_wire(bytes);
    let image = packet.wire();
    lemma_wire_layout(packet);
    lemma_flags_split(bytes[0]);
    lemma_u32_at_roundtrip(bytes, 4);
    lemma_u32_at_roundtrip(bytes, 8);
    lemma_u32_at_roundtrip(bytes, 12);
    lemma_timestamp_wire(bytes, 16);
    lemma_timestamp_wire(bytes, 24);
    lemma_timestamp_wire(bytes, 32);
    lemma_timestamp_wire(bytes, 40);
    assert forall|i: int| 0 <= i < 48 implies image[i] == bytes[i] by {
        if 4 <= i < 8 {
            assert(image[i] == image.subrange(4, 8)[i - 4]);
            assert(bytes[i] == bytes.subrange(4, 8)[i - 4]);
        } else if 8 <= i < 12 {
            assert(image[i] == image.subrange(8, 12)[i - 8]);
            assert(bytes[i] == bytes.subrange(8, 12)[i - 8]);
        } else if 12 <= i < 16 {
            assert(image[i] == image.subrange(12, 16)[i - 12]);
            assert(bytes[i] == bytes.subrange(12, 16)[i - 12]);
        } else if 16 <= i < 24 {
            assert(image[i] == image.subrange(16, 24)[i - 16]);
            assert(bytes[i] == bytes.subrange(16, 24)[i - 16]);
        } else if 24 <= i < 32 {
            assert(image[i] == image.subrange(24, 32)[i - 24]);
            assert(bytes[i] == bytes.subrange(24, 32)[i - 24]);
        } else if 32 <= i < 40 {
            assert(image[i] == image.subrange(32, 40)[i - 32]);
            assert(bytes[i] == bytes.subrange(32, 40)[i - 32]);
        } else if 40 <= i {
            assert(image[i] == image.subrange(40, 48)[i - 40]);
            assert(bytes[i] == bytes.subrange(40, 48)[i - 40]);
        }
    }
    assert(image =~= bytes.subrange(0, 48));
}

/// A timestamp is read back from its own eight bytes unchanged.
pub proof fn lemma_timestamp_roundtrip(ts: NTPTimestamp)
    ensures
        ts.wire().len() == 8,
        NTPTimestamp::from_wire(ts.wire(), 0) == ts,
{
    lemma_be_bytes_roundtrip(ts.seconds);
    lemma_be_bytes_roundtrip(ts.fraction);
}

/// The eight bytes that a timestamp is read from are its wire image.
pub proof fn lemma_timestamp_wire(bytes: Seq<u8>, at: int)
    requires
        0 <= at,
        at + 8 <= bytes.len(),
    ensures
        NTPTimestamp::from_wire(bytes, at).wire() == bytes.subrange(at, at + 8),
{
    lemma_u32_at_roundtrip(bytes, at);
    lemma_u32_at_roundtrip(bytes, at + 4);
    assert(NTPTimestamp::from_wire(bytes, at).wire() =~= bytes.subrange(at, at + 4)
        + bytes.subrange(at + 4, at + 8));
    assert(bytes.subrange(at, at + 4) + bytes.subrange(at + 4, at + 8) =~= bytes.subrange(
        at,
        at + 8,
    ));
}

/// The three fields that are read from a first byte pack into that byte.
proof fn lemma_flags_split(first: u8)
    ensures
        first / 64 < 4,
        first / 8 % 8 < 8,
        first % 8 < 8,
        flags_byte(first / 64, first / 8 % 8, first % 8) == first,
{
    assert(first / 64 < 4 && first / 8 % 8 < 8 && first % 8 < 8 && (((first / 64) << 6) | ((first
        / 8 % 8) << 3) | (first % 8)) == first) by (bit_vector);
}

proof fn lemma_u32_at_window(bytes: Seq<u8>, at: int)
    requires
        0 <= at,
        at + 4 <= bytes.len(),
    ensures
        u32_at(bytes, at) == u32_at(bytes.subrange(at, at + 4), 0),
{
}

proof fn lemma_timestamp_window(bytes: Seq<u8>, at: int)
    requires
        0 <= at,
        at + 8 <= bytes.len(),
    ensures
        NTPTimestamp::from_wire(bytes, at) == NTPTimestamp::from_wire(bytes.subrange(at, at + 8), 0),
{
}

} // verus!
