//! Trusted-timestamp packet handling.
//!
//! The tool refuses to produce an image without a timestamp from an external
//! time authority. The network exchange itself is I/O and lives outside this
//! library; here are the verified halves of it: building the 48-byte client
//! request and decoding the authority's response into Unix seconds.

use vstd::prelude::*;

verus! {

/// An SNTP packet is exactly 48 bytes.
pub const NTP_PACKET_LEN: usize = 48;

/// Seconds between the NTP epoch (1900-01-01) and the Unix epoch (1970-01-01).
pub const NTP_TO_UNIX_SECONDS: u64 = 2208988800;

/// Why a response from the time authority was rejected.
#[derive(Clone, Copy, PartialEq, Eq, Structural, Debug)]
pub enum NtpError {
    /// The datagram was not exactly 48 bytes long.
    InvalidSize,
    /// The transmit timestamp predates the Unix epoch.
    InvalidTimestamp,
}

impl NtpError {
    /// A diagnostic line for the operator.
    pub fn message(&self) -> (r: String)
        ensures
            *self == NtpError::InvalidSize ==> r@ == "Invalid NTP response size"@,
            *self == NtpError::InvalidTimestamp ==> r@ == "Invalid NTP timestamp"@,
    {
        match self {
            NtpError::InvalidSize => "Invalid NTP response size".to_owned(),
            NtpError::InvalidTimestamp => "Invalid NTP timestamp".to_owned(),
        }
    }
}

/// The big-endian 32-bit value held by four bytes.
pub open spec fn be_u32_of(b0: u8, b1: u8, b2: u8, b3: u8) -> u32 {
    (b0 as nat * 0x1000000 + b1 as nat * 0x10000 + b2 as nat * 0x100 + b3 as nat) as u32
}

/// Reads a big-endian 32-bit integer from four bytes.
pub fn be_u32(b0: u8, b1: u8, b2: u8, b3: u8) -> (r: u32)
    ensures
        r == be_u32_of(b0, b1, b2, b3),
{
    (b0 as u32) * 0x1000000 + (b1 as u32) * 0x10000 + (b2 as u32) * 0x100 + (b3 as u32)
}

/// The client request: leap indicator 0, version 4, mode 3 (client) in the
/// first byte, all other fields zero.
pub fn build_ntp_request() -> (r: Vec<u8>)
    ensures
        r@.len() == NTP_PACKET_LEN,
        r@[0] == 0x23u8,
        forall|i: int| 1 <= i < NTP_PACKET_LEN ==> r@[i] == 0u8,
{
    let mut v: Vec<u8> = Vec::new();
    v.push(0x23u8);
    let mut i: usize = 1;
    while i < NTP_PACKET_LEN
        invariant
            1 <= i <= NTP_PACKET_LEN,
            v@.len() == i,
            v@[0] == 0x23u8,
            forall|j: int| 1 <= j < i ==> v@[j] == 0u8,
        decreases NTP_PACKET_LEN - i,
    {
        v.push(0u8);
        i = i + 1;
    }
    v
}

/// The Unix seconds carried by a response buffer, assuming it is valid:
/// bytes 40..44 hold the big-endian transmit-timestamp seconds since 1900.
pub open spec fn spec_unix_seconds(buf: Seq<u8>) -> u64 {
    (be_u32_of(buf[40], buf[41], buf[42], buf[43]) - NTP_TO_UNIX_SECONDS) as u64
}

/// Decodes a datagram received from the time authority. `size` is how many
/// bytes the network delivered into `buf`.
///
/// The response is accepted exactly when it is a full 48-byte packet whose
/// transmit timestamp does not predate the Unix epoch; the result is then the
/// timestamp converted to Unix seconds.
pub fn parse_ntp_response(buf: &[u8], size: usize) -> (r: Result<u64, NtpError>)
    requires
        size <= buf@.len(),
    ensures
        size != NTP_PACKET_LEN ==> r == Result::<u64, NtpError>::Err(NtpError::InvalidSize),
        size == NTP_PACKET_LEN && be_u32_of(buf@[40], buf@[41], buf@[42], buf@[43])
            < NTP_TO_UNIX_SECONDS ==> r == Result::<u64, NtpError>::Err(
            NtpError::InvalidTimestamp,
        ),
        size == NTP_PACKET_LEN && be_u32_of(buf@[40], buf@[41], buf@[42], buf@[43])
            >= NTP_TO_UNIX_SECONDS ==> r == Result::<u64, NtpError>::Ok(spec_unix_seconds(buf@)),
{
    if size != NTP_PACKET_LEN {
        return Err(NtpError::InvalidSize);
    }
    let ntp_seconds = be_u32(buf[40], buf[41], buf[42], buf[43]) as u64;
    if ntp_seconds < NTP_TO_UNIX_SECONDS {
        return Err(NtpError::InvalidTimestamp);
    }
    Ok(ntp_seconds - NTP_TO_UNIX_SECONDS)
}

} // verus!
