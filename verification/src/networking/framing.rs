use vstd::prelude::*;
use crate::util::text::owned;

verus! {

/// The largest packet body a client accepts, in bytes.
pub const MAX_PACKET_LEN: usize = 10_000_000;

/// The value of four bytes read most significant first.
pub open spec fn be_value(b: [u8; 4]) -> int {
    b[0] as int * 0x100_0000 + b[1] as int * 0x1_0000 + b[2] as int * 0x100 + b[3] as int
}

/// The four-byte prefix sent before a packet body: its length, most
/// significant byte first. Lengths beyond 32 bits keep their low 32 bits.
pub fn frame_header(len: usize) -> (h: [u8; 4])
    ensures
        be_value(h) == len as int % 0x1_0000_0000,
{
    let v: u64 = len as u64;
    let low: u64 = v % 0x1_0000_0000;
    let b0: u8 = (low / 0x100_0000) as u8;
    let b1: u8 = ((low / 0x1_0000) % 0x100) as u8;
    let b2: u8 = ((low / 0x100) % 0x100) as u8;
    let b3: u8 = (low % 0x100) as u8;
    let h = [b0, b1, b2, b3];
    assert(be_value(h) == low as int);
    h
}

/// The body length a received prefix announces, or an error when it is
/// beyond `MAX_PACKET_LEN`.
pub fn read_frame_length(header: [u8; 4]) -> (r: Result<usize, String>)
    ensures
        match r {
            Ok(n) => n == be_value(header) && n <= MAX_PACKET_LEN,
            Err(e) => be_value(header) > MAX_PACKET_LEN && e@ == "Packet too large"@,
        },
{
    let v: u64 = header[0] as u64 * 0x100_0000 + header[1] as u64 * 0x1_0000 + header[2] as u64 * 0x100
        + header[3] as u64;
    if v > MAX_PACKET_LEN as u64 {
        Err(owned("Packet too large"))
    } else {
        Ok(v as usize)
    }
}

/// A body of acceptable size is announced by a prefix that reads back as
/// its length.
pub proof fn law_frame_round_trip(len: usize, h: [u8; 4])
    requires
        len <= MAX_PACKET_LEN,
        be_value(h) == len as int % 0x1_0000_0000,
    ensures
        be_value(h) == len,
{
}

} // verus!
