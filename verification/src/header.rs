//! The fixed-layout preamble of a demo file: 11 fields read once, in a fixed
//! order, before the command stream starts. No field value is validated; any
//! byte pattern is accepted.

use vstd::prelude::*;
use crate::bytes::{u32_le, i32_le, lossy_of};
use crate::cursor::Cursor;
use crate::error::DemoError;

verus! {

/// Number of bytes in the fixed-layout preamble:
/// 8-byte text, two 32-bit integers, four 260-byte text fields, one 32-bit
/// float and three 32-bit integers.
pub const HEADER_LEN: usize = 1072;

/// Offset of the signon length field within the preamble.
pub const SIGNON_FIELD_OFFSET: usize = 1068;

/// The decoded metadata preamble. The declared totals (`ticks`, `frames`)
/// are informational only: the true high-water tick is recomputed by walking
/// the command stream. The playback time is kept as its raw IEEE-754 bit
/// pattern; turning it into a float is a presentation concern.
#[derive(Debug)]
pub struct Header {
    /// 8-byte text signature, accepted verbatim.
    pub magic: String,
    pub dem_protocol: i32,
    pub net_protocol: i32,
    pub server: String,
    pub client: String,
    pub map_name: String,
    pub dir: String,
    /// Bit pattern of the 32-bit IEEE-754 playback time in seconds.
    pub time_bits: u32,
    pub ticks: i32,
    pub frames: i32,
    /// Byte length of the signon payload immediately following the preamble.
    pub signon: i32,
}

/// `h` holds exactly the field values stored at position `p` of `b`, in the
/// fixed field order of the preamble.
pub open spec fn header_matches(h: Header, b: Seq<u8>, p: int) -> bool {
    &&& h.magic@ == lossy_of(b.subrange(p, p + 8))
    &&& h.dem_protocol as int == i32_le(b, p + 8)
    &&& h.net_protocol as int == i32_le(b, p + 12)
    &&& h.server@ == lossy_of(b.subrange(p + 16, p + 276))
    &&& h.client@ == lossy_of(b.subrange(p + 276, p + 536))
    &&& h.map_name@ == lossy_of(b.subrange(p + 536, p + 796))
    &&& h.dir@ == lossy_of(b.subrange(p + 796, p + 1056))
    &&& h.time_bits as int == u32_le(b, p + 1056)
    &&& h.ticks as int == i32_le(b, p + 1060)
    &&& h.frames as int == i32_le(b, p + 1064)
    &&& h.signon as int == i32_le(b, p + 1068)
}

/// Reads the 11 header fields in their fixed order. The whole preamble is
/// either decoded (and the cursor left just past it) or, when fewer than
/// `HEADER_LEN` bytes remain, refused without moving the cursor.
pub fn read_header(c: &mut Cursor) -> (r: Result<Header, DemoError>)
    ensures
        final(c).data@ == old(c).data@,
        old(c).pos + HEADER_LEN <= old(c).data@.len() ==> {
            &&& r matches Ok(h) && header_matches(h, old(c).data@, old(c).pos as int)
            &&& final(c).pos == old(c).pos + HEADER_LEN
        },
        old(c).pos + HEADER_LEN > old(c).data@.len() ==> {
            &&& r == Err::<Header, DemoError>(DemoError::UnexpectedEndOfData)
            &&& *final(c) == *old(c)
        },
{
    if c.pos > c.data.len() || c.data.len() - c.pos < HEADER_LEN {
        return Err(DemoError::UnexpectedEndOfData);
    }
    let magic = match c.read_string(8) {
        Ok(s) => s,
        Err(e) => {
            return Err(e);
        },
    };
    let dem_protocol = match c.read_i32() {
        Ok(v) => v,
        Err(e) => {
            return Err(e);
        },
    };
    let net_protocol = match c.read_i32() {
        Ok(v) => v,
        Err(e) => {
            return Err(e);
        },
    };
    let server = match c.read_string(260) {
        Ok(s) => s,
        Err(e) => {
            return Err(e);
        },
    };
    let client = match c.read_string(260) {
        Ok(s) => s,
        Err(e) => {
            return Err(e);
        },
    };
    let map_name = match c.read_string(260) {
        Ok(s) => s,
        Err(e) => {
            return Err(e);
        },
    };
    let dir = match c.read_string(260) {
        Ok(s) => s,
        Err(e) => {
            return Err(e);
        },
    };
    let time_bits = match c.read_u32() {
        Ok(v) => v,
        Err(e) => {
            return Err(e);
        },
    };
    let ticks = match c.read_i32() {
        Ok(v) => v,
        Err(e) => {
            return Err(e);
        },
    };
    let frames = match c.read_i32() {
        Ok(v) => v,
        Err(e) => {
            return Err(e);
        },
    };
    let signon = match c.read_i32() {
        Ok(v) => v,
        Err(e) => {
            return Err(e);
        },
    };
    Ok(Header {
        magic,
        dem_protocol,
        net_protocol,
        server,
        client,
        map_name,
        dir,
        time_bits,
        ticks,
        frames,
        signon,
    })
}

} // verus!
