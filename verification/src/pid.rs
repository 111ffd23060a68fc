//! The process fingerprint: two bytes made of the process identifier and,
//! inside a container, of the container's control group.
use vstd::prelude::*;

verus! {

/// The CRC-32 checksum of a byte string, as `crc32fast::hash` computes it.
pub uninterp spec fn crc32_of(bytes: Seq<u8>) -> u32;

/// Calls `crc32fast::hash`. Trusted: the result is the named checksum, a
/// function of the bytes alone.
#[verifier::external_body]
fn crc32(buff: &[u8]) -> (sum: u32)
    ensures
        sum == crc32_of(buff@),
{
    crc32fast::hash(buff)
}

/// The low sixteen bits of a number.
pub open spec fn low16(x: u32) -> u16 {
    (x % 0x1_0000) as u16
}

/// The fingerprint of a process: the low sixteen bits of its identifier,
/// which is first combined by exclusive or with the checksum of the control
/// group's name where that name has more than one byte.
pub open spec fn fingerprint(process_id: u32, cpuset: Option<Seq<u8>>) -> u16 {
    match cpuset {
        Some(name) if name.len() > 1 => low16(process_id ^ crc32_of(name)),
        _ => low16(process_id),
    }
}

/// The low sixteen bits of a process identifier combined with a checksum by
/// exclusive or.
pub fn mix(process_id: u32, checksum: u32) -> (r: u16)
    ensures
        r == low16(process_id ^ checksum),
{
    ((process_id ^ checksum) % 0x1_0000) as u16
}

/// The fingerprint of the process with this identifier. `cpuset` is what the
/// process's control group file holds, if it could be read.
pub fn get(process_id: u32, cpuset: Option<Vec<u8>>) -> (r: u16)
    ensures
        r == fingerprint(
            process_id,
            match cpuset {
                Some(name) => Some(name@),
                None => None,
            },
        ),
{
    match cpuset {
        Some(name) => {
            if name.len() > 1 {
                mix(process_id, crc32(name.as_slice()))
            } else {
                (process_id % 0x1_0000) as u16
            }
        },
        None => (process_id % 0x1_0000) as u16,
    }
}

} // verus!
