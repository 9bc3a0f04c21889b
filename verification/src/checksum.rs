use vstd::prelude::*;

verus! {

/// One step of the reflected CRC-32 register: shift right by one, folding
/// in the reversed polynomial 0xEDB88320 where the bit shifted out is set.
pub open spec fn crc32_shift(c: u32) -> u32 {
    if c & 1 == 1 {
        (c >> 1u32) ^ 0xEDB8_8320u32
    } else {
        c >> 1u32
    }
}

/// `n` steps of the register.
pub open spec fn crc32_shifts(c: u32, n: nat) -> u32
    decreases n,
{
    if n == 0 {
        c
    } else {
        crc32_shifts(crc32_shift(c), (n - 1) as nat)
    }
}

/// The register after the bytes of `data`, starting from all ones: each
/// byte is folded into the low bits, then the register takes eight steps.
#[verifier::opaque]
pub open spec fn crc32_register(data: Seq<u8>) -> u32
    decreases data.len(),
{
    if data.len() == 0 {
        0xFFFF_FFFFu32
    } else {
        crc32_shifts(crc32_register(data.drop_last()) ^ (data.last() as u32), 8)
    }
}

/// The CRC-32 (ISO-HDLC, the checksum of 7z archives) of `data`: the
/// register after all of `data`, inverted.
pub open spec fn crc32_of(data: Seq<u8>) -> u32 {
    !crc32_register(data)
}

/// Calls `crc::Crc::<u32>::new(&crc::CRC_32_ISO_HDLC).checksum(data)`,
/// the CRC with width 32, polynomial 0x04C11DB7, initial value and final
/// xor all ones, input and output reflected; `crc32_of` states it bit by
/// bit.
#[verifier::external_body]
pub(crate) fn crc32_checksum(data: &[u8]) -> (r: u32)
    ensures
        r == crc32_of(data@),
{
    crc::Crc::<u32>::new(&crc::CRC_32_ISO_HDLC).checksum(data)
}

} // verus!
