//! CRC-32 checksums of file content.
//!
//! The checksum is the CRC-32 of ISO 3309: reflected polynomial `0xEDB88320`,
//! register preset to all ones, result inverted.

use vstd::prelude::*;

verus! {

/// The reflected generator polynomial.
pub const POLYNOMIAL: u32 = 0xEDB8_8320;

/// The register after one bit was shifted out of it.
pub open spec fn shift_bit(register: u32) -> u32 {
    if register & 1 == 1 {
        (register >> 1) ^ POLYNOMIAL
    } else {
        register >> 1
    }
}

/// The register after the byte `b` was fed into it.
pub open spec fn feed_byte(register: u32, b: u8) -> u32 {
    shift_bit(
        shift_bit(
            shift_bit(shift_bit(shift_bit(shift_bit(shift_bit(shift_bit(register ^ (b as u32))))))),
        ),
    )
}

/// The register after all of `data` was fed into it, starting from all ones.
pub open spec fn crc_register(data: Seq<u8>) -> u32
    decreases data.len(),
{
    if data.len() == 0 {
        0xFFFF_FFFFu32
    } else {
        feed_byte(crc_register(data.drop_last()), data.last())
    }
}

/// The CRC-32 of `data`.
pub open spec fn crc32(data: Seq<u8>) -> u32 {
    crc_register(data) ^ 0xFFFF_FFFFu32
}

/// What a view over a file shows of its content: the content itself where the
/// view was established, nothing where it was not.
pub open spec fn seen_through(view: Option<&[u8]>) -> Seq<u8> {
    match view {
        Some(bytes) => bytes@,
        None => Seq::empty(),
    }
}

/// Calls `crc32fast::hash`.
///
/// Trusted: the crate computes the IEEE CRC-32 of the bytes, which is what
/// `crc32` defines.
#[verifier::external_body]
fn hash(data: &[u8]) -> (sum: u32)
    ensures
        sum == crc32(data@),
{
    crc32fast::hash(data)
}

/// Checksum of a file whose content was read into `content`.
pub fn crc32_rs(content: &[u8]) -> (sum: u32)
    ensures
        sum == crc32(content@),
{
    hash(content)
}

/// Checksum of a file through a read-only view over it. Where no view could
/// be established, which is the case for an empty file, the checksum is that
/// of no bytes.
pub fn crc32_mmap_rs(view: Option<&[u8]>) -> (sum: u32)
    ensures
        sum == crc32(seen_through(view)),
{
    match view {
        Some(bytes) => hash(bytes),
        None => {
            let nothing: Vec<u8> = Vec::new();
            hash(nothing.as_slice())
        },
    }
}

/// The checksum of no bytes is zero.
pub proof fn lemma_crc32_of_nothing()
    ensures
        crc32(Seq::<u8>::empty()) == 0,
{
    assert(0xFFFF_FFFFu32 ^ 0xFFFF_FFFFu32 == 0u32) by (bit_vector);
}

/// The checksum of the single letter `a` is `0xE8B7BE43`, as the standard
/// has it.
pub proof fn lemma_crc32_of_letter_a()
    ensures
        crc32(seq![0x61u8]) == 0xE8B7_BE43u32,
{
    let data = seq![0x61u8];
    assert(data.drop_last() =~= Seq::<u8>::empty());
    assert(data.last() == 0x61u8);
    assert(crc_register(data.drop_last()) == 0xFFFF_FFFFu32);
    assert(crc_register(data) == feed_byte(0xFFFF_FFFFu32, 0x61u8));
    assert(feed_byte(0xFFFF_FFFFu32, 0x61u8) ^ 0xFFFF_FFFFu32 == 0xE8B7_BE43u32) by (bit_vector);
}

/// Both ways of taking a checksum agree on every file: reading `content`
/// gives the checksum that a view over the same file gives, whether the view
/// was established and shows `content`, or was refused because the file is
/// empty.
pub proof fn lemma_checksums_agree(content: Seq<u8>, view: Option<&[u8]>)
    requires
        match view {
            Some(bytes) => bytes@ == content,
            None => content.len() == 0,
        },
    ensures
        crc32(content) == crc32(seen_through(view)),
{
    if view is None {
        assert(content =~= Seq::<u8>::empty());
    }
}

} // verus!
