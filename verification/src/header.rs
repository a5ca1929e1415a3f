//! The fixed header of a BSDIFF 4.x delta and the integers it is built from.
//!
//! A delta starts with 32 bytes: the tag `BSDIFF40`, the length of the
//! compressed control block, the length of the compressed difference block and
//! the length of the content that the delta rebuilds. Each length is an
//! eight-byte integer, least significant byte first, whose top bit is a sign
//! and whose remaining 63 bits are a magnitude.

use vstd::prelude::*;

use crate::error::DeltaError;

verus! {

/// Number of bytes in the header.
pub const HEADER_LEN: usize = 32;

/// Number of bytes in one encoded integer.
pub const FIELD_LEN: usize = 8;

/// The value of the top bit of an eight-byte word.
pub const SIGN_BIT: u64 = 0x8000_0000_0000_0000;

/// The tag that opens every delta: the ASCII text `BSDIFF40`.
pub open spec fn magic() -> Seq<u8> {
    seq![0x42u8, 0x53u8, 0x44u8, 0x49u8, 0x46u8, 0x46u8, 0x34u8, 0x30u8]
}

/// The unsigned number that the eight bytes of `b` spell, least significant
/// byte first.
pub open spec fn le_word(b: Seq<u8>) -> int
    recommends
        b.len() == 8,
{
    b[0] as int + 0x100 * (b[1] as int) + 0x1_0000 * (b[2] as int) + 0x100_0000 * (b[3] as int)
        + 0x1_0000_0000 * (b[4] as int) + 0x100_0000_0000 * (b[5] as int) + 0x1_0000_0000_0000 * (
    b[6] as int) + 0x100_0000_0000_0000 * (b[7] as int)
}

/// The signed number that the word `x` encodes: the low 63 bits are the
/// magnitude and the top bit asks for the negative. The word with only the
/// top bit set stands for the least 64-bit integer.
pub open spec fn signed_of(x: int) -> int
    recommends
        0 <= x <= u64::MAX,
{
    if x < SIGN_BIT {
        x
    } else if x == SIGN_BIT {
        -(SIGN_BIT as int)
    } else {
        SIGN_BIT - x
    }
}

/// The length that the word `x` encodes. A negative number is read as the
/// unsigned 64-bit number with the same bits, so it is never smaller than
/// `SIGN_BIT`.
pub open spec fn length_of(x: int) -> int
    recommends
        0 <= x <= u64::MAX,
{
    if signed_of(x) >= 0 {
        signed_of(x)
    } else {
        signed_of(x) + 0x1_0000_0000_0000_0000
    }
}

/// The eight bytes of `bytes` that start at `at`.
pub open spec fn field(bytes: Seq<u8>, at: int) -> Seq<u8> {
    bytes.subrange(at, at + 8)
}

/// Reads the word stored at `at`.
pub fn read_word(bytes: &[u8], at: usize) -> (x: u64)
    requires
        at + 8 <= bytes@.len(),
    ensures
        x == le_word(field(bytes@, at as int)),
{
    let b0: u64 = bytes[at] as u64;
    let b1: u64 = bytes[at + 1] as u64;
    let b2: u64 = bytes[at + 2] as u64;
    let b3: u64 = bytes[at + 3] as u64;
    let b4: u64 = bytes[at + 4] as u64;
    let b5: u64 = bytes[at + 5] as u64;
    let b6: u64 = bytes[at + 6] as u64;
    let b7: u64 = bytes[at + 7] as u64;
    b0 + 0x100 * b1 + 0x1_0000 * b2 + 0x100_0000 * b3 + 0x1_0000_0000 * b4 + 0x100_0000_0000 * b5
        + 0x1_0000_0000_0000 * b6 + 0x100_0000_0000_0000 * b7
}

/// The signed number that a word encodes.
pub fn word_to_signed(x: u64) -> (v: i64)
    ensures
        v == signed_of(x as int),
{
    if x < SIGN_BIT {
        x as i64
    } else if x == SIGN_BIT {
        i64::MIN
    } else {
        let magnitude: u64 = x - SIGN_BIT;
        -(magnitude as i64)
    }
}

/// The length that a word encodes.
pub fn word_to_length(x: u64) -> (n: u64)
    ensures
        n == length_of(x as int),
{
    if x <= SIGN_BIT {
        x
    } else {
        let below_top: u64 = u64::MAX - x;
        SIGN_BIT + below_top + 1
    }
}

/// The three lengths that a header declares.
#[derive(Clone, Copy, Debug, PartialEq, Eq, Structural)]
pub struct PatchHeader {
    /// Length of the compressed control block, which follows the header.
    pub ctrl_len: u64,
    /// Length of the compressed difference block, which follows the control
    /// block. The compressed extra block takes the rest of the delta.
    pub diff_len: u64,
    /// Declared length of the rebuilt content. It is a hint: nothing in the
    /// delta forces the rebuilt content to have this length.
    pub target_size: u64,
}

/// Whether `patch` opens with the tag.
pub open spec fn has_magic(patch: Seq<u8>) -> bool {
    patch.len() >= 8 && patch.subrange(0, 8) == magic()
}

/// The header of `patch`, if it has one: the delta holds at least 32 bytes,
/// opens with the tag, and is long enough for the header and the two blocks
/// whose lengths the header declares.
pub open spec fn patch_header(patch: Seq<u8>) -> Option<PatchHeader> {
    if patch.len() >= 32 && has_magic(patch) && 32 + length_of(le_word(field(patch, 8)))
        + length_of(le_word(field(patch, 16))) <= patch.len() {
        Some(
            PatchHeader {
                ctrl_len: length_of(le_word(field(patch, 8))) as u64,
                diff_len: length_of(le_word(field(patch, 16))) as u64,
                target_size: length_of(le_word(field(patch, 24))) as u64,
            },
        )
    } else {
        None
    }
}

impl PatchHeader {
    /// Reads the header of `patch`. A delta without a header is rejected as
    /// malformed.
    pub fn parse(patch: &[u8]) -> (r: Result<PatchHeader, DeltaError>)
        ensures
            match r {
                Ok(h) => patch_header(patch@) == Some(h) && 32 + h.ctrl_len + h.diff_len
                    <= patch@.len(),
                Err(e) => e == DeltaError::PatchFormat && patch_header(patch@) is None,
            },
    {
        if patch.len() < HEADER_LEN {
            return Err(DeltaError::PatchFormat);
        }
        if !starts_with_magic(patch) {
            return Err(DeltaError::PatchFormat);
        }
        let ctrl_len: u64 = word_to_length(read_word(patch, 8));
        let diff_len: u64 = word_to_length(read_word(patch, 16));
        let target_size: u64 = word_to_length(read_word(patch, 24));
        let room: u64 = (patch.len() - HEADER_LEN) as u64;
        if ctrl_len > room || diff_len > room - ctrl_len {
            return Err(DeltaError::PatchFormat);
        }
        Ok(PatchHeader { ctrl_len, diff_len, target_size })
    }
}

/// Whether the first eight bytes of `patch` are the tag.
pub fn starts_with_magic(patch: &[u8]) -> (b: bool)
    ensures
        b == has_magic(patch@),
{
    if patch.len() < FIELD_LEN {
        return false;
    }
    let b: bool = patch[0] == 0x42 && patch[1] == 0x53 && patch[2] == 0x44 && patch[3] == 0x49
        && patch[4] == 0x46 && patch[5] == 0x46 && patch[6] == 0x34 && patch[7] == 0x30;
    proof {
        let head = patch@.subrange(0, 8);
        if b {
            assert(head =~= magic());
        } else {
            assert(forall|i: int| 0 <= i < 8 ==> head[i] == patch@[i]);
            assert(magic()[0] == 0x42 && magic()[1] == 0x53 && magic()[2] == 0x44 && magic()[3]
                == 0x49 && magic()[4] == 0x46 && magic()[5] == 0x46 && magic()[6] == 0x34
                && magic()[7] == 0x30);
        }
    }
    b
}

} // verus!
