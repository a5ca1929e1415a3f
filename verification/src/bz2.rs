//! Decompression of bzip2 streams, in memory and into a file.

use vstd::prelude::*;

use crate::error::DeltaError;
use crate::image::{overwritten, resized, FileImage};

verus! {

/// What the bzip2 decoder reads from the compressed bytes `data`: the
/// decompressed bytes of the first stream in `data`, or nothing where the
/// decoder reports an error.
pub uninterp spec fn bz2_decoded(data: Seq<u8>) -> Option<Seq<u8>>;

/// Runs `bzip2::read::BzDecoder` over `data` until it reports the end of its
/// output or an error.
///
/// Trusted: the decoder's output depends on `data` alone, so it is the value
/// that `bz2_decoded` names, and the call fails exactly where that value is
/// `None`.
#[verifier::external_body]
fn read_bz2(data: &[u8]) -> (r: Result<Vec<u8>, std::io::Error>)
    ensures
        match r {
            Ok(bytes) => bz2_decoded(data@) == Some(bytes@),
            Err(_) => bz2_decoded(data@) is None,
        },
{
    let mut bytes: Vec<u8> = Vec::new();
    let mut decoder = bzip2::read::BzDecoder::new(data);
    std::io::Read::read_to_end(&mut decoder, &mut bytes)?;
    Ok(bytes)
}

/// Decompresses the bzip2 stream `data`. A stream that the decoder rejects is
/// reported as `Decompression`.
pub fn decompress(data: &[u8]) -> (r: Result<Vec<u8>, DeltaError>)
    ensures
        match r {
            Ok(bytes) => bz2_decoded(data@) == Some(bytes@),
            Err(e) => e == DeltaError::Decompression && bz2_decoded(data@) is None,
        },
{
    match read_bz2(data) {
        Ok(bytes) => Ok(bytes),
        Err(_) => Err(DeltaError::Decompression),
    }
}

/// What a file holding `file` holds after it was set to `size` bytes and the
/// bzip2 stream `data` was decompressed into it from its start. A stream that
/// the decoder rejects leaves the resized file without a byte written. No
/// byte behind the decompressed ones is removed.
pub open spec fn decompressed_into(file: Seq<u8>, data: Seq<u8>, size: nat) -> Seq<u8> {
    match bz2_decoded(data) {
        Some(bytes) => overwritten(resized(file, size), bytes),
        None => resized(file, size),
    }
}

/// Sets the file `target` to `size` bytes, decompresses the bzip2 stream
/// `source` into it from its start, and returns the number of bytes written.
pub fn bz2_decompress_rs(source: &[u8], target: &mut FileImage, size: u64) -> (r: Result<
    u64,
    DeltaError,
>)
    requires
        old(target).wf(),
    ensures
        final(target).wf(),
        final(target)@ == decompressed_into(old(target)@, source@, size as nat),
        match r {
            Ok(written) => bz2_decoded(source@) is Some && written == bz2_decoded(
                source@,
            )->0.len(),
            Err(e) => e == DeltaError::Decompression && bz2_decoded(source@) is None,
        },
{
    target.set_len(size);
    match decompress(source) {
        Ok(bytes) => {
            target.write_at_start(bytes.as_slice());
            Ok(bytes.len() as u64)
        },
        Err(e) => Err(e),
    }
}

} // verus!
