//! Applying a delta to a file in place.
//!
//! The steps are taken in a fixed order. The file is grown before a view is
//! laid over it, since a view cannot reach past the end of its file. The new
//! content is rebuilt from the bytes that the file held before it grew, and
//! nothing of the old content is overwritten until the new content is whole
//! and known to fit. The file is cut last.

use vstd::prelude::*;

use crate::error::DeltaError;
use crate::header::{field, le_word, length_of, patch_header};
use crate::image::{resized, zeros, FileImage};
use crate::patch::{agrees, decode, decoded, mapped_len, plan_resize, settle};

verus! {

/// Room in the view that is laid over a file holding `file` before `patch`
/// is applied to it. Only a delta with a header asks for a view.
pub open spec fn room_for(file: Seq<u8>, patch: Seq<u8>) -> int {
    match patch_header(patch) {
        Some(h) => mapped_len(file.len() as int, h.target_size as int),
        None => file.len() as int,
    }
}

/// What applying `patch` in place to a file holding `file` returns: the
/// rebuilt content, or the reason for which the file was not rewritten.
///
/// A delta without a header is malformed. A view that would be larger than
/// memory can address cannot be established. A delta that cannot be decoded
/// fails as the decoder says. Rebuilt content that is longer than the view is
/// refused.
pub open spec fn patch_result(file: Seq<u8>, patch: Seq<u8>) -> Result<Seq<u8>, DeltaError> {
    if patch_header(patch) is None {
        Err(DeltaError::PatchFormat)
    } else if room_for(file, patch) > usize::MAX {
        Err(DeltaError::Mapping)
    } else {
        match decoded(patch, file) {
            Ok(target) => if target.len() > room_for(file, patch) {
                Err(DeltaError::SizeExceeded)
            } else {
                Ok(target)
            },
            Err(e) => Err(e),
        }
    }
}

/// What a file holding `file` holds after `patch` was applied to it in place.
///
/// A delta without a header leaves the file as it was. Any other failure
/// leaves the file grown to the length of the view, with its old content in
/// front. On success the file holds the rebuilt content, followed by zero
/// bytes up to the length of the view where the content is neither shorter
/// than the original nor as long as the view.
pub open spec fn patched_content(file: Seq<u8>, patch: Seq<u8>) -> Seq<u8> {
    match patch_result(file, patch) {
        Ok(target) => if target.len() < file.len() {
            target
        } else {
            target + zeros((room_for(file, patch) - target.len()) as nat)
        },
        Err(_) => resized(file, room_for(file, patch) as nat),
    }
}

/// Applies `patch` to the file `source` in place and returns the rebuilt
/// content.
pub fn bspatch_rs(source: &mut FileImage, patch: &[u8]) -> (r: Result<Vec<u8>, DeltaError>)
    requires
        old(source).wf(),
    ensures
        final(source).wf(),
        agrees(r, patch_result(old(source)@, patch@)),
        final(source)@ == patched_content(old(source)@, patch@),
{
    let original_size: u64 = source.len();
    let plan = match plan_resize(patch, original_size) {
        Ok(plan) => plan,
        Err(e) => {
            assert(resized(source@, source@.len()) =~= source@);
            return Err(e);
        },
    };
    match plan.grow_to {
        Some(n) => {
            source.set_len(n);
        },
        None => {
            assert(resized(source@, source@.len()) =~= source@);
        },
    }
    let ghost grown = source@;
    assert(grown == resized(old(source)@, plan.mapped_len as nat));
    if plan.mapped_len > usize::MAX as u64 {
        return Err(DeltaError::Mapping);
    }
    let original = source.read(original_size as usize);
    assert(original@ =~= old(source)@);
    let target = match decode(patch, original.as_slice()) {
        Ok(target) => target,
        Err(e) => {
            return Err(e);
        },
    };
    let rebuilt = match settle(target, original_size, plan.mapped_len) {
        Ok(rebuilt) => rebuilt,
        Err(e) => {
            return Err(e);
        },
    };
    source.write_at_start(rebuilt.target.as_slice());
    match rebuilt.truncate_to {
        Some(n) => {
            source.set_len(n);
        },
        None => {},
    }
    assert(source@ =~= patched_content(old(source)@, patch@));
    Ok(rebuilt.target)
}

/// Round trip: where `patch` declares the length of `target` and decodes to
/// `target` on the content `file`, applying it in place returns `target` and
/// leaves a file that holds `target`, byte for byte, whether the file had to
/// grow, to shrink or to keep its length.
pub proof fn lemma_round_trip(file: Seq<u8>, patch: Seq<u8>, target: Seq<u8>)
    requires
        file.len() <= usize::MAX,
        target.len() <= usize::MAX,
        patch_header(patch) is Some,
        patch_header(patch)->0.target_size == target.len(),
        decoded(patch, file) == Ok::<Seq<u8>, DeltaError>(target),
    ensures
        patch_result(file, patch) == Ok::<Seq<u8>, DeltaError>(target),
        patched_content(file, patch) == target,
{
    assert(patched_content(file, patch) =~= target);
}

/// On success the file ends up as long as the rebuilt content where that is
/// shorter than the original, and as long as the view otherwise; in both
/// cases it starts with the rebuilt content.
pub proof fn lemma_patched_length(file: Seq<u8>, patch: Seq<u8>)
    requires
        patch_result(file, patch) is Ok,
    ensures
        ({
            let target = patch_result(file, patch)->Ok_0;
            &&& patched_content(file, patch).len() == if target.len() < file.len() {
                target.len() as int
            } else {
                room_for(file, patch)
            }
            &&& patched_content(file, patch).take(target.len() as int) == target
        }),
{
    let target = patch_result(file, patch)->Ok_0;
    assert(patched_content(file, patch).take(target.len() as int) =~= target);
}

/// No failure touches the old content: whatever the reason for which a delta
/// is refused, the file still starts with the bytes it held before, and a
/// delta without a header leaves the file exactly as it was.
pub proof fn lemma_failure_keeps_content(file: Seq<u8>, patch: Seq<u8>)
    requires
        patch_result(file, patch) is Err,
    ensures
        patched_content(file, patch).take(file.len() as int) == file,
        patch_header(patch) is None ==> patched_content(file, patch) == file,
{
    assert(patched_content(file, patch).take(file.len() as int) =~= file);
    if patch_header(patch) is None {
        assert(patched_content(file, patch) =~= file);
    }
}

/// A delta whose header declares a control block that reaches past the end
/// of the delta is refused as malformed, and the file stays exactly as it
/// was.
pub proof fn lemma_overlong_control_block(file: Seq<u8>, patch: Seq<u8>)
    requires
        32 + length_of(le_word(field(patch, 8))) > patch.len(),
    ensures
        patch_result(file, patch) == Err::<Seq<u8>, DeltaError>(DeltaError::PatchFormat),
        patched_content(file, patch) == file,
{
    assert(length_of(le_word(field(patch, 16))) >= 0);
    assert(patch_header(patch) is None);
    assert(patched_content(file, patch) =~= file);
}

/// A delta that declares fewer bytes than it rebuilds is refused where the
/// rebuilt content is longer than the file as well: the content is not cut
/// to fit, and the file keeps its old content in front.
pub proof fn lemma_undersized_hint(file: Seq<u8>, patch: Seq<u8>, target: Seq<u8>)
    requires
        file.len() <= usize::MAX,
        target.len() <= usize::MAX,
        patch_header(patch) is Some,
        decoded(patch, file) == Ok::<Seq<u8>, DeltaError>(target),
        patch_header(patch)->0.target_size < target.len(),
        file.len() < target.len(),
    ensures
        patch_result(file, patch) == Err::<Seq<u8>, DeltaError>(DeltaError::SizeExceeded),
        patched_content(file, patch).len() < target.len(),
        patched_content(file, patch).take(file.len() as int) == file,
{
    assert(patched_content(file, patch).take(file.len() as int) =~= file);
}

} // verus!
