//! Rebuilding content from a delta, and writing it back over the file that
//! held the original content.
//!
//! The file is grown first, so that a view over it can hold the content that
//! the delta declares. The new content is then rebuilt in memory from the
//! bytes that the file held before, checked against the room in the view,
//! and only then written over the start of the file. At last the file is cut
//! where the new content is shorter than the original.

use vstd::prelude::*;
use vstd::slice::slice_subrange;

use crate::bz2::{bz2_decoded, decompress};
use crate::control::{check_range, controls_of, in_range, parse_controls, Control};
use crate::error::DeltaError;
use crate::header::{patch_header, PatchHeader};

verus! {

/// What the patcher writes when the delta `patch` is applied to the content
/// `original`, or nothing where the patcher reports an error.
pub uninterp spec fn bspatch_output(patch: Seq<u8>, original: Seq<u8>) -> Option<Seq<u8>>;

/// Calls `qbsdiff::Bspatch::new` on `patch` and asks the patcher for
/// `hint_target_size`.
///
/// Trusted: a delta with a header is accepted, and the hint is the third
/// length of that header. The call is kept from deltas without a header,
/// among which are those on which the patcher's own length check overflows.
#[verifier::external_body]
fn declared_target_size(patch: &[u8]) -> (r: Result<u64, std::io::Error>)
    requires
        patch_header(patch@) is Some,
    ensures
        r is Ok,
        r matches Ok(hint) ==> hint == patch_header(patch@)->0.target_size,
{
    Ok(qbsdiff::Bspatch::new(patch)?.hint_target_size())
}

/// Calls `qbsdiff::Bspatch::new` on `patch` and `apply` on the patcher, with
/// `original` as the source and a fresh vector as the target.
///
/// Trusted: what the patcher writes depends on `patch` and `original` alone,
/// so it is the value that `bspatch_output` names, and the call fails exactly
/// where that value is `None`. The call is kept from deltas without a header.
#[verifier::external_body]
fn apply_delta(patch: &[u8], original: &[u8]) -> (r: Result<Vec<u8>, std::io::Error>)
    requires
        patch_header(patch@) is Some,
    ensures
        match r {
            Ok(target) => bspatch_output(patch@, original@) == Some(target@),
            Err(_) => bspatch_output(patch@, original@) is None,
        },
{
    let mut target: Vec<u8> = Vec::new();
    qbsdiff::Bspatch::new(patch)?.apply(original, &mut target)?;
    Ok(target)
}

/// The compressed control block of a delta with the header `h`.
pub open spec fn control_block(patch: Seq<u8>, h: PatchHeader) -> Seq<u8> {
    patch.subrange(32, 32 + h.ctrl_len)
}

/// The controls of `patch`, if it has a header and its control block
/// decompresses to whole controls.
pub open spec fn patch_controls(patch: Seq<u8>) -> Option<Seq<Control>> {
    match patch_header(patch) {
        Some(h) => match bz2_decoded(control_block(patch, h)) {
            Some(ctrl) => controls_of(ctrl),
            None => None,
        },
        None => None,
    }
}

/// What applying `patch` to `original` gives: the rebuilt content, or the
/// reason for which there is none.
///
/// A delta without readable controls is malformed. A delta whose controls
/// take bytes from outside `original` is out of range. Any other delta that
/// the patcher gives up on is malformed: one of its blocks is corrupt or ends
/// too early.
pub open spec fn decoded(patch: Seq<u8>, original: Seq<u8>) -> Result<Seq<u8>, DeltaError> {
    match patch_controls(patch) {
        None => Err(DeltaError::PatchFormat),
        Some(controls) => if !in_range(controls, original.len() as int) {
            Err(DeltaError::OutOfRange)
        } else {
            match bspatch_output(patch, original) {
                Some(target) => Ok(target),
                None => Err(DeltaError::PatchFormat),
            }
        },
    }
}

/// Whether the result `r` of a call is the mathematical result `expected`:
/// the same failure, or content of the same bytes.
pub open spec fn agrees(r: Result<Vec<u8>, DeltaError>, expected: Result<Seq<u8>, DeltaError>)
    -> bool {
    match r {
        Ok(bytes) => expected == Ok::<Seq<u8>, DeltaError>(bytes@),
        Err(e) => expected == Err::<Seq<u8>, DeltaError>(e),
    }
}

/// The length of the rebuilt content that `patch` declares. It is asked for
/// before the delta is applied, to prepare the storage.
pub fn target_size_hint(patch: &[u8]) -> (r: Result<u64, DeltaError>)
    ensures
        match r {
            Ok(hint) => patch_header(patch@) is Some && hint == patch_header(patch@)->0.target_size,
            Err(e) => e == DeltaError::PatchFormat && patch_header(patch@) is None,
        },
{
    match PatchHeader::parse(patch) {
        Ok(_) => match declared_target_size(patch) {
            Ok(hint) => Ok(hint),
            Err(_) => Err(DeltaError::PatchFormat),
        },
        Err(e) => Err(e),
    }
}

/// Reads the controls of `patch`.
pub fn read_controls(patch: &[u8]) -> (r: Result<Vec<Control>, DeltaError>)
    ensures
        match r {
            Ok(controls) => patch_controls(patch@) == Some(controls@),
            Err(e) => e == DeltaError::PatchFormat && patch_controls(patch@) is None,
        },
{
    let header = match PatchHeader::parse(patch) {
        Ok(h) => h,
        Err(e) => {
            return Err(e);
        },
    };
    let patch_len: usize = patch.len();
    assert(32 + header.ctrl_len <= patch_len);
    let ctrl_end: usize = 32 + header.ctrl_len as usize;
    let block = slice_subrange(patch, 32, ctrl_end);
    let ctrl = match decompress(block) {
        Ok(bytes) => bytes,
        Err(_) => {
            return Err(DeltaError::PatchFormat);
        },
    };
    match parse_controls(ctrl.as_slice()) {
        Some(controls) => Ok(controls),
        None => Err(DeltaError::PatchFormat),
    }
}

/// Names the failure of a delta on which the patcher gave up although its
/// controls are readable and in range.
pub fn classify(applied: Result<Vec<u8>, std::io::Error>) -> (r: Result<Vec<u8>, DeltaError>)
    ensures
        match applied {
            Ok(target) => r == Ok::<Vec<u8>, DeltaError>(target),
            Err(_) => r == Err::<Vec<u8>, DeltaError>(DeltaError::PatchFormat),
        },
{
    match applied {
        Ok(target) => Ok(target),
        Err(_) => Err(DeltaError::PatchFormat),
    }
}

/// Rebuilds content by applying `patch` to `original`. Nothing but `original`
/// and `patch` is read, and nothing is changed.
pub fn decode(patch: &[u8], original: &[u8]) -> (r: Result<Vec<u8>, DeltaError>)
    ensures
        agrees(r, decoded(patch@, original@)),
{
    let controls = match read_controls(patch) {
        Ok(controls) => controls,
        Err(e) => {
            return Err(e);
        },
    };
    if !check_range(&controls, original.len()) {
        return Err(DeltaError::OutOfRange);
    }
    classify(apply_delta(patch, original))
}

/// Length of the view that is laid over a file of `original_len` bytes
/// before a delta that declares `hint` bytes is applied: the larger of both.
pub open spec fn mapped_len(original_len: int, hint: int) -> int {
    if original_len < hint {
        hint
    } else {
        original_len
    }
}

/// The view covers the whole file and the whole of what the delta declares.
pub proof fn lemma_view_covers(original_len: int, hint: int)
    ensures
        mapped_len(original_len, hint) >= original_len,
        mapped_len(original_len, hint) >= hint,
        mapped_len(original_len, hint) == original_len || mapped_len(original_len, hint) == hint,
{
}

/// How a file is prepared for a delta.
#[derive(Clone, Copy, Debug, PartialEq, Eq, Structural)]
pub struct ResizePlan {
    /// The length to which the file has to grow before a view is laid over
    /// it, if it has to grow.
    pub grow_to: Option<u64>,
    /// Length of the file, and of the view over it, once the file has grown.
    pub mapped_len: u64,
}

/// The plan for a file of `original_len` bytes and a delta that declares
/// `hint` bytes.
pub open spec fn resize_plan(original_len: u64, hint: u64) -> ResizePlan {
    ResizePlan {
        grow_to: if original_len < hint {
            Some(hint)
        } else {
            None
        },
        mapped_len: mapped_len(original_len as int, hint as int) as u64,
    }
}

/// Decides how a file of `original_size` bytes is prepared for `patch`. The
/// file grows only where the delta declares more bytes than the file holds,
/// and then to exactly the declared length.
pub fn plan_resize(patch: &[u8], original_size: u64) -> (r: Result<ResizePlan, DeltaError>)
    ensures
        match r {
            Ok(plan) => patch_header(patch@) is Some && plan == resize_plan(
                original_size,
                patch_header(patch@)->0.target_size,
            ),
            Err(e) => e == DeltaError::PatchFormat && patch_header(patch@) is None,
        },
{
    let hint: u64 = match target_size_hint(patch) {
        Ok(hint) => hint,
        Err(e) => {
            return Err(e);
        },
    };
    if original_size < hint {
        Ok(ResizePlan { grow_to: Some(hint), mapped_len: hint })
    } else {
        Ok(ResizePlan { grow_to: None, mapped_len: original_size })
    }
}

/// Content that was rebuilt and fits the view over the file.
#[derive(Debug)]
pub struct Rebuilt {
    /// The rebuilt content, to be written over the start of the view.
    pub target: Vec<u8>,
    /// The length to which the file has to be cut afterwards, if the rebuilt
    /// content is shorter than the original.
    pub truncate_to: Option<u64>,
}

/// Whether `rebuilt` is what a target of the bytes `target` comes to on a
/// file that held `original_len` bytes.
pub open spec fn settled(rebuilt: Rebuilt, target: Seq<u8>, original_len: int) -> bool {
    &&& rebuilt.target@ == target
    &&& rebuilt.truncate_to == if target.len() < original_len {
        Some(target.len() as u64)
    } else {
        None
    }
}

/// Checks rebuilt content against the room in the view. Content that is
/// longer than the view is refused, not shortened. Content that is shorter
/// than the original asks for the file to be cut to its length.
pub fn settle(target: Vec<u8>, original_size: u64, mapped_len: u64) -> (r: Result<
    Rebuilt,
    DeltaError,
>)
    ensures
        match r {
            Ok(rebuilt) => target@.len() <= mapped_len && settled(
                rebuilt,
                target@,
                original_size as int,
            ),
            Err(e) => e == DeltaError::SizeExceeded && target@.len() > mapped_len,
        },
{
    let target_len: u64 = target.len() as u64;
    if target_len > mapped_len {
        return Err(DeltaError::SizeExceeded);
    }
    let truncate_to: Option<u64> = if target_len < original_size {
        Some(target_len)
    } else {
        None
    };
    Ok(Rebuilt { target, truncate_to })
}

/// What rebuilding from a view comes to: the content rebuilt from the first
/// `original_len` bytes of `view`, unless the delta fails or the content is
/// longer than `view`.
pub open spec fn rebuilt_from(patch: Seq<u8>, view: Seq<u8>, original_len: int) -> Result<
    Seq<u8>,
    DeltaError,
> {
    match decoded(patch, view.take(original_len)) {
        Ok(target) => if target.len() > view.len() {
            Err(DeltaError::SizeExceeded)
        } else {
            Ok(target)
        },
        Err(e) => Err(e),
    }
}

/// Rebuilds content from the view `view` over a file that held
/// `original_size` bytes before it was prepared for `patch`. Only the first
/// `original_size` bytes of the view are read.
pub fn rebuild(patch: &[u8], view: &[u8], original_size: usize) -> (r: Result<Rebuilt, DeltaError>)
    requires
        original_size <= view@.len(),
    ensures
        match r {
            Ok(rebuilt) => rebuilt_from(patch@, view@, original_size as int) == Ok::<
                Seq<u8>,
                DeltaError,
            >(rebuilt.target@) && settled(rebuilt, rebuilt.target@, original_size as int),
            Err(e) => rebuilt_from(patch@, view@, original_size as int) == Err::<
                Seq<u8>,
                DeltaError,
            >(e),
        },
{
    let original = slice_subrange(view, 0, original_size);
    match decode(patch, original) {
        Ok(target) => settle(target, original_size as u64, view.len() as u64),
        Err(e) => Err(e),
    }
}

} // verus!
