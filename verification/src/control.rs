//! The control block of a delta: what it asks to be read from the original
//! content, and whether the original content is long enough for it.
//!
//! The decompressed control block is a list of triples of encoded integers.
//! Each triple rebuilds a stretch of the new content in three moves: it takes
//! `diff_len` bytes from the original content at the read position, which
//! advances by as many, then takes `extra_len` bytes from the delta itself,
//! then moves the read position by `seek`.

use vstd::prelude::*;

use crate::header::{field, le_word, length_of, read_word, signed_of, word_to_length, word_to_signed};
use crate::header::SIGN_BIT;

verus! {

/// Number of bytes in one encoded control.
pub const CONTROL_LEN: usize = 24;

/// One control of a delta.
#[derive(Clone, Copy, Debug, PartialEq, Eq, Structural)]
pub struct Control {
    /// Number of bytes to take from the original content.
    pub diff_len: u64,
    /// Number of bytes to take from the delta's extra block.
    pub extra_len: u64,
    /// Distance by which the read position moves afterwards.
    pub seek: i64,
}

/// The control that the 24 bytes of `ctrl` from offset `24 * k` on spell.
pub open spec fn control_at(ctrl: Seq<u8>, k: int) -> Control {
    Control {
        diff_len: length_of(le_word(field(ctrl, 24 * k))) as u64,
        extra_len: length_of(le_word(field(ctrl, 24 * k + 8))) as u64,
        seek: signed_of(le_word(field(ctrl, 24 * k + 16))) as i64,
    }
}

/// The controls that the decompressed control block `ctrl` spells. A block
/// that ends inside a control spells none.
pub open spec fn controls_of(ctrl: Seq<u8>) -> Option<Seq<Control>> {
    if ctrl.len() % 24 == 0 {
        Some(Seq::new((ctrl.len() / 24) as nat, |k: int| control_at(ctrl, k)))
    } else {
        None
    }
}

/// The read position after the control `c` was carried out from the read
/// position `pos` on original content of `original_len` bytes. There is none
/// where `c` takes bytes from behind the end of the original content, or
/// moves the read position before the start or past the largest offset.
pub open spec fn position_after(pos: int, c: Control, original_len: int) -> Option<int> {
    if c.diff_len > 0 && pos + c.diff_len > original_len {
        None
    } else if 0 <= pos + c.diff_len + c.seek <= u64::MAX {
        Some(pos + c.diff_len + c.seek)
    } else {
        None
    }
}

/// The read position after all of `controls` were carried out in turn,
/// starting at the first byte of the original content.
pub open spec fn cursor_after(controls: Seq<Control>, original_len: int) -> Option<int>
    decreases controls.len(),
{
    if controls.len() == 0 {
        Some(0)
    } else {
        match cursor_after(controls.drop_last(), original_len) {
            Some(pos) => position_after(pos, controls.last(), original_len),
            None => None,
        }
    }
}

/// Whether every byte that `controls` take from the original content lies
/// inside it.
pub open spec fn in_range(controls: Seq<Control>, original_len: int) -> bool {
    cursor_after(controls, original_len) is Some
}

/// Reads the controls of the decompressed control block `ctrl`.
pub fn parse_controls(ctrl: &[u8]) -> (r: Option<Vec<Control>>)
    ensures
        match r {
            Some(controls) => controls_of(ctrl@) == Some(controls@),
            None => controls_of(ctrl@) is None,
        },
{
    if ctrl.len() % CONTROL_LEN != 0 {
        return None;
    }
    let count: usize = ctrl.len() / CONTROL_LEN;
    let mut controls: Vec<Control> = Vec::new();
    let mut k: usize = 0;
    while k < count
        invariant
            k <= count,
            count * 24 == ctrl.len(),
            ctrl.len() == ctrl@.len(),
            controls@.len() == k,
            forall|j: int| 0 <= j < k ==> controls@[j] == control_at(ctrl@, j),
        decreases count - k,
    {
        let at: usize = k * CONTROL_LEN;
        let c = Control {
            diff_len: word_to_length(read_word(ctrl, at)),
            extra_len: word_to_length(read_word(ctrl, at + 8)),
            seek: word_to_signed(read_word(ctrl, at + 16)),
        };
        controls.push(c);
        k = k + 1;
    }
    assert(controls@ =~= controls_of(ctrl@)->0);
    Some(controls)
}

/// Carries out one control on the read position.
pub fn advance(pos: u64, c: &Control, original_len: u64) -> (r: Option<u64>)
    ensures
        match r {
            Some(next) => position_after(pos as int, *c, original_len as int) == Some(next as int),
            None => position_after(pos as int, *c, original_len as int) is None,
        },
{
    let mut reached: u64 = pos;
    if c.diff_len > 0 {
        if pos > original_len || c.diff_len > original_len - pos {
            return None;
        }
        reached = pos + c.diff_len;
    }
    if c.seek >= 0 {
        let forward: u64 = c.seek as u64;
        if forward > u64::MAX - reached {
            None
        } else {
            Some(reached + forward)
        }
    } else {
        let back: u64 = if c.seek == i64::MIN {
            SIGN_BIT
        } else {
            (-c.seek) as u64
        };
        if back > reached {
            None
        } else {
            Some(reached - back)
        }
    }
}

/// Whether original content of `original_len` bytes is long enough for
/// `controls`.
pub fn check_range(controls: &Vec<Control>, original_len: usize) -> (ok: bool)
    ensures
        ok == in_range(controls@, original_len as int),
{
    let mut pos: u64 = 0;
    let mut k: usize = 0;
    while k < controls.len()
        invariant
            k <= controls@.len(),
            cursor_after(controls@.take(k as int), original_len as int) == Some(pos as int),
        decreases controls@.len() - k,
    {
        proof {
            assert(controls@.take(k + 1).drop_last() =~= controls@.take(k as int));
        }
        match advance(pos, &controls[k], original_len as u64) {
            Some(next) => {
                pos = next;
            },
            None => {
                proof {
                    lemma_out_of_range_stays(controls@, k + 1, original_len as int);
                }
                return false;
            },
        }
        k = k + 1;
    }
    assert(controls@.take(k as int) =~= controls@);
    true
}

/// Once a control has left the original content, no later control brings the
/// delta back into range.
pub proof fn lemma_out_of_range_stays(controls: Seq<Control>, n: int, original_len: int)
    requires
        0 <= n <= controls.len(),
        !in_range(controls.take(n), original_len),
    ensures
        !in_range(controls, original_len),
    decreases controls.len() - n,
{
    if n < controls.len() {
        assert(controls.take(n + 1).drop_last() =~= controls.take(n));
        lemma_out_of_range_stays(controls, n + 1, original_len);
    } else {
        assert(controls.take(n) =~= controls);
    }
}

} // verus!
