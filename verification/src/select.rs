//! Thinning a sequence of frames at a fixed stride.

use crate::frame::Frame;
use vstd::arithmetic::div_mod::{lemma_fundamental_div_mod, lemma_fundamental_div_mod_converse};
use vstd::prelude::*;

verus! {

/// Whether the frame at `index` stays. With a stride of zero every frame
/// stays; otherwise the frames whose index is a multiple of the stride are
/// dropped, the first frame among them.
pub open spec fn is_kept(index: int, stride: nat) -> bool {
    stride == 0 || index % (stride as int) != 0
}

/// The indices, in rising order, of the frames that stay out of the first
/// `count` frames.
pub open spec fn kept_indices(count: nat, stride: nat) -> Seq<int>
    decreases count,
{
    if count == 0 {
        Seq::empty()
    } else if is_kept(count - 1, stride) {
        kept_indices((count - 1) as nat, stride).push(count - 1)
    } else {
        kept_indices((count - 1) as nat, stride)
    }
}

/// The kept indices are exactly the indices below `count` that stay, each
/// once and in rising order.
pub proof fn lemma_kept_indices(count: nat, stride: nat)
    ensures
        kept_indices(count, stride).len() <= count,
        forall|k: int|
            0 <= k < kept_indices(count, stride).len() ==> {
                &&& 0 <= #[trigger] kept_indices(count, stride)[k] < count
                &&& is_kept(kept_indices(count, stride)[k], stride)
            },
        forall|j: int, k: int|
            0 <= j < k < kept_indices(count, stride).len() ==> #[trigger] kept_indices(
                count,
                stride,
            )[j] < #[trigger] kept_indices(count, stride)[k],
        forall|i: int|
            0 <= i < count && is_kept(i, stride) ==> #[trigger] kept_indices(
                count,
                stride,
            ).contains(i),
    decreases count,
{
    if count > 0 {
        let shorter = kept_indices((count - 1) as nat, stride);
        let longer = kept_indices(count, stride);
        lemma_kept_indices((count - 1) as nat, stride);
        assert forall|i: int|
            0 <= i < count && is_kept(i, stride) implies #[trigger] longer.contains(i) by {
            if i < count - 1 {
                assert(shorter.contains(i));
                let k = choose|k: int| 0 <= k < shorter.len() && shorter[k] == i;
                assert(longer[k] == i);
            } else {
                assert(longer[longer.len() - 1] == i);
            }
        }
    }
}

/// With a stride of zero every index is kept.
pub proof fn lemma_stride_zero_keeps_all(count: nat)
    ensures
        kept_indices(count, 0) == Seq::new(count, |i: int| i),
    decreases count,
{
    if count > 0 {
        lemma_stride_zero_keeps_all((count - 1) as nat);
    }
    assert(kept_indices(count, 0) =~= Seq::new(count, |i: int| i));
}

/// With a stride of one nothing is kept.
pub proof fn lemma_stride_one_keeps_none(count: nat)
    ensures
        kept_indices(count, 1).len() == 0,
    decreases count,
{
    if count > 0 {
        lemma_stride_one_keeps_none((count - 1) as nat);
    }
}

/// How many of the first `count` frames stay under a stride of at least one:
/// all but the multiples of the stride, of which there are `count / stride`,
/// rounded up.
pub open spec fn kept_count(count: nat, stride: nat) -> int {
    count - (count + stride - 1) / (stride as int)
}

/// The index of the frame that comes out at position `k` under a stride of at
/// least two: one frame is dropped before every `stride - 1` frames that stay.
pub open spec fn kept_index(k: int, stride: nat) -> int {
    k + k / (stride - 1) + 1
}

/// Rounding `count / stride` up adds one exactly where the stride does not
/// divide the count.
proof fn lemma_rounded_up(count: nat, stride: nat)
    requires
        stride >= 1,
    ensures
        (count + stride - 1) / (stride as int) == count / stride + (if count % stride == 0 {
            0int
        } else {
            1int
        }),
{
    let s = stride as int;
    let q = count as int / s;
    let r = count as int % s;
    lemma_fundamental_div_mod(count as int, s);
    assert(s * q == q * s) by (nonlinear_arith);
    if r == 0 {
        lemma_fundamental_div_mod_converse(count + stride - 1, s, q, s - 1);
    } else {
        assert((q + 1) * s == q * s + s) by (nonlinear_arith);
        lemma_fundamental_div_mod_converse(count + stride - 1, s, q + 1, r - 1);
    }
}

/// Under a stride of at least two, the number of frames that stay and the
/// index of each of them are given in closed form.
pub proof fn lemma_kept_closed_form(count: nat, stride: nat)
    requires
        stride >= 2,
    ensures
        kept_indices(count, stride).len() == kept_count(count, stride),
        forall|k: int|
            0 <= k < kept_indices(count, stride).len() ==> #[trigger] kept_indices(
                count,
                stride,
            )[k] == kept_index(k, stride),
    decreases count,
{
    if count > 0 {
        let before = (count - 1) as nat;
        let s = stride as int;
        let q = before as int / s;
        let r = before as int % s;
        lemma_kept_closed_form(before, stride);
        lemma_rounded_up(before, stride);
        lemma_rounded_up(count, stride);
        lemma_fundamental_div_mod(before as int, s);
        assert(s * q == q * s) by (nonlinear_arith);
        if r == s - 1 {
            assert((q + 1) * s == q * s + s) by (nonlinear_arith);
            lemma_fundamental_div_mod_converse(count as int, s, q + 1, 0);
        } else {
            lemma_fundamental_div_mod_converse(count as int, s, q, r + 1);
        }
        if r != 0 {
            let position = kept_indices(before, stride).len() as int;
            assert(q * s == q * (s - 1) + q) by (nonlinear_arith);
            lemma_fundamental_div_mod_converse(position, s - 1, q, r - 1);
            assert(kept_index(position, stride) == before);
        }
    } else {
        lemma_rounded_up(0, stride);
    }
}

/// Thins a sequence of frames. With `skip_every == 0` it returns a copy of
/// every frame. Otherwise it drops the frames at the indices `0`,
/// `skip_every`, `2 * skip_every` and so on, and returns copies of the
/// others in their order.
pub fn skip_frames(frames: &Vec<Frame>, skip_every: usize) -> (kept: Vec<Frame>)
    ensures
        kept@.len() == kept_indices(frames@.len(), skip_every as nat).len(),
        forall|k: int|
            0 <= k < kept@.len() ==> (#[trigger] kept@[k])@ == frames@[kept_indices(
                frames@.len(),
                skip_every as nat,
            )[k]]@,
        skip_every == 0 ==> kept@.len() == frames@.len() && forall|i: int|
            0 <= i < frames@.len() ==> (#[trigger] kept@[i])@ == frames@[i]@,
        skip_every == 1 ==> kept@.len() == 0,
        skip_every >= 2 ==> kept@.len() == kept_count(frames@.len(), skip_every as nat)
            && forall|k: int|
            0 <= k < kept@.len() ==> (#[trigger] kept@[k])@ == frames@[kept_index(
                k,
                skip_every as nat,
            )]@,
{
    let mut kept: Vec<Frame> = Vec::new();
    let mut i: usize = 0;
    while i < frames.len()
        invariant
            i <= frames@.len(),
            kept@.len() == kept_indices(i as nat, skip_every as nat).len(),
            forall|k: int|
                0 <= k < kept@.len() ==> (#[trigger] kept@[k])@ == frames@[kept_indices(
                    i as nat,
                    skip_every as nat,
                )[k]]@,
        decreases frames@.len() - i,
    {
        if skip_every == 0 || i % skip_every != 0 {
            let copy = frames[i].clone();
            kept.push(copy);
        }
        i += 1;
    }
    proof {
        if skip_every == 0 {
            lemma_stride_zero_keeps_all(frames@.len());
        } else if skip_every == 1 {
            lemma_stride_one_keeps_none(frames@.len());
        } else {
            lemma_kept_closed_form(frames@.len(), skip_every as nat);
        }
    }
    kept
}

} // verus!
