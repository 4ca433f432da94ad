//! Block shaping around fixed-ratio resampling.

use vstd::prelude::*;

verus! {

/// The block that follows a conversion: the second half of the converted
/// frame (the first half is the converter's delay), with its first and last
/// samples set to the first and last samples of the block that went in
/// (`silence` when that block was empty).
pub open spec fn compensated_block<T>(input: Seq<T>, converted: Seq<T>, silence: T) -> Seq<T> {
    let half = converted.len() / 2;
    let body = converted.skip(half as int);
    let first = if input.len() > 0 { input[0] } else { silence };
    let last = if input.len() > 0 { input.last() } else { silence };
    if body.len() == 0 {
        body
    } else {
        body.update(0, first).update(body.len() - 1, last)
    }
}

/// Replaces `data`, the block that was converted, by the delay-compensated
/// second half of `converted` with its edges pinned to those of `data`.
pub fn take_compensated_block<T: Copy>(data: &mut Vec<T>, converted: &Vec<T>, silence: T)
    ensures
        final(data)@ == compensated_block(old(data)@, converted@, silence),
        final(data)@.len() == converted@.len() - converted@.len() / 2,
        old(data)@.len() > 0 && final(data)@.len() >= 2 ==> final(data)@[0] == old(data)@[0]
            && final(data)@.last() == old(data)@.last(),
{
    let first = if data.len() > 0 { data[0] } else { silence };
    let last = if data.len() > 0 { data[data.len() - 1] } else { silence };
    let half = converted.len() / 2;
    data.clear();
    let mut i: usize = half;
    while i < converted.len()
        invariant
            half == converted@.len() / 2,
            half <= i <= converted@.len(),
            data@ == converted@.subrange(half as int, i as int),
        decreases converted@.len() - i,
    {
        data.push(converted[i]);
        assert(converted@.subrange(half as int, (i + 1) as int) =~= converted@.subrange(half as int, i as int).push(converted@[i as int]));
        i = i + 1;
    }
    assert(data@ =~= converted@.skip(half as int));
    let n = data.len();
    if n > 0 {
        data.set(0, first);
        data.set(n - 1, last);
    }
}

/// The edges of a block survive resampling: whatever the ratio, when the
/// compensated block has at least two samples, its first and last samples are
/// the first and last samples of the block that went in.
pub proof fn lemma_block_edges_survive<T>(input: Seq<T>, converted: Seq<T>, silence: T)
    requires
        input.len() > 0,
        converted.len() - converted.len() / 2 >= 2,
    ensures
        compensated_block(input, converted, silence)[0] == input[0],
        compensated_block(input, converted, silence).last() == input.last(),
{
}

} // verus!
