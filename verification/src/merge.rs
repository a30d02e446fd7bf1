//! Reassembly: joining the fetched parts into the artifact.

use vstd::prelude::*;
use crate::plan::{
    covered, in_offset_order, is_block_plan, is_chain, lemma_block_plan_is_partition, BlockSpec,
};

verus! {

/// Why the parts could not be merged.
#[derive(Clone, Copy, Debug, PartialEq, Eq, Structural)]
pub enum MergeError {
    /// The parts could not be listed or read, or the artifact could not be
    /// written.
    Io,
    /// The parts together are not as long as the resource.
    LengthMismatch,
}

/// All the bytes of `parts`, one part after the other.
pub open spec fn concat_parts(parts: Seq<Seq<u8>>) -> Seq<u8>
    decreases parts.len(),
{
    if parts.len() == 0 {
        Seq::empty()
    } else {
        concat_parts(parts.drop_last()) + parts.last()
    }
}

/// The contents of `parts` as byte sequences.
pub open spec fn part_bytes(parts: Seq<Vec<u8>>) -> Seq<Seq<u8>> {
    Seq::new(parts.len(), |i: int| parts[i]@)
}

/// The bytes of `data` that `block` spans.
pub open spec fn piece(data: Seq<u8>, block: BlockSpec) -> Seq<u8> {
    data.subrange(block.start as int, block.end + 1)
}

/// What each block of `blocks` holds of `data`, in the order of the blocks.
pub open spec fn pieces(data: Seq<u8>, blocks: Seq<BlockSpec>) -> Seq<Seq<u8>> {
    Seq::new(blocks.len(), |i: int| piece(data, blocks[i]))
}

/// The first parts of a list are together no longer than all of them.
pub proof fn lemma_concat_len_monotonic(parts: Seq<Seq<u8>>, k: int)
    requires
        0 <= k <= parts.len(),
    ensures
        concat_parts(parts.take(k)).len() <= concat_parts(parts).len(),
    decreases parts.len(),
{
    if k == parts.len() {
        assert(parts.take(k) =~= parts);
    } else {
        assert(parts.drop_last().take(k) =~= parts.take(k));
        lemma_concat_len_monotonic(parts.drop_last(), k);
    }
}

/// Joined in order, the pieces of a chain give back the bytes from the first
/// one up to the end of the last block.
pub proof fn lemma_chain_pieces(data: Seq<u8>, blocks: Seq<BlockSpec>)
    requires
        is_chain(blocks),
        blocks.len() > 0,
        blocks.last().end < data.len(),
    ensures
        concat_parts(pieces(data, blocks)) == data.subrange(0, blocks.last().end + 1),
    decreases blocks.len(),
{
    let last = blocks.last();
    let front = blocks.drop_last();
    assert(pieces(data, blocks).drop_last() =~= pieces(data, front));
    assert(pieces(data, blocks).last() == piece(data, last));
    if front.len() == 0 {
        assert(concat_parts(pieces(data, front)) =~= Seq::<u8>::empty());
        assert(blocks[0] == last);
        assert(Seq::<u8>::empty() + piece(data, last) =~= data.subrange(0, last.end + 1));
    } else {
        assert(blocks[front.len() - 1].end + 1 == blocks[front.len() as int].start);
        assert(is_chain(front)) by {
            assert forall|a: int, b: int|
                0 <= a < front.len() && b == a + 1 && b < front.len() implies (
            #[trigger] front[a]).end + 1 == (#[trigger] front[b]).start by {
                assert(blocks[a].end + 1 == blocks[b].start);
            }
        }
        lemma_chain_pieces(data, front);
        assert(data.subrange(0, front.last().end + 1) + piece(data, last) =~= data.subrange(
            0,
            last.end + 1,
        ));
    }
}

/// Cutting `data` by a block plan and joining the pieces in index order
/// gives `data` back, byte for byte, provided that the plan numbers its
/// blocks in offset order, as every plan of the planner does.
pub proof fn lemma_merge_roundtrip(data: Seq<u8>, blocks: Seq<BlockSpec>)
    requires
        is_block_plan(blocks, data.len()),
        in_offset_order(blocks),
    ensures
        concat_parts(pieces(data, blocks)) == data,
{
    if blocks.len() == 0 {
        if data.len() > 0 {
            assert(covered(blocks, 0));
        }
        assert(concat_parts(pieces(data, blocks)) =~= data);
    } else {
        lemma_block_plan_is_partition(blocks, data.len());
        lemma_chain_pieces(data, blocks);
        assert(data.subrange(0, data.len() as int) =~= data);
    }
}

/// Joins `parts` in the order given and checks the total against
/// `expected_length`.
///
/// The joined bytes come back exactly when they are `expected_length` bytes
/// long; otherwise nothing is handed out that could be taken for the
/// artifact.
pub fn merge(parts: &Vec<Vec<u8>>, expected_length: u64) -> (merged: Result<Vec<u8>, MergeError>)
    ensures
        match merged {
            Ok(bytes) => bytes@ == concat_parts(part_bytes(parts@)) && bytes@.len()
                == expected_length,
            Err(e) => e == MergeError::LengthMismatch && concat_parts(part_bytes(parts@)).len()
                != expected_length,
        },
{
    let ghost all = part_bytes(parts@);
    let mut bytes: Vec<u8> = Vec::new();
    let mut i: usize = 0;
    proof {
        assert(all.take(0) =~= Seq::<Seq<u8>>::empty());
    }
    while i < parts.len()
        invariant
            i <= parts.len(),
            all == part_bytes(parts@),
            bytes@ == concat_parts(all.take(i as int)),
            bytes@.len() <= expected_length,
        decreases parts.len() - i,
    {
        let part = &parts[i];
        proof {
            assert(all.take(i + 1).drop_last() =~= all.take(i as int));
            assert(all.take(i + 1).last() == part@);
            lemma_concat_len_monotonic(all, i + 1);
        }
        if part.len() as u64 > expected_length - bytes.len() as u64 {
            return Err(MergeError::LengthMismatch);
        }
        let ghost before = bytes@;
        let mut j: usize = 0;
        while j < part.len()
            invariant
                j <= part.len(),
                bytes@ == before + part@.take(j as int),
            decreases part.len() - j,
        {
            bytes.push(part[j]);
            assert(part@.take(j + 1) =~= part@.take(j as int).push(part@[j as int]));
            assert(before + part@.take(j + 1) =~= (before + part@.take(j as int)).push(
                part@[j as int],
            ));
            j += 1;
        }
        assert(part@.take(part@.len() as int) =~= part@);
        i += 1;
    }
    proof {
        assert(all.take(i as int) =~= all);
    }
    if bytes.len() as u64 != expected_length {
        return Err(MergeError::LengthMismatch);
    }
    Ok(bytes)
}

} // verus!
