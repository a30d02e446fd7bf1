//! Range planning: cutting `[0, content_length - 1]` into blocks.

use vstd::prelude::*;

verus! {

/// One contiguous byte range of the resource; `end` is inclusive.
#[derive(Clone, Copy, Debug, PartialEq, Eq, Structural)]
pub struct BlockSpec {
    pub index: u64,
    pub start: u64,
    pub end: u64,
}

/// What the planner decided for a resource of known length.
#[derive(Debug, PartialEq, Eq)]
pub enum PlanDecision {
    /// The resource is empty: nothing is to be fetched.
    Empty,
    /// Fewer than two blocks would result: fetch the resource in one piece.
    UseWhole,
    /// Fetch these blocks independently, then merge them in index order.
    UseBlocks(Vec<BlockSpec>),
}

/// Sizes from which no plan can be made.
#[derive(Clone, Copy, Debug, PartialEq, Eq, Structural)]
pub enum PlanError {
    /// A non-empty resource cannot be cut into blocks of zero bytes.
    ZeroBlockSize,
}

/// Number of blocks that a resource of `content_length` bytes is cut into.
pub open spec fn block_count(content_length: nat, block_size: nat) -> nat {
    content_length / block_size
}

/// First byte of block `i`. Block 0 starts the resource; the others follow
/// the enlarged first block.
pub open spec fn block_start(content_length: nat, block_size: nat, i: nat) -> nat {
    if i == 0 {
        0
    } else {
        i * block_size + content_length % block_size
    }
}

/// Last byte of block `i`. Block 0 is `content_length % block_size` bytes
/// longer than the others, which are all `block_size` bytes long.
pub open spec fn block_end(content_length: nat, block_size: nat, i: nat) -> nat {
    (i * block_size + content_length % block_size + block_size - 1) as nat
}

/// Block `i` of the plan for `content_length` and `block_size`.
pub open spec fn block_at(content_length: u64, block_size: u64, i: int) -> BlockSpec {
    BlockSpec {
        index: i as u64,
        start: block_start(content_length as nat, block_size as nat, i as nat) as u64,
        end: block_end(content_length as nat, block_size as nat, i as nat) as u64,
    }
}

/// The blocks planned for `content_length` and `block_size`, in index order.
pub open spec fn planned_blocks(content_length: u64, block_size: u64) -> Seq<BlockSpec> {
    Seq::new(
        block_count(content_length as nat, block_size as nat),
        |i: int| block_at(content_length, block_size, i),
    )
}

/// `blocks` is a chain: numbered from 0, each block non-empty, the first one
/// starting at byte 0 and each next one starting right after its predecessor.
pub open spec fn is_chain(blocks: Seq<BlockSpec>) -> bool {
    &&& forall|i: int|
        0 <= i < blocks.len() ==> (#[trigger] blocks[i]).index == i && blocks[i].start
            <= blocks[i].end
    &&& blocks.len() > 0 ==> blocks[0].start == 0
    &&& forall|i: int, j: int|
        0 <= i < blocks.len() && j == i + 1 && j < blocks.len() ==> (#[trigger] blocks[i]).end + 1
            == (#[trigger] blocks[j]).start
}

/// `blocks` is a valid plan for a resource of `length` bytes: a non-empty
/// chain whose last block ends at the last byte.
pub open spec fn is_partition(blocks: Seq<BlockSpec>, length: nat) -> bool {
    &&& blocks.len() > 0
    &&& is_chain(blocks)
    &&& blocks.last().end + 1 == length
}

/// Block `i` holds byte `offset`.
pub open spec fn covers(blocks: Seq<BlockSpec>, i: int, offset: int) -> bool {
    0 <= i < blocks.len() && blocks[i].start <= offset <= blocks[i].end
}

/// Some block holds byte `offset`.
pub open spec fn covered(blocks: Seq<BlockSpec>, offset: int) -> bool {
    exists|i: int| #[trigger] covers(blocks, i, offset)
}

/// `a` and `b` share no byte.
pub open spec fn disjoint(a: BlockSpec, b: BlockSpec) -> bool {
    a.end < b.start || b.end < a.start
}

/// The invariant of a block plan for a resource of `length` bytes: the
/// blocks are numbered from 0 in the order they stand in, none is empty, no
/// two share a byte, and together they hold exactly the bytes
/// `0 ..= length - 1`.
pub open spec fn is_block_plan(blocks: Seq<BlockSpec>, length: nat) -> bool {
    &&& forall|i: int|
        0 <= i < blocks.len() ==> (#[trigger] blocks[i]).index == i && blocks[i].start
            <= blocks[i].end
    &&& forall|i: int, j: int|
        0 <= i < blocks.len() && 0 <= j < blocks.len() && i != j ==> #[trigger] disjoint(
            blocks[i],
            blocks[j],
        )
    &&& forall|offset: int| 0 <= offset < length <==> #[trigger] covered(blocks, offset)
}

/// A block with a higher index starts at a higher offset.
pub open spec fn in_offset_order(blocks: Seq<BlockSpec>) -> bool {
    forall|i: int, j: int|
        0 <= i < j < blocks.len() ==> (#[trigger] blocks[i]).start < (#[trigger] blocks[j]).start
}

/// The bounds of planned block `i` are in range: it lies inside the resource,
/// and the last block ends at the last byte.
pub proof fn lemma_block_bounds(content_length: u64, block_size: u64, i: int)
    requires
        block_size > 0,
        0 <= i < content_length / block_size,
    ensures
        block_start(content_length as nat, block_size as nat, i as nat) <= block_end(
            content_length as nat,
            block_size as nat,
            i as nat,
        ) < content_length,
        i + 1 == content_length / block_size ==> block_end(
            content_length as nat,
            block_size as nat,
            i as nat,
        ) + 1 == content_length,
        i + 1 < content_length / block_size ==> block_end(
            content_length as nat,
            block_size as nat,
            i as nat,
        ) + 1 == block_start(content_length as nat, block_size as nat, (i + 1) as nat),
{
    let n = content_length as int;
    let b = block_size as int;
    let t = n / b;
    let r = n % b;
    vstd::arithmetic::div_mod::lemma_fundamental_div_mod(n, b);
    assert(n == b * t + r);
    assert(0 <= r < b);
    assert((i + 1) * b <= t * b) by (nonlinear_arith)
        requires
            i + 1 <= t,
            b > 0,
    ;
    assert((i + 1) * b == i * b + b) by (nonlinear_arith);
    assert(b * t == t * b) by (nonlinear_arith);
    assert(0 <= i * b) by (nonlinear_arith)
        requires
            0 <= i,
            0 < b,
    ;
}

/// The planned blocks form a valid plan whenever there are at least two.
pub proof fn lemma_planned_blocks_partition(content_length: u64, block_size: u64)
    requires
        block_size > 0,
        content_length / block_size > 1,
    ensures
        is_partition(planned_blocks(content_length, block_size), content_length as nat),
{
    let blocks = planned_blocks(content_length, block_size);
    let t = (content_length / block_size) as int;
    assert(blocks.len() == t);
    assert forall|i: int| 0 <= i < blocks.len() implies (#[trigger] blocks[i]).index == i
        && blocks[i].start <= blocks[i].end by {
        lemma_block_bounds(content_length, block_size, i);
    }
    assert forall|i: int, j: int|
        0 <= i < blocks.len() && j == i + 1 && j < blocks.len() implies (#[trigger] blocks[i]).end
        + 1 == (#[trigger] blocks[j]).start by {
        lemma_block_bounds(content_length, block_size, i);
        lemma_block_bounds(content_length, block_size, j);
    }
    lemma_block_bounds(content_length, block_size, t - 1);
}

/// In a chain, an earlier block ends before a later one starts.
pub proof fn lemma_chain_ordered(blocks: Seq<BlockSpec>, i: int, j: int)
    requires
        is_chain(blocks),
        0 <= i < j < blocks.len(),
    ensures
        blocks[i].end < blocks[j].start,
    decreases j - i,
{
    if j == i + 1 {
        assert(blocks[i].end + 1 == blocks[j].start);
    } else {
        lemma_chain_ordered(blocks, i, j - 1);
        assert(blocks[j - 1].end + 1 == blocks[j].start);
    }
}

/// In a chain, every byte up to the end of the last block lies in a block.
pub proof fn lemma_chain_covers(blocks: Seq<BlockSpec>, offset: int) -> (i: int)
    requires
        is_chain(blocks),
        blocks.len() > 0,
        0 <= offset <= blocks.last().end,
    ensures
        covers(blocks, i, offset),
    decreases blocks.len(),
{
    let last = blocks.len() - 1;
    if blocks[last].start <= offset {
        last
    } else {
        assert(last > 0);
        let front = blocks.drop_last();
        assert(blocks[last - 1].end + 1 == blocks[last].start);
        assert(is_chain(front)) by {
            assert forall|a: int, b: int|
                0 <= a < front.len() && b == a + 1 && b < front.len() implies (
            #[trigger] front[a]).end + 1 == (#[trigger] front[b]).start by {
                assert(blocks[a].end + 1 == blocks[b].start);
            }
        }
        lemma_chain_covers(front, offset)
    }
}

/// A non-empty chain that ends at the last byte is a block plan whose blocks
/// stand in offset order.
pub proof fn lemma_partition_is_block_plan(blocks: Seq<BlockSpec>, length: nat)
    requires
        is_partition(blocks, length),
    ensures
        is_block_plan(blocks, length),
        in_offset_order(blocks),
{
    let last = blocks.len() - 1;
    assert forall|i: int, j: int| 0 <= i < j < blocks.len() implies (#[trigger] blocks[i]).end < (
    #[trigger] blocks[j]).start by {
        lemma_chain_ordered(blocks, i, j);
    }
    assert forall|i: int, j: int|
        0 <= i < blocks.len() && 0 <= j < blocks.len() && i != j implies #[trigger] disjoint(
        blocks[i],
        blocks[j],
    ) by {
        if i < j {
            assert(blocks[i].end < blocks[j].start);
        } else {
            assert(blocks[j].end < blocks[i].start);
        }
    }
    assert forall|offset: int| 0 <= offset < length implies #[trigger] covered(blocks, offset) by {
        let i = lemma_chain_covers(blocks, offset);
        assert(covers(blocks, i, offset));
    }
    assert forall|offset: int| #[trigger] covered(blocks, offset) implies 0 <= offset < length by {
        let i = choose|i: int| #[trigger] covers(blocks, i, offset);
        if i < last {
            assert(blocks[i].end < blocks[last].start);
        }
    }
}

/// A block plan whose blocks stand in offset order is a chain that ends at
/// the last byte: the blocks follow one another without a gap.
pub proof fn lemma_block_plan_is_partition(blocks: Seq<BlockSpec>, length: nat)
    requires
        is_block_plan(blocks, length),
        in_offset_order(blocks),
        blocks.len() > 0,
    ensures
        is_partition(blocks, length),
{
    let last = blocks.len() - 1;
    assert forall|i: int, j: int| 0 <= i < j < blocks.len() implies (#[trigger] blocks[i]).end < (
    #[trigger] blocks[j]).start by {
        assert(disjoint(blocks[i], blocks[j]));
        assert(blocks[i].start < blocks[j].start);
    }
    assert forall|i: int| 0 <= i < blocks.len() implies (#[trigger] blocks[i]).end < length by {
        assert(covers(blocks, i, blocks[i].end as int));
        assert(covered(blocks, blocks[i].end as int));
    }
    assert(blocks[0].start == 0) by {
        assert(blocks[0].end < length);
        assert(covered(blocks, 0));
        let k = choose|k: int| #[trigger] covers(blocks, k, 0);
        if k > 0 {
            assert(blocks[0].start < blocks[k].start);
        }
    }
    assert forall|i: int, j: int|
        0 <= i < blocks.len() && j == i + 1 && j < blocks.len() implies (#[trigger] blocks[i]).end
        + 1 == (#[trigger] blocks[j]).start by {
        let gap = blocks[i].end + 1;
        assert(blocks[i].end < blocks[j].start);
        if gap < blocks[j].start {
            assert(blocks[j].end < length);
            assert(covered(blocks, gap));
            let k = choose|k: int| #[trigger] covers(blocks, k, gap);
            if k < i {
                assert(blocks[k].end < blocks[i].start);
            } else if k > j {
                assert(blocks[j].start < blocks[k].start);
            }
            assert(false);
        }
    }
    assert(blocks.last().end + 1 == length) by {
        assert(blocks[last].end < length);
        assert(covered(blocks, length - 1));
        let k = choose|k: int| #[trigger] covers(blocks, k, length - 1);
        if k < last {
            assert(blocks[k].end < blocks[last].start);
        }
    }
}

/// For a resource that is cut into two blocks or more, the planned blocks
/// are sorted by index, pairwise disjoint, and together hold exactly the
/// bytes `0 ..= content_length - 1`.
pub proof fn lemma_partition_coverage(content_length: u64, block_size: u64)
    requires
        content_length > 0,
        block_size > 0,
        content_length / block_size > 1,
    ensures
        ({
            let blocks = planned_blocks(content_length, block_size);
            &&& blocks.len() == content_length / block_size
            &&& forall|i: int, j: int|
                0 <= i < j < blocks.len() ==> (#[trigger] blocks[i]).index < (
                #[trigger] blocks[j]).index
            &&& is_block_plan(blocks, content_length as nat)
            &&& in_offset_order(blocks)
        }),
{
    let blocks = planned_blocks(content_length, block_size);
    lemma_planned_blocks_partition(content_length, block_size);
    lemma_partition_is_block_plan(blocks, content_length as nat);
}

/// Plans the retrieval of a resource of `content_length` bytes in blocks of
/// `block_size` bytes.
///
/// An empty resource needs no fetch. With fewer than two whole blocks the
/// resource is fetched in one piece. Otherwise block 0 takes the remainder of
/// the division on top of its `block_size` bytes, and every other block is
/// exactly `block_size` bytes long.
pub fn plan(content_length: u64, block_size: u64) -> (decision: Result<PlanDecision, PlanError>)
    ensures
        match decision {
            Ok(PlanDecision::Empty) => content_length == 0,
            Err(PlanError::ZeroBlockSize) => content_length > 0 && block_size == 0,
            Ok(PlanDecision::UseWhole) => content_length > 0 && block_size > 0 && content_length
                / block_size <= 1,
            Ok(PlanDecision::UseBlocks(blocks)) => {
                &&& content_length > 0
                &&& block_size > 0
                &&& content_length / block_size > 1
                &&& blocks@ == planned_blocks(content_length, block_size)
                &&& blocks@.len() == content_length / block_size
                &&& blocks@.last().end == content_length - 1
                &&& is_block_plan(blocks@, content_length as nat)
                &&& in_offset_order(blocks@)
            },
        },
{
    if content_length == 0 {
        return Ok(PlanDecision::Empty);
    }
    if block_size == 0 {
        return Err(PlanError::ZeroBlockSize);
    }
    let count: u64 = content_length / block_size;
    if count <= 1 {
        return Ok(PlanDecision::UseWhole);
    }
    let remainder: u64 = content_length % block_size;
    proof {
        lemma_block_bounds(content_length, block_size, 0);
    }
    let mut blocks: Vec<BlockSpec> = Vec::new();
    blocks.push(BlockSpec { index: 0, start: 0, end: block_size - 1 + remainder });
    let mut i: u64 = 1;
    while i < count
        invariant
            block_size > 0,
            count == content_length / block_size,
            remainder == content_length % block_size,
            1 <= i <= count,
            blocks@.len() == i,
            forall|k: int| 0 <= k < i ==> blocks@[k] == block_at(content_length, block_size, k),
        decreases count - i,
    {
        proof {
            lemma_block_bounds(content_length, block_size, i as int);
            assert(0 <= i * block_size) by (nonlinear_arith);
        }
        let start: u64 = i * block_size + remainder;
        blocks.push(BlockSpec { index: i, start, end: start + block_size - 1 });
        i += 1;
    }
    proof {
        assert(blocks@ =~= planned_blocks(content_length, block_size));
        lemma_partition_coverage(content_length, block_size);
        lemma_block_bounds(content_length, block_size, count - 1);
    }
    Ok(PlanDecision::UseBlocks(blocks))
}

} // verus!
