use download::plan::{plan, BlockSpec, PlanDecision, PlanError};

fn blocks_of(content_length: u64, block_size: u64) -> Vec<BlockSpec> {
    match plan(content_length, block_size) {
        Ok(PlanDecision::UseBlocks(blocks)) => blocks,
        other => panic!("expected blocks, got {:?}", other),
    }
}

#[test]
fn the_first_block_takes_the_remainder() {
    let blocks = blocks_of(1000, 300);
    assert_eq!(
        blocks,
        vec![
            BlockSpec { index: 0, start: 0, end: 399 },
            BlockSpec { index: 1, start: 400, end: 699 },
            BlockSpec { index: 2, start: 700, end: 999 },
        ]
    );
}

#[test]
fn fewer_than_one_block_is_whole() {
    assert_eq!(plan(10, 100), Ok(PlanDecision::UseWhole));
}

#[test]
fn exactly_one_block_is_whole() {
    assert_eq!(plan(100, 100), Ok(PlanDecision::UseWhole));
    assert_eq!(plan(199, 100), Ok(PlanDecision::UseWhole));
}

#[test]
fn two_blocks_is_the_smallest_split() {
    assert_eq!(
        blocks_of(200, 100),
        vec![
            BlockSpec { index: 0, start: 0, end: 99 },
            BlockSpec { index: 1, start: 100, end: 199 },
        ]
    );
}

#[test]
fn empty_resource_is_empty_whatever_the_block_size() {
    assert_eq!(plan(0, 100), Ok(PlanDecision::Empty));
    assert_eq!(plan(0, 0), Ok(PlanDecision::Empty));
}

#[test]
fn zero_block_size_is_an_error() {
    assert_eq!(plan(5, 0), Err(PlanError::ZeroBlockSize));
    assert_eq!(plan(u64::MAX, 0), Err(PlanError::ZeroBlockSize));
}

#[test]
fn last_block_ends_at_last_byte() {
    let cases: [(u64, u64); 6] = [(1000, 300), (1000, 1), (7, 3), (4096, 1024), (4097, 1024), (999, 499)];
    for (content_length, block_size) in cases {
        let blocks = blocks_of(content_length, block_size);
        assert_eq!(blocks.len() as u64, content_length / block_size);
        assert_eq!(blocks[blocks.len() - 1].end, content_length - 1);
    }
}

#[test]
fn blocks_are_sorted_disjoint_and_cover_the_resource() {
    let cases: [(u64, u64); 5] = [(1000, 300), (17, 5), (64, 8), (65, 8), (1_000_003, 9973)];
    for (content_length, block_size) in cases {
        let blocks = blocks_of(content_length, block_size);
        assert_eq!(blocks[0].start, 0);
        for (i, block) in blocks.iter().enumerate() {
            assert_eq!(block.index, i as u64);
            assert!(block.start <= block.end);
            if i > 0 {
                assert_eq!(block.start, blocks[i - 1].end + 1);
                assert_eq!(block.end - block.start + 1, block_size);
            }
        }
        assert_eq!(blocks[0].end + 1, block_size + content_length % block_size);
        assert_eq!(blocks[blocks.len() - 1].end, content_length - 1);
    }
}

#[test]
fn largest_length_does_not_overflow() {
    let block_size: u64 = 1 << 62;
    let blocks = blocks_of(u64::MAX, block_size);
    assert_eq!(blocks.len(), 3);
    assert_eq!(blocks[0], BlockSpec { index: 0, start: 0, end: 2 * block_size - 2 });
    assert_eq!(blocks[1], BlockSpec { index: 1, start: 2 * block_size - 1, end: 3 * block_size - 2 });
    assert_eq!(blocks[2].end, u64::MAX - 1);
}
