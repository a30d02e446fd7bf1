use download::merge::{merge, MergeError};
use download::plan::{plan, BlockSpec, PlanDecision};

#[test]
fn joins_parts_in_the_order_given() {
    let parts: Vec<Vec<u8>> = vec![vec![1, 2, 3], vec![], vec![4], vec![5, 6]];
    assert_eq!(merge(&parts, 6), Ok(vec![1, 2, 3, 4, 5, 6]));
    let swapped: Vec<Vec<u8>> = vec![vec![5, 6], vec![4], vec![1, 2, 3]];
    assert_eq!(merge(&swapped, 6), Ok(vec![5, 6, 4, 1, 2, 3]));
}

#[test]
fn a_wrong_total_is_an_error() {
    let parts: Vec<Vec<u8>> = vec![vec![1, 2, 3], vec![4, 5]];
    assert_eq!(merge(&parts, 6), Err(MergeError::LengthMismatch));
    assert_eq!(merge(&parts, 4), Err(MergeError::LengthMismatch));
    assert_eq!(merge(&parts, 0), Err(MergeError::LengthMismatch));
    assert_eq!(merge(&parts, u64::MAX), Err(MergeError::LengthMismatch));
}

#[test]
fn nothing_merges_to_nothing() {
    assert_eq!(merge(&Vec::new(), 0), Ok(Vec::new()));
    assert_eq!(merge(&vec![Vec::new(), Vec::new()], 0), Ok(Vec::new()));
    assert_eq!(merge(&Vec::new(), 1), Err(MergeError::LengthMismatch));
}

fn cut(data: &[u8], blocks: &[BlockSpec]) -> Vec<Vec<u8>> {
    blocks.iter().map(|b| data[b.start as usize..=b.end as usize].to_vec()).collect()
}

#[test]
fn cutting_by_a_plan_and_merging_gives_the_data_back() {
    let cases: [(u64, u64); 4] = [(1000, 300), (17, 5), (64, 8), (4097, 1024)];
    for (content_length, block_size) in cases {
        let data: Vec<u8> = (0..content_length).map(|i| (i * 31 % 251) as u8).collect();
        let blocks = match plan(content_length, block_size) {
            Ok(PlanDecision::UseBlocks(blocks)) => blocks,
            other => panic!("expected blocks, got {:?}", other),
        };
        let parts = cut(&data, &blocks);
        assert_eq!(merge(&parts, content_length), Ok(data));
    }
}

#[test]
fn a_missing_part_is_noticed() {
    let data: Vec<u8> = (0..1000u64).map(|i| i as u8).collect();
    let blocks = match plan(1000, 300) {
        Ok(PlanDecision::UseBlocks(blocks)) => blocks,
        other => panic!("expected blocks, got {:?}", other),
    };
    let mut parts = cut(&data, &blocks);
    parts.remove(1);
    assert_eq!(merge(&parts, 1000), Err(MergeError::LengthMismatch));
}
