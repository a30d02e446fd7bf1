use download::parts::{part_index, part_index_chars, part_indices};

#[test]
fn names_a_slot_by_prefix_and_index() {
    assert_eq!(part_index("out/f.zip0", "out/f.zip"), Some(0));
    assert_eq!(part_index("out/f.zip12", "out/f.zip"), Some(12));
    assert_eq!(part_index("out/f.zip18446744073709551615", "out/f.zip"), Some(u64::MAX));
    assert_eq!(part_index("7", ""), Some(7));
}

#[test]
fn other_entries_name_no_slot() {
    assert_eq!(part_index("out/f.zip", "out/f.zip"), None);
    assert_eq!(part_index("out/f.zip012", "out/f.zip"), None);
    assert_eq!(part_index("out/f.zip00", "out/f.zip"), None);
    assert_eq!(part_index("out/f.zip+1", "out/f.zip"), None);
    assert_eq!(part_index("out/f.zip1x", "out/f.zip"), None);
    assert_eq!(part_index("out/f.zip.bak", "out/f.zip"), None);
    assert_eq!(part_index("out/g.zip1", "out/f.zip"), None);
    assert_eq!(part_index("out/f", "out/f.zip"), None);
    assert_eq!(part_index("out/f.zip18446744073709551616", "out/f.zip"), None);
    assert_eq!(part_index("", ""), None);
}

#[test]
fn index_of_characters() {
    let entry: Vec<char> = "é3".chars().collect();
    let prefix: Vec<char> = "é".chars().collect();
    assert_eq!(part_index_chars(&entry, &prefix), Some(3));
    assert_eq!(part_index_chars(&prefix, &entry), None);
}

#[test]
fn a_slot_that_is_listed_twice_counts_once() {
    let entries: Vec<String> =
        ["a5", "a1", "a9", "a5", "a0", "a9", "a3"].iter().map(|s| s.to_string()).collect();
    assert_eq!(part_indices(&entries, "a"), vec![0, 1, 3, 5, 9]);
}

#[test]
fn slots_come_in_index_order_whatever_the_listing_order() {
    let entries: Vec<String> = ["d/a10", "d/a2", "d/a", "d/b1", "d/a0", "d/a1", "d/a02", "d/a2"]
        .iter()
        .map(|s| s.to_string())
        .collect();
    assert_eq!(part_indices(&entries, "d/a"), vec![0, 1, 2, 10]);
    let mut reversed = entries.clone();
    reversed.reverse();
    assert_eq!(part_indices(&reversed, "d/a"), vec![0, 1, 2, 10]);
}

#[test]
fn no_entries_no_slots() {
    assert_eq!(part_indices(&Vec::new(), "d/a"), Vec::<u64>::new());
    let entries: Vec<String> = vec!["d/a".to_string(), "x".to_string()];
    assert_eq!(part_indices(&entries, "d/a"), Vec::<u64>::new());
}
