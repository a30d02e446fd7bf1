use download::fetch::{artifact_path, part_path, range_header};
use download::Config;

fn config() -> Config {
    Config {
        block_size: 300,
        uri: "http://example.com/f.zip".to_string(),
        path: "out/".to_string(),
        file_name: "f.zip".to_string(),
    }
}

#[test]
fn range_header_is_inclusive_and_decimal() {
    assert_eq!(range_header(0, 399), "bytes=0-399");
    assert_eq!(range_header(400, 699), "bytes=400-699");
    assert_eq!(range_header(0, 0), "bytes=0-0");
    assert_eq!(range_header(0, u64::MAX), "bytes=0-18446744073709551615");
}

#[test]
fn artifact_path_joins_directory_and_name_as_they_stand() {
    assert_eq!(artifact_path(&config()), "out/f.zip");
    let mut bare = config();
    bare.path = "out".to_string();
    assert_eq!(artifact_path(&bare), "outf.zip");
}

#[test]
fn part_path_appends_the_index() {
    assert_eq!(part_path(&config(), 0), "out/f.zip0");
    assert_eq!(part_path(&config(), 12), "out/f.zip12");
    assert_eq!(part_path(&config(), u64::MAX), "out/f.zip18446744073709551615");
}

#[test]
fn a_part_path_names_its_own_index() {
    let c = config();
    for index in [0u64, 1, 9, 10, 123456789] {
        let path = part_path(&c, index);
        assert_eq!(download::parts::part_index(&path, &artifact_path(&c)), Some(index));
    }
}
