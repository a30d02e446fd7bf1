use download::{Config, ConfigError};

fn args(list: &[&str]) -> Vec<String> {
    list.iter().map(|s| s.to_string()).collect()
}

#[test]
fn reads_four_arguments_after_the_program_name() {
    let config = Config::read_config(&args(&["download", "300", "http://example.com/f", "out/", "f.zip"]));
    assert_eq!(
        config,
        Ok(Config {
            block_size: 300,
            uri: "http://example.com/f".to_string(),
            path: "out/".to_string(),
            file_name: "f.zip".to_string(),
        })
    );
}

#[test]
fn further_arguments_are_ignored() {
    let config = Config::read_config(&args(&["download", "+8", "u", "p", "n", "extra"]));
    assert_eq!(
        config,
        Ok(Config { block_size: 8, uri: "u".to_string(), path: "p".to_string(), file_name: "n".to_string() })
    );
}

#[test]
fn fewer_than_four_arguments_is_an_error() {
    assert_eq!(Config::read_config(&args(&[])), Err(ConfigError::MissingArguments));
    assert_eq!(Config::read_config(&args(&["download"])), Err(ConfigError::MissingArguments));
    assert_eq!(
        Config::read_config(&args(&["download", "x", "u", "p"])),
        Err(ConfigError::MissingArguments)
    );
}

#[test]
fn block_size_must_be_a_number() {
    for bad in ["", "x", "-1", "1.5", "18446744073709551616"] {
        assert_eq!(
            Config::read_config(&args(&["download", bad, "u", "p", "n"])),
            Err(ConfigError::MalformedBlockSize)
        );
    }
}

#[test]
fn block_size_must_be_positive() {
    assert_eq!(
        Config::read_config(&args(&["download", "0", "u", "p", "n"])),
        Err(ConfigError::ZeroBlockSize)
    );
    assert_eq!(
        Config::read_config(&args(&["download", "+000", "u", "p", "n"])),
        Err(ConfigError::ZeroBlockSize)
    );
}

#[test]
fn set_uri_changes_the_uri_only() {
    let mut config = Config {
        block_size: 5,
        uri: "http://a/".to_string(),
        path: "p".to_string(),
        file_name: "n".to_string(),
    };
    config.set_uri(&"http://b/".to_string());
    assert_eq!(
        config,
        Config { block_size: 5, uri: "http://b/".to_string(), path: "p".to_string(), file_name: "n".to_string() }
    );
}
