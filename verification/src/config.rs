//! The configuration that a run starts from.

use vstd::prelude::*;
use crate::decimal::{parse_u64, u64_of_text};

verus! {

/// What to download and where to put it.
///
/// `path` and `file_name` are joined as they stand: the artifact is written
/// to `path` followed by `file_name`.
#[derive(Debug, PartialEq, Eq)]
pub struct Config {
    /// Size of a block in bytes.
    pub block_size: u64,
    /// Where the resource is requested from.
    pub uri: String,
    /// Directory of the artifact and of the part slots.
    pub path: String,
    /// Name of the artifact inside `path`.
    pub file_name: String,
}

/// A configuration with its texts as character sequences.
pub struct ConfigView {
    pub block_size: u64,
    pub uri: Seq<char>,
    pub path: Seq<char>,
    pub file_name: Seq<char>,
}

impl View for Config {
    type V = ConfigView;

    open spec fn view(&self) -> ConfigView {
        ConfigView {
            block_size: self.block_size,
            uri: self.uri@,
            path: self.path@,
            file_name: self.file_name@,
        }
    }
}

/// Why the arguments make no configuration.
#[derive(Clone, Copy, Debug, PartialEq, Eq, Structural)]
pub enum ConfigError {
    /// Fewer than four arguments follow the program's name.
    MissingArguments,
    /// The block size is not an unsigned number that fits 64 bits.
    MalformedBlockSize,
    /// The block size is zero.
    ZeroBlockSize,
}

impl Config {
    /// Reads the configuration from the program's arguments: `args[0]` is
    /// the program's name, then come the block size, the URI, the output
    /// directory and the output file's name. Further arguments are ignored.
    pub fn read_config(args: &Vec<String>) -> (config: Result<Config, ConfigError>)
        ensures
            match config {
                Ok(c) => {
                    &&& args.len() >= 5
                    &&& c.block_size > 0
                    &&& u64_of_text(args[1]@) == Some(c.block_size)
                    &&& c.uri@ == args[2]@
                    &&& c.path@ == args[3]@
                    &&& c.file_name@ == args[4]@
                },
                Err(ConfigError::MissingArguments) => args.len() < 5,
                Err(ConfigError::MalformedBlockSize) => args.len() >= 5 && u64_of_text(args[1]@)
                    is None,
                Err(ConfigError::ZeroBlockSize) => args.len() >= 5 && u64_of_text(args[1]@)
                    == Some(0u64),
            },
    {
        if args.len() < 5 {
            return Err(ConfigError::MissingArguments);
        }
        let block_size: u64 = match parse_u64(args[1].as_str()) {
            Some(n) => n,
            None => {
                return Err(ConfigError::MalformedBlockSize);
            },
        };
        if block_size == 0 {
            return Err(ConfigError::ZeroBlockSize);
        }
        Ok(
            Config {
                block_size,
                uri: args[2].clone(),
                path: args[3].clone(),
                file_name: args[4].clone(),
            },
        )
    }

    /// Points the download at `url`; nothing else changes.
    pub fn set_uri(&mut self, url: &String)
        ensures
            final(self)@ == (ConfigView { uri: url@, ..old(self)@ }),
    {
        self.uri = url.clone();
    }
}

} // verus!
