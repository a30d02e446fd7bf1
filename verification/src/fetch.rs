//! What a fetch asks for and where its body goes.

use vstd::prelude::*;
use vstd::string::StringExecFns;
use crate::config::Config;
use crate::decimal::{decimal_text, write_decimal};
use crate::parts::part_name;
use crate::text::push_char;

verus! {

/// Where the artifact is written: the directory followed by the file's name,
/// joined as they stand.
pub open spec fn artifact_name(path: Seq<char>, file_name: Seq<char>) -> Seq<char> {
    path + file_name
}

/// Value of the `Range` header that asks for the bytes `start ..= end`.
pub open spec fn range_text(start: u64, end: u64) -> Seq<char> {
    seq!['b', 'y', 't', 'e', 's', '='] + decimal_text(start as nat) + seq!['-'] + decimal_text(
        end as nat,
    )
}

/// Value of the `Range` header that asks for the bytes `start ..= end`.
pub fn range_header(start: u64, end: u64) -> (value: String)
    ensures
        value@ == range_text(start, end),
{
    let mut value = String::new();
    push_char(&mut value, 'b');
    push_char(&mut value, 'y');
    push_char(&mut value, 't');
    push_char(&mut value, 'e');
    push_char(&mut value, 's');
    push_char(&mut value, '=');
    assert(value@ =~= seq!['b', 'y', 't', 'e', 's', '=']);
    write_decimal(start, &mut value);
    push_char(&mut value, '-');
    assert(value@ =~= seq!['b', 'y', 't', 'e', 's', '='] + decimal_text(start as nat) + seq!['-']);
    write_decimal(end, &mut value);
    value
}

/// Path of the artifact.
pub fn artifact_path(config: &Config) -> (path: String)
    ensures
        path@ == artifact_name(config.path@, config.file_name@),
{
    let mut path = config.path.clone();
    path.append(config.file_name.as_str());
    path
}

/// Path of the part slot of block `index`: the artifact's path followed by
/// the index in decimal.
pub fn part_path(config: &Config, index: u64) -> (path: String)
    ensures
        path@ == part_name(artifact_name(config.path@, config.file_name@), index as nat),
{
    let mut path = artifact_path(config);
    write_decimal(index, &mut path);
    path
}

} // verus!
