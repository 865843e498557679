//! The starter files written by `init`, and its confirmation prompt.

use vstd::prelude::*;

verus! {

/// Writes the starter configuration files.
pub struct InitCommand;

/// Whether `c` has the Unicode `White_Space` property (what
/// `char::is_whitespace` tests).
pub open spec fn is_white_space(c: char) -> bool {
    let n = c as u32;
    (9 <= n && n <= 13) || n == 0x20 || n == 0x85 || n == 0xa0 || n == 0x1680
        || (0x2000 <= n && n <= 0x200a) || n == 0x2028 || n == 0x2029 || n == 0x202f
        || n == 0x205f || n == 0x3000
}

/// The text without its leading whitespace.
pub open spec fn trim_start_of(s: Seq<char>) -> Seq<char>
    decreases s.len(),
{
    if s.len() > 0 && is_white_space(s[0]) {
        trim_start_of(s.drop_first())
    } else {
        s
    }
}

/// The text without its trailing whitespace.
pub open spec fn trim_end_of(s: Seq<char>) -> Seq<char>
    decreases s.len(),
{
    if s.len() > 0 && is_white_space(s.last()) {
        trim_end_of(s.drop_last())
    } else {
        s
    }
}

/// The text without leading and trailing whitespace.
pub open spec fn trim_of(s: Seq<char>) -> Seq<char> {
    trim_end_of(trim_start_of(s))
}

/// Relies on `str::trim`: the text without the leading and trailing
/// characters for which `char::is_whitespace` holds.
#[verifier::external_body]
fn trim(s: &str) -> (r: String)
    ensures
        r@ == trim_of(s@),
{
    s.trim().to_string()
}

/// The contents of the first starter file.
pub open spec fn settings_file() -> Seq<char> {
    "{\n      targetScheduleGroups: [\n        \"example-group\"\n      ]\n    }"@
}

/// The starter files: each path with its contents.
pub fn bootstrap_files() -> (r: Vec<(String, String)>)
    ensures
        r@.len() == 2,
        r@[0].0@ == "eber-config.jsonnet"@,
        r@[0].1@ == settings_file(),
        r@[1].0@ == "example-group.jsonnet"@,
        r@[1].1@ == "[]"@,
{
    let mut r: Vec<(String, String)> = Vec::new();
    r.push((String::from_str("eber-config.jsonnet"), String::from_str("{\n      targetScheduleGroups: [\n        \"example-group\"\n      ]\n    }")));
    r.push((String::from_str("example-group.jsonnet"), String::from_str("[]")));
    r
}

impl InitCommand {
    /// Whether the operator's answer allows overwriting an existing file: the
    /// answer, trimmed, must be exactly `yes`.
    pub fn overwrite_confirmed(input: &str) -> (r: bool)
        ensures
            r == (trim_of(input@) == "yes"@),
    {
        let t = trim(input);
        crate::apply::ApplyCommand::is_approval(t.as_str())
    }
}

} // verus!
