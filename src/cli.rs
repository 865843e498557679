//! Values given on the command line.

use vstd::prelude::*;
use crate::text::{opt_chars, split_once_char};

verus! {

/// A `key[=value]` override handed to the configuration evaluator.
#[derive(Debug, Clone)]
pub struct StrKeyVal {
    pub var: String,
    pub val: Option<String>,
}

impl StrKeyVal {
    /// Reads `key=value` (split at the first `=`) or a bare `key`, which
    /// has no value.
    pub fn from(s: &str) -> (r: StrKeyVal)
        ensures
            match opt_chars(r.val) {
                Some(v) => exists|i: int|
                    0 <= i < s@.len() && s@[i] == '=' && (forall|j: int| 0 <= j < i ==> s@[j] != '=')
                    && r.var@ == s@.subrange(0, i) && v == s@.subrange(i + 1, s@.len() as int),
                None => r.var@ == s@ && forall|j: int| 0 <= j < s@.len() ==> s@[j] != '=',
            },
    {
        match split_once_char(s, '=') {
            Some((key, val)) => StrKeyVal { var: key, val: Some(val) },
            None => StrKeyVal { var: String::from_str(s), val: None },
        }
    }
}

/// Whether the override at position `i` repeats the name of an earlier one.
pub open spec fn repeats_earlier(ext: Seq<StrKeyVal>, i: int) -> bool {
    exists|j: int| 0 <= j < i && #[trigger] ext[j].var@ == ext[i].var@
}

/// The position of the first override whose name was given before; `None`
/// where every name is given once.
pub fn find_repeated_var(ext_str: &[StrKeyVal]) -> (r: Option<usize>)
    ensures
        match r {
            Some(i) => i < ext_str@.len() && repeats_earlier(ext_str@, i as int)
                && forall|m: int| 0 <= m < i ==> !repeats_earlier(ext_str@, m),
            None => forall|m: int| 0 <= m < ext_str@.len() ==> !repeats_earlier(ext_str@, m),
        },
{
    let mut i: usize = 0;
    while i < ext_str.len()
        invariant
            0 <= i <= ext_str.len(),
            forall|m: int| 0 <= m < i ==> !repeats_earlier(ext_str@, m),
        decreases ext_str.len() - i,
    {
        let mut j: usize = 0;
        while j < i
            invariant
                0 <= j <= i < ext_str.len(),
                forall|m: int| 0 <= m < i ==> !repeats_earlier(ext_str@, m),
                forall|n: int| 0 <= n < j ==> ext_str@[n].var@ != ext_str@[i as int].var@,
            decreases i - j,
        {
            if ext_str[j].var == ext_str[i].var {
                assert(ext_str@[j as int].var@ == ext_str@[i as int].var@);
                return Some(i);
            }
            j = j + 1;
        }
        i = i + 1;
    }
    None
}

} // verus!
