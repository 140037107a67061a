//! Choosing what to import: provider readings come in JSON files.

use vstd::prelude::*;
use vstd::string::StrSliceExecFns;
use crate::models::text_equals;

verus! {

/// Whether a file name ends in `.json`.
pub open spec fn json_name(name: Seq<char>) -> bool {
    name.len() >= 5 && name.subrange(name.len() - 5, name.len() as int) == ".json"@
}

/// Whether the file called `name` is one to import (its name ends in `.json`).
pub fn is_json_name(name: &str) -> (r: bool)
    ensures
        r == json_name(name@),
{
    let n = name.unicode_len();
    if n < 5 {
        return false;
    }
    let tail = name.substring_char(n - 5, n);
    text_equals(tail, ".json")
}

} // verus!
