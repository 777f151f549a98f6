use vstd::prelude::*;
use vstd::string::StringExecFns;

use crate::text;
use crate::text::decimal_text;

verus! {

/// A sum that stops at the greatest `u64`.
pub open spec fn saturating_sum(a: u64, b: u64) -> u64 {
    if a + b <= u64::MAX {
        (a + b) as u64
    } else {
        u64::MAX
    }
}

/// The `Range` header value for the bytes `start` to `end`, both included.
pub open spec fn range_header(start: u64, end: u64) -> Seq<char> {
    "bytes="@ + text::decimal(start as nat) + "-"@ + text::decimal(end as nat)
}

/// Writes the `Range` header value for the bytes `start` to `end`.
pub fn range_header_value(start: u64, end: u64) -> (value: String)
    ensures
        value@ == range_header(start, end),
{
    "bytes=".to_owned().concat(decimal_text(start).as_str()).concat("-").concat(
        decimal_text(end).as_str(),
    )
}

} // verus!
