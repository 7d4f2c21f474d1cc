use vstd::prelude::*;

verus! {

/// Returned when a numeral or a date is asked for outside the range that
/// can be written.
#[derive(Debug, Clone, Copy, PartialEq, Eq, Structural)]
pub struct OutOfRangeError;

} // verus!
