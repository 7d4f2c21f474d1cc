//! Roman numerals and dates of the Roman calendar.
//!
//! Numbers from 0 to 4,999,999 are written in subtractive notation, with a
//! bar (vinculum) over a letter to multiply it by a thousand from 4,000 on.
//! Zero is written `N` (nulla). Dates are written in the Roman manner,
//! counted back from the Kalends, Nones or Ides, with the year counted from
//! the founding of the city.

pub mod date;
pub mod decimal;
mod error;
pub mod numeral;
pub mod reading;

pub use date::{kalendarium, Kalendarium};
pub use error::OutOfRangeError;
pub use numeral::{ad_romanum, RomanNumeral, Style, MAX};

use vstd::prelude::*;

verus! {

/// The value of the smallest Roman numeral.
pub const MIN: u32 = 0;

} // verus!
