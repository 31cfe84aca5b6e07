//! Validation and generation of Taiwan national identification numbers.
//!
//! An identification number is one upper-case area letter followed by nine
//! decimal digits, the last of which is a check digit. The area letter stands
//! for a two-digit number; those two digits and the nine written ones form an
//! eleven-digit expansion whose weighted sum must be divisible by ten.

pub mod table;
pub mod checksum;
pub mod validate;
pub mod random;
pub mod text;
pub mod generate;

pub use crate::checksum::{passes_checksum, solve_check_digit, sum};
pub use crate::generate::{
    check_prefix, complete, generate, generate_prefix, try_generate_prefix, PrefixError,
};
pub use crate::table::code_map;
pub use crate::validate::{expand, is_valid};
