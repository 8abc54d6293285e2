//! Pure helpers of the Windows platform layer: wide strings and the
//! classification of system error codes.
pub mod errors;
pub mod wide;
