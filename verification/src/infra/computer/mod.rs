//! Desktop input: key codes and the input calls where no native injection
//! is available. Screenshots and coordinates (floating point) are the
//! caller's.
pub mod native_input;
