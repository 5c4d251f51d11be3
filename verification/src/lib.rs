//! Locating the CUDA driver library on disk and turning the driver's
//! status codes into a typed error.
//!
//! The crate decides; it never touches the file system, the environment or
//! the dynamic loader. A caller reads what the locator asks for, hands the
//! answers back as plain values, and loads the file that the locator names.

pub mod cuda_result;
pub mod decimal;
pub mod load;
pub mod platform;
pub mod text;
