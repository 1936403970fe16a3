//! The VE.Direct protocol in one place: the registers, the device classes
//! and the parser, under one path.

pub use crate::device::VeDirectDevice;
pub use crate::parser::VeDirectParser;
pub use crate::register::{ParseRegisterError, Register};
