//! Acquisition core for VE.Direct telemetry devices that come and go on a
//! USB-to-serial bridge: the byte-level frame parser, the register decoder,
//! device identification, the connection registry and the staleness watchdog.

pub mod dashboard;
pub mod device;
pub mod frame;
pub mod number;
pub mod parser;
pub mod register;
pub mod registry;
pub mod resolver;
pub mod staleness;
pub mod thread_manager;
pub mod usb;
pub mod vedirect;
