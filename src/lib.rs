//! Logic of a chamber firmware: a deadline-driven scheduler that serves
//! several chemical probes over one shared I2C bus, the parser of the probes'
//! responses, and the frame codec of the radio link.

pub mod atlas;
pub mod frame;
pub mod scheduler;
pub mod sensors;
