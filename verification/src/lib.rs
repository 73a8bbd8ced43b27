//! Function-key mode toggling for the K380 keyboard: the decisions, without the I/O.
//!
//! The crate decides which persisted mode a state file stands for, which HID
//! interfaces carry the vendor control channel, which command bytes switch the
//! keyboard to a mode, and how the outcomes of the writes add up to the result
//! of a run. Reading the state file, enumerating devices and writing to them is
//! left to the caller, who feeds what happened back in.

pub mod text;
pub mod mode;
pub mod device;
pub mod dispatch;
pub mod run;
