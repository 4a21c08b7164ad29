//! Core of a desktop front end for a local USB-over-IP sharing service.
//!
//! The library has two halves. `device_list` turns the free-text status
//! report of the external sharing tool into an ordered sequence of device
//! records, as a pure function of the text. `lifecycle` decides which
//! external commands to run to keep the service installed, firewalled and
//! up to date, and classifies what each command's outcome means; the
//! caller performs the actual process launches and hands the captured
//! results back as plain values.

pub mod device_list;
pub mod lifecycle;
pub mod text;
