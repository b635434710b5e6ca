//! The device and transaction layer of a self-service payment kiosk: framing of
//! the serial link to the microcontroller, the receipt in the printer's ESC/POS
//! protocol and the order of the print-spooler calls, and the reading of what the
//! payment terminal prints into a transaction record and an outcome.
use vstd::prelude::*;

pub mod text;
pub mod transaction;
pub mod terminal;
pub mod serial;
pub mod ticket;
pub mod printer;

verus! {

} // verus!
