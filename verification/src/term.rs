//! Types common to every terminal (SSH, local, Telnet, serial): whatever the
//! transport, a terminal takes commands and produces bytes to show.

use vstd::prelude::*;

verus! {

/// Command sent to a running terminal.
pub enum ComandoTerm {
    /// Bytes typed by the user.
    Scrivi(Vec<u8>),
    /// New size (columns, rows). Ignored by transports without a PTY.
    Ridimensiona(u32, u32),
    /// Close the terminal.
    Chiudi,
}

} // verus!
