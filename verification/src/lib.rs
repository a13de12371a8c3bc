//! Core of a sandbox-based test fixture: verified decision logic for
//! creating, operating and tearing down isolated execution environments
//! driven through a container engine's command-line interface.

pub mod addr;
pub mod commands;
pub mod gate;
pub mod lifecycle;
pub mod output;
pub mod profile;
pub mod sandbox;
pub mod text;

use vstd::prelude::*;

verus! {

/// Errors reported by the fixture core.
///
/// Image-build failures are not represented here: a failed build aborts
/// fixture setup outright instead of being handed back to the caller.
#[derive(Debug)]
pub enum Error {
    /// A checked command exited unsuccessfully; carries the diagnostic
    /// message plus the captured output streams.
    NonZeroExit { message: String, stdout: String, stderr: String },
    /// Captured output was not valid text.
    Encoding,
    /// The engine-reported network address did not parse.
    AddressParse,
}

} // verus!
