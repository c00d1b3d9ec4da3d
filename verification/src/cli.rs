//! Command-line surface of the proof generator: the commands a caller can
//! ask for.  Argument parsing itself happens outside the library.

use vstd::prelude::*;

verus! {

/// A request to mint a fresh coin, or to claim one with a hex-encoded
/// secret key.
pub enum Command {
    Mint,
    Claim { key: String },
}

/// The parsed invocation.
pub struct Args {
    pub command: Command,
}

} // verus!
