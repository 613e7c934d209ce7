//! The command line of the tunnel: which end of it this process is.

use vstd::prelude::*;

verus! {

/// The parsed command line.
pub struct Cli {
    pub command: Commands,
}

/// The two ends of the tunnel.
#[derive(Clone)]
pub enum Commands {
    /// The far end: opens a connection to `target` for every connection that
    /// the near end announces.
    Server { target: String },
    /// The near end: accepts local connections on `listener` and announces
    /// each to the far end.
    Client { listener: String },
}

} // verus!
