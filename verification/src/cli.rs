//! Startup arguments recognised by the service.

use vstd::prelude::*;

verus! {

/// The command-line options of the server binary: the TCP port to serve on.
pub struct Args {
    /// The port to serve the app on.
    pub port: u16,
}

} // verus!
