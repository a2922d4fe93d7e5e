//! Handling what comes in on a proxy's listeners.

pub mod stream;
pub mod udp;

use vstd::prelude::*;
use crate::io::IoError;

verus! {

/// A listener could not be opened.
#[derive(Debug)]
pub struct ListenerBindError(pub IoError);

} // verus!
