//! The one message of the system.

use vstd::prelude::*;

verus! {

/// "Something under the root changed." It carries nothing: any change asks
/// for the same reload.
#[derive(Clone, Copy, Debug, PartialEq, Eq, Structural)]
pub struct ReloadSignal;

} // verus!
