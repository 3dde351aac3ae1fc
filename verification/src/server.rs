//! The daemon's side: its central state.

pub mod history;
pub mod state;

use vstd::prelude::*;

verus! {

/// Length in bytes of the nonce that ties an authorisation request to its callback.
pub const STATE_LEN: usize = 8;

} // verus!
