//! Events pushed to the user interface.

use vstd::prelude::*;

verus! {

/// Text a machine wrote on its serial console.
#[derive(Clone, Debug)]
pub struct SerialEvent {
    pub vm_id: String,
    pub data: String,
}

/// Text a machine put on its clipboard.
#[derive(Clone, Debug)]
pub struct ClipboardEvent {
    pub vm_id: String,
    pub text: String,
}

/// A machine's new state.
#[derive(Clone, Debug)]
pub struct VmStatusEvent {
    pub vm_id: String,
    pub state: String,
}

} // verus!
