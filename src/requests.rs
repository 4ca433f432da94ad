//! Requests that the control surface sends about the chain and the device.

use crate::models::ProcessorType;
use vstd::prelude::*;

verus! {

/// Add a processor of the given kind at `index`.
#[derive(Clone, Copy, Debug, PartialEq, Eq, Structural)]
pub struct CreateProcessorRequest {
    pub index: usize,
    pub processor_type: ProcessorType,
}

/// Put a fresh processor of the given kind in place of an existing one.
#[derive(Clone, Copy, Debug, PartialEq, Eq, Structural)]
pub struct SwapProcessorRequest {
    pub processor_type: ProcessorType,
}

/// Move a processor so that it lands before the entry now at
/// `destination_index`.
#[derive(Clone, Copy, Debug, PartialEq, Eq, Structural)]
pub struct MoveProcessorRequest {
    pub destination_index: usize,
}

/// Bypass a processor, or bring it back.
#[derive(Clone, Copy, Debug, PartialEq, Eq, Structural)]
pub struct SetProcessorBypassedRequest {
    pub bypassed: bool,
}

/// Turn the input's microphone bias on or off.
#[derive(Clone, Copy, Debug, PartialEq, Eq, Structural)]
pub struct SetMicBiasRequest {
    pub on: bool,
}

} // verus!
