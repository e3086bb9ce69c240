//! A WebUSB-style device access layer: device enumeration records, a
//! resource registry handing out opaque identifiers, descriptor-driven
//! transfer-type resolution, control-request encoding, and an isochronous
//! transfer engine, with the decision logic verified.

use vstd::prelude::*;

pub mod control;
pub mod descriptor;
pub mod device;
pub mod iso;
pub mod key;
pub mod lifecycle;
pub mod registry;
pub mod status;
pub mod transfer;

verus! {

/// The failure outcomes an operation can surface to its caller.
#[derive(Clone, Copy, Debug, PartialEq, Eq, Structural)]
pub enum UsbError {
    /// The identifier does not refer to a live resource of the expected kind.
    BadResourceIdentifier,
    /// The native I/O call failed (timeout, stall, pipe error, disconnect).
    NativeTransferFailure,
    /// The active configuration descriptor could not be obtained.
    DescriptorUnavailable,
    /// An isochronous transfer submission returned a non-success code.
    SubmissionFailure,
}

/// The direction of an endpoint or of a control request.
#[derive(Clone, Copy, Debug, PartialEq, Eq, Structural)]
pub enum Direction {
    In,
    Out,
}

/// The direction bit of an endpoint address: bit 7 set for IN, clear for OUT.
pub open spec fn spec_direction_bit(direction: Direction) -> u8 {
    match direction {
        Direction::In => 0x80,
        Direction::Out => 0x00,
    }
}

/// The canonical address of an endpoint: its number with the direction bit.
pub open spec fn spec_endpoint_address(endpoint_number: u8, direction: Direction) -> u8 {
    endpoint_number | spec_direction_bit(direction)
}

/// Computes the canonical endpoint address: the endpoint number with
/// bit 7 set for an IN endpoint and clear for an OUT endpoint.
pub fn endpoint_address(endpoint_number: u8, direction: Direction) -> (address: u8)
    ensures
        address == spec_endpoint_address(endpoint_number, direction),
{
    match direction {
        Direction::In => endpoint_number | 0x80,
        Direction::Out => endpoint_number | 0x00,
    }
}

} // verus!
