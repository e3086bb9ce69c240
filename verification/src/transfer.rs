//! The transfer dispatcher's decisions: which native operation a
//! resolved transfer type calls for. A bulk endpoint is read or written
//! with the bulk primitive, an interrupt endpoint with the interrupt
//! primitive, and any other resolved type — or no matching endpoint at
//! all — yields an empty success rather than an error.

use vstd::prelude::*;

use crate::descriptor::TransferType;

verus! {

/// The native operation an IN transfer request resolves to.
#[derive(Clone, Copy, Debug, PartialEq, Eq, Structural)]
pub enum TransferInAction {
    /// Read up to `length` bytes from the endpoint with the bulk
    /// primitive, with an unbounded wait.
    ReadBulk { endpoint_number: u8, length: usize },
    /// Read up to `length` bytes from the endpoint with the interrupt
    /// primitive, with an unbounded wait.
    ReadInterrupt { endpoint_number: u8, length: usize },
    /// No native call: the request completes with an empty success.
    Empty,
}

/// The native operation an OUT transfer request resolves to.
#[derive(Debug)]
pub enum TransferOutAction {
    /// Write the payload to the endpoint with the bulk primitive, with
    /// an unbounded wait.
    WriteBulk { endpoint_number: u8, data: Vec<u8> },
    /// Write the payload to the endpoint with the interrupt primitive,
    /// with an unbounded wait.
    WriteInterrupt { endpoint_number: u8, data: Vec<u8> },
    /// No native call: the request completes with an empty success.
    Empty,
}

/// The fields of the native control-transfer call: the encoded
/// request-type byte, the setup fields passed through, and the payload
/// buffer (supplied to an OUT call, filled by an IN call).
#[derive(Debug)]
pub struct ControlTransferAction {
    pub request_type: u8,
    pub request: u8,
    pub value: u16,
    pub index: u16,
    pub data: Vec<u8>,
}

/// The dispatch rule for IN transfers: bulk and interrupt endpoints get
/// their matching read primitive; anything else is an empty success.
pub open spec fn spec_transfer_in_action(
    resolved: Option<TransferType>,
    endpoint_number: u8,
    length: usize,
) -> TransferInAction {
    match resolved {
        Some(TransferType::Bulk) => TransferInAction::ReadBulk { endpoint_number, length },
        Some(TransferType::Interrupt) => TransferInAction::ReadInterrupt {
            endpoint_number,
            length,
        },
        _ => TransferInAction::Empty,
    }
}

/// The dispatch rule for OUT transfers: bulk and interrupt endpoints get
/// their matching write primitive; anything else is an empty success.
pub open spec fn spec_transfer_out_action(
    resolved: Option<TransferType>,
    endpoint_number: u8,
    data: Vec<u8>,
) -> TransferOutAction {
    match resolved {
        Some(TransferType::Bulk) => TransferOutAction::WriteBulk { endpoint_number, data },
        Some(TransferType::Interrupt) => TransferOutAction::WriteInterrupt {
            endpoint_number,
            data,
        },
        _ => TransferOutAction::Empty,
    }
}

} // verus!
