//! Decoding of native transfer completion codes into the closed set of
//! transfer outcomes reported to callers.

use vstd::prelude::*;

verus! {

/// Native completion code: the transfer completed without error.
pub const LIBUSB_TRANSFER_COMPLETED: i32 = 0;

/// Native completion code: the transfer failed.
pub const LIBUSB_TRANSFER_ERROR: i32 = 1;

/// Native completion code: the transfer timed out.
pub const LIBUSB_TRANSFER_TIMED_OUT: i32 = 2;

/// Native completion code: the transfer was cancelled.
pub const LIBUSB_TRANSFER_CANCELLED: i32 = 3;

/// Native completion code: the endpoint stalled.
pub const LIBUSB_TRANSFER_STALL: i32 = 4;

/// Native completion code: the device was disconnected.
pub const LIBUSB_TRANSFER_NO_DEVICE: i32 = 5;

/// Native completion code: the device sent more data than requested.
pub const LIBUSB_TRANSFER_OVERFLOW: i32 = 6;

/// Native return code of a successful submission.
pub const LIBUSB_SUCCESS: i32 = 0;

/// The per-packet (and per-transfer) outcome of a transfer, as reported
/// to callers.
#[derive(Clone, Copy, Debug, PartialEq, Eq, Structural)]
pub enum WebUSBTransferStatus {
    Completed,
    TransferError,
    Timeout,
    Stall,
    Disconnect,
    Babble,
    Cancelled,
}

/// The fixed decoding of a native completion code. Codes outside the
/// known range decode to `TransferError`; cancellation keeps its own
/// terminal outcome rather than being folded into success.
pub open spec fn spec_transfer_status(status: i32) -> WebUSBTransferStatus {
    if status == LIBUSB_TRANSFER_COMPLETED {
        WebUSBTransferStatus::Completed
    } else if status == LIBUSB_TRANSFER_ERROR {
        WebUSBTransferStatus::TransferError
    } else if status == LIBUSB_TRANSFER_TIMED_OUT {
        WebUSBTransferStatus::Timeout
    } else if status == LIBUSB_TRANSFER_CANCELLED {
        WebUSBTransferStatus::Cancelled
    } else if status == LIBUSB_TRANSFER_STALL {
        WebUSBTransferStatus::Stall
    } else if status == LIBUSB_TRANSFER_NO_DEVICE {
        WebUSBTransferStatus::Disconnect
    } else if status == LIBUSB_TRANSFER_OVERFLOW {
        WebUSBTransferStatus::Babble
    } else {
        WebUSBTransferStatus::TransferError
    }
}

impl WebUSBTransferStatus {
    /// Decodes a native completion code into a transfer outcome.
    pub fn from_libusb_status(status: i32) -> (decoded: Self)
        ensures
            decoded == spec_transfer_status(status),
    {
        if status == LIBUSB_TRANSFER_COMPLETED {
            WebUSBTransferStatus::Completed
        } else if status == LIBUSB_TRANSFER_ERROR {
            WebUSBTransferStatus::TransferError
        } else if status == LIBUSB_TRANSFER_TIMED_OUT {
            WebUSBTransferStatus::Timeout
        } else if status == LIBUSB_TRANSFER_CANCELLED {
            WebUSBTransferStatus::Cancelled
        } else if status == LIBUSB_TRANSFER_STALL {
            WebUSBTransferStatus::Stall
        } else if status == LIBUSB_TRANSFER_NO_DEVICE {
            WebUSBTransferStatus::Disconnect
        } else if status == LIBUSB_TRANSFER_OVERFLOW {
            WebUSBTransferStatus::Babble
        } else {
            WebUSBTransferStatus::TransferError
        }
    }
}

} // verus!
