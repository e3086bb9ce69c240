//! Translation of structured control-request setup data into the single
//! request-type byte of the USB setup packet: direction in bit 7, request
//! type in bits 6-5, recipient in bits 4-0.

use vstd::prelude::*;

use crate::Direction;
use crate::spec_direction_bit;

verus! {

/// The class of a control request.
#[derive(Clone, Copy, Debug, PartialEq, Eq, Structural)]
pub enum WebUSBRequestType {
    Standard,
    Class,
    Vendor,
}

/// The recipient of a control request.
#[derive(Clone, Copy, Debug, PartialEq, Eq, Structural)]
pub enum WebUSBRecipient {
    Device,
    Interface,
    Endpoint,
    Other,
}

/// The structured setup fields of a control request.
#[derive(Clone, Copy, Debug, PartialEq, Eq, Structural)]
pub struct SetupArgs {
    pub request_type: WebUSBRequestType,
    pub recipient: WebUSBRecipient,
    pub request: u8,
    pub value: u16,
    pub index: u16,
}

/// Bits 6-5 of the request-type byte.
pub open spec fn spec_request_type_bits(request_type: WebUSBRequestType) -> u8 {
    match request_type {
        WebUSBRequestType::Standard => 0x00,
        WebUSBRequestType::Class => 0x20,
        WebUSBRequestType::Vendor => 0x40,
    }
}

/// Bits 4-0 of the request-type byte.
pub open spec fn spec_recipient_bits(recipient: WebUSBRecipient) -> u8 {
    match recipient {
        WebUSBRecipient::Device => 0x00,
        WebUSBRecipient::Interface => 0x01,
        WebUSBRecipient::Endpoint => 0x02,
        WebUSBRecipient::Other => 0x03,
    }
}

/// The encoded request-type byte of a setup packet.
pub open spec fn spec_request_type_byte(
    direction: Direction,
    request_type: WebUSBRequestType,
    recipient: WebUSBRecipient,
) -> u8 {
    spec_direction_bit(direction) | spec_request_type_bits(request_type) | spec_recipient_bits(
        recipient,
    )
}

/// Encodes direction, request type and recipient into the request-type
/// byte of a setup packet.
pub fn encode_request_type(
    direction: Direction,
    request_type: WebUSBRequestType,
    recipient: WebUSBRecipient,
) -> (encoded: u8)
    ensures
        encoded == spec_request_type_byte(direction, request_type, recipient),
{
    let direction_bit: u8 = match direction {
        Direction::In => 0x80,
        Direction::Out => 0x00,
    };
    let type_bits: u8 = match request_type {
        WebUSBRequestType::Standard => 0x00,
        WebUSBRequestType::Class => 0x20,
        WebUSBRequestType::Vendor => 0x40,
    };
    let recipient_bits: u8 = match recipient {
        WebUSBRecipient::Device => 0x00,
        WebUSBRecipient::Interface => 0x01,
        WebUSBRecipient::Endpoint => 0x02,
        WebUSBRecipient::Other => 0x03,
    };
    direction_bit | type_bits | recipient_bits
}

/// Flipping the direction of a control request flips exactly the top bit
/// of the encoded request-type byte and nothing else: for every request
/// type and recipient, the two encodings differ by `0x80` alone, the OUT
/// encoding has the top bit clear and the IN encoding has it set.
pub proof fn lemma_direction_flips_top_bit(
    request_type: WebUSBRequestType,
    recipient: WebUSBRecipient,
)
    ensures
        spec_request_type_byte(Direction::In, request_type, recipient) ^ spec_request_type_byte(
            Direction::Out,
            request_type,
            recipient,
        ) == 0x80,
        spec_request_type_byte(Direction::Out, request_type, recipient) & 0x80 == 0x00,
        spec_request_type_byte(Direction::In, request_type, recipient) & 0x80 == 0x80,
{
    let tb = spec_request_type_bits(request_type);
    let rb = spec_recipient_bits(recipient);
    assert((tb == 0x00 || tb == 0x20 || tb == 0x40) && (rb == 0x00 || rb == 0x01 || rb == 0x02
        || rb == 0x03));
    assert(((0x80u8 | tb | rb) ^ (0x00u8 | tb | rb)) == 0x80 && ((0x00u8 | tb | rb) & 0x80) == 0x00
        && ((0x80u8 | tb | rb) & 0x80) == 0x80) by (bit_vector)
        requires
            (tb == 0x00 || tb == 0x20 || tb == 0x40) && (rb == 0x00 || rb == 0x01 || rb == 0x02
                || rb == 0x03),
    ;
}

} // verus!
