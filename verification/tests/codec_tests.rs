use webusb::Direction;
use webusb::UsbError;
use webusb::endpoint_address;
use webusb::control::WebUSBRecipient;
use webusb::control::WebUSBRequestType;
use webusb::control::encode_request_type;
use webusb::device::UsbVersion;
use webusb::device::version_from_bcd;
use webusb::iso::IsochronousPacket;
use webusb::iso::IsochronousPackets;
use webusb::iso::IsochronousTransferOutResult;
use webusb::iso::decode_iso_transfer;
use webusb::iso::iso_lengths_admissible;
use webusb::key::Algorithm;
use webusb::key::KeyType;
use webusb::key::KeyUsage;
use webusb::key::WebCryptoKey;
use webusb::key::WebCryptoKeyPair;
use webusb::status::WebUSBTransferStatus;

#[test]
fn endpoint_address_sets_direction_bit() {
    assert_eq!(endpoint_address(1, Direction::In), 0x81);
    assert_eq!(endpoint_address(1, Direction::Out), 0x01);
    assert_eq!(endpoint_address(0, Direction::In), 0x80);
    assert_eq!(endpoint_address(0x0F, Direction::Out), 0x0F);
}

#[test]
fn request_type_byte_exact_values() {
    assert_eq!(
        encode_request_type(Direction::Out, WebUSBRequestType::Standard, WebUSBRecipient::Device),
        0x00
    );
    assert_eq!(
        encode_request_type(Direction::In, WebUSBRequestType::Standard, WebUSBRecipient::Device),
        0x80
    );
    assert_eq!(
        encode_request_type(Direction::In, WebUSBRequestType::Class, WebUSBRecipient::Interface),
        0xA1
    );
    assert_eq!(
        encode_request_type(Direction::In, WebUSBRequestType::Vendor, WebUSBRecipient::Other),
        0xC3
    );
    assert_eq!(
        encode_request_type(Direction::Out, WebUSBRequestType::Vendor, WebUSBRecipient::Endpoint),
        0x42
    );
}

#[test]
fn request_type_byte_is_deterministic() {
    let first = encode_request_type(
        Direction::In,
        WebUSBRequestType::Class,
        WebUSBRecipient::Endpoint,
    );
    let second = encode_request_type(
        Direction::In,
        WebUSBRequestType::Class,
        WebUSBRecipient::Endpoint,
    );
    assert_eq!(first, second);
}

#[test]
fn direction_flips_exactly_the_top_bit() {
    let request_types = [
        WebUSBRequestType::Standard,
        WebUSBRequestType::Class,
        WebUSBRequestType::Vendor,
    ];
    let recipients = [
        WebUSBRecipient::Device,
        WebUSBRecipient::Interface,
        WebUSBRecipient::Endpoint,
        WebUSBRecipient::Other,
    ];
    for request_type in request_types {
        for recipient in recipients {
            let into = encode_request_type(Direction::In, request_type, recipient);
            let out = encode_request_type(Direction::Out, request_type, recipient);
            assert_eq!(into ^ out, 0x80);
            assert_eq!(out & 0x80, 0x00);
            assert_eq!(into & 0x80, 0x80);
        }
    }
}

#[test]
fn transfer_status_decodes_each_native_code() {
    assert_eq!(
        WebUSBTransferStatus::from_libusb_status(0),
        WebUSBTransferStatus::Completed
    );
    assert_eq!(
        WebUSBTransferStatus::from_libusb_status(1),
        WebUSBTransferStatus::TransferError
    );
    assert_eq!(
        WebUSBTransferStatus::from_libusb_status(2),
        WebUSBTransferStatus::Timeout
    );
    assert_eq!(
        WebUSBTransferStatus::from_libusb_status(3),
        WebUSBTransferStatus::Cancelled
    );
    assert_eq!(
        WebUSBTransferStatus::from_libusb_status(4),
        WebUSBTransferStatus::Stall
    );
    assert_eq!(
        WebUSBTransferStatus::from_libusb_status(5),
        WebUSBTransferStatus::Disconnect
    );
    assert_eq!(
        WebUSBTransferStatus::from_libusb_status(6),
        WebUSBTransferStatus::Babble
    );
    assert_eq!(
        WebUSBTransferStatus::from_libusb_status(99),
        WebUSBTransferStatus::TransferError
    );
    assert_eq!(
        WebUSBTransferStatus::from_libusb_status(-1),
        WebUSBTransferStatus::TransferError
    );
}

#[test]
fn version_from_bcd_decodes_fields() {
    let two_one_zero = version_from_bcd(0x0210);
    assert_eq!(
        two_one_zero,
        UsbVersion { major: 2, minor: 1, subminor: 0 }
    );
    let twelve = version_from_bcd(0x1234);
    assert_eq!(
        twelve,
        UsbVersion { major: 12, minor: 3, subminor: 4 }
    );
    let zero = version_from_bcd(0x0000);
    assert_eq!(zero, UsbVersion { major: 0, minor: 0, subminor: 0 });
}

#[test]
fn iso_lengths_admissible_accepts_small_and_rejects_huge() {
    assert!(iso_lengths_admissible(&vec![188, 188, 188]));
    assert!(iso_lengths_admissible(&vec![]));
    assert!(!iso_lengths_admissible(&vec![0x7fffffff, 1]));
}

#[test]
fn iso_packets_collects_in_order() {
    let mut packets = IsochronousPackets::new();
    packets.push(IsochronousPacket::new(vec![], WebUSBTransferStatus::Completed));
    packets.push(IsochronousPacket::new(vec![1, 2], WebUSBTransferStatus::Stall));
    let all = packets.packets();
    assert_eq!(all.len(), 2);
    assert_eq!(all[0].status, WebUSBTransferStatus::Completed);
    assert_eq!(all[0].data.len(), 0);
    assert_eq!(all[1].status, WebUSBTransferStatus::Stall);
    assert_eq!(all[1].data, vec![1, 2]);
}

#[test]
fn iso_decode_reports_each_packet_status() {
    let buffer = vec![7u8; 564];
    let decoded = decode_iso_transfer(0, &vec![0, 2, 4], buffer).unwrap();
    assert_eq!(decoded.packets.len(), 3);
    assert_eq!(decoded.packets[0].status, WebUSBTransferStatus::Completed);
    assert_eq!(decoded.packets[1].status, WebUSBTransferStatus::Timeout);
    assert_eq!(decoded.packets[2].status, WebUSBTransferStatus::Stall);
    assert_eq!(decoded.data.len(), 564);
}

#[test]
fn iso_decode_surfaces_submission_failure() {
    let failed = decode_iso_transfer(-5, &vec![0], vec![]);
    assert!(matches!(failed, Err(UsbError::SubmissionFailure)));
}

#[test]
fn iso_result_new_keeps_fields() {
    let result = IsochronousTransferOutResult::new(vec![], vec![9, 9]);
    assert_eq!(result.packets.len(), 0);
    assert_eq!(result.data, vec![9, 9]);
}

#[test]
fn crypto_key_pair_keeps_both_keys() {
    let public_key = WebCryptoKey {
        key_type: KeyType::Public,
        extractable: true,
        algorithm: Algorithm::Ecdsa,
        usages: vec![KeyUsage::Verify],
    };
    let private_key = WebCryptoKey {
        key_type: KeyType::Private,
        extractable: false,
        algorithm: Algorithm::Ecdsa,
        usages: vec![KeyUsage::Sign],
    };
    let pair = WebCryptoKeyPair::new(public_key, private_key);
    assert_eq!(pair.public_key.key_type, KeyType::Public);
    assert!(pair.public_key.extractable);
    assert_eq!(pair.public_key.usages, vec![KeyUsage::Verify]);
    assert_eq!(pair.private_key.key_type, KeyType::Private);
    assert!(!pair.private_key.extractable);
    assert_eq!(pair.private_key.usages, vec![KeyUsage::Sign]);
}
