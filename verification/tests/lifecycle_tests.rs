use webusb::Direction;
use webusb::UsbError;
use webusb::descriptor::AltSettingModel;
use webusb::descriptor::ConfigurationModel;
use webusb::descriptor::EndpointModel;
use webusb::descriptor::InterfaceModel;
use webusb::descriptor::TransferType;
use webusb::descriptor::resolve_in_config;
use webusb::device::DeviceModel;
use webusb::lifecycle::UsbState;
use webusb::registry::UsbHandleResource;
use webusb::registry::UsbResource;
use webusb::transfer::TransferInAction;
use webusb::transfer::TransferOutAction;
use webusb::control::SetupArgs;
use webusb::control::WebUSBRecipient;
use webusb::control::WebUSBRequestType;
use webusb::status::WebUSBTransferStatus;

fn config_with_endpoints(value: u8, endpoints: Vec<EndpointModel>) -> ConfigurationModel {
    ConfigurationModel {
        configuration_value: value,
        configuration_name: Some(4),
        interfaces: vec![InterfaceModel {
            alt_settings: vec![AltSettingModel {
                interface_number: 0,
                alternate_setting: 0,
                endpoints,
            }],
        }],
    }
}

fn bulk_in_device() -> DeviceModel {
    DeviceModel {
        device_class: 0xFF,
        device_subclass: 1,
        device_protocol: 2,
        device_version_bcd: 0x0100,
        usb_version_bcd: 0x0200,
        vendor_id: 0x1209,
        product_id: 0x0001,
        manufacturer_name: Some("Acme".to_string()),
        product_name: Some("Widget".to_string()),
        serial_number: None,
        configurations: vec![config_with_endpoints(
            1,
            vec![EndpointModel { address: 0x81, transfer_type: TransferType::Bulk }],
        )],
        active_configuration: Some(1),
    }
}

fn hub_device() -> DeviceModel {
    DeviceModel {
        device_class: 9,
        device_subclass: 0,
        device_protocol: 0,
        device_version_bcd: 0x0100,
        usb_version_bcd: 0x0200,
        vendor_id: 0x0424,
        product_id: 0x2514,
        manufacturer_name: None,
        product_name: None,
        serial_number: None,
        configurations: vec![],
        active_configuration: None,
    }
}

fn open_bulk_in_device(state: &mut UsbState) -> u32 {
    let entries = state.op_webusb_get_devices(vec![bulk_in_device()]);
    assert_eq!(entries.len(), 1);
    state.op_webusb_open_device(entries[0].rid).unwrap()
}

#[test]
fn get_devices_excludes_hubs() {
    let mut state = UsbState::new();
    let entries = state.op_webusb_get_devices(vec![hub_device(), bulk_in_device(), hub_device()]);
    assert_eq!(entries.len(), 1);
    assert_ne!(entries[0].usbdevice.device_class, 9);
    assert_eq!(entries[0].usbdevice.vendor_id, 0x1209);
    assert_eq!(entries[0].usbdevice.product_id, 0x0001);
    assert_eq!(entries[0].usbdevice.device_version_major, 1);
    assert_eq!(entries[0].usbdevice.usb_version_major, 2);
    assert_eq!(entries[0].usbdevice.manufacturer_name, Some("Acme".to_string()));
    assert_eq!(entries[0].usbdevice.product_name, Some("Widget".to_string()));
    assert_eq!(entries[0].usbdevice.serial_number, None);
    let configuration = entries[0].usbdevice.configuration.unwrap();
    assert_eq!(configuration.configuration_value, 1);
    assert_eq!(configuration.configuration_name, Some(4));
}

#[test]
fn get_devices_assigns_distinct_identifiers() {
    let mut state = UsbState::new();
    let entries = state.op_webusb_get_devices(vec![bulk_in_device(), bulk_in_device()]);
    assert_eq!(entries.len(), 2);
    assert_ne!(entries[0].rid, entries[1].rid);
}

#[test]
fn open_device_keeps_device_registered() {
    let mut state = UsbState::new();
    let entries = state.op_webusb_get_devices(vec![bulk_in_device()]);
    let device_rid = entries[0].rid;
    let first = state.op_webusb_open_device(device_rid).unwrap();
    let second = state.op_webusb_open_device(device_rid).unwrap();
    assert_ne!(first, second);
}

#[test]
fn open_device_rejects_unknown_and_handle_identifiers() {
    let mut state = UsbState::new();
    assert!(matches!(
        state.op_webusb_open_device(7),
        Err(UsbError::BadResourceIdentifier)
    ));
    let handle = open_bulk_in_device(&mut state);
    assert!(matches!(
        state.op_webusb_open_device(handle),
        Err(UsbError::BadResourceIdentifier)
    ));
}

#[test]
fn close_device_twice_fails() {
    let mut state = UsbState::new();
    let handle = open_bulk_in_device(&mut state);
    assert!(state.op_webusb_close_device(handle).is_ok());
    assert!(matches!(
        state.op_webusb_close_device(handle),
        Err(UsbError::BadResourceIdentifier)
    ));
}

#[test]
fn close_device_rejects_device_identifier() {
    let mut state = UsbState::new();
    let entries = state.op_webusb_get_devices(vec![bulk_in_device()]);
    assert!(matches!(
        state.op_webusb_close_device(entries[0].rid),
        Err(UsbError::BadResourceIdentifier)
    ));
}

#[test]
fn reset_validates_the_handle() {
    let mut state = UsbState::new();
    let handle = open_bulk_in_device(&mut state);
    assert!(state.op_webusb_reset(handle).is_ok());
    assert!(matches!(
        state.op_webusb_reset(handle + 1000),
        Err(UsbError::BadResourceIdentifier)
    ));
}

#[test]
fn clear_halt_uses_canonical_address() {
    let mut state = UsbState::new();
    let handle = open_bulk_in_device(&mut state);
    assert_eq!(state.op_webusb_clear_halt(handle, Direction::In, 1).unwrap(), 0x81);
    assert_eq!(state.op_webusb_clear_halt(handle, Direction::Out, 2).unwrap(), 0x02);
    assert!(matches!(
        state.op_webusb_clear_halt(9999, Direction::In, 1),
        Err(UsbError::BadResourceIdentifier)
    ));
}

#[test]
fn configuration_and_interface_cycle() {
    let mut state = UsbState::new();
    let handle = open_bulk_in_device(&mut state);
    assert!(state.op_webusb_select_configuration(handle, 1).is_ok());
    assert!(state.op_webusb_claim_interface(handle, 0).is_ok());
    assert!(state.op_webusb_release_interface(handle, 0).is_ok());
    assert!(state.op_webusb_select_configuration(handle, 1).is_ok());
    assert!(state.op_webusb_select_alternate_interface(handle, 0, 1).is_ok());
}

#[test]
fn bulk_in_transfer_on_healthy_device() {
    let mut state = UsbState::new();
    let handle = open_bulk_in_device(&mut state);
    let action = state.op_webusb_transfer_in(handle, 1, 64).unwrap();
    assert_eq!(
        action,
        TransferInAction::ReadBulk { endpoint_number: 1, length: 64 }
    );
    let received: Vec<u8> = match action {
        TransferInAction::ReadBulk { length, .. } => vec![0u8; length],
        _ => unreachable!(),
    };
    assert!(received.len() <= 64);
}

#[test]
fn transfer_against_unknown_endpoint_is_empty_success() {
    let mut state = UsbState::new();
    let handle = open_bulk_in_device(&mut state);
    let action = state.op_webusb_transfer_in(handle, 5, 32).unwrap();
    assert_eq!(action, TransferInAction::Empty);
}

#[test]
fn transfer_out_resolves_with_out_address() {
    let mut state = UsbState::new();
    let device = DeviceModel {
        configurations: vec![config_with_endpoints(
            1,
            vec![
                EndpointModel { address: 0x81, transfer_type: TransferType::Bulk },
                EndpointModel { address: 0x02, transfer_type: TransferType::Interrupt },
            ],
        )],
        ..bulk_in_device()
    };
    let entries = state.op_webusb_get_devices(vec![device]);
    let handle = state.op_webusb_open_device(entries[0].rid).unwrap();
    let write = state.op_webusb_transfer_out(handle, 2, vec![1, 2, 3]).unwrap();
    match write {
        TransferOutAction::WriteInterrupt { endpoint_number, data } => {
            assert_eq!(endpoint_number, 2);
            assert_eq!(data, vec![1, 2, 3]);
        }
        _ => panic!("expected an interrupt write"),
    }
    let unmatched = state.op_webusb_transfer_out(handle, 1, vec![4]).unwrap();
    assert!(matches!(unmatched, TransferOutAction::Empty));
}

#[test]
fn transfer_without_configuration_is_a_hard_error() {
    let mut state = UsbState::new();
    let device = DeviceModel { active_configuration: None, ..bulk_in_device() };
    let entries = state.op_webusb_get_devices(vec![device]);
    let handle = state.op_webusb_open_device(entries[0].rid).unwrap();
    assert!(matches!(
        state.op_webusb_transfer_in(handle, 1, 8),
        Err(UsbError::DescriptorUnavailable)
    ));
}

#[test]
fn transfer_with_stale_identifier_fails() {
    let mut state = UsbState::new();
    let handle = open_bulk_in_device(&mut state);
    state.op_webusb_close_device(handle).unwrap();
    assert!(matches!(
        state.op_webusb_transfer_in(handle, 1, 8),
        Err(UsbError::BadResourceIdentifier)
    ));
}

#[test]
fn control_transfer_encodes_direction() {
    let mut state = UsbState::new();
    let handle = open_bulk_in_device(&mut state);
    let setup = SetupArgs {
        request_type: WebUSBRequestType::Vendor,
        recipient: WebUSBRecipient::Device,
        request: 0x31,
        value: 0x1234,
        index: 2,
    };
    let into = state.op_webusb_control_transfer_in(handle, setup, vec![0; 8]).unwrap();
    assert_eq!(into.request_type, 0xC0);
    assert_eq!(into.request, 0x31);
    assert_eq!(into.value, 0x1234);
    assert_eq!(into.index, 2);
    assert_eq!(into.data.len(), 8);
    let out = state.op_webusb_control_transfer_out(handle, setup, vec![5, 6]).unwrap();
    assert_eq!(out.request_type, 0x40);
    assert_eq!(out.data, vec![5, 6]);
    assert!(matches!(
        state.op_webusb_control_transfer_in(12345, setup, vec![]),
        Err(UsbError::BadResourceIdentifier)
    ));
}

#[test]
fn iso_transfer_plans_three_packets() {
    let mut state = UsbState::new();
    let handle = open_bulk_in_device(&mut state);
    let plan = state
        .op_webusb_iso_transfer_in(handle, 1, vec![188, 188, 188])
        .unwrap();
    assert_eq!(plan.endpoint_address, 0x81);
    assert_eq!(plan.num_packets, 3);
    assert_eq!(plan.total_length, 564);
    assert_eq!(plan.packet_lengths, vec![188, 188, 188]);
    let statuses = vec![0, 3, 6];
    let decoded = webusb::iso::decode_iso_transfer(
        0,
        &statuses,
        vec![0u8; plan.total_length as usize],
    )
    .unwrap();
    assert_eq!(decoded.packets.len(), plan.num_packets);
    for packet in &decoded.packets {
        let in_enumeration = matches!(
            packet.status,
            WebUSBTransferStatus::Completed
                | WebUSBTransferStatus::TransferError
                | WebUSBTransferStatus::Timeout
                | WebUSBTransferStatus::Stall
                | WebUSBTransferStatus::Disconnect
                | WebUSBTransferStatus::Babble
                | WebUSBTransferStatus::Cancelled
        );
        assert!(in_enumeration);
    }
}

#[test]
fn selected_value_missing_from_descriptors_is_a_hard_error() {
    let mut state = UsbState::new();
    let handle = open_bulk_in_device(&mut state);
    assert!(state.op_webusb_select_configuration(handle, 9).is_ok());
    assert!(matches!(
        state.op_webusb_transfer_in(handle, 1, 8),
        Err(UsbError::DescriptorUnavailable)
    ));
}

#[test]
fn device_record_has_no_configuration_when_value_is_unknown() {
    let mut state = UsbState::new();
    let device = DeviceModel { active_configuration: Some(2), ..bulk_in_device() };
    let entries = state.op_webusb_get_devices(vec![device]);
    assert!(entries[0].usbdevice.configuration.is_none());
}

#[test]
fn closed_identifiers_are_never_reissued() {
    let mut state = UsbState::new();
    let entries = state.op_webusb_get_devices(vec![bulk_in_device()]);
    let device_rid = entries[0].rid;
    let first = state.op_webusb_open_device(device_rid).unwrap();
    state.op_webusb_close_device(first).unwrap();
    let second = state.op_webusb_open_device(device_rid).unwrap();
    assert_ne!(first, second);
}

#[test]
fn release_of_an_unclaimed_interface_leaves_the_set_alone() {
    let mut state = UsbState::new();
    let handle = open_bulk_in_device(&mut state);
    assert!(state.op_webusb_release_interface(handle, 3).is_ok());
    assert!(state.op_webusb_claim_interface(handle, 3).is_ok());
    assert!(state.op_webusb_claim_interface(handle, 3).is_ok());
    assert!(state.op_webusb_release_interface(handle, 3).is_ok());
}

#[test]
fn resolve_takes_the_first_matching_endpoint() {
    let config = ConfigurationModel {
        configuration_value: 1,
        configuration_name: None,
        interfaces: vec![
            InterfaceModel {
                alt_settings: vec![AltSettingModel {
                    interface_number: 0,
                    alternate_setting: 0,
                    endpoints: vec![EndpointModel {
                        address: 0x81,
                        transfer_type: TransferType::Bulk,
                    }],
                }],
            },
            InterfaceModel {
                alt_settings: vec![AltSettingModel {
                    interface_number: 1,
                    alternate_setting: 0,
                    endpoints: vec![EndpointModel {
                        address: 0x81,
                        transfer_type: TransferType::Interrupt,
                    }],
                }],
            },
        ],
    };
    assert_eq!(resolve_in_config(&config, 0x81), Some(TransferType::Bulk));
    assert_eq!(resolve_in_config(&config, 0x82), None);
}

#[test]
fn resource_labels_match_their_kind() {
    let device_resource = UsbResource { device: bulk_in_device() };
    assert_eq!(device_resource.name(), "usbDevice");
    let entries_owner = UsbHandleResource {
        handle: webusb::registry::DeviceHandleModel {
            device_rid: 0,
            active_configuration: None,
            claimed_interfaces: vec![],
            alternate_settings: vec![],
        },
    };
    assert_eq!(entries_owner.name(), "usbDeviceHandle");
}
