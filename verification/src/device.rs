//! Discovered-device records: decoding of binary-coded-decimal version
//! fields, lookup of a configuration descriptor by value, and the
//! caller-visible device record built from a discovered device.

use vstd::prelude::*;

use crate::descriptor::ConfigurationModel;

verus! {

/// A device or USB specification version, decoded from its
/// binary-coded-decimal descriptor field.
#[derive(Clone, Copy, Debug, PartialEq, Eq, Structural)]
pub struct UsbVersion {
    pub major: u8,
    pub minor: u8,
    pub subminor: u8,
}

/// The major part of a binary-coded-decimal version field `0xJJMN`.
pub open spec fn spec_version_major(raw: u16) -> u8 {
    (((raw >> 8) & 0xF) + 10 * (raw >> 12)) as u8
}

/// The minor part of a binary-coded-decimal version field `0xJJMN`.
pub open spec fn spec_version_minor(raw: u16) -> u8 {
    ((raw >> 4) & 0xF) as u8
}

/// The sub-minor part of a binary-coded-decimal version field `0xJJMN`.
pub open spec fn spec_version_subminor(raw: u16) -> u8 {
    (raw & 0xF) as u8
}

/// Decodes a binary-coded-decimal version field `0xJJMN`: `JJ` is the
/// major version (two decimal digits), `M` the minor and `N` the
/// sub-minor version.
pub fn version_from_bcd(raw: u16) -> (version: UsbVersion)
    ensures
        version.major == spec_version_major(raw),
        version.minor == spec_version_minor(raw),
        version.subminor == spec_version_subminor(raw),
{
    proof {
        assert(((raw >> 8) & 0xF) <= 0xF && (raw >> 12) <= 0xF) by (bit_vector);
    }
    let high: u16 = ((raw >> 8) & 0xF) + 10 * (raw >> 12);
    UsbVersion { major: high as u8, minor: ((raw >> 4) & 0xF) as u8, subminor: (raw & 0xF) as u8 }
}

/// A discovered, unopened device: its descriptor fields, the optional
/// string descriptors read at enumeration time, its configuration
/// descriptors and the value of the active configuration, if any.
#[derive(Clone, Debug)]
pub struct DeviceModel {
    pub device_class: u8,
    pub device_subclass: u8,
    pub device_protocol: u8,
    pub device_version_bcd: u16,
    pub usb_version_bcd: u16,
    pub vendor_id: u16,
    pub product_id: u16,
    pub manufacturer_name: Option<String>,
    pub product_name: Option<String>,
    pub serial_number: Option<String>,
    pub configurations: Vec<ConfigurationModel>,
    pub active_configuration: Option<u8>,
}

/// The caller-visible summary of a device's active configuration.
#[derive(Clone, Copy, Debug, PartialEq, Eq, Structural)]
pub struct UsbConfiguration {
    pub configuration_name: Option<u8>,
    pub configuration_value: u8,
}

/// The caller-visible record of a discovered device.
#[derive(Clone, Debug)]
pub struct UsbDevice {
    pub configuration: Option<UsbConfiguration>,
    pub device_class: u8,
    pub device_subclass: u8,
    pub device_protocol: u8,
    pub device_version_major: u8,
    pub device_version_minor: u8,
    pub device_version_subminor: u8,
    pub manufacturer_name: Option<String>,
    pub product_id: u16,
    pub product_name: Option<String>,
    pub serial_number: Option<String>,
    pub usb_version_major: u8,
    pub usb_version_minor: u8,
    pub usb_version_subminor: u8,
    pub vendor_id: u16,
}

/// The first configuration in `configs` whose value equals `value`.
pub open spec fn spec_find_configuration(configs: Seq<ConfigurationModel>, value: u8) -> Option<
    ConfigurationModel,
>
    decreases configs.len(),
{
    if configs.len() == 0 {
        None
    } else if configs[0].configuration_value == value {
        Some(configs[0])
    } else {
        spec_find_configuration(configs.skip(1), value)
    }
}

/// Looks up the first configuration descriptor with the given value.
pub fn find_configuration(configs: &Vec<ConfigurationModel>, value: u8) -> (found: Option<
    &ConfigurationModel,
>)
    ensures
        match found {
            Some(config) => spec_find_configuration(configs@, value) == Some(*config),
            None => spec_find_configuration(configs@, value) is None,
        },
{
    let mut idx: usize = 0;
    proof {
        assert(configs@.skip(0) =~= configs@);
    }
    while idx < configs.len()
        invariant
            idx <= configs@.len(),
            spec_find_configuration(configs@, value) == spec_find_configuration(
                configs@.skip(idx as int),
                value,
            ),
        decreases configs@.len() - idx,
    {
        if configs[idx].configuration_value == value {
            return Some(&configs[idx]);
        }
        proof {
            assert(configs@.skip(idx as int).skip(1) =~= configs@.skip(idx as int + 1));
        }
        idx = idx + 1;
    }
    None
}

/// The active-configuration summary of a discovered device: present
/// exactly when the device reports an active configuration value that
/// its configuration descriptors contain.
pub open spec fn spec_active_configuration_of(device: DeviceModel) -> Option<UsbConfiguration> {
    match device.active_configuration {
        Some(value) => match spec_find_configuration(device.configurations@, value) {
            Some(config) => Some(
                UsbConfiguration {
                    configuration_name: config.configuration_name,
                    configuration_value: config.configuration_value,
                },
            ),
            None => None,
        },
        None => None,
    }
}

/// The caller-visible record of a discovered device: its descriptor
/// fields with both version fields decoded and the active-configuration
/// summary attached.
pub open spec fn spec_usb_device_of(device: DeviceModel) -> UsbDevice {
    UsbDevice {
        configuration: spec_active_configuration_of(device),
        device_class: device.device_class,
        device_subclass: device.device_subclass,
        device_protocol: device.device_protocol,
        device_version_major: spec_version_major(device.device_version_bcd),
        device_version_minor: spec_version_minor(device.device_version_bcd),
        device_version_subminor: spec_version_subminor(device.device_version_bcd),
        manufacturer_name: device.manufacturer_name,
        product_id: device.product_id,
        product_name: device.product_name,
        serial_number: device.serial_number,
        usb_version_major: spec_version_major(device.usb_version_bcd),
        usb_version_minor: spec_version_minor(device.usb_version_bcd),
        usb_version_subminor: spec_version_subminor(device.usb_version_bcd),
        vendor_id: device.vendor_id,
    }
}

/// The hub device class code; hubs are excluded from enumeration.
pub const HUB_CLASS_CODE: u8 = 9;

/// The discovered devices that are not hubs, in discovery order.
pub open spec fn spec_non_hubs(devices: Seq<DeviceModel>) -> Seq<DeviceModel>
    decreases devices.len(),
{
    if devices.len() == 0 {
        Seq::empty()
    } else if devices.last().device_class == HUB_CLASS_CODE {
        spec_non_hubs(devices.drop_last())
    } else {
        spec_non_hubs(devices.drop_last()).push(devices.last())
    }
}

/// Filtering hubs away never grows the sequence.
pub proof fn lemma_non_hubs_len(devices: Seq<DeviceModel>)
    ensures
        spec_non_hubs(devices).len() <= devices.len(),
    decreases devices.len(),
{
    if devices.len() > 0 {
        lemma_non_hubs_len(devices.drop_last());
    }
}

/// No hub survives the filter: every retained device has a class code
/// other than the hub class.
pub proof fn lemma_non_hubs_no_hub(devices: Seq<DeviceModel>)
    ensures
        forall|i: int|
            0 <= i < spec_non_hubs(devices).len() ==> (#[trigger] spec_non_hubs(devices)[i]).device_class
                != HUB_CLASS_CODE,
    decreases devices.len(),
{
    if devices.len() > 0 {
        lemma_non_hubs_no_hub(devices.drop_last());
    }
}

fn clone_optional_string(name: &Option<String>) -> (cloned: Option<String>)
    ensures
        cloned == *name,
{
    match name {
        Some(value) => Some(value.clone()),
        None => None,
    }
}

/// Builds the caller-visible record of a discovered device.
pub fn usb_device_of(device: &DeviceModel) -> (record: UsbDevice)
    ensures
        record == spec_usb_device_of(*device),
{
    let configuration: Option<UsbConfiguration> = match device.active_configuration {
        Some(value) => match find_configuration(&device.configurations, value) {
            Some(config) => Some(
                UsbConfiguration {
                    configuration_name: config.configuration_name,
                    configuration_value: config.configuration_value,
                },
            ),
            None => None,
        },
        None => None,
    };
    let device_version = version_from_bcd(device.device_version_bcd);
    let usb_version = version_from_bcd(device.usb_version_bcd);
    UsbDevice {
        configuration,
        device_class: device.device_class,
        device_subclass: device.device_subclass,
        device_protocol: device.device_protocol,
        device_version_major: device_version.major,
        device_version_minor: device_version.minor,
        device_version_subminor: device_version.subminor,
        manufacturer_name: clone_optional_string(&device.manufacturer_name),
        product_id: device.product_id,
        product_name: clone_optional_string(&device.product_name),
        serial_number: clone_optional_string(&device.serial_number),
        usb_version_major: usb_version.major,
        usb_version_minor: usb_version.minor,
        usb_version_subminor: usb_version.subminor,
        vendor_id: device.vendor_id,
    }
}

} // verus!
