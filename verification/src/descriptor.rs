//! Plain-value models of configuration, interface, alternate-setting and
//! endpoint descriptors, and resolution of an endpoint address to its
//! transfer type by walking the descriptor tree.
//!
//! Resolution scans every interface, every alternate setting of that
//! interface and every endpoint descriptor of that alternate setting, and
//! the first endpoint whose address equals the canonical address decides.

use vstd::prelude::*;

verus! {

/// An endpoint's transfer type.
#[derive(Clone, Copy, Debug, PartialEq, Eq, Structural)]
pub enum TransferType {
    Control,
    Isochronous,
    Bulk,
    Interrupt,
}

/// An endpoint descriptor: its canonical address (number plus direction
/// bit) and transfer type.
#[derive(Clone, Copy, Debug, PartialEq, Eq, Structural)]
pub struct EndpointModel {
    pub address: u8,
    pub transfer_type: TransferType,
}

/// One alternate setting of an interface, with its endpoint descriptors.
#[derive(Clone, Debug)]
pub struct AltSettingModel {
    pub interface_number: u8,
    pub alternate_setting: u8,
    pub endpoints: Vec<EndpointModel>,
}

/// An interface descriptor: the alternate settings it offers.
#[derive(Clone, Debug)]
pub struct InterfaceModel {
    pub alt_settings: Vec<AltSettingModel>,
}

/// A configuration descriptor: its value, the string-descriptor index of
/// its name, and its interfaces.
#[derive(Clone, Debug)]
pub struct ConfigurationModel {
    pub configuration_value: u8,
    pub configuration_name: Option<u8>,
    pub interfaces: Vec<InterfaceModel>,
}

/// The transfer type of the first endpoint in `endpoints` whose address
/// equals `address`, if any.
pub open spec fn spec_find_in_endpoints(endpoints: Seq<EndpointModel>, address: u8) -> Option<
    TransferType,
>
    decreases endpoints.len(),
{
    if endpoints.len() == 0 {
        None
    } else if endpoints[0].address == address {
        Some(endpoints[0].transfer_type)
    } else {
        spec_find_in_endpoints(endpoints.skip(1), address)
    }
}

/// The transfer type of the first matching endpoint over a sequence of
/// alternate settings, scanned in order.
pub open spec fn spec_find_in_alt_settings(alts: Seq<AltSettingModel>, address: u8) -> Option<
    TransferType,
>
    decreases alts.len(),
{
    if alts.len() == 0 {
        None
    } else {
        match spec_find_in_endpoints(alts[0].endpoints@, address) {
            Some(t) => Some(t),
            None => spec_find_in_alt_settings(alts.skip(1), address),
        }
    }
}

/// The transfer type of the first matching endpoint over a sequence of
/// interfaces, scanned in order.
pub open spec fn spec_find_in_interfaces(interfaces: Seq<InterfaceModel>, address: u8) -> Option<
    TransferType,
>
    decreases interfaces.len(),
{
    if interfaces.len() == 0 {
        None
    } else {
        match spec_find_in_alt_settings(interfaces[0].alt_settings@, address) {
            Some(t) => Some(t),
            None => spec_find_in_interfaces(interfaces.skip(1), address),
        }
    }
}

/// The transfer type the configuration's descriptor tree assigns to the
/// canonical endpoint address, if any endpoint carries that address.
pub open spec fn spec_resolve_in_config(config: ConfigurationModel, address: u8) -> Option<
    TransferType,
> {
    spec_find_in_interfaces(config.interfaces@, address)
}

/// Some endpoint descriptor in the sequence carries the address.
pub open spec fn spec_endpoints_have(endpoints: Seq<EndpointModel>, address: u8) -> bool {
    exists|i: int| 0 <= i < endpoints.len() && (#[trigger] endpoints[i]).address == address
}

/// Some endpoint of some alternate setting carries the address.
pub open spec fn spec_alt_settings_have(alts: Seq<AltSettingModel>, address: u8) -> bool {
    exists|i: int|
        0 <= i < alts.len() && spec_endpoints_have((#[trigger] alts[i]).endpoints@, address)
}

/// Some endpoint of some interface carries the address.
pub open spec fn spec_interfaces_have(interfaces: Seq<InterfaceModel>, address: u8) -> bool {
    exists|i: int|
        0 <= i < interfaces.len() && spec_alt_settings_have(
            (#[trigger] interfaces[i]).alt_settings@,
            address,
        )
}

/// Some endpoint descriptor of the configuration carries the address.
pub open spec fn spec_config_has_endpoint(config: ConfigurationModel, address: u8) -> bool {
    spec_interfaces_have(config.interfaces@, address)
}

proof fn lemma_find_in_endpoints_some(endpoints: Seq<EndpointModel>, address: u8)
    ensures
        (spec_find_in_endpoints(endpoints, address) is Some) <==> spec_endpoints_have(
            endpoints,
            address,
        ),
    decreases endpoints.len(),
{
    if endpoints.len() > 0 {
        let rest = endpoints.skip(1);
        lemma_find_in_endpoints_some(rest, address);
        if endpoints[0].address == address {
        } else {
            assert forall|i: int|
                0 <= i < rest.len() && (#[trigger] rest[i]).address == address implies
                spec_endpoints_have(endpoints, address) by {
                assert(endpoints[i + 1].address == address);
            }
            assert forall|i: int|
                0 <= i < endpoints.len() && (#[trigger] endpoints[i]).address
                    == address implies spec_endpoints_have(rest, address) by {
                assert(i > 0);
                assert(rest[i - 1].address == address);
            }
        }
    }
}

proof fn lemma_find_in_alt_settings_some(alts: Seq<AltSettingModel>, address: u8)
    ensures
        (spec_find_in_alt_settings(alts, address) is Some) <==> spec_alt_settings_have(
            alts,
            address,
        ),
    decreases alts.len(),
{
    if alts.len() > 0 {
        let rest = alts.skip(1);
        lemma_find_in_alt_settings_some(rest, address);
        lemma_find_in_endpoints_some(alts[0].endpoints@, address);
        if spec_find_in_endpoints(alts[0].endpoints@, address) is Some {
        } else {
            assert forall|i: int|
                0 <= i < rest.len() && spec_endpoints_have(
                    (#[trigger] rest[i]).endpoints@,
                    address,
                ) implies spec_alt_settings_have(alts, address) by {
                assert(spec_endpoints_have(alts[i + 1].endpoints@, address));
            }
            assert forall|i: int|
                0 <= i < alts.len() && spec_endpoints_have(
                    (#[trigger] alts[i]).endpoints@,
                    address,
                ) implies spec_alt_settings_have(rest, address) by {
                assert(i > 0);
                assert(spec_endpoints_have(rest[i - 1].endpoints@, address));
            }
        }
    }
}

proof fn lemma_find_in_interfaces_some(interfaces: Seq<InterfaceModel>, address: u8)
    ensures
        (spec_find_in_interfaces(interfaces, address) is Some) <==> spec_interfaces_have(
            interfaces,
            address,
        ),
    decreases interfaces.len(),
{
    if interfaces.len() > 0 {
        let rest = interfaces.skip(1);
        lemma_find_in_interfaces_some(rest, address);
        lemma_find_in_alt_settings_some(interfaces[0].alt_settings@, address);
        if spec_find_in_alt_settings(interfaces[0].alt_settings@, address) is Some {
        } else {
            assert forall|i: int|
                0 <= i < rest.len() && spec_alt_settings_have(
                    (#[trigger] rest[i]).alt_settings@,
                    address,
                ) implies spec_interfaces_have(interfaces, address) by {
                assert(spec_alt_settings_have(interfaces[i + 1].alt_settings@, address));
            }
            assert forall|i: int|
                0 <= i < interfaces.len() && spec_alt_settings_have(
                    (#[trigger] interfaces[i]).alt_settings@,
                    address,
                ) implies spec_interfaces_have(rest, address) by {
                assert(i > 0);
                assert(spec_alt_settings_have(rest[i - 1].alt_settings@, address));
            }
        }
    }
}

/// Resolution matches exactly the addresses present in the tree: it
/// yields a transfer type exactly when some endpoint descriptor of the
/// configuration carries the canonical address, so an address absent
/// from every descriptor yields no match.
pub proof fn lemma_resolve_iff_present(config: ConfigurationModel, address: u8)
    ensures
        (spec_resolve_in_config(config, address) is Some) <==> spec_config_has_endpoint(
            config,
            address,
        ),
{
    lemma_find_in_interfaces_some(config.interfaces@, address);
}

fn find_in_endpoints(endpoints: &Vec<EndpointModel>, address: u8) -> (found: Option<TransferType>)
    ensures
        found == spec_find_in_endpoints(endpoints@, address),
{
    let mut idx: usize = 0;
    proof {
        assert(endpoints@.skip(0) =~= endpoints@);
    }
    while idx < endpoints.len()
        invariant
            idx <= endpoints@.len(),
            spec_find_in_endpoints(endpoints@, address) == spec_find_in_endpoints(
                endpoints@.skip(idx as int),
                address,
            ),
        decreases endpoints@.len() - idx,
    {
        if endpoints[idx].address == address {
            return Some(endpoints[idx].transfer_type);
        }
        proof {
            assert(endpoints@.skip(idx as int).skip(1) =~= endpoints@.skip(idx as int + 1));
        }
        idx = idx + 1;
    }
    None
}

fn find_in_alt_settings(alts: &Vec<AltSettingModel>, address: u8) -> (found: Option<TransferType>)
    ensures
        found == spec_find_in_alt_settings(alts@, address),
{
    let mut idx: usize = 0;
    proof {
        assert(alts@.skip(0) =~= alts@);
    }
    while idx < alts.len()
        invariant
            idx <= alts@.len(),
            spec_find_in_alt_settings(alts@, address) == spec_find_in_alt_settings(
                alts@.skip(idx as int),
                address,
            ),
        decreases alts@.len() - idx,
    {
        let found = find_in_endpoints(&alts[idx].endpoints, address);
        if found.is_some() {
            return found;
        }
        proof {
            assert(alts@.skip(idx as int).skip(1) =~= alts@.skip(idx as int + 1));
        }
        idx = idx + 1;
    }
    None
}

/// Resolves the canonical endpoint address against a configuration's
/// descriptor tree: the first matching endpoint, scanning interfaces,
/// then alternate settings, then endpoints, decides the transfer type.
pub fn resolve_in_config(config: &ConfigurationModel, address: u8) -> (resolved: Option<
    TransferType,
>)
    ensures
        resolved == spec_resolve_in_config(*config, address),
{
    let mut idx: usize = 0;
    proof {
        assert(config.interfaces@.skip(0) =~= config.interfaces@);
    }
    while idx < config.interfaces.len()
        invariant
            idx <= config.interfaces@.len(),
            spec_find_in_interfaces(config.interfaces@, address) == spec_find_in_interfaces(
                config.interfaces@.skip(idx as int),
                address,
            ),
        decreases config.interfaces@.len() - idx,
    {
        let found = find_in_alt_settings(&config.interfaces[idx].alt_settings, address);
        if found.is_some() {
            return found;
        }
        proof {
            assert(config.interfaces@.skip(idx as int).skip(1) =~= config.interfaces@.skip(
                idx as int + 1,
            ));
        }
        idx = idx + 1;
    }
    None
}

} // verus!
