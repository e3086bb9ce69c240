//! The device/handle lifecycle manager: every operation resolves an
//! opaque resource identifier against the registry, and configuration,
//! interface and close operations update the per-handle state. A device
//! resource stays registered after `open`, so it can be opened again; a
//! closed handle identifier always fails lookup afterwards.

use vstd::prelude::*;

use crate::Direction;
use crate::UsbError;
use crate::endpoint_address;
use crate::spec_endpoint_address;
use crate::control::SetupArgs;
use crate::control::encode_request_type;
use crate::control::spec_request_type_byte;
use crate::descriptor::ConfigurationModel;
use crate::descriptor::TransferType;
use crate::descriptor::resolve_in_config;
use crate::descriptor::spec_resolve_in_config;
use crate::device::DeviceModel;
use crate::device::HUB_CLASS_CODE;
use crate::device::UsbDevice;
use crate::device::find_configuration;
use crate::device::lemma_non_hubs_len;
use crate::device::lemma_non_hubs_no_hub;
use crate::device::spec_find_configuration;
use crate::device::spec_non_hubs;
use crate::device::spec_usb_device_of;
use crate::device::usb_device_of;
use crate::iso::IsochronousTransferPlan;
use crate::iso::build_iso_plan;
use crate::iso::spec_total_length;
use crate::registry::AltSelection;
use crate::registry::DeviceHandleModel;
use crate::registry::RegistryEntry;
use crate::registry::ResourceTable;
use crate::registry::UsbHandleResource;
use crate::registry::UsbResource;
use crate::transfer::ControlTransferAction;
use crate::transfer::TransferInAction;
use crate::transfer::TransferOutAction;
use crate::transfer::spec_transfer_in_action;
use crate::transfer::spec_transfer_out_action;

verus! {

/// Every handle entry points at a registered device entry.
pub open spec fn spec_linked(table: Map<u32, RegistryEntry>) -> bool {
    forall|rid: u32|
        #[trigger] table.contains_key(rid) && table[rid] is Handle ==> table.contains_key(
            table[rid].spec_handle().device_rid,
        ) && table[table[rid].spec_handle().device_rid] is Device
}

/// The state of the device access layer: the resource registry holding
/// discovered devices and open handles.
pub struct UsbState {
    registry: ResourceTable,
}

impl UsbState {
    /// The identifier-to-resource map of the registry.
    pub closed spec fn table(self) -> Map<u32, RegistryEntry> {
        self.registry.table()
    }

    /// The identifier the next registered resource will receive.
    pub closed spec fn next_id(self) -> u32 {
        self.registry.next_id()
    }

    /// Well-formedness: the registry is well-formed and every handle
    /// points at a registered device.
    pub closed spec fn wf(self) -> bool {
        &&& self.registry.wf()
        &&& spec_linked(self.registry.table())
    }

    /// The identifier refers to a registered, unopened device.
    pub open spec fn spec_is_live_device(self, rid: u32) -> bool {
        self.table().contains_key(rid) && self.table()[rid] is Device
    }

    /// The identifier refers to an open handle.
    pub open spec fn spec_is_live_handle(self, rid: u32) -> bool {
        self.table().contains_key(rid) && self.table()[rid] is Handle
    }

    /// The handle state registered under an identifier.
    pub open spec fn spec_handle(self, rid: u32) -> DeviceHandleModel
        recommends
            self.spec_is_live_handle(rid),
    {
        self.table()[rid].spec_handle()
    }

    /// The device a handle was opened from.
    pub open spec fn spec_device_of_handle(self, rid: u32) -> DeviceModel
        recommends
            self.spec_is_live_handle(rid),
    {
        self.table()[self.spec_handle(rid).device_rid].spec_device()
    }

    /// The active configuration descriptor of a handle: present exactly
    /// when a configuration is selected and the device's descriptors
    /// contain its value.
    pub open spec fn spec_active_config(self, rid: u32) -> Option<ConfigurationModel>
        recommends
            self.spec_is_live_handle(rid),
    {
        match self.spec_handle(rid).active_configuration {
            Some(value) => spec_find_configuration(
                self.spec_device_of_handle(rid).configurations@,
                value,
            ),
            None => None,
        }
    }

    /// Reads the identifier the next registered resource will receive,
    /// so an unverified caller can test an allocation bound before an
    /// operation that registers resources.
    pub fn peek_next_id(&self) -> (next: u32)
        ensures
            next == self.next_id(),
    {
        self.registry.peek_next_id()
    }

    /// An empty state with no registered resources.
    pub fn new() -> (state: Self)
        ensures
            state.wf(),
            state.table() == Map::<u32, RegistryEntry>::empty(),
            state.next_id() == 0,
    {
        UsbState { registry: ResourceTable::new() }
    }

    /// Opens a registered device: a fresh handle resource is created and
    /// its identifier returned, while the device resource stays
    /// registered for a later, independent open. The new handle starts
    /// with the device's active configuration, no claimed interfaces and
    /// no alternate-setting selections. Fails with
    /// `BadResourceIdentifier` exactly when the identifier does not
    /// refer to a registered device.
    pub fn op_webusb_open_device(&mut self, rid: u32) -> (outcome: Result<u32, UsbError>)
        requires
            old(self).wf(),
            old(self).next_id() < u32::MAX,
        ensures
            final(self).wf(),
            match outcome {
                Ok(handle_rid) => {
                    &&& old(self).spec_is_live_device(rid)
                    &&& handle_rid == old(self).next_id()
                    &&& !old(self).table().contains_key(handle_rid)
                    &&& final(self).next_id() == old(self).next_id() + 1
                    &&& final(self).spec_is_live_handle(handle_rid)
                    &&& final(self).table().remove(handle_rid) == old(self).table()
                    &&& ({
                        let handle = final(self).spec_handle(handle_rid);
                        &&& handle.device_rid == rid
                        &&& handle.active_configuration == old(self).table()[rid].spec_device().active_configuration
                        &&& handle.claimed_interfaces@.len() == 0
                        &&& handle.alternate_settings@.len() == 0
                    })
                },
                Err(failure) => {
                    &&& failure == UsbError::BadResourceIdentifier
                    &&& !old(self).spec_is_live_device(rid)
                    &&& final(self).table() == old(self).table()
                    &&& final(self).next_id() == old(self).next_id()
                },
            },
    {
        let active_configuration: Option<u8> = match self.registry.get(rid) {
            Some(RegistryEntry::Device(resource)) => resource.device.active_configuration,
            _ => {
                return Err(UsbError::BadResourceIdentifier);
            },
        };
        let handle = DeviceHandleModel {
            device_rid: rid,
            active_configuration,
            claimed_interfaces: Vec::new(),
            alternate_settings: Vec::new(),
        };
        let entry = RegistryEntry::Handle(UsbHandleResource { handle });
        let handle_rid = self.registry.add(entry);
        proof {
            let pre = old(self).table();
            let post = self.table();
            assert(post.remove(handle_rid) =~= pre);
            assert forall|k: u32| #[trigger] post.contains_key(k) && post[k] is Handle implies
                post.contains_key(post[k].spec_handle().device_rid) && post[post[k].spec_handle().device_rid]
                is Device by {
                if k == handle_rid {
                    assert(post[k].spec_handle().device_rid == rid);
                    assert(pre.contains_key(rid) && pre[rid] is Device);
                } else {
                    assert(pre.contains_key(k) && pre[k] == post[k]);
                    let d = pre[k].spec_handle().device_rid;
                    assert(pre.contains_key(d) && pre[d] is Device);
                }
            }
        }
        Ok(handle_rid)
    }

    /// Closes an open handle: the handle resource is removed, so a
    /// second close (or any later operation) with the same identifier
    /// fails with `BadResourceIdentifier`. Fails with
    /// `BadResourceIdentifier` exactly when the identifier does not
    /// refer to an open handle; a device identifier is left registered.
    pub fn op_webusb_close_device(&mut self, rid: u32) -> (outcome: Result<(), UsbError>)
        requires
            old(self).wf(),
        ensures
            final(self).wf(),
            final(self).next_id() == old(self).next_id(),
            match outcome {
                Ok(()) => {
                    &&& old(self).spec_is_live_handle(rid)
                    &&& final(self).table() == old(self).table().remove(rid)
                    &&& !final(self).spec_is_live_handle(rid)
                },
                Err(failure) => {
                    &&& failure == UsbError::BadResourceIdentifier
                    &&& !old(self).spec_is_live_handle(rid)
                    &&& final(self).table() == old(self).table()
                },
            },
    {
        match self.registry.take(rid) {
            Some(RegistryEntry::Handle(_)) => {
                proof {
                    let pre = old(self).table();
                    let post = self.table();
                    assert forall|k: u32| #[trigger] post.contains_key(k) && post[k] is Handle implies
                        post.contains_key(post[k].spec_handle().device_rid) && post[post[k].spec_handle().device_rid]
                        is Device by {
                        assert(pre.contains_key(k) && pre[k] == post[k]);
                        let d = pre[k].spec_handle().device_rid;
                        assert(pre.contains_key(d) && pre[d] is Device);
                        assert(d != rid);
                    }
                }
                Ok(())
            },
            Some(device_entry) => {
                proof {
                    old(self).registry.lemma_table_keys_bounded();
                    assert(old(self).table().remove(rid).insert(rid, old(self).table()[rid])
                        =~= old(self).table());
                }
                self.registry.restore(rid, device_entry);
                Err(UsbError::BadResourceIdentifier)
            },
            None => Err(UsbError::BadResourceIdentifier),
        }
    }

    /// Validates the identifier of a handle for a device reset: the
    /// reset itself changes none of the recorded state. Succeeds exactly
    /// when the identifier refers to an open handle.
    pub fn op_webusb_reset(&self, rid: u32) -> (outcome: Result<(), UsbError>)
        requires
            self.wf(),
        ensures
            match outcome {
                Ok(()) => self.spec_is_live_handle(rid),
                Err(failure) => failure == UsbError::BadResourceIdentifier
                    && !self.spec_is_live_handle(rid),
            },
    {
        match self.registry.get(rid) {
            Some(RegistryEntry::Handle(_)) => Ok(()),
            _ => Err(UsbError::BadResourceIdentifier),
        }
    }

    /// Computes the canonical endpoint address a halt-clearing operation
    /// must act on: the endpoint number with the direction bit. Succeeds
    /// exactly when the identifier refers to an open handle.
    pub fn op_webusb_clear_halt(&self, rid: u32, direction: Direction, endpoint_number: u8) -> (
        outcome: Result<u8, UsbError>)
        requires
            self.wf(),
        ensures
            match outcome {
                Ok(address) => self.spec_is_live_handle(rid) && address == spec_endpoint_address(
                    endpoint_number,
                    direction,
                ),
                Err(failure) => failure == UsbError::BadResourceIdentifier
                    && !self.spec_is_live_handle(rid),
            },
    {
        match self.registry.get(rid) {
            Some(RegistryEntry::Handle(_)) => Ok(endpoint_address(endpoint_number, direction)),
            _ => Err(UsbError::BadResourceIdentifier),
        }
    }
}

/// The claimed-interface list after removing the first occurrence of an
/// interface number, if any.
pub open spec fn spec_remove_first(claimed: Seq<u8>, interface_number: u8) -> Seq<u8>
    decreases claimed.len(),
{
    if claimed.len() == 0 {
        claimed
    } else if claimed[0] == interface_number {
        claimed.skip(1)
    } else {
        seq![claimed[0]] + spec_remove_first(claimed.skip(1), interface_number)
    }
}

proof fn lemma_remove_first_at(claimed: Seq<u8>, interface_number: u8, i: int)
    requires
        0 <= i < claimed.len(),
        claimed[i] == interface_number,
        forall|j: int| 0 <= j < i ==> claimed[j] != interface_number,
    ensures
        spec_remove_first(claimed, interface_number) == claimed.remove(i),
    decreases i,
{
    claimed.remove_ensures(i);
    if i == 0 {
        assert(claimed.remove(0) =~= claimed.skip(1));
    } else {
        let rest = claimed.skip(1);
        assert forall|j: int| 0 <= j < i - 1 implies rest[j] != interface_number by {
            assert(rest[j] == claimed[j + 1]);
        }
        assert(rest[i - 1] == claimed[i]);
        lemma_remove_first_at(rest, interface_number, i - 1);
        rest.remove_ensures(i - 1);
        assert(seq![claimed[0]] + rest.remove(i - 1) =~= claimed.remove(i));
    }
}

proof fn lemma_remove_first_absent(claimed: Seq<u8>, interface_number: u8)
    requires
        forall|j: int| 0 <= j < claimed.len() ==> claimed[j] != interface_number,
    ensures
        spec_remove_first(claimed, interface_number) == claimed,
    decreases claimed.len(),
{
    if claimed.len() > 0 {
        let rest = claimed.skip(1);
        assert forall|j: int| 0 <= j < rest.len() implies rest[j] != interface_number by {
            assert(rest[j] == claimed[j + 1]);
        }
        lemma_remove_first_absent(rest, interface_number);
        assert(seq![claimed[0]] + rest =~= claimed);
    }
}

/// Replacing a handle entry with another handle opened from the same
/// device keeps every handle linked to a registered device.
proof fn lemma_linked_after_handle_update(
    pre: Map<u32, RegistryEntry>,
    post: Map<u32, RegistryEntry>,
    rid: u32,
    updated: RegistryEntry,
)
    requires
        spec_linked(pre),
        pre.contains_key(rid),
        pre[rid] is Handle,
        updated is Handle,
        updated.spec_handle().device_rid == pre[rid].spec_handle().device_rid,
        post == pre.insert(rid, updated),
    ensures
        spec_linked(post),
{
    assert forall|k: u32| #[trigger] post.contains_key(k) && post[k] is Handle implies
        post.contains_key(post[k].spec_handle().device_rid) && post[post[k].spec_handle().device_rid]
        is Device by {
        let probe = if k == rid {
            rid
        } else {
            k
        };
        assert(pre.contains_key(probe) && pre[probe] is Handle);
        let d = pre[probe].spec_handle().device_rid;
        assert(pre.contains_key(d) && pre[d] is Device);
        assert(d != rid);
        assert(post[k].spec_handle().device_rid == d);
    }
}

fn find_interface(claimed: &Vec<u8>, interface_number: u8) -> (position: Option<usize>)
    ensures
        match position {
            Some(i) => i < claimed@.len() && claimed@[i as int] == interface_number && forall|j: int|
                0 <= j < i ==> claimed@[j] != interface_number,
            None => forall|j: int| 0 <= j < claimed@.len() ==> claimed@[j] != interface_number,
        },
{
    let mut idx: usize = 0;
    while idx < claimed.len()
        invariant
            idx <= claimed@.len(),
            forall|j: int| 0 <= j < idx ==> claimed@[j] != interface_number,
        decreases claimed@.len() - idx,
    {
        if claimed[idx] == interface_number {
            return Some(idx);
        }
        idx = idx + 1;
    }
    None
}

impl UsbState {
    /// Selects the active configuration of an open handle: the handle
    /// records the configuration value, and every later transfer
    /// resolves endpoints against that configuration's descriptors.
    /// Succeeds exactly when the identifier refers to an open handle.
    pub fn op_webusb_select_configuration(&mut self, rid: u32, configuration_value: u8) -> (
        outcome: Result<(), UsbError>)
        requires
            old(self).wf(),
        ensures
            final(self).wf(),
            final(self).next_id() == old(self).next_id(),
            match outcome {
                Ok(()) => {
                    &&& old(self).spec_is_live_handle(rid)
                    &&& final(self).spec_is_live_handle(rid)
                    &&& final(self).table().remove(rid) == old(self).table().remove(rid)
                    &&& ({
                        let before = old(self).spec_handle(rid);
                        let after = final(self).spec_handle(rid);
                        &&& after.device_rid == before.device_rid
                        &&& after.active_configuration == Some(configuration_value)
                        &&& after.claimed_interfaces@ == before.claimed_interfaces@
                        &&& after.alternate_settings@ == before.alternate_settings@
                    })
                },
                Err(failure) => {
                    &&& failure == UsbError::BadResourceIdentifier
                    &&& !old(self).spec_is_live_handle(rid)
                    &&& final(self).table() == old(self).table()
                },
            },
    {
        match self.registry.take(rid) {
            Some(RegistryEntry::Handle(resource)) => {
                let handle = resource.handle;
                let updated = DeviceHandleModel {
                    device_rid: handle.device_rid,
                    active_configuration: Some(configuration_value),
                    claimed_interfaces: handle.claimed_interfaces,
                    alternate_settings: handle.alternate_settings,
                };
                let entry = RegistryEntry::Handle(UsbHandleResource { handle: updated });
                proof {
                    old(self).registry.lemma_table_keys_bounded();
                }
                self.registry.restore(rid, entry);
                proof {
                    assert(final(self).table().remove(rid) =~= old(self).table().remove(rid));
                    assert(self.table() =~= old(self).table().insert(rid, entry));
                    lemma_linked_after_handle_update(
                        old(self).table(),
                        self.table(),
                        rid,
                        entry,
                    );
                }
                Ok(())
            },
            Some(device_entry) => {
                proof {
                    old(self).registry.lemma_table_keys_bounded();
                    assert(old(self).table().remove(rid).insert(rid, old(self).table()[rid])
                        =~= old(self).table());
                }
                self.registry.restore(rid, device_entry);
                Err(UsbError::BadResourceIdentifier)
            },
            None => Err(UsbError::BadResourceIdentifier),
        }
    }

    /// Claims an interface on an open handle: the interface number joins
    /// the handle's claimed set; claiming an already-claimed interface
    /// leaves the set as it was. Succeeds exactly when the identifier
    /// refers to an open handle.
    pub fn op_webusb_claim_interface(&mut self, rid: u32, interface_number: u8) -> (outcome:
        Result<(), UsbError>)
        requires
            old(self).wf(),
        ensures
            final(self).wf(),
            final(self).next_id() == old(self).next_id(),
            match outcome {
                Ok(()) => {
                    &&& old(self).spec_is_live_handle(rid)
                    &&& final(self).spec_is_live_handle(rid)
                    &&& final(self).table().remove(rid) == old(self).table().remove(rid)
                    &&& ({
                        let before = old(self).spec_handle(rid);
                        let after = final(self).spec_handle(rid);
                        &&& after.device_rid == before.device_rid
                        &&& after.active_configuration == before.active_configuration
                        &&& after.claimed_interfaces@ == (if before.claimed_interfaces@.contains(
                            interface_number,
                        ) {
                            before.claimed_interfaces@
                        } else {
                            before.claimed_interfaces@.push(interface_number)
                        })
                        &&& after.alternate_settings@ == before.alternate_settings@
                    })
                },
                Err(failure) => {
                    &&& failure == UsbError::BadResourceIdentifier
                    &&& !old(self).spec_is_live_handle(rid)
                    &&& final(self).table() == old(self).table()
                },
            },
    {
        match self.registry.take(rid) {
            Some(RegistryEntry::Handle(resource)) => {
                let handle = resource.handle;
                let mut claimed = handle.claimed_interfaces;
                match find_interface(&claimed, interface_number) {
                    Some(_) => {
                        proof {
                            assert(claimed@.contains(interface_number));
                        }
                    },
                    None => {
                        proof {
                            assert(!claimed@.contains(interface_number));
                        }
                        claimed.push(interface_number);
                    },
                }
                let updated = DeviceHandleModel {
                    device_rid: handle.device_rid,
                    active_configuration: handle.active_configuration,
                    claimed_interfaces: claimed,
                    alternate_settings: handle.alternate_settings,
                };
                let entry = RegistryEntry::Handle(UsbHandleResource { handle: updated });
                proof {
                    old(self).registry.lemma_table_keys_bounded();
                }
                self.registry.restore(rid, entry);
                proof {
                    assert(final(self).table().remove(rid) =~= old(self).table().remove(rid));
                    assert(self.table() =~= old(self).table().insert(rid, entry));
                    lemma_linked_after_handle_update(
                        old(self).table(),
                        self.table(),
                        rid,
                        entry,
                    );
                }
                Ok(())
            },
            Some(device_entry) => {
                proof {
                    old(self).registry.lemma_table_keys_bounded();
                    assert(old(self).table().remove(rid).insert(rid, old(self).table()[rid])
                        =~= old(self).table());
                }
                self.registry.restore(rid, device_entry);
                Err(UsbError::BadResourceIdentifier)
            },
            None => Err(UsbError::BadResourceIdentifier),
        }
    }

    /// Releases an interface on an open handle: the first occurrence of
    /// the interface number leaves the handle's claimed set; releasing
    /// an unclaimed interface leaves the set as it was. Succeeds exactly
    /// when the identifier refers to an open handle.
    pub fn op_webusb_release_interface(&mut self, rid: u32, interface_number: u8) -> (outcome:
        Result<(), UsbError>)
        requires
            old(self).wf(),
        ensures
            final(self).wf(),
            final(self).next_id() == old(self).next_id(),
            match outcome {
                Ok(()) => {
                    &&& old(self).spec_is_live_handle(rid)
                    &&& final(self).spec_is_live_handle(rid)
                    &&& final(self).table().remove(rid) == old(self).table().remove(rid)
                    &&& ({
                        let before = old(self).spec_handle(rid);
                        let after = final(self).spec_handle(rid);
                        &&& after.device_rid == before.device_rid
                        &&& after.active_configuration == before.active_configuration
                        &&& after.claimed_interfaces@ == spec_remove_first(
                            before.claimed_interfaces@,
                            interface_number,
                        )
                        &&& after.alternate_settings@ == before.alternate_settings@
                    })
                },
                Err(failure) => {
                    &&& failure == UsbError::BadResourceIdentifier
                    &&& !old(self).spec_is_live_handle(rid)
                    &&& final(self).table() == old(self).table()
                },
            },
    {
        match self.registry.take(rid) {
            Some(RegistryEntry::Handle(resource)) => {
                let handle = resource.handle;
                let mut claimed = handle.claimed_interfaces;
                match find_interface(&claimed, interface_number) {
                    Some(idx) => {
                        proof {
                            lemma_remove_first_at(claimed@, interface_number, idx as int);
                        }
                        claimed.remove(idx);
                    },
                    None => {
                        proof {
                            lemma_remove_first_absent(claimed@, interface_number);
                        }
                    },
                }
                let updated = DeviceHandleModel {
                    device_rid: handle.device_rid,
                    active_configuration: handle.active_configuration,
                    claimed_interfaces: claimed,
                    alternate_settings: handle.alternate_settings,
                };
                let entry = RegistryEntry::Handle(UsbHandleResource { handle: updated });
                proof {
                    old(self).registry.lemma_table_keys_bounded();
                }
                self.registry.restore(rid, entry);
                proof {
                    assert(final(self).table().remove(rid) =~= old(self).table().remove(rid));
                    assert(self.table() =~= old(self).table().insert(rid, entry));
                    lemma_linked_after_handle_update(
                        old(self).table(),
                        self.table(),
                        rid,
                        entry,
                    );
                }
                Ok(())
            },
            Some(device_entry) => {
                proof {
                    old(self).registry.lemma_table_keys_bounded();
                    assert(old(self).table().remove(rid).insert(rid, old(self).table()[rid])
                        =~= old(self).table());
                }
                self.registry.restore(rid, device_entry);
                Err(UsbError::BadResourceIdentifier)
            },
            None => Err(UsbError::BadResourceIdentifier),
        }
    }

    /// Records the alternate-setting selection of an interface on an
    /// open handle; the latest selection for an interface is the one
    /// that counts. Succeeds exactly when the identifier refers to an
    /// open handle.
    pub fn op_webusb_select_alternate_interface(
        &mut self,
        rid: u32,
        interface_number: u8,
        alternate_setting: u8,
    ) -> (outcome: Result<(), UsbError>)
        requires
            old(self).wf(),
        ensures
            final(self).wf(),
            final(self).next_id() == old(self).next_id(),
            match outcome {
                Ok(()) => {
                    &&& old(self).spec_is_live_handle(rid)
                    &&& final(self).spec_is_live_handle(rid)
                    &&& final(self).table().remove(rid) == old(self).table().remove(rid)
                    &&& ({
                        let before = old(self).spec_handle(rid);
                        let after = final(self).spec_handle(rid);
                        &&& after.device_rid == before.device_rid
                        &&& after.active_configuration == before.active_configuration
                        &&& after.claimed_interfaces@ == before.claimed_interfaces@
                        &&& after.alternate_settings@ == before.alternate_settings@.push(
                            (AltSelection { interface_number, alternate_setting }),
                        )
                    })
                },
                Err(failure) => {
                    &&& failure == UsbError::BadResourceIdentifier
                    &&& !old(self).spec_is_live_handle(rid)
                    &&& final(self).table() == old(self).table()
                },
            },
    {
        match self.registry.take(rid) {
            Some(RegistryEntry::Handle(resource)) => {
                let handle = resource.handle;
                let mut alternates = handle.alternate_settings;
                alternates.push(AltSelection { interface_number, alternate_setting });
                let updated = DeviceHandleModel {
                    device_rid: handle.device_rid,
                    active_configuration: handle.active_configuration,
                    claimed_interfaces: handle.claimed_interfaces,
                    alternate_settings: alternates,
                };
                let entry = RegistryEntry::Handle(UsbHandleResource { handle: updated });
                proof {
                    old(self).registry.lemma_table_keys_bounded();
                }
                self.registry.restore(rid, entry);
                proof {
                    assert(final(self).table().remove(rid) =~= old(self).table().remove(rid));
                    assert(self.table() =~= old(self).table().insert(rid, entry));
                    lemma_linked_after_handle_update(
                        old(self).table(),
                        self.table(),
                        rid,
                        entry,
                    );
                }
                Ok(())
            },
            Some(device_entry) => {
                proof {
                    old(self).registry.lemma_table_keys_bounded();
                    assert(old(self).table().remove(rid).insert(rid, old(self).table()[rid])
                        =~= old(self).table());
                }
                self.registry.restore(rid, device_entry);
                Err(UsbError::BadResourceIdentifier)
            },
            None => Err(UsbError::BadResourceIdentifier),
        }
    }
}

impl UsbState {
    /// Resolves the transfer type of a canonical endpoint address on an
    /// open handle, walking the active configuration's descriptor tree.
    /// The active configuration must be fetchable: a handle without a
    /// selected configuration, or with a value its device's descriptors
    /// do not contain, is a hard `DescriptorUnavailable` error. An
    /// address no endpoint carries is `None`, not an error.
    fn resolve_endpoint(&self, rid: u32, address: u8) -> (resolved: Result<
        Option<TransferType>,
        UsbError,
    >)
        requires
            self.wf(),
        ensures
            match resolved {
                Ok(found) => {
                    &&& self.spec_is_live_handle(rid)
                    &&& self.spec_active_config(rid) is Some
                    &&& found == spec_resolve_in_config(
                        self.spec_active_config(rid).unwrap(),
                        address,
                    )
                },
                Err(failure) => {
                    ||| (failure == UsbError::BadResourceIdentifier && !self.spec_is_live_handle(
                        rid,
                    ))
                    ||| (failure == UsbError::DescriptorUnavailable && self.spec_is_live_handle(rid)
                        && self.spec_active_config(rid) is None)
                },
            },
    {
        let handle: &DeviceHandleModel = match self.registry.get(rid) {
            Some(RegistryEntry::Handle(resource)) => &resource.handle,
            _ => {
                return Err(UsbError::BadResourceIdentifier);
            },
        };
        let configuration_value: u8 = match handle.active_configuration {
            Some(value) => value,
            None => {
                return Err(UsbError::DescriptorUnavailable);
            },
        };
        let device: &DeviceModel = match self.registry.get(handle.device_rid) {
            Some(RegistryEntry::Device(resource)) => &resource.device,
            _ => {
                proof {
                    assert(self.table().contains_key(rid) && self.table()[rid] is Handle);
                    assert(false);
                }
                return Err(UsbError::DescriptorUnavailable);
            },
        };
        match find_configuration(&device.configurations, configuration_value) {
            Some(configuration) => Ok(resolve_in_config(configuration, address)),
            None => Err(UsbError::DescriptorUnavailable),
        }
    }

    /// Dispatches an IN transfer: the endpoint is resolved against the
    /// active configuration under its canonical IN address, and a bulk
    /// or interrupt endpoint yields the matching read action with the
    /// requested length; an unknown endpoint or any other transfer type
    /// yields an empty success. Resolution happens on every call, never
    /// from a cache, because the descriptor set can change between
    /// calls.
    pub fn op_webusb_transfer_in(&self, rid: u32, endpoint_number: u8, length: usize) -> (outcome:
        Result<TransferInAction, UsbError>)
        requires
            self.wf(),
        ensures
            match outcome {
                Ok(action) => {
                    &&& self.spec_is_live_handle(rid)
                    &&& self.spec_active_config(rid) is Some
                    &&& action == spec_transfer_in_action(
                        spec_resolve_in_config(
                            self.spec_active_config(rid).unwrap(),
                            spec_endpoint_address(endpoint_number, Direction::In),
                        ),
                        endpoint_number,
                        length,
                    )
                },
                Err(failure) => {
                    ||| (failure == UsbError::BadResourceIdentifier && !self.spec_is_live_handle(
                        rid,
                    ))
                    ||| (failure == UsbError::DescriptorUnavailable && self.spec_is_live_handle(rid)
                        && self.spec_active_config(rid) is None)
                },
            },
    {
        let address = endpoint_address(endpoint_number, Direction::In);
        match self.resolve_endpoint(rid, address) {
            Ok(Some(TransferType::Bulk)) => Ok(
                TransferInAction::ReadBulk { endpoint_number, length },
            ),
            Ok(Some(TransferType::Interrupt)) => Ok(
                TransferInAction::ReadInterrupt { endpoint_number, length },
            ),
            Ok(_) => Ok(TransferInAction::Empty),
            Err(failure) => Err(failure),
        }
    }

    /// Dispatches an OUT transfer: the endpoint is resolved against the
    /// active configuration under its canonical OUT address, and a bulk
    /// or interrupt endpoint yields the matching write action carrying
    /// the payload; an unknown endpoint or any other transfer type
    /// yields an empty success.
    pub fn op_webusb_transfer_out(&self, rid: u32, endpoint_number: u8, data: Vec<u8>) -> (outcome:
        Result<TransferOutAction, UsbError>)
        requires
            self.wf(),
        ensures
            match outcome {
                Ok(action) => {
                    &&& self.spec_is_live_handle(rid)
                    &&& self.spec_active_config(rid) is Some
                    &&& action == spec_transfer_out_action(
                        spec_resolve_in_config(
                            self.spec_active_config(rid).unwrap(),
                            spec_endpoint_address(endpoint_number, Direction::Out),
                        ),
                        endpoint_number,
                        data,
                    )
                },
                Err(failure) => {
                    ||| (failure == UsbError::BadResourceIdentifier && !self.spec_is_live_handle(
                        rid,
                    ))
                    ||| (failure == UsbError::DescriptorUnavailable && self.spec_is_live_handle(rid)
                        && self.spec_active_config(rid) is None)
                },
            },
    {
        let address = endpoint_address(endpoint_number, Direction::Out);
        match self.resolve_endpoint(rid, address) {
            Ok(Some(TransferType::Bulk)) => Ok(
                TransferOutAction::WriteBulk { endpoint_number, data },
            ),
            Ok(Some(TransferType::Interrupt)) => Ok(
                TransferOutAction::WriteInterrupt { endpoint_number, data },
            ),
            Ok(_) => Ok(TransferOutAction::Empty),
            Err(failure) => Err(failure),
        }
    }

    /// Prepares a control IN transfer: the setup fields are encoded into
    /// the request-type byte with the IN direction bit, and the payload
    /// buffer is passed through to be filled by the native call.
    /// Succeeds exactly when the identifier refers to an open handle.
    pub fn op_webusb_control_transfer_in(&self, rid: u32, setup: SetupArgs, data: Vec<u8>) -> (
        outcome: Result<ControlTransferAction, UsbError>)
        requires
            self.wf(),
        ensures
            match outcome {
                Ok(action) => {
                    &&& self.spec_is_live_handle(rid)
                    &&& action.request_type == spec_request_type_byte(
                        Direction::In,
                        setup.request_type,
                        setup.recipient,
                    )
                    &&& action.request == setup.request
                    &&& action.value == setup.value
                    &&& action.index == setup.index
                    &&& action.data == data
                },
                Err(failure) => failure == UsbError::BadResourceIdentifier
                    && !self.spec_is_live_handle(rid),
            },
    {
        match self.registry.get(rid) {
            Some(RegistryEntry::Handle(_)) => Ok(
                ControlTransferAction {
                    request_type: encode_request_type(
                        Direction::In,
                        setup.request_type,
                        setup.recipient,
                    ),
                    request: setup.request,
                    value: setup.value,
                    index: setup.index,
                    data,
                },
            ),
            _ => Err(UsbError::BadResourceIdentifier),
        }
    }

    /// Prepares a control OUT transfer: the setup fields are encoded
    /// into the request-type byte with the OUT direction bit, and the
    /// payload buffer is passed through to be supplied to the native
    /// call. Succeeds exactly when the identifier refers to an open
    /// handle.
    pub fn op_webusb_control_transfer_out(&self, rid: u32, setup: SetupArgs, data: Vec<u8>) -> (
        outcome: Result<ControlTransferAction, UsbError>)
        requires
            self.wf(),
        ensures
            match outcome {
                Ok(action) => {
                    &&& self.spec_is_live_handle(rid)
                    &&& action.request_type == spec_request_type_byte(
                        Direction::Out,
                        setup.request_type,
                        setup.recipient,
                    )
                    &&& action.request == setup.request
                    &&& action.value == setup.value
                    &&& action.index == setup.index
                    &&& action.data == data
                },
                Err(failure) => failure == UsbError::BadResourceIdentifier
                    && !self.spec_is_live_handle(rid),
            },
    {
        match self.registry.get(rid) {
            Some(RegistryEntry::Handle(_)) => Ok(
                ControlTransferAction {
                    request_type: encode_request_type(
                        Direction::Out,
                        setup.request_type,
                        setup.recipient,
                    ),
                    request: setup.request,
                    value: setup.value,
                    index: setup.index,
                    data,
                },
            ),
            _ => Err(UsbError::BadResourceIdentifier),
        }
    }

    /// Sizes an isochronous IN transfer on an open handle: the endpoint
    /// address gets the direction bit forced IN, and the plan carries
    /// the packet count, the summed buffer length and the per-packet
    /// lengths to fill into the native transfer. Succeeds exactly when
    /// the identifier refers to an open handle.
    pub fn op_webusb_iso_transfer_in(&self, rid: u32, endpoint_number: u8, packet_lengths: Vec<
        u32,
    >) -> (outcome: Result<IsochronousTransferPlan, UsbError>)
        requires
            self.wf(),
            packet_lengths@.len() <= 0x7fffffff,
            spec_total_length(packet_lengths@) <= 0x7fffffff,
        ensures
            match outcome {
                Ok(plan) => {
                    &&& self.spec_is_live_handle(rid)
                    &&& plan.endpoint_address == spec_endpoint_address(
                        endpoint_number,
                        Direction::In,
                    )
                    &&& plan.num_packets == packet_lengths@.len()
                    &&& plan.total_length == spec_total_length(packet_lengths@)
                    &&& plan.packet_lengths == packet_lengths
                },
                Err(failure) => failure == UsbError::BadResourceIdentifier
                    && !self.spec_is_live_handle(rid),
            },
    {
        match self.registry.get(rid) {
            Some(RegistryEntry::Handle(_)) => Ok(build_iso_plan(endpoint_number, packet_lengths)),
            _ => Err(UsbError::BadResourceIdentifier),
        }
    }
}

/// One enumerated device as handed to the caller: its record and the
/// registry identifier under which the device resource was registered.
#[derive(Debug)]
pub struct DeviceEntry {
    pub usbdevice: UsbDevice,
    pub rid: u32,
}

/// Registering a device entry under a fresh identifier keeps every
/// handle linked to a registered device.
proof fn lemma_linked_after_insert_device(
    pre: Map<u32, RegistryEntry>,
    rid: u32,
    entry: RegistryEntry,
)
    requires
        spec_linked(pre),
        !pre.contains_key(rid),
        entry is Device,
    ensures
        spec_linked(pre.insert(rid, entry)),
{
    let post = pre.insert(rid, entry);
    assert forall|k: u32| #[trigger] post.contains_key(k) && post[k] is Handle implies
        post.contains_key(post[k].spec_handle().device_rid) && post[post[k].spec_handle().device_rid]
        is Device by {
        assert(k != rid);
        assert(pre.contains_key(k) && pre[k] == post[k]);
        let d = pre[k].spec_handle().device_rid;
        assert(pre.contains_key(d) && pre[d] is Device);
    }
}

impl UsbState {
    /// Enumerates discovered devices: hub-class devices are dropped, and
    /// each remaining device is registered as a long-lived device
    /// resource (not a handle) and handed back as a record together
    /// with its fresh identifier, in discovery order. The string
    /// descriptors and configuration of each record come from the
    /// discovered device, each individually optional.
    pub fn op_webusb_get_devices(&mut self, discovered: Vec<DeviceModel>) -> (entries: Vec<
        DeviceEntry,
    >)
        requires
            old(self).wf(),
            old(self).next_id() + discovered@.len() <= u32::MAX,
        ensures
            final(self).wf(),
            ({
                let registered = spec_non_hubs(discovered@);
                &&& entries@.len() == registered.len()
                &&& final(self).next_id() == old(self).next_id() + registered.len()
                &&& forall|i: int|
                    #![trigger entries@[i]]
                    0 <= i < registered.len() ==> {
                        &&& entries@[i].rid == old(self).next_id() + i
                        &&& entries@[i].usbdevice == spec_usb_device_of(registered[i])
                        &&& entries@[i].usbdevice.device_class != HUB_CLASS_CODE
                        &&& final(self).spec_is_live_device(entries@[i].rid)
                        &&& final(self).table()[entries@[i].rid].spec_device() == registered[i]
                    }
                &&& forall|k: u32|
                    #[trigger] old(self).table().contains_key(k) ==> final(self).table().contains_key(k) && final(self).table()[k] == old(self).table()[k]
                &&& forall|k: u32|
                    #[trigger] final(self).table().contains_key(k) ==> old(self).table().contains_key(k) || (old(self).next_id() <= k < final(self).next_id())
            }),
    {
        let ghost all_discovered = discovered@;
        let mut devices = discovered;
        let mut entries: Vec<DeviceEntry> = Vec::new();
        proof {
            assert(all_discovered.take(0) =~= Seq::<DeviceModel>::empty());
            assert(all_discovered.skip(0) =~= all_discovered);
        }
        while devices.len() > 0
            invariant
                self.wf(),
                devices@.len() <= all_discovered.len(),
                devices@ == all_discovered.skip(all_discovered.len() - devices@.len()),
                old(self).next_id() + all_discovered.len() <= u32::MAX,
                ({
                    let processed = all_discovered.len() - devices@.len();
                    let registered = spec_non_hubs(all_discovered.take(processed));
                    &&& entries@.len() == registered.len()
                    &&& self.next_id() == old(self).next_id() + registered.len()
                    &&& forall|i: int|
                        #![trigger entries@[i]]
                        0 <= i < registered.len() ==> {
                            &&& entries@[i].rid == old(self).next_id() + i
                            &&& entries@[i].usbdevice == spec_usb_device_of(registered[i])
                            &&& self.table().contains_key(entries@[i].rid)
                            &&& self.table()[entries@[i].rid] is Device
                            &&& self.table()[entries@[i].rid].spec_device() == registered[i]
                        }
                    &&& forall|k: u32|
                        #[trigger] old(self).table().contains_key(k) ==> self.table().contains_key(
                            k,
                        ) && self.table()[k] == old(self).table()[k]
                    &&& forall|k: u32|
                        #[trigger] self.table().contains_key(k) ==> old(self).table().contains_key(k) || (old(self).next_id() <= k < self.next_id())
                }),
            decreases devices@.len(),
        {
            let ghost processed = all_discovered.len() - devices@.len();
            let device = devices.remove(0);
            proof {
                assert(devices@ =~= all_discovered.skip(processed + 1));
                assert(device == all_discovered[processed]);
                assert(all_discovered.take(processed + 1).drop_last() =~= all_discovered.take(processed));
                assert(all_discovered.take(processed + 1).last() == all_discovered[processed]);
                lemma_non_hubs_len(all_discovered.take(processed + 1));
            }
            if device.device_class != HUB_CLASS_CODE {
                let record = usb_device_of(&device);
                let entry = RegistryEntry::Device(UsbResource { device });
                let ghost table_before = self.table();
                let ghost saved = entry;
                proof {
                    lemma_non_hubs_len(all_discovered.take(processed));
                }
                let rid = self.registry.add(entry);
                entries.push(DeviceEntry { usbdevice: record, rid });
                proof {
                    lemma_linked_after_insert_device(table_before, rid, saved);
                }
            }
        }
        proof {
            assert(all_discovered.take(all_discovered.len() as int) =~= all_discovered);
            lemma_non_hubs_no_hub(all_discovered);
        }
        entries
    }
}

/// Closing a handle is terminal: in the map a close leaves behind, the
/// closed identifier no longer refers to an open handle, so a second
/// close of the same identifier must fail with `BadResourceIdentifier`.
pub proof fn lemma_close_device_is_terminal(table: Map<u32, RegistryEntry>, rid: u32)
    ensures
        !table.remove(rid).contains_key(rid),
{
}

} // verus!
