//! The resource registry: a table handing out opaque `u32` identifiers
//! for registered resources. Identifiers are allocated from a counter
//! that only grows, so an identifier is never reused once issued, and a
//! stale identifier always fails lookup instead of aliasing a later
//! resource.

use vstd::prelude::*;

use crate::device::DeviceModel;

verus! {

/// The interface/alternate-setting selection recorded on a handle.
#[derive(Clone, Copy, Debug, PartialEq, Eq, Structural)]
pub struct AltSelection {
    pub interface_number: u8,
    pub alternate_setting: u8,
}

/// The model state of an open device handle: the identifier of its parent
/// device resource, the value of the configuration selected on it, the
/// set of claimed interfaces and the alternate settings selected so far.
#[derive(Debug)]
pub struct DeviceHandleModel {
    pub device_rid: u32,
    pub active_configuration: Option<u8>,
    pub claimed_interfaces: Vec<u8>,
    pub alternate_settings: Vec<AltSelection>,
}

/// A registered, unopened device.
#[derive(Debug)]
pub struct UsbResource {
    pub device: DeviceModel,
}

/// A registered open device handle.
#[derive(Debug)]
pub struct UsbHandleResource {
    pub handle: DeviceHandleModel,
}

impl UsbResource {
    /// The kind label of this resource.
    pub fn name(&self) -> (label: String)
        ensures
            label@ == "usbDevice"@,
    {
        "usbDevice".to_owned()
    }
}

impl UsbHandleResource {
    /// The kind label of this resource.
    pub fn name(&self) -> (label: String)
        ensures
            label@ == "usbDeviceHandle"@,
    {
        "usbDeviceHandle".to_owned()
    }
}

/// A registry entry: either a discovered device or an open handle.
#[derive(Debug)]
pub enum RegistryEntry {
    Device(UsbResource),
    Handle(UsbHandleResource),
}

impl RegistryEntry {
    /// The configuration descriptors of a device entry.
    pub open spec fn spec_device(self) -> DeviceModel
        recommends
            self is Device,
    {
        self->Device_0.device
    }

    /// The handle state of a handle entry.
    pub open spec fn spec_handle(self) -> DeviceHandleModel
        recommends
            self is Handle,
    {
        self->Handle_0.handle
    }
}

/// The identifier-to-entry map described by an association list, with a
/// later pair overriding an earlier one of the same identifier.
spec fn spec_entries_map(entries: Seq<(u32, RegistryEntry)>) -> Map<u32, RegistryEntry>
    decreases entries.len(),
{
    if entries.len() == 0 {
        Map::empty()
    } else {
        spec_entries_map(entries.drop_last()).insert(entries.last().0, entries.last().1)
    }
}

/// No two pairs of the list carry the same identifier.
spec fn spec_keys_unique(entries: Seq<(u32, RegistryEntry)>) -> bool {
    forall|i: int, j: int|
        0 <= i < j < entries.len() ==> (#[trigger] entries[i]).0 != (#[trigger] entries[j]).0
}

/// An identifier is in the map exactly when some pair of the list
/// carries it.
proof fn lemma_entries_map_domain(entries: Seq<(u32, RegistryEntry)>)
    ensures
        forall|k: u32|
            spec_entries_map(entries).contains_key(k) <==> exists|i: int|
                0 <= i < entries.len() && (#[trigger] entries[i]).0 == k,
    decreases entries.len(),
{
    if entries.len() > 0 {
        let prefix = entries.drop_last();
        lemma_entries_map_domain(prefix);
        assert forall|k: u32| spec_entries_map(entries).contains_key(k) implies exists|i: int|
            0 <= i < entries.len() && (#[trigger] entries[i]).0 == k by {
            if k == entries.last().0 {
                assert(entries[entries.len() - 1].0 == k);
            } else {
                assert(spec_entries_map(prefix).contains_key(k));
                let i = choose|i: int| 0 <= i < prefix.len() && (#[trigger] prefix[i]).0 == k;
                assert(entries[i] == prefix[i]);
                assert(entries[i].0 == k);
            }
        }
        assert forall|k: u32|
            (exists|i: int|
                0 <= i < entries.len() && (#[trigger] entries[i]).0
                    == k) implies spec_entries_map(entries).contains_key(k) by {
            let i = choose|i: int| 0 <= i < entries.len() && (#[trigger] entries[i]).0 == k;
            if i < entries.len() - 1 {
                assert(prefix[i] == entries[i]);
                assert(prefix[i].0 == k);
                assert(spec_entries_map(prefix).contains_key(k));
            }
        }
    }
}

/// With unique identifiers, the map sends each listed identifier to the
/// entry paired with it.
proof fn lemma_entries_map_index(entries: Seq<(u32, RegistryEntry)>, i: int)
    requires
        spec_keys_unique(entries),
        0 <= i < entries.len(),
    ensures
        spec_entries_map(entries).contains_key(entries[i].0),
        spec_entries_map(entries)[entries[i].0] == entries[i].1,
    decreases entries.len(),
{
    if i == entries.len() - 1 {
    } else {
        assert(entries[i].0 != entries.last().0);
        lemma_entries_map_index(entries.drop_last(), i);
        assert(entries.drop_last()[i] == entries[i]);
    }
}

/// With unique identifiers, removing the pair at an index removes exactly
/// its identifier from the map.
proof fn lemma_entries_map_remove(entries: Seq<(u32, RegistryEntry)>, i: int)
    requires
        spec_keys_unique(entries),
        0 <= i < entries.len(),
    ensures
        spec_entries_map(entries.remove(i)) == spec_entries_map(entries).remove(entries[i].0),
    decreases entries.len(),
{
    let k = entries[i].0;
    entries.remove_ensures(i);
    let pre = entries.drop_last();
    if i == entries.len() - 1 {
        assert(entries.remove(i) =~= pre);
        lemma_entries_map_domain(pre);
        assert forall|j: int| 0 <= j < pre.len() implies (#[trigger] pre[j]).0 != k by {
            assert(entries[j] == pre[j]);
        }
        assert(!spec_entries_map(pre).contains_key(k));
        assert(spec_entries_map(pre) =~= spec_entries_map(entries).remove(k));
    } else {
        assert forall|j: int, l: int| 0 <= j < l < pre.len() implies (#[trigger] pre[j]).0 != (
        #[trigger] pre[l]).0 by {
            assert(pre[j] == entries[j] && pre[l] == entries[l]);
        }
        pre.remove_ensures(i);
        assert(entries.remove(i).drop_last() =~= pre.remove(i));
        assert(entries.remove(i).last() == entries.last());
        lemma_entries_map_remove(pre, i);
        assert(pre[i] == entries[i]);
        assert(entries.last().0 != k);
        assert(spec_entries_map(pre).remove(k).insert(entries.last().0, entries.last().1)
            =~= spec_entries_map(pre).insert(entries.last().0, entries.last().1).remove(k));
    }
}

/// The registry. Entries are stored as identifier/entry pairs with unique
/// identifiers, all smaller than the allocation counter.
pub struct ResourceTable {
    entries: Vec<(u32, RegistryEntry)>,
    next_rid: u32,
}

impl ResourceTable {
    /// The identifier-to-resource map this registry holds.
    pub closed spec fn table(self) -> Map<u32, RegistryEntry> {
        spec_entries_map(self.entries@)
    }

    /// The identifier the next registered resource will receive.
    pub closed spec fn next_id(self) -> u32 {
        self.next_rid
    }

    /// Well-formedness: identifiers are unique and below the counter.
    pub closed spec fn wf(self) -> bool {
        &&& spec_keys_unique(self.entries@)
        &&& forall|i: int|
            0 <= i < self.entries@.len() ==> (#[trigger] self.entries@[i]).0 < self.next_rid
    }

    /// Reads the identifier the next registered resource will receive.
    pub fn peek_next_id(&self) -> (next: u32)
        ensures
            next == self.next_id(),
    {
        self.next_rid
    }

    /// An empty registry.
    pub fn new() -> (registry: Self)
        ensures
            registry.wf(),
            registry.table() == Map::<u32, RegistryEntry>::empty(),
            registry.next_id() == 0,
    {
        ResourceTable { entries: Vec::new(), next_rid: 0 }
    }

    /// Registers a resource under a fresh identifier and returns it.
    pub fn add(&mut self, entry: RegistryEntry) -> (rid: u32)
        requires
            old(self).wf(),
            old(self).next_id() < u32::MAX,
        ensures
            final(self).wf(),
            rid == old(self).next_id(),
            !old(self).table().contains_key(rid),
            final(self).table() == old(self).table().insert(rid, entry),
            final(self).next_id() == old(self).next_id() + 1,
    {
        let rid = self.next_rid;
        proof {
            lemma_entries_map_domain(self.entries@);
        }
        self.entries.push((rid, entry));
        self.next_rid = self.next_rid + 1;
        proof {
            let pushed = old(self).entries@.push((rid, entry));
            assert(pushed.drop_last() =~= old(self).entries@);
            assert forall|i: int, j: int| 0 <= i < j < pushed.len() implies (
            #[trigger] pushed[i]).0 != (#[trigger] pushed[j]).0 by {
                if j == pushed.len() - 1 {
                    assert(pushed[i] == old(self).entries@[i]);
                }
            }
        }
        rid
    }

    /// Looks up a resource by identifier.
    pub fn get(&self, rid: u32) -> (found: Option<&RegistryEntry>)
        requires
            self.wf(),
        ensures
            match found {
                Some(entry) => self.table().contains_key(rid) && *entry == self.table()[rid],
                None => !self.table().contains_key(rid),
            },
    {
        let mut idx: usize = 0;
        while idx < self.entries.len()
            invariant
                self.wf(),
                idx <= self.entries@.len(),
                forall|j: int| 0 <= j < idx ==> (#[trigger] self.entries@[j]).0 != rid,
            decreases self.entries@.len() - idx,
        {
            if self.entries[idx].0 == rid {
                proof {
                    lemma_entries_map_index(self.entries@, idx as int);
                }
                return Some(&self.entries[idx].1);
            }
            idx = idx + 1;
        }
        proof {
            lemma_entries_map_domain(self.entries@);
        }
        None
    }

    /// Every identifier the registry holds lies below the counter, so a
    /// removed entry can be reinstated without disturbing allocation.
    pub proof fn lemma_table_keys_bounded(self)
        requires
            self.wf(),
        ensures
            forall|k: u32| #[trigger] self.table().contains_key(k) ==> k < self.next_id(),
    {
        lemma_entries_map_domain(self.entries@);
    }

    /// Registers a resource under a given identifier that is not in use
    /// and lies below the counter: the counterpart of `take` for putting
    /// an entry back.
    pub fn restore(&mut self, rid: u32, entry: RegistryEntry)
        requires
            old(self).wf(),
            !old(self).table().contains_key(rid),
            rid < old(self).next_id(),
        ensures
            final(self).wf(),
            final(self).next_id() == old(self).next_id(),
            final(self).table() == old(self).table().insert(rid, entry),
    {
        proof {
            lemma_entries_map_domain(self.entries@);
        }
        self.entries.push((rid, entry));
        proof {
            let grown = self.entries@;
            assert(grown.drop_last() =~= old(self).entries@);
            assert forall|i: int, j: int| 0 <= i < j < grown.len() implies (#[trigger] grown[i]).0
                != (#[trigger] grown[j]).0 by {
                if j == grown.len() - 1 {
                    assert(grown[i] == old(self).entries@[i]);
                    assert(old(self).entries@[i].0 == grown[i].0);
                }
            }
        }
    }

    /// Replaces the resource registered under an identifier, returning
    /// the previous entry; absent identifiers leave the registry as it
    /// was.
    pub fn update(&mut self, rid: u32, entry: RegistryEntry) -> (replaced: Option<RegistryEntry>)
        requires
            old(self).wf(),
        ensures
            final(self).wf(),
            final(self).next_id() == old(self).next_id(),
            match replaced {
                Some(previous) => {
                    &&& old(self).table().contains_key(rid)
                    &&& previous == old(self).table()[rid]
                    &&& final(self).table() == old(self).table().insert(rid, entry)
                },
                None => {
                    &&& !old(self).table().contains_key(rid)
                    &&& *final(self) == *old(self)
                },
            },
    {
        let mut idx: usize = 0;
        while idx < self.entries.len()
            invariant
                *self == *old(self),
                self.wf(),
                idx <= self.entries@.len(),
                forall|j: int| 0 <= j < idx ==> (#[trigger] self.entries@[j]).0 != rid,
            decreases self.entries@.len() - idx,
        {
            if self.entries[idx].0 == rid {
                proof {
                    lemma_entries_map_index(self.entries@, idx as int);
                    lemma_entries_map_remove(self.entries@, idx as int);
                }
                let removed = self.entries.remove(idx);
                proof {
                    let shrunk = self.entries@;
                    let full = old(self).entries@;
                    full.remove_ensures(idx as int);
                    assert(shrunk == full.remove(idx as int));
                    assert forall|i: int, j: int| 0 <= i < j < shrunk.len() implies (
                    #[trigger] shrunk[i]).0 != (#[trigger] shrunk[j]).0 by {
                        let i0 = if i < idx { i } else { i + 1 };
                        let j0 = if j < idx { j } else { j + 1 };
                        assert(shrunk[i] == full[i0] && shrunk[j] == full[j0]);
                    }
                    assert forall|i: int| 0 <= i < shrunk.len() implies (#[trigger] shrunk[i]).0
                        < self.next_rid && (#[trigger] shrunk[i]).0 != rid by {
                        let i0 = if i < idx { i } else { i + 1 };
                        assert(shrunk[i] == full[i0]);
                    }
                }
                self.entries.push((rid, entry));
                proof {
                    let shrunk = old(self).entries@.remove(idx as int);
                    let grown = self.entries@;
                    assert(grown.drop_last() =~= shrunk);
                    assert forall|i: int, j: int| 0 <= i < j < grown.len() implies (
                    #[trigger] grown[i]).0 != (#[trigger] grown[j]).0 by {
                        if j == grown.len() - 1 {
                            assert(grown[i] == shrunk[i]);
                        }
                    }
                    assert(spec_entries_map(grown) == spec_entries_map(shrunk).insert(rid, entry));
                    assert(spec_entries_map(shrunk).insert(rid, entry)
                        =~= spec_entries_map(old(self).entries@).insert(rid, entry));
                }
                return Some(removed.1);
            }
            idx = idx + 1;
        }
        proof {
            lemma_entries_map_domain(self.entries@);
        }
        None
    }

    /// Removes a resource by identifier and returns it; the identifier
    /// counter does not move, so the identifier is not reissued.
    pub fn take(&mut self, rid: u32) -> (taken: Option<RegistryEntry>)
        requires
            old(self).wf(),
        ensures
            final(self).wf(),
            final(self).next_id() == old(self).next_id(),
            match taken {
                Some(entry) => {
                    &&& old(self).table().contains_key(rid)
                    &&& entry == old(self).table()[rid]
                    &&& final(self).table() == old(self).table().remove(rid)
                },
                None => {
                    &&& !old(self).table().contains_key(rid)
                    &&& *final(self) == *old(self)
                },
            },
    {
        let mut idx: usize = 0;
        while idx < self.entries.len()
            invariant
                *self == *old(self),
                self.wf(),
                idx <= self.entries@.len(),
                forall|j: int| 0 <= j < idx ==> (#[trigger] self.entries@[j]).0 != rid,
            decreases self.entries@.len() - idx,
        {
            if self.entries[idx].0 == rid {
                proof {
                    lemma_entries_map_index(self.entries@, idx as int);
                    lemma_entries_map_remove(self.entries@, idx as int);
                }
                let removed = self.entries.remove(idx);
                proof {
                    let shrunk = self.entries@;
                    let full = old(self).entries@;
                    full.remove_ensures(idx as int);
                    assert(shrunk == full.remove(idx as int));
                    assert forall|i: int, j: int| 0 <= i < j < shrunk.len() implies (
                    #[trigger] shrunk[i]).0 != (#[trigger] shrunk[j]).0 by {
                        let i0 = if i < idx { i } else { i + 1 };
                        let j0 = if j < idx { j } else { j + 1 };
                        assert(shrunk[i] == full[i0] && shrunk[j] == full[j0]);
                    }
                    assert forall|i: int| 0 <= i < shrunk.len() implies (#[trigger] shrunk[i]).0
                        < self.next_rid by {
                        let i0 = if i < idx { i } else { i + 1 };
                        assert(shrunk[i] == full[i0]);
                    }
                }
                return Some(removed.1);
            }
            idx = idx + 1;
        }
        proof {
            lemma_entries_map_domain(self.entries@);
        }
        None
    }
}

} // verus!
