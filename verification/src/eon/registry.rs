//! The devices registered with a node: their names and the ids their metric
//! aliases are built from.

use crate::eon::birth::{default_hash, name_hash};
use crate::strings::str_eq;
use crate::types::{name_error, valid_name, validate_name};
use vstd::prelude::*;

verus! {

/// Why a device could not be registered.
#[derive(Debug)]
pub enum DeviceRegistrationError {
    /// A device with that name is already registered.
    DuplicateDevice,
    /// The name cannot stand as a device name.
    InvalidName(String),
    /// Every id at or above the one the device's name hashes to is taken.
    IdsExhausted,
}

/// The id reserved for the node itself.
pub const OBJECT_ID_NODE: u32 = 0;

/// `id` is the smallest id at or above `start` that is neither the node's
/// id nor in `taken`.
pub open spec fn first_free_id(taken: Seq<u32>, start: u32, id: u32) -> bool {
    &&& start <= id
    &&& id != OBJECT_ID_NODE
    &&& !taken.contains(id)
    &&& forall|v: u32| start <= v < id ==> v == OBJECT_ID_NODE || taken.contains(v)
}

/// Every id at or above `start` is the node's id or in `taken`.
pub open spec fn ids_exhausted_from(taken: Seq<u32>, start: u32) -> bool {
    forall|v: u32| start <= v ==> v == OBJECT_ID_NODE || taken.contains(v)
}

/// The registered devices of a node, each with its own id.
pub struct Registry {
    devices: Vec<(String, u32)>,
}

impl Registry {
    /// The registered names and ids.
    pub closed spec fn spec_entries(&self) -> Seq<(Seq<char>, u32)> {
        self.devices@.map_values(|e: (String, u32)| (e.0@, e.1))
    }

    /// The ids in use.
    pub open spec fn spec_ids(&self) -> Seq<u32> {
        self.spec_entries().map_values(|e: (Seq<char>, u32)| e.1)
    }

    /// Names and ids are distinct and no device has the node's id.
    pub open spec fn wf(&self) -> bool {
        &&& forall|i: int, j: int|
            0 <= i < j < self.spec_entries().len() ==> #[trigger] self.spec_entries()[i].0
                != #[trigger] self.spec_entries()[j].0 && self.spec_entries()[i].1
                != self.spec_entries()[j].1
        &&& forall|i: int|
            0 <= i < self.spec_entries().len() ==> #[trigger] self.spec_entries()[i].1
                != OBJECT_ID_NODE
    }

    /// A registry with no devices.
    pub fn new() -> (r: Self)
        ensures
            r.spec_entries() == Seq::<(Seq<char>, u32)>::empty(),
            r.wf(),
    {
        let r = Self { devices: Vec::new() };
        assert(r.spec_entries() =~= Seq::<(Seq<char>, u32)>::empty());
        r
    }

    /// The index of the device named `name`, if it is registered.
    pub fn find(&self, name: &str) -> (r: Option<usize>)
        ensures
            r is None <==> !exists|i: int| 0 <= i < self.spec_entries().len() && #[trigger] self.spec_entries()[i].0 == name@,
            r matches Some(i) ==> i < self.spec_entries().len() && self.spec_entries()[i as int].0 == name@,
    {
        let mut i: usize = 0;
        while i < self.devices.len()
            invariant
                i <= self.devices@.len(),
                forall|j: int| 0 <= j < i ==> (#[trigger] self.spec_entries()[j]).0 != name@,
            decreases self.devices@.len() - i,
        {
            if str_eq(self.devices[i].0.as_str(), name) {
                assert(self.spec_entries()[i as int].0 == name@);
                return Some(i);
            }
            i = i + 1;
        }
        None
    }

    fn id_taken(&self, id: u32) -> (r: bool)
        ensures
            r == self.spec_ids().contains(id),
    {
        let mut i: usize = 0;
        while i < self.devices.len()
            invariant
                i <= self.devices@.len(),
                forall|j: int| 0 <= j < i ==> (#[trigger] self.spec_ids()[j]) != id,
            decreases self.devices@.len() - i,
        {
            if self.devices[i].1 == id {
                assert(self.spec_ids()[i as int] == id);
                return true;
            }
            i = i + 1;
        }
        false
    }

    /// The id for a device whose name hashes to `hash`: the first id at or
    /// above the hash's low 32 bits that is neither the node's id nor taken.
    fn generate_device_id(&self, hash: u64) -> (r: Option<u32>)
        ensures
            r matches Some(id) ==> first_free_id(self.spec_ids(), hash as u32, id),
            r is None ==> ids_exhausted_from(self.spec_ids(), hash as u32),
    {
        let start: u32 = #[verifier::truncate] (hash as u32);
        let mut id = start;
        loop
            invariant
                start == hash as u32,
                start <= id,
                forall|v: u32| start <= v < id ==> v == OBJECT_ID_NODE || self.spec_ids().contains(v),
            decreases u32::MAX - id,
        {
            if id != OBJECT_ID_NODE && !self.id_taken(id) {
                return Some(id);
            }
            if id == u32::MAX {
                return None;
            }
            id = id + 1;
        }
    }

    /// Registers a device named `name`: the name must be valid and not yet
    /// registered; the device gets the first free id at or above the low 32
    /// bits of its name's hash.
    pub fn add_device(&mut self, name: String) -> (r: Result<u32, DeviceRegistrationError>)
        requires
            old(self).wf(),
        ensures
            final(self).wf(),
            !valid_name(name@) ==> r is Err && r->Err_0 is InvalidName,
            valid_name(name@) && (exists|i: int| 0 <= i < old(self).spec_entries().len() && #[trigger] old(self).spec_entries()[i].0 == name@)
                ==> r is Err && r->Err_0 is DuplicateDevice,
            r is Err ==> final(self).spec_entries() == old(self).spec_entries(),
            r matches Err(DeviceRegistrationError::InvalidName(e)) ==> !valid_name(name@) && e@
                == name_error(name@),
            r matches Err(DeviceRegistrationError::DuplicateDevice) ==> valid_name(name@) && (exists|i: int|
                0 <= i < old(self).spec_entries().len() && #[trigger] old(self).spec_entries()[i].0 == name@),
            r matches Err(DeviceRegistrationError::IdsExhausted) ==> {
                &&& valid_name(name@)
                &&& !(exists|i: int|
                    0 <= i < old(self).spec_entries().len() && #[trigger] old(self).spec_entries()[i].0 == name@)
                &&& ids_exhausted_from(old(self).spec_ids(), name_hash(name@) as u32)
            },
            r matches Ok(id) ==> {
                &&& valid_name(name@)
                &&& first_free_id(old(self).spec_ids(), name_hash(name@) as u32, id)
                &&& final(self).spec_entries() == old(self).spec_entries().push((name@, id))
            },
    {
        match validate_name(name.as_str()) {
            Ok(()) => {},
            Err(e) => return Err(DeviceRegistrationError::InvalidName(e)),
        }
        if self.find(name.as_str()).is_some() {
            return Err(DeviceRegistrationError::DuplicateDevice);
        }
        let hash = default_hash(&name);
        let id = match self.generate_device_id(hash) {
            Some(id) => id,
            None => return Err(DeviceRegistrationError::IdsExhausted),
        };
        let ghost before = self.spec_entries();
        let ghost n = name@;
        self.devices.push((name, id));
        assert(self.spec_entries() =~= before.push((n, id)));
        proof {
            assert(self.spec_ids() =~= before.map_values(|e: (Seq<char>, u32)| e.1).push(id));
            assert forall|i: int, j: int| 0 <= i < j < self.spec_entries().len() implies #[trigger] self.spec_entries()[i].0
                != #[trigger] self.spec_entries()[j].0 && self.spec_entries()[i].1 != self.spec_entries()[j].1 by {
                if j == before.len() {
                    assert(before.map_values(|e: (Seq<char>, u32)| e.1)[i] == before[i].1);
                }
            }
        }
        Ok(id)
    }

    /// Removes the device named `name`, handing back its id if it was registered.
    #[verifier::spinoff_prover]
    pub fn remove_device(&mut self, name: &str) -> (r: Option<u32>)
        requires
            old(self).wf(),
        ensures
            final(self).wf(),
            r is None <==> !exists|i: int| 0 <= i < old(self).spec_entries().len() && #[trigger] old(self).spec_entries()[i].0 == name@,
            r is None ==> final(self).spec_entries() == old(self).spec_entries(),
            r matches Some(id) ==> exists|i: int| 0 <= i < old(self).spec_entries().len()
                && old(self).spec_entries()[i] == (name@, id) && final(self).spec_entries()
                == old(self).spec_entries().remove(i),
    {
        let i = match self.find(name) {
            Some(i) => i,
            None => return None,
        };
        let ghost before = self.spec_entries();
        let e = self.devices.remove(i);
        assert(self.spec_entries() =~= before.remove(i as int));
        proof {
            assert forall|a: int, b: int| 0 <= a < b < self.spec_entries().len() implies #[trigger] self.spec_entries()[a].0
                != #[trigger] self.spec_entries()[b].0 && self.spec_entries()[a].1 != self.spec_entries()[b].1 by {
                let a2 = if a < i { a } else { a + 1 };
                let b2 = if b < i { b } else { b + 1 };
                assert(self.spec_entries()[a] == before[a2]);
                assert(self.spec_entries()[b] == before[b2]);
                assert(a2 < b2);
                assert(before == old(self).spec_entries());
                assert(old(self).spec_entries()[a2].0 != old(self).spec_entries()[b2].0);
            }
            assert forall|a: int| 0 <= a < self.spec_entries().len() implies #[trigger] self.spec_entries()[a].1 != OBJECT_ID_NODE by {
                let a2 = if a < i { a } else { a + 1 };
                assert(self.spec_entries()[a] == before[a2]);
            }
        }
        Some(e.1)
    }
}

} // verus!
