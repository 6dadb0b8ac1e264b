//! The table of loaded resources, keyed by resource id.

use vstd::prelude::*;
use std::collections::HashMap;

verus! {

broadcast use vstd::std_specs::hash::group_hash_axioms;

/// Where a resource's bytes came from.
#[derive(Debug, Clone, Copy, PartialEq, Eq, Structural)]
pub enum ResourceMode {
    Disk,
    Memory,
}

/// A loaded resource.
pub struct ResourceHandle {
    pub file_path: Option<String>,
    pub data: Option<Vec<u8>>,
    pub mode: ResourceMode,
    pub decomp_param: u16,
}

/// The loaded resources by id.
pub struct ResourceManager {
    resources: HashMap<u16, ResourceHandle>,
}

impl View for ResourceManager {
    type V = Map<u16, ResourceHandle>;

    closed spec fn view(&self) -> Map<u16, ResourceHandle> {
        self.resources@
    }
}

/// The handle of a resource read from the file at `path` with contents
/// `data`.
pub open spec fn disk_handle(h: ResourceHandle, path: Seq<char>, data: Seq<u8>) -> bool {
    &&& h.file_path matches Some(p) && p@ == path
    &&& h.data matches Some(d) && d@ == data
    &&& h.mode == ResourceMode::Disk
    &&& h.decomp_param == 0
}

impl Default for ResourceManager {
    fn default() -> (r: Self)
        ensures
            r@ == Map::<u16, ResourceHandle>::empty(),
    {
        ResourceManager { resources: HashMap::new() }
    }
}

impl ResourceManager {
    /// An empty table.
    pub fn new() -> (r: Self)
        ensures
            r@ == Map::<u16, ResourceHandle>::empty(),
    {
        Self::default()
    }

    /// Records resource `id` as read from the file at `path`: `read` holds
    /// the file's bytes, or `None` when it could not be read, in which case
    /// the table is unchanged and the result is false.
    pub fn load(&mut self, id: u16, path: &str, read: Option<Vec<u8>>) -> (r: bool)
        ensures
            r == read is Some,
            read is None ==> final(self)@ == old(self)@,
            read matches Some(d) ==> {
                &&& final(self)@.dom() == old(self)@.dom().insert(id)
                &&& forall|k: u16| k != id && old(self)@.contains_key(k) ==> #[trigger] final(self)@[k]
                    == old(self)@[k]
                &&& disk_handle(final(self)@[id], path@, d@)
            },
    {
        match read {
            Some(data) => {
                let ghost d = data@;
                self.resources.insert(
                    id,
                    ResourceHandle {
                        file_path: Some(path.to_owned()),
                        data: Some(data),
                        mode: ResourceMode::Disk,
                        decomp_param: 0,
                    },
                );
                true
            },
            None => false,
        }
    }

    /// The resource with id `id`, if loaded.
    pub fn get(&self, id: u16) -> (r: Option<&ResourceHandle>)
        ensures
            r == (if self@.contains_key(id) {
                Some(&self@[id])
            } else {
                None
            }),
    {
        self.resources.get(&id)
    }

    /// Drops resource `id` from the table.
    pub fn release(&mut self, id: u16)
        ensures
            final(self)@ == old(self)@.remove(id),
    {
        self.resources.remove(&id);
    }
}

} // verus!
