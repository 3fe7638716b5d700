//! The directory cache: display names for device and folder IDs.
//!
//! Both listings are replaced wholesale from the daemon's configuration,
//! never merged, and may be stale between refreshes; staleness only
//! affects display names.  Lookups never fail: an ID without a cached
//! name displays as its own raw string.  When a listing repeats an ID,
//! the last occurrence wins.

use vstd::prelude::*;

use crate::ids::{DeviceID, DeviceName, FolderID, FolderName};

verus! {

/// One device of the daemon's configuration: its ID and display name.
#[derive(Debug)]
pub struct DeviceInfo {
    pub device_id: DeviceID,
    pub name: DeviceName,
}

/// One folder of the daemon's configuration: its ID and display label.
#[derive(Debug)]
pub struct FolderInfo {
    pub id: FolderID,
    pub label: FolderName,
}

/// The cached device and folder listings.
#[derive(Debug)]
pub struct DirectoryCache {
    pub devices: Vec<DeviceInfo>,
    pub folders: Vec<FolderInfo>,
}

/// The name of the last listed device with this ID, if any.
pub open spec fn spec_device_lookup(s: Seq<DeviceInfo>, id: Seq<char>) -> Option<Seq<char>>
    decreases s.len(),
{
    if s.len() == 0 {
        None
    } else if s.last().device_id@ == id {
        Some(s.last().name@)
    } else {
        spec_device_lookup(s.drop_last(), id)
    }
}

/// The label of the last listed folder with this ID, if any.
pub open spec fn spec_folder_lookup(s: Seq<FolderInfo>, id: Seq<char>) -> Option<Seq<char>>
    decreases s.len(),
{
    if s.len() == 0 {
        None
    } else if s.last().id@ == id {
        Some(s.last().label@)
    } else {
        spec_folder_lookup(s.drop_last(), id)
    }
}

/// A device ID has a cached name exactly when some listing entry bears it.
pub proof fn lemma_device_lookup_found(s: Seq<DeviceInfo>, id: Seq<char>)
    ensures
        spec_device_lookup(s, id) is Some <==> exists|i: int|
            0 <= i < s.len() && s[i].device_id@ == id,
    decreases s.len(),
{
    if s.len() > 0 {
        lemma_device_lookup_found(s.drop_last(), id);
        if s.last().device_id@ == id {
            assert(s[s.len() - 1].device_id@ == id);
        } else {
            if exists|i: int| 0 <= i < s.len() - 1 && s.drop_last()[i].device_id@ == id {
                let i = choose|i: int|
                    0 <= i < s.len() - 1 && s.drop_last()[i].device_id@ == id;
                assert(s[i].device_id@ == id);
            }
            if exists|i: int| 0 <= i < s.len() && s[i].device_id@ == id {
                let i = choose|i: int| 0 <= i < s.len() && s[i].device_id@ == id;
                assert(i < s.len() - 1);
                assert(s.drop_last()[i].device_id@ == id);
            }
        }
    }
}

/// A folder ID has a cached label exactly when some listing entry bears it.
pub proof fn lemma_folder_lookup_found(s: Seq<FolderInfo>, id: Seq<char>)
    ensures
        spec_folder_lookup(s, id) is Some <==> exists|i: int|
            0 <= i < s.len() && s[i].id@ == id,
    decreases s.len(),
{
    if s.len() > 0 {
        lemma_folder_lookup_found(s.drop_last(), id);
        if s.last().id@ == id {
            assert(s[s.len() - 1].id@ == id);
        } else {
            if exists|i: int| 0 <= i < s.len() - 1 && s.drop_last()[i].id@ == id {
                let i = choose|i: int| 0 <= i < s.len() - 1 && s.drop_last()[i].id@ == id;
                assert(s[i].id@ == id);
            }
            if exists|i: int| 0 <= i < s.len() && s[i].id@ == id {
                let i = choose|i: int| 0 <= i < s.len() && s[i].id@ == id;
                assert(i < s.len() - 1);
                assert(s.drop_last()[i].id@ == id);
            }
        }
    }
}

impl DirectoryCache {
    /// Whether the cache knows this device ID.
    pub open spec fn spec_has_device(&self, id: Seq<char>) -> bool {
        spec_device_lookup(self.devices@, id) is Some
    }

    /// Whether the cache knows this folder ID.
    pub open spec fn spec_has_folder(&self, id: Seq<char>) -> bool {
        spec_folder_lookup(self.folders@, id) is Some
    }

    /// The string a device ID displays as: its cached name, else itself.
    pub open spec fn spec_device_display(&self, id: Seq<char>) -> Seq<char> {
        match spec_device_lookup(self.devices@, id) {
            Some(name) => name,
            None => id,
        }
    }

    /// The string a folder ID displays as: its cached label, else itself.
    pub open spec fn spec_folder_display(&self, id: Seq<char>) -> Seq<char> {
        match spec_folder_lookup(self.folders@, id) {
            Some(label) => label,
            None => id,
        }
    }

    pub fn new() -> (r: Self)
        ensures
            r.devices@ =~= Seq::<DeviceInfo>::empty(),
            r.folders@ =~= Seq::<FolderInfo>::empty(),
    {
        DirectoryCache { devices: Vec::new(), folders: Vec::new() }
    }

    /// Replace both listings wholesale; nothing of the old content stays.
    pub fn replace(&mut self, devices: Vec<DeviceInfo>, folders: Vec<FolderInfo>)
        ensures
            final(self).devices@ == devices@,
            final(self).folders@ == folders@,
    {
        self.devices = devices;
        self.folders = folders;
    }

    fn device_lookup(&self, id: &DeviceID) -> (r: Option<String>)
        ensures
            match r {
                Some(name) => spec_device_lookup(self.devices@, id@) == Some(name@),
                None => spec_device_lookup(self.devices@, id@) is None,
            },
    {
        let s = &self.devices;
        let mut i = s.len();
        proof {
            assert(s@.take(s@.len() as int) =~= s@);
        }
        while i > 0
            invariant
                i <= s@.len(),
                s@ == self.devices@,
                spec_device_lookup(s@, id@) == spec_device_lookup(s@.take(i as int), id@),
            decreases i,
        {
            i = i - 1;
            proof {
                assert(s@.take(i as int + 1).drop_last() =~= s@.take(i as int));
                assert(s@.take(i as int + 1).last() == s@[i as int]);
            }
            if s[i].device_id.same(id) {
                proof {
                    assert(spec_device_lookup(s@.take(i as int + 1), id@) == Some(
                        s@[i as int].name@,
                    ));
                }
                let name = s[i].name.clone();
                return Some(name.0);
            }
        }
        proof {
            assert(s@.take(0) =~= Seq::<DeviceInfo>::empty());
        }
        None
    }

    fn folder_lookup(&self, id: &FolderID) -> (r: Option<String>)
        ensures
            match r {
                Some(label) => spec_folder_lookup(self.folders@, id@) == Some(label@),
                None => spec_folder_lookup(self.folders@, id@) is None,
            },
    {
        let s = &self.folders;
        let mut i = s.len();
        proof {
            assert(s@.take(s@.len() as int) =~= s@);
        }
        while i > 0
            invariant
                i <= s@.len(),
                s@ == self.folders@,
                spec_folder_lookup(s@, id@) == spec_folder_lookup(s@.take(i as int), id@),
            decreases i,
        {
            i = i - 1;
            proof {
                assert(s@.take(i as int + 1).drop_last() =~= s@.take(i as int));
                assert(s@.take(i as int + 1).last() == s@[i as int]);
            }
            if s[i].id.same(id) {
                proof {
                    assert(spec_folder_lookup(s@.take(i as int + 1), id@) == Some(
                        s@[i as int].label@,
                    ));
                }
                let label = s[i].label.clone();
                return Some(label.0);
            }
        }
        proof {
            assert(s@.take(0) =~= Seq::<FolderInfo>::empty());
        }
        None
    }

    /// Whether the cache knows this device ID.
    pub fn has_device(&self, id: &DeviceID) -> (r: bool)
        ensures
            r == self.spec_has_device(id@),
    {
        self.device_lookup(id).is_some()
    }

    /// Whether the cache knows this folder ID.
    pub fn has_folder(&self, id: &FolderID) -> (r: bool)
        ensures
            r == self.spec_has_folder(id@),
    {
        self.folder_lookup(id).is_some()
    }

    /// The string a device ID displays as: its cached name, else itself.
    pub fn device_display(&self, id: &DeviceID) -> (r: String)
        ensures
            r@ == self.spec_device_display(id@),
    {
        match self.device_lookup(id) {
            Some(name) => name,
            None => String::from_str(id.as_str()),
        }
    }

    /// The string a folder ID displays as: its cached label, else itself.
    pub fn folder_display(&self, id: &FolderID) -> (r: String)
        ensures
            r@ == self.spec_folder_display(id@),
    {
        match self.folder_lookup(id) {
            Some(label) => label,
            None => String::from_str(id.as_str()),
        }
    }
}

} // verus!
