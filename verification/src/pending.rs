//! The pending-transfer table: for each device, the folders currently
//! syncing to it, with completion and outstanding bytes.
//!
//! The table is a list of device rows, each a list of folder entries, with
//! all keys unique.  Its mathematical model is a map from device ID to a
//! map from folder ID to `(completion hundredths, outstanding bytes)`; the
//! list order only fixes the (otherwise unspecified) rendering order.
//!
//! A row may be empty: removing a device's last pending folder keeps the
//! row, recording only that the device was seen.  Rows disappear only on
//! disconnection or pruning.

use vstd::prelude::*;

use crate::events::{NeedBytes, ProgressPct};
use crate::ids::{DeviceID, FolderID};

verus! {

/// Progress and outstanding bytes for one folder of one device's row.
#[derive(Debug)]
pub struct FolderEntry {
    pub folder: FolderID,
    pub completion: ProgressPct,
    pub need_bytes: NeedBytes,
}

/// One device's row: the folders currently syncing to that device.
#[derive(Debug)]
pub struct DeviceRow {
    pub device: DeviceID,
    pub folders: Vec<FolderEntry>,
}

/// The whole pending-transfer table.
#[derive(Debug)]
pub struct PendingTable {
    pub rows: Vec<DeviceRow>,
}

/// What the model records of one folder entry.
pub open spec fn spec_folder_value(e: FolderEntry) -> (u64, u64) {
    (e.completion.hundredths, e.need_bytes.0)
}

/// A folder-entry list as a map from folder ID to its value.
pub open spec fn spec_folders_model(s: Seq<FolderEntry>) -> Map<Seq<char>, (u64, u64)>
    decreases s.len(),
{
    if s.len() == 0 {
        Map::empty()
    } else {
        spec_folders_model(s.drop_last()).insert(
            s.last().folder@,
            spec_folder_value(s.last()),
        )
    }
}

/// A row list as a map from device ID to that row's folder map.
pub open spec fn spec_rows_model(s: Seq<DeviceRow>) -> Map<
    Seq<char>,
    Map<Seq<char>, (u64, u64)>,
>
    decreases s.len(),
{
    if s.len() == 0 {
        Map::empty()
    } else {
        spec_rows_model(s.drop_last()).insert(
            s.last().device@,
            spec_folders_model(s.last().folders@),
        )
    }
}

/// Folder keys within a row are unique.
pub open spec fn spec_folders_wf(s: Seq<FolderEntry>) -> bool {
    forall|i: int, j: int| 0 <= i < j < s.len() ==> s[i].folder@ != s[j].folder@
}

/// Device keys are unique and every row is well formed.
pub open spec fn spec_rows_wf(s: Seq<DeviceRow>) -> bool {
    &&& forall|i: int, j: int| 0 <= i < j < s.len() ==> s[i].device@ != s[j].device@
    &&& forall|i: int| 0 <= i < s.len() ==> spec_folders_wf(s[i].folders@)
}

pub proof fn lemma_folders_model_contains(s: Seq<FolderEntry>, k: Seq<char>)
    ensures
        spec_folders_model(s).contains_key(k) <==> exists|i: int|
            0 <= i < s.len() && s[i].folder@ == k,
    decreases s.len(),
{
    if s.len() > 0 {
        lemma_folders_model_contains(s.drop_last(), k);
        if s.last().folder@ == k {
            assert(s[s.len() - 1].folder@ == k);
        } else if spec_folders_model(s.drop_last()).contains_key(k) {
            let i = choose|i: int| 0 <= i < s.len() - 1 && s.drop_last()[i].folder@ == k;
            assert(s[i].folder@ == k);
        } else {
            if exists|i: int| 0 <= i < s.len() && s[i].folder@ == k {
                let i = choose|i: int| 0 <= i < s.len() && s[i].folder@ == k;
                assert(i < s.len() - 1);
                assert(s.drop_last()[i].folder@ == k);
            }
        }
    }
}

pub proof fn lemma_rows_model_contains(s: Seq<DeviceRow>, k: Seq<char>)
    ensures
        spec_rows_model(s).contains_key(k) <==> exists|i: int|
            0 <= i < s.len() && s[i].device@ == k,
    decreases s.len(),
{
    if s.len() > 0 {
        lemma_rows_model_contains(s.drop_last(), k);
        if s.last().device@ == k {
            assert(s[s.len() - 1].device@ == k);
        } else if spec_rows_model(s.drop_last()).contains_key(k) {
            let i = choose|i: int| 0 <= i < s.len() - 1 && s.drop_last()[i].device@ == k;
            assert(s[i].device@ == k);
        } else {
            if exists|i: int| 0 <= i < s.len() && s[i].device@ == k {
                let i = choose|i: int| 0 <= i < s.len() && s[i].device@ == k;
                assert(i < s.len() - 1);
                assert(s.drop_last()[i].device@ == k);
            }
        }
    }
}

pub proof fn lemma_folders_model_index(s: Seq<FolderEntry>, i: int)
    requires
        spec_folders_wf(s),
        0 <= i < s.len(),
    ensures
        spec_folders_model(s).contains_key(s[i].folder@),
        spec_folders_model(s)[s[i].folder@] == spec_folder_value(s[i]),
    decreases s.len(),
{
    if i < s.len() - 1 {
        assert(spec_folders_wf(s.drop_last()));
        lemma_folders_model_index(s.drop_last(), i);
        assert(s[i].folder@ != s.last().folder@);
    }
}

pub proof fn lemma_rows_model_index(s: Seq<DeviceRow>, i: int)
    requires
        spec_rows_wf(s),
        0 <= i < s.len(),
    ensures
        spec_rows_model(s).contains_key(s[i].device@),
        spec_rows_model(s)[s[i].device@] == spec_folders_model(s[i].folders@),
    decreases s.len(),
{
    if i < s.len() - 1 {
        assert(spec_rows_wf(s.drop_last()));
        lemma_rows_model_index(s.drop_last(), i);
        assert(s[i].device@ != s.last().device@);
    }
}

pub proof fn lemma_folders_model_update(s: Seq<FolderEntry>, i: int, e: FolderEntry)
    requires
        spec_folders_wf(s),
        0 <= i < s.len(),
        e.folder@ == s[i].folder@,
    ensures
        spec_folders_model(s.update(i, e)) == spec_folders_model(s).insert(
            e.folder@,
            spec_folder_value(e),
        ),
        spec_folders_wf(s.update(i, e)),
    decreases s.len(),
{
    let t = s.update(i, e);
    if i == s.len() - 1 {
        assert(t.drop_last() =~= s.drop_last());
        assert(spec_folders_model(t) =~= spec_folders_model(s).insert(
            e.folder@,
            spec_folder_value(e),
        ));
    } else {
        assert(spec_folders_wf(s.drop_last()));
        lemma_folders_model_update(s.drop_last(), i, e);
        assert(t.drop_last() =~= s.drop_last().update(i, e));
        assert(t.last() == s.last());
        assert(e.folder@ != s.last().folder@);
        assert(spec_folders_model(t) =~= spec_folders_model(s).insert(
            e.folder@,
            spec_folder_value(e),
        ));
    }
}

pub proof fn lemma_rows_model_update(s: Seq<DeviceRow>, i: int, r: DeviceRow)
    requires
        spec_rows_wf(s),
        0 <= i < s.len(),
        r.device@ == s[i].device@,
        spec_folders_wf(r.folders@),
    ensures
        spec_rows_model(s.update(i, r)) == spec_rows_model(s).insert(
            r.device@,
            spec_folders_model(r.folders@),
        ),
        spec_rows_wf(s.update(i, r)),
    decreases s.len(),
{
    let t = s.update(i, r);
    if i == s.len() - 1 {
        assert(t.drop_last() =~= s.drop_last());
        assert(spec_rows_model(t) =~= spec_rows_model(s).insert(
            r.device@,
            spec_folders_model(r.folders@),
        ));
    } else {
        assert(spec_rows_wf(s.drop_last()));
        lemma_rows_model_update(s.drop_last(), i, r);
        assert(t.drop_last() =~= s.drop_last().update(i, r));
        assert(t.last() == s.last());
        assert(r.device@ != s.last().device@);
        assert(spec_rows_model(t) =~= spec_rows_model(s).insert(
            r.device@,
            spec_folders_model(r.folders@),
        ));
    }
}

pub proof fn lemma_folders_model_remove(s: Seq<FolderEntry>, i: int)
    requires
        spec_folders_wf(s),
        0 <= i < s.len(),
    ensures
        spec_folders_model(s.remove(i)) == spec_folders_model(s).remove(s[i].folder@),
        spec_folders_wf(s.remove(i)),
    decreases s.len(),
{
    let t = s.remove(i);
    let k = s[i].folder@;
    if i == s.len() - 1 {
        assert(t =~= s.drop_last());
        assert(spec_folders_wf(s.drop_last()));
        lemma_folders_model_contains(s.drop_last(), k);
        assert(!spec_folders_model(s.drop_last()).contains_key(k));
        assert(spec_folders_model(t) =~= spec_folders_model(s).remove(k));
    } else {
        assert(spec_folders_wf(s.drop_last()));
        lemma_folders_model_remove(s.drop_last(), i);
        assert(t.drop_last() =~= s.drop_last().remove(i));
        assert(t.last() == s.last());
        assert(k != s.last().folder@);
        assert(spec_folders_model(t) =~= spec_folders_model(s).remove(k));
    }
}

pub proof fn lemma_rows_model_remove(s: Seq<DeviceRow>, i: int)
    requires
        spec_rows_wf(s),
        0 <= i < s.len(),
    ensures
        spec_rows_model(s.remove(i)) == spec_rows_model(s).remove(s[i].device@),
        spec_rows_wf(s.remove(i)),
    decreases s.len(),
{
    let t = s.remove(i);
    let k = s[i].device@;
    if i == s.len() - 1 {
        assert(t =~= s.drop_last());
        assert(spec_rows_wf(s.drop_last()));
        lemma_rows_model_contains(s.drop_last(), k);
        assert(!spec_rows_model(s.drop_last()).contains_key(k));
        assert(spec_rows_model(t) =~= spec_rows_model(s).remove(k));
    } else {
        assert(spec_rows_wf(s.drop_last()));
        lemma_rows_model_remove(s.drop_last(), i);
        assert(t.drop_last() =~= s.drop_last().remove(i));
        assert(t.last() == s.last());
        assert(k != s.last().device@);
        assert(spec_rows_model(t) =~= spec_rows_model(s).remove(k));
    }
}

/// Completing a folder at exactly 100% on a table model: drop that folder
/// from the device's row if the row exists; never drop the row itself.
pub open spec fn spec_apply_complete(
    m: Map<Seq<char>, Map<Seq<char>, (u64, u64)>>,
    d: Seq<char>,
    f: Seq<char>,
) -> Map<Seq<char>, Map<Seq<char>, (u64, u64)>> {
    if m.contains_key(d) {
        m.insert(d, m[d].remove(f))
    } else {
        m
    }
}

/// Recording partial progress on a table model: insert or overwrite the
/// folder's value, creating the device's row if absent.
pub open spec fn spec_apply_upsert(
    m: Map<Seq<char>, Map<Seq<char>, (u64, u64)>>,
    d: Seq<char>,
    f: Seq<char>,
    c: u64,
    b: u64,
) -> Map<Seq<char>, Map<Seq<char>, (u64, u64)>> {
    let row = if m.contains_key(d) {
        m[d]
    } else {
        Map::empty()
    };
    m.insert(d, row.insert(f, (c, b)))
}

fn find_folder(folders: &Vec<FolderEntry>, f: &FolderID) -> (r: Option<usize>)
    ensures
        match r {
            Some(j) => j < folders@.len() && folders@[j as int].folder@ == f@,
            None => forall|j: int| 0 <= j < folders@.len() ==> folders@[j].folder@ != f@,
        },
{
    let mut j: usize = 0;
    while j < folders.len()
        invariant
            j <= folders@.len(),
            forall|k: int| 0 <= k < j ==> folders@[k].folder@ != f@,
        decreases folders@.len() - j,
    {
        if folders[j].folder.same(f) {
            return Some(j);
        }
        j = j + 1;
    }
    None
}

impl PendingTable {
    /// The table as a map from device ID to its folder map.
    pub open spec fn view(&self) -> Map<Seq<char>, Map<Seq<char>, (u64, u64)>> {
        spec_rows_model(self.rows@)
    }

    /// All keys in the table are unique.
    pub open spec fn wf(&self) -> bool {
        spec_rows_wf(self.rows@)
    }

    pub fn new() -> (r: Self)
        ensures
            r@ == Map::<Seq<char>, Map<Seq<char>, (u64, u64)>>::empty(),
            r.wf(),
    {
        PendingTable { rows: Vec::new() }
    }

    fn find_row(&self, d: &DeviceID) -> (r: Option<usize>)
        ensures
            match r {
                Some(i) => i < self.rows@.len() && self.rows@[i as int].device@ == d@,
                None => forall|i: int| 0 <= i < self.rows@.len() ==> self.rows@[i].device@ != d@,
            },
    {
        let mut i: usize = 0;
        while i < self.rows.len()
            invariant
                i <= self.rows@.len(),
                forall|k: int| 0 <= k < i ==> self.rows@[k].device@ != d@,
            decreases self.rows@.len() - i,
        {
            if self.rows[i].device.same(d) {
                return Some(i);
            }
            i = i + 1;
        }
        None
    }

    /// Whether the table has a row for this device (the row may be empty).
    pub fn contains_device(&self, d: &DeviceID) -> (r: bool)
        ensures
            r == self@.contains_key(d@),
    {
        proof {
            lemma_rows_model_contains(self.rows@, d@);
        }
        self.find_row(d).is_some()
    }

    /// A folder reached exactly 100%: drop its entry from the device's
    /// row, if both exist.  The row itself stays, possibly empty.
    pub fn complete_folder(&mut self, d: &DeviceID, f: &FolderID)
        requires
            old(self).wf(),
        ensures
            final(self).wf(),
            final(self)@ == spec_apply_complete(old(self)@, d@, f@),
    {
        proof {
            lemma_rows_model_contains(self.rows@, d@);
        }
        match self.find_row(d) {
            None => {},
            Some(i) => {
                let ghost rows0 = self.rows@;
                let mut row = self.rows.remove(i);
                proof {
                    lemma_rows_model_index(rows0, i as int);
                    lemma_folders_model_contains(row.folders@, f@);
                }
                match find_folder(&row.folders, f) {
                    None => {
                        proof {
                            assert(spec_folders_model(row.folders@).remove(f@)
                                =~= spec_folders_model(row.folders@));
                        }
                    },
                    Some(j) => {
                        proof {
                            lemma_folders_model_remove(row.folders@, j as int);
                        }
                        row.folders.remove(j);
                    },
                }
                self.rows.insert(i, row);
                proof {
                    assert(self.rows@ =~= rows0.update(i as int, self.rows@[i as int]));
                    lemma_rows_model_update(rows0, i as int, self.rows@[i as int]);
                    assert(spec_rows_model(self.rows@) =~= spec_apply_complete(
                        spec_rows_model(rows0),
                        d@,
                        f@,
                    ));
                }
            },
        }
    }

    /// A folder reported partial progress: insert or overwrite its entry,
    /// creating the device's row if it was absent.
    pub fn upsert_folder(
        &mut self,
        d: &DeviceID,
        f: &FolderID,
        completion: ProgressPct,
        need_bytes: NeedBytes,
    )
        requires
            old(self).wf(),
        ensures
            final(self).wf(),
            final(self)@ == spec_apply_upsert(
                old(self)@,
                d@,
                f@,
                completion.hundredths,
                need_bytes.0,
            ),
    {
        proof {
            lemma_rows_model_contains(self.rows@, d@);
        }
        let entry = FolderEntry { folder: f.clone(), completion, need_bytes };
        match self.find_row(d) {
            None => {
                let ghost rows0 = self.rows@;
                let mut folders: Vec<FolderEntry> = Vec::new();
                folders.push(entry);
                let row = DeviceRow { device: d.clone(), folders };
                self.rows.push(row);
                proof {
                    assert(self.rows@.drop_last() =~= rows0);
                    assert(self.rows@.last().folders@.len() == 1);
                    assert(self.rows@.last().folders@.drop_last() =~= Seq::<
                        FolderEntry,
                    >::empty());
                    assert(self.rows@.last().folders@.last().folder@ == f@);
                    assert(spec_folders_model(Seq::<FolderEntry>::empty()) =~= Map::<
                        Seq<char>,
                        (u64, u64),
                    >::empty());
                    assert(spec_folders_model(self.rows@.last().folders@)
                        =~= Map::<Seq<char>, (u64, u64)>::empty().insert(
                        f@,
                        (completion.hundredths, need_bytes.0),
                    ));
                    assert(spec_rows_model(self.rows@) =~= spec_apply_upsert(
                        spec_rows_model(rows0),
                        d@,
                        f@,
                        completion.hundredths,
                        need_bytes.0,
                    ));
                }
            },
            Some(i) => {
                let ghost rows0 = self.rows@;
                let mut row = self.rows.remove(i);
                proof {
                    lemma_rows_model_index(rows0, i as int);
                    lemma_folders_model_contains(row.folders@, f@);
                }
                match find_folder(&row.folders, f) {
                    None => {
                        let ghost folders0 = row.folders@;
                        row.folders.push(entry);
                        proof {
                            assert(row.folders@.drop_last() =~= folders0);
                        }
                    },
                    Some(j) => {
                        proof {
                            lemma_folders_model_update(row.folders@, j as int, entry);
                        }
                        row.folders[j] = entry;
                    },
                }
                self.rows.insert(i, row);
                proof {
                    assert(self.rows@ =~= rows0.update(i as int, self.rows@[i as int]));
                    lemma_rows_model_update(rows0, i as int, self.rows@[i as int]);
                    assert(spec_rows_model(self.rows@) =~= spec_apply_upsert(
                        spec_rows_model(rows0),
                        d@,
                        f@,
                        completion.hundredths,
                        need_bytes.0,
                    ));
                }
            },
        }
    }

    /// The device disconnected or was pruned: drop its whole row.
    pub fn remove_device(&mut self, d: &DeviceID)
        requires
            old(self).wf(),
        ensures
            final(self).wf(),
            final(self)@ == old(self)@.remove(d@),
    {
        proof {
            lemma_rows_model_contains(self.rows@, d@);
        }
        match self.find_row(d) {
            None => {
                proof {
                    assert(spec_rows_model(self.rows@).remove(d@) =~= spec_rows_model(
                        self.rows@,
                    ));
                }
            },
            Some(i) => {
                proof {
                    lemma_rows_model_remove(self.rows@, i as int);
                }
                self.rows.remove(i);
            },
        }
    }
}

} // verus!
