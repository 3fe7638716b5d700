//! The event reconciler: folds a batch of daemon events into the
//! aggregator's state.
//!
//! One reconciliation step, driven from outside: fetch the events newer
//! than the watermark; if any completion event names an ID the directory
//! cache lacks, refresh the cache (wholesale) before applying anything;
//! apply the events in order; advance the watermark to the last event's
//! ID (an empty batch leaves it unchanged); then prune rows of devices
//! reported disconnected.  The fetching itself is the caller's: this type
//! only decides and records.

use vstd::prelude::*;

use crate::directory::{DeviceInfo, DirectoryCache, FolderInfo};
use crate::ids::DeviceID;
use crate::events::{EventsResponseData, EventsResponseEntry, COMPLETE_HUNDREDTHS};
use crate::output::{encode_status_json, json_pair_of};
use crate::pending::{spec_apply_complete, spec_apply_upsert, PendingTable};
use crate::render::{render_status, render_tooltip, spec_status_text, spec_tooltip_text};

verus! {

/// One device's connection state as the daemon reports it.
#[derive(Debug)]
pub struct ConnectionStatus {
    pub device: DeviceID,
    pub connected: bool,
}

/// Whether this event names a device or folder ID the cache lacks.
pub open spec fn spec_event_mentions_unknown(e: EventsResponseData, dir: DirectoryCache) -> bool {
    match e {
        EventsResponseData::FolderCompletion { device, folder, .. } => !dir.spec_has_device(
            device@,
        ) || !dir.spec_has_folder(folder@),
        _ => false,
    }
}

/// Whether a batch calls for a directory refresh: some completion event
/// in it references an uncached device or folder ID.
pub open spec fn spec_needs_refresh(datas: Seq<EventsResponseData>, dir: DirectoryCache) -> bool {
    exists|i: int| 0 <= i < datas.len() && spec_event_mentions_unknown(datas[i], dir)
}

/// One event's effect on the pending-table model.
pub open spec fn spec_apply_event(
    m: Map<Seq<char>, Map<Seq<char>, (u64, u64)>>,
    e: EventsResponseData,
) -> Map<Seq<char>, Map<Seq<char>, (u64, u64)>> {
    match e {
        EventsResponseData::DeviceDisconnected { id } => m.remove(id@),
        EventsResponseData::FolderCompletion { completion, need_bytes, device, folder } => {
            if completion.hundredths == COMPLETE_HUNDREDTHS {
                spec_apply_complete(m, device@, folder@)
            } else {
                spec_apply_upsert(m, device@, folder@, completion.hundredths, need_bytes.0)
            }
        },
    }
}

/// A batch's effect on the pending-table model, applied in order.
pub open spec fn spec_apply_batch(
    m: Map<Seq<char>, Map<Seq<char>, (u64, u64)>>,
    datas: Seq<EventsResponseData>,
) -> Map<Seq<char>, Map<Seq<char>, (u64, u64)>>
    decreases datas.len(),
{
    if datas.len() == 0 {
        m
    } else {
        spec_apply_event(spec_apply_batch(m, datas.drop_last()), datas.last())
    }
}

/// The watermark after a batch: the last event's ID, or unchanged if the
/// batch was empty.
pub open spec fn spec_new_watermark(since: u64, batch: Seq<EventsResponseEntry>) -> u64 {
    if batch.len() == 0 {
        since
    } else {
        batch.last().id
    }
}

/// A connection listing's effect on the pending-table model: the row of
/// every device reported not connected is dropped; a device the listing
/// does not mention keeps its row.
pub open spec fn spec_prune(
    m: Map<Seq<char>, Map<Seq<char>, (u64, u64)>>,
    conns: Seq<ConnectionStatus>,
) -> Map<Seq<char>, Map<Seq<char>, (u64, u64)>>
    decreases conns.len(),
{
    if conns.len() == 0 {
        m
    } else {
        let rest = spec_prune(m, conns.drop_last());
        if !conns.last().connected {
            rest.remove(conns.last().device@)
        } else {
            rest
        }
    }
}

/// The aggregator's whole state: directory cache, pending table, watermark.
#[derive(Debug)]
pub struct Runner {
    pub directory: DirectoryCache,
    pub pending: PendingTable,
    pub since: u64,
}

impl Runner {
    /// All keys of the pending table are unique.
    pub open spec fn wf(&self) -> bool {
        self.pending.wf()
    }

    /// Empty state: nothing pending, nothing cached, watermark zero.
    pub fn new() -> (r: Self)
        ensures
            r.wf(),
            r.pending@ == Map::<Seq<char>, Map<Seq<char>, (u64, u64)>>::empty(),
            r.directory.devices@ == Seq::<DeviceInfo>::empty(),
            r.directory.folders@ == Seq::<FolderInfo>::empty(),
            r.since == 0,
    {
        Runner { directory: DirectoryCache::new(), pending: PendingTable::new(), since: 0 }
    }

    /// The last consumed event ID, for the next events request.
    pub fn watermark(&self) -> (r: u64)
        ensures
            r == self.since,
    {
        self.since
    }

    /// The single lookahead scan over a batch: true exactly when some
    /// completion event in it references an uncached device or folder ID.
    pub fn needs_refresh(&self, batch: &Vec<EventsResponseEntry>) -> (r: bool)
        ensures
            r == spec_needs_refresh(
                batch@.map_values(|e: EventsResponseEntry| e.data),
                self.directory,
            ),
    {
        let ghost datas = batch@.map_values(|e: EventsResponseEntry| e.data);
        let mut i: usize = 0;
        while i < batch.len()
            invariant
                i <= batch@.len(),
                datas == batch@.map_values(|e: EventsResponseEntry| e.data),
                forall|k: int|
                    0 <= k < i ==> !spec_event_mentions_unknown(datas[k], self.directory),
            decreases batch@.len() - i,
        {
            match &batch[i].data {
                EventsResponseData::FolderCompletion { device, folder, .. } => {
                    if !self.directory.has_device(device) || !self.directory.has_folder(folder) {
                        proof {
                            assert(spec_event_mentions_unknown(datas[i as int], self.directory));
                        }
                        return true;
                    }
                },
                EventsResponseData::DeviceDisconnected { .. } => {},
            }
            proof {
                assert(datas[i as int] == batch@[i as int].data);
            }
            i = i + 1;
        }
        false
    }

    /// Replace the directory cache wholesale from a fresh configuration.
    pub fn set_directory(&mut self, devices: Vec<DeviceInfo>, folders: Vec<FolderInfo>)
        ensures
            final(self).directory.devices@ == devices@,
            final(self).directory.folders@ == folders@,
            final(self).pending == old(self).pending,
            final(self).since == old(self).since,
    {
        self.directory.replace(devices, folders);
    }

    /// Apply a batch of events in order and advance the watermark.
    pub fn apply_batch(&mut self, batch: &Vec<EventsResponseEntry>)
        requires
            old(self).wf(),
        ensures
            final(self).wf(),
            final(self).pending@ == spec_apply_batch(
                old(self).pending@,
                batch@.map_values(|e: EventsResponseEntry| e.data),
            ),
            final(self).since == spec_new_watermark(old(self).since, batch@),
            final(self).directory == old(self).directory,
    {
        let ghost m0 = self.pending@;
        let ghost datas = batch@.map_values(|e: EventsResponseEntry| e.data);
        let mut i: usize = 0;
        while i < batch.len()
            invariant
                i <= batch@.len(),
                datas == batch@.map_values(|e: EventsResponseEntry| e.data),
                self.wf(),
                self.pending@ == spec_apply_batch(m0, datas.take(i as int)),
                self.since == old(self).since,
                self.directory == old(self).directory,
            decreases batch@.len() - i,
        {
            match &batch[i].data {
                EventsResponseData::FolderCompletion { completion, need_bytes, device, folder } => {
                    if completion.is_complete() {
                        self.pending.complete_folder(device, folder);
                    } else {
                        self.pending.upsert_folder(device, folder, *completion, *need_bytes);
                    }
                },
                EventsResponseData::DeviceDisconnected { id } => {
                    self.pending.remove_device(id);
                },
            }
            proof {
                assert(datas.take(i as int + 1).drop_last() =~= datas.take(i as int));
                assert(datas.take(i as int + 1).last() == datas[i as int]);
                assert(datas[i as int] == batch@[i as int].data);
            }
            i = i + 1;
        }
        proof {
            assert(datas.take(batch@.len() as int) =~= datas);
        }
        if batch.len() > 0 {
            self.since = batch[batch.len() - 1].id;
        }
    }

    /// Cross-check against live connection state: drop the row of every
    /// device reported not connected; leave unmentioned devices alone.
    pub fn prune(&mut self, connections: &Vec<ConnectionStatus>)
        requires
            old(self).wf(),
        ensures
            final(self).wf(),
            final(self).pending@ == spec_prune(old(self).pending@, connections@),
            final(self).since == old(self).since,
            final(self).directory == old(self).directory,
    {
        let ghost m0 = self.pending@;
        let mut i: usize = 0;
        while i < connections.len()
            invariant
                i <= connections@.len(),
                self.wf(),
                self.pending@ == spec_prune(m0, connections@.take(i as int)),
                self.since == old(self).since,
                self.directory == old(self).directory,
            decreases connections@.len() - i,
        {
            if !connections[i].connected {
                self.pending.remove_device(&connections[i].device);
            }
            proof {
                assert(connections@.take(i as int + 1).drop_last() =~= connections@.take(
                    i as int,
                ));
                assert(connections@.take(i as int + 1).last() == connections@[i as int]);
            }
            i = i + 1;
        }
        proof {
            assert(connections@.take(connections@.len() as int) =~= connections@);
        }
    }

    /// The JSON line rendered from the current state: the compact status
    /// text and the multi-line tooltip, as a two-field object.
    pub fn status_line(&self) -> (r: String)
        ensures
            r@ == json_pair_of(
                spec_status_text(self.pending.rows@),
                spec_tooltip_text(self.directory, self.pending.rows@),
            ),
    {
        let text = render_status(&self.pending);
        let tooltip = render_tooltip(&self.directory, &self.pending);
        encode_status_json(text.as_str(), tooltip.as_str())
    }
}

} // verus!
