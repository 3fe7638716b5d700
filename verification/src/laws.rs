//! Properties of the reconciliation step, stated over the pending-table
//! model and proved once and for all.

use vstd::prelude::*;

use crate::directory::{
    lemma_device_lookup_found, lemma_folder_lookup_found, DirectoryCache,
};
use crate::events::{EventsResponseData, NeedBytes, ProgressPct, COMPLETE_HUNDREDTHS};
use crate::ids::DeviceID;
use crate::ids::FolderID;
use crate::runner::{
    spec_apply_batch, spec_apply_event, spec_event_mentions_unknown, spec_needs_refresh,
    spec_new_watermark, spec_prune, ConnectionStatus,
};

verus! {

/// A completion event at exactly 100% for a currently pending
/// (device, folder) pair removes exactly that folder entry: the set of
/// device rows is unchanged, every other folder entry of that device is
/// unchanged, and every other device's row is unchanged.
pub proof fn lemma_completion_removes_exactly(
    m: Map<Seq<char>, Map<Seq<char>, (u64, u64)>>,
    completion: ProgressPct,
    need_bytes: NeedBytes,
    device: DeviceID,
    folder: FolderID,
)
    requires
        completion.hundredths == COMPLETE_HUNDREDTHS,
        m.contains_key(device@),
        m[device@].contains_key(folder@),
    ensures
        ({
            let m2 = spec_apply_event(
                m,
                EventsResponseData::FolderCompletion { completion, need_bytes, device, folder },
            );
            &&& m2.dom() == m.dom()
            &&& !m2[device@].contains_key(folder@)
            &&& forall|f2: Seq<char>| #![auto]
                f2 != folder@ ==> m2[device@].contains_key(f2) == m[device@].contains_key(f2)
            &&& forall|f2: Seq<char>| #![auto]
                f2 != folder@ && m[device@].contains_key(f2) ==> m2[device@][f2]
                    == m[device@][f2]
            &&& forall|d2: Seq<char>| #![auto]
                d2 != device@ && m.contains_key(d2) ==> m2[d2] == m[d2]
        }),
{
    let m2 = spec_apply_event(
        m,
        EventsResponseData::FolderCompletion { completion, need_bytes, device, folder },
    );
    assert(m2.dom() =~= m.dom());
}

/// A disconnection event removes the device's entire row, with all its
/// folder entries, even ones the same batch had just updated: after any
/// batch that ends with `DeviceDisconnected`, the table has no row for
/// that device, and every other device's row is what the batch without
/// the final event left it.
pub proof fn lemma_disconnect_removes_row(
    m: Map<Seq<char>, Map<Seq<char>, (u64, u64)>>,
    batch: Seq<EventsResponseData>,
    id: DeviceID,
)
    ensures
        ({
            let closing = batch.push(EventsResponseData::DeviceDisconnected { id });
            let m2 = spec_apply_batch(m, closing);
            &&& !m2.contains_key(id@)
            &&& m2 == spec_apply_batch(m, batch).remove(id@)
            &&& forall|d2: Seq<char>| #![auto]
                d2 != id@ && spec_apply_batch(m, batch).contains_key(d2) ==> m2.contains_key(d2)
                    && m2[d2] == spec_apply_batch(m, batch)[d2]
        }),
{
    let closing = batch.push(EventsResponseData::DeviceDisconnected { id });
    assert(closing.drop_last() =~= batch);
    assert(closing.last() == EventsResponseData::DeviceDisconnected { id });
}

/// Reconciling an empty batch is a no-op: the table model and the
/// watermark are both left exactly as they were.
pub proof fn lemma_empty_batch_is_noop(
    m: Map<Seq<char>, Map<Seq<char>, (u64, u64)>>,
    since: u64,
)
    ensures
        spec_apply_batch(m, Seq::<EventsResponseData>::empty()) == m,
        spec_new_watermark(since, Seq::empty()) == since,
{
}

/// The watermark after a non-empty batch is the last event's ID, whatever
/// the previous watermark was; after an empty batch it is unchanged.
pub proof fn lemma_watermark_advance(
    since: u64,
    batch: Seq<crate::events::EventsResponseEntry>,
)
    ensures
        batch.len() > 0 ==> spec_new_watermark(since, batch) == batch.last().id,
        batch.len() == 0 ==> spec_new_watermark(since, batch) == since,
{
}

/// A directory refresh is called for exactly when the batch holds a
/// completion event naming an uncached device or folder ID; in
/// particular, a batch all of whose completion events name cached IDs
/// triggers none.
pub proof fn lemma_no_refresh_when_known(datas: Seq<EventsResponseData>, dir: DirectoryCache)
    requires
        forall|i: int| 0 <= i < datas.len() ==> !spec_event_mentions_unknown(datas[i], dir),
    ensures
        !spec_needs_refresh(datas, dir),
{
}

/// Whether the cache's listings hold every ID this event names: for a
/// completion event, some device entry bears its device ID and some
/// folder entry bears its folder ID; any other event names none.
pub open spec fn spec_event_ids_listed(e: EventsResponseData, dir: DirectoryCache) -> bool {
    match e {
        EventsResponseData::FolderCompletion { device, folder, .. } => (exists|j: int|
            0 <= j < dir.devices@.len() && dir.devices@[j].device_id@ == device@) && (exists|
            j: int,
        |
            0 <= j < dir.folders@.len() && dir.folders@[j].id@ == folder@),
        _ => true,
    }
}

/// A wholesale directory refresh settles a batch: once the cache's
/// listings hold every device and folder ID the batch's completion
/// events name, that same batch triggers no further refresh.
pub proof fn lemma_refresh_settles_batch(datas: Seq<EventsResponseData>, dir: DirectoryCache)
    requires
        forall|i: int| 0 <= i < datas.len() ==> spec_event_ids_listed(#[trigger] datas[i], dir),
    ensures
        !spec_needs_refresh(datas, dir),
{
    assert forall|i: int| 0 <= i < datas.len() implies !spec_event_mentions_unknown(
        datas[i],
        dir,
    ) by {
        match datas[i] {
            EventsResponseData::FolderCompletion { device, folder, .. } => {
                lemma_device_lookup_found(dir.devices@, device@);
                lemma_folder_lookup_found(dir.folders@, folder@);
            },
            _ => {},
        }
    }
}

/// Pruning against a connection listing removes a device's row exactly
/// when the listing reports that device with `connected == false`; a
/// device absent from the listing, or reported only as connected, keeps
/// its row, unchanged.
pub proof fn lemma_prune_removes_iff(
    m: Map<Seq<char>, Map<Seq<char>, (u64, u64)>>,
    conns: Seq<ConnectionStatus>,
    d: Seq<char>,
)
    ensures
        spec_prune(m, conns).contains_key(d) <==> (m.contains_key(d) && !(exists|i: int|
            0 <= i < conns.len() && conns[i].device@ == d && !conns[i].connected)),
        spec_prune(m, conns).contains_key(d) ==> spec_prune(m, conns)[d] == m[d],
    decreases conns.len(),
{
    if conns.len() > 0 {
        lemma_prune_removes_iff(m, conns.drop_last(), d);
        let last = conns.last();
        if last.device@ == d && !last.connected {
            assert(conns[conns.len() - 1].device@ == d && !conns[conns.len() - 1].connected);
        } else {
            if exists|i: int|
                0 <= i < conns.len() && conns[i].device@ == d && !conns[i].connected {
                let i = choose|i: int|
                    0 <= i < conns.len() && conns[i].device@ == d && !conns[i].connected;
                assert(i < conns.len() - 1);
                assert(conns.drop_last()[i].device@ == d && !conns.drop_last()[i].connected);
            }
            if exists|i: int|
                0 <= i < conns.len() - 1 && conns.drop_last()[i].device@ == d
                    && !conns.drop_last()[i].connected {
                let i = choose|i: int|
                    0 <= i < conns.len() - 1 && conns.drop_last()[i].device@ == d
                        && !conns.drop_last()[i].connected;
                assert(conns[i].device@ == d && !conns[i].connected);
            }
        }
    }
}

} // verus!
