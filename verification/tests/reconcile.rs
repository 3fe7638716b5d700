use syncthing_status::directory::{DeviceInfo, FolderInfo};
use syncthing_status::events::{EventsResponseData, EventsResponseEntry, NeedBytes, ProgressPct};
use syncthing_status::ids::{DeviceID, DeviceName, FolderID, FolderName};
use syncthing_status::render::{render_status, render_tooltip};
use syncthing_status::runner::{ConnectionStatus, Runner};

fn has_device(runner: &Runner, id: &str) -> bool {
    runner.pending.contains_device(&DeviceID::new(id.to_string()))
}

fn status_text(runner: &Runner) -> String {
    render_status(&runner.pending)
}

fn tooltip_text(runner: &Runner) -> String {
    render_tooltip(&runner.directory, &runner.pending)
}

fn completion(id: u64, device: &str, folder: &str, hundredths: u64, bytes: u64) -> EventsResponseEntry {
    EventsResponseEntry {
        id,
        data: EventsResponseData::FolderCompletion {
            completion: ProgressPct::new(hundredths),
            need_bytes: NeedBytes(bytes),
            device: DeviceID::new(device.to_string()),
            folder: FolderID::new(folder.to_string()),
        },
    }
}

fn disconnect(id: u64, device: &str) -> EventsResponseEntry {
    EventsResponseEntry {
        id,
        data: EventsResponseData::DeviceDisconnected { id: DeviceID::new(device.to_string()) },
    }
}

fn device(id: &str, name: &str) -> DeviceInfo {
    DeviceInfo { device_id: DeviceID::new(id.to_string()), name: DeviceName::new(name.to_string()) }
}

fn folder(id: &str, label: &str) -> FolderInfo {
    FolderInfo { id: FolderID::new(id.to_string()), label: FolderName::new(label.to_string()) }
}

#[test]
fn completion_removes_exactly_that_folder() {
    let mut runner = Runner::new();
    runner.apply_batch(&vec![
        completion(1, "D1", "F1", 5000, 1048576),
        completion(2, "D1", "F2", 2500, 2097152),
    ]);
    runner.apply_batch(&vec![completion(3, "D1", "F1", 10000, 0)]);
    // the other folder's entry is untouched; the device row stays
    assert!(has_device(&runner, "D1"));
    let tooltip = tooltip_text(&runner);
    assert!(tooltip.contains("F2"));
    assert!(!tooltip.contains("F1"));
}

#[test]
fn disconnect_removes_whole_row() {
    let mut runner = Runner::new();
    runner.apply_batch(&vec![
        completion(1, "D1", "F1", 5000, 1048576),
        completion(2, "D1", "F2", 7500, 1048576),
        disconnect(3, "D1"),
    ]);
    assert!(!has_device(&runner, "D1"));
    assert_eq!(status_text(&runner), "");
}

#[test]
fn watermark_advances_to_last_id_only() {
    let mut runner = Runner::new();
    assert_eq!(runner.watermark(), 0);
    runner.apply_batch(&vec![
        completion(7, "D1", "F1", 5000, 1048576),
        completion(9, "D1", "F2", 5000, 1048576),
    ]);
    assert_eq!(runner.watermark(), 9);
    // an empty batch is a no-op
    runner.apply_batch(&vec![]);
    assert_eq!(runner.watermark(), 9);
    assert!(has_device(&runner, "D1"));
}

#[test]
fn refresh_triggered_iff_unknown_id() {
    let mut runner = Runner::new();
    let batch = vec![completion(1, "D1", "F1", 5000, 1048576)];
    // empty cache: both IDs unknown
    assert!(runner.needs_refresh(&batch));
    runner.set_directory(
        vec![device("D1", "Device One")],
        vec![folder("F1", "Folder One")],
    );
    // both IDs cached: no further refresh
    assert!(!runner.needs_refresh(&batch));
    // a disconnect event alone never triggers a refresh
    assert!(!runner.needs_refresh(&vec![disconnect(2, "D9")]));
    // refresh replaces wholesale: a new listing without D1 loses it
    runner.set_directory(
        vec![device("D2", "Device Two")],
        vec![folder("F1", "Folder One")],
    );
    assert!(runner.needs_refresh(&batch));
}

#[test]
fn prune_removes_iff_reported_disconnected() {
    let mut runner = Runner::new();
    runner.apply_batch(&vec![
        completion(1, "D1", "F1", 5000, 1048576),
        completion(2, "D2", "F2", 5000, 1048576),
        completion(3, "D3", "F3", 5000, 1048576),
    ]);
    runner.prune(&vec![
        ConnectionStatus { device: DeviceID::new("D1".to_string()), connected: false },
        ConnectionStatus { device: DeviceID::new("D2".to_string()), connected: true },
    ]);
    // D1 was reported disconnected: its row is gone
    assert!(!has_device(&runner, "D1"));
    // D2 was reported connected: untouched
    assert!(has_device(&runner, "D2"));
    // D3 was absent from the listing: untouched
    assert!(has_device(&runner, "D3"));
}

#[test]
fn end_to_end_scenario() {
    let mut runner = Runner::new();
    let first = vec![completion(1, "D1", "F1", 5000, 1048576)];
    assert!(runner.needs_refresh(&first));
    runner.set_directory(
        vec![device("D1", "Device One")],
        vec![folder("F1", "Folder One")],
    );
    runner.apply_batch(&first);
    assert_eq!(runner.watermark(), 1);
    assert_eq!(status_text(&runner), "\u{f2f1} 50%/1 MiB");
    assert_eq!(
        tooltip_text(&runner),
        "Device One: Folder One (50%, 1 MiB)"
    );
    assert_eq!(
        runner.status_line(),
        "{\"text\":\"\u{f2f1} 50%/1 MiB\",\"tooltip\":\"Device One: Folder One (50%, 1 MiB)\"}"
    );

    let second = vec![completion(2, "D1", "F1", 10000, 0)];
    assert!(!runner.needs_refresh(&second));
    runner.apply_batch(&second);
    assert_eq!(runner.watermark(), 2);
    assert_eq!(status_text(&runner), "");
    assert_eq!(tooltip_text(&runner), "");
    assert_eq!(runner.status_line(), "{\"text\":\"\",\"tooltip\":\"\"}");
}

#[test]
fn unknown_ids_display_as_themselves() {
    let mut runner = Runner::new();
    runner.apply_batch(&vec![completion(1, "D1", "F1", 2570, 1048576)]);
    // no directory refresh was made: the raw IDs stand in for names
    assert_eq!(tooltip_text(&runner), "D1:        F1         (26%, 1 MiB)");
}

#[test]
fn fresh_insert_for_unseen_pair() {
    // a completion event for a pair never seen before is a fresh insert
    let mut runner = Runner::new();
    runner.apply_batch(&vec![completion(1, "D1", "F1", 9900, 3145728)]);
    assert!(has_device(&runner, "D1"));
    assert_eq!(status_text(&runner), "\u{f2f1} 99%/3 MiB");
}

#[test]
fn rewind_overwrites_entry() {
    // completion may decrease; the entry is overwritten, not rejected
    let mut runner = Runner::new();
    runner.apply_batch(&vec![completion(1, "D1", "F1", 9000, 1048576)]);
    runner.apply_batch(&vec![completion(2, "D1", "F1", 4000, 2097152)]);
    assert_eq!(status_text(&runner), "\u{f2f1} 40%/2 MiB");
}
