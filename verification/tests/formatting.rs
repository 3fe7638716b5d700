use syncthing_status::events::{NeedBytes, ProgressPct};

#[test]
fn one_mib_exact() {
    assert_eq!(NeedBytes(1048576).format(), "1 MiB");
}

#[test]
fn one_and_a_half_gib() {
    assert_eq!(NeedBytes(1610612736).format(), "1.50 GiB");
}

#[test]
fn two_gib_exact() {
    assert_eq!(NeedBytes(2147483648).format(), "2 GiB");
}

#[test]
fn one_and_a_half_mib() {
    assert_eq!(NeedBytes(1572864).format(), "1.50 MiB");
}

#[test]
fn zero_bytes() {
    assert_eq!(NeedBytes(0).format(), "0 MiB");
}

#[test]
fn hundredths_round_ties_to_even() {
    assert_eq!(NeedBytes(131072).format(), "0.12 MiB");
}

#[test]
fn completion_floor_and_round_diverge() {
    let pct = ProgressPct::new(4270);
    assert_eq!(pct.floor_string(), "42");
    assert_eq!(pct.rounded_string(), "43");
}

#[test]
fn completion_round_ties_to_even() {
    assert_eq!(ProgressPct::new(4250).rounded_string(), "42");
    assert_eq!(ProgressPct::new(4350).rounded_string(), "44");
}

#[test]
fn completion_full_is_complete() {
    assert!(ProgressPct::new(10000).is_complete());
    assert!(!ProgressPct::new(9999).is_complete());
    assert_eq!(ProgressPct::new(10000).floor_string(), "100");
}
