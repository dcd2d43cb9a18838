//! The directory provider: bootstrap state, events and reconfiguration.

use lightarti_rest::authority::Authority;
use lightarti_rest::directory::{check_timeliness, DirEvent, FlatFileDirMgr, FlatFileDirMgrBuilder};

#[test]
fn fresh_provider_is_not_bootstrapped() {
    let p = FlatFileDirMgr::from_config();
    assert!(!p.is_bootstrapped());
    assert!(p.opt_netdir().is_none());
    assert!(p.latest_netdir().is_none());
    assert!(p.events().is_empty());
    let err = p.netdir().err().expect("no directory yet");
    assert_eq!(err.describe(), "No directory available");
}

#[test]
fn builder_builds_a_fresh_provider() {
    let p = FlatFileDirMgrBuilder {}.build();
    assert!(!p.is_bootstrapped());
    assert!(p.events().is_empty());
}

#[test]
fn reconfigure_always_fails() {
    let p = FlatFileDirMgr::from_config();
    let err = p.reconfigure().expect_err("");
    assert_eq!(err.describe(), "Cannot change field: all");
}

#[test]
fn failed_load_emits_no_events() {
    // A load that fails a check changes nothing and emits nothing: no
    // `NewConsensus`, no `NewDescriptors`, in particular never in reverse
    // order or alone.
    let mut p = FlatFileDirMgr::from_config();
    let auths: Vec<Authority> = vec![];
    let res = p.load_directory("garbage", "garbage", "", b"", &auths, 0);
    assert!(res.is_err());
    assert!(p.events().is_empty());
    assert!(!p.is_bootstrapped());
}

#[test]
fn bootstrap_propagates_errors() {
    let mut p = FlatFileDirMgr::from_config();
    let auths: Vec<Authority> = vec![];
    let err = p.bootstrap("garbage", "garbage", "", b"", &auths, 0).expect_err("");
    assert_eq!(err.describe(), "Corrupt cache: Failed to parse consensus");
    assert!(p.events().is_empty());
}

#[test]
fn events_are_distinct_kinds() {
    assert_ne!(DirEvent::NewConsensus, DirEvent::NewDescriptors);
}

#[test]
fn validity_window_ends_are_inclusive() {
    // Exactly at valid-after and exactly at valid-until: accepted; one
    // second outside either end: rejected.
    let va = 1_000_000;
    let vu = 1_003_600;
    assert!(check_timeliness(va, vu, va).is_ok());
    assert!(check_timeliness(va, vu, vu).is_ok());
    assert!(check_timeliness(va, vu, va + 1).is_ok());
    let before = check_timeliness(va, vu, va - 1).expect_err("");
    assert_eq!(before.describe(), "Untimely object");
    let after = check_timeliness(va, vu, vu + 1).expect_err("");
    assert_eq!(after.describe(), "Untimely object");
}
