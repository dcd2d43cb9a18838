//! Checks of the cache-directory structure requirements and the client-side
//! freshness classification.

use lightarti_rest::cache::{
    check_directory, get_cache_state, refresh_plan, CacheFiles, CacheState,
};

fn full_cache(md_mtime: u64, churn_mtime: u64) -> CacheFiles {
    CacheFiles {
        dir_exists: true,
        authority: true,
        consensus: true,
        microdescriptors: true,
        certificate: true,
        churn: true,
        microdescriptors_mtime: md_mtime,
        churn_mtime,
    }
}

#[test]
fn test_empty() {
    // An existing but empty cache directory is rejected.
    let f = CacheFiles {
        dir_exists: true,
        authority: false,
        consensus: false,
        microdescriptors: false,
        certificate: false,
        churn: false,
        microdescriptors_mtime: 0,
        churn_mtime: 0,
    };
    assert!(check_directory(&f).is_err());
}

#[test]
fn test_required_files_ok() {
    // A complete cache raises no structural error.
    let f = full_cache(0, 0);
    assert!(check_directory(&f).is_ok());
}

#[test]
fn test_required_files_missing() {
    for missing in 0..5 {
        let mut f = full_cache(0, 0);
        match missing {
            0 => f.consensus = false,
            1 => f.microdescriptors = false,
            2 => f.certificate = false,
            3 => f.churn = false,
            _ => f.authority = false,
        }
        let error = check_directory(&f).expect_err("");
        assert_eq!(
            error.describe(),
            "Corrupt cache: required file(s) missing in cache"
        );
    }
}

#[test]
fn test_directory_not_existing() {
    let f = CacheFiles {
        dir_exists: false,
        authority: true,
        consensus: true,
        microdescriptors: true,
        certificate: true,
        churn: true,
        microdescriptors_mtime: 0,
        churn_mtime: 0,
    };
    let error = check_directory(&f).expect_err("");
    assert_eq!(error.describe(), "Corrupt cache: cache-directory doesn't exist");
}

// 2025-10-06 (Monday) .. 2025-10-12 (Sunday) all lie in week 40 of 2025.
const MON: u64 = 1759708800;
const SAT: u64 = 1760140800;
const SUN: u64 = 1760227200;

#[test]
fn cache_fresh_same_day() {
    let f = full_cache(MON, SAT + 3600);
    assert!(matches!(get_cache_state(&f, SAT + 7200), CacheState::Fresh));
}

#[test]
fn cache_churn_stale_same_week() {
    // Churn from Saturday, now Sunday: same week, another day.
    let f = full_cache(MON, SAT);
    assert!(matches!(get_cache_state(&f, SUN), CacheState::ChurnStale));
}

#[test]
fn cache_all_stale_other_week() {
    // Microdescriptors from the previous week.
    let f = full_cache(MON - 7 * 86400, SAT);
    assert!(matches!(get_cache_state(&f, SAT), CacheState::AllStale));
}

#[test]
fn cache_all_stale_missing_file() {
    let mut f = full_cache(MON, SAT);
    f.certificate = false;
    assert!(matches!(get_cache_state(&f, SAT), CacheState::AllStale));
    let mut g = full_cache(MON, SAT);
    g.dir_exists = false;
    assert!(matches!(get_cache_state(&g, SAT), CacheState::AllStale));
}

#[test]
fn cache_classification_is_deterministic() {
    // Two calls on the same observations and time agree.
    let f = full_cache(MON, SAT);
    let a = get_cache_state(&f, SUN);
    let b = get_cache_state(&f, SUN);
    assert!(matches!(
        (a, b),
        (CacheState::Fresh, CacheState::Fresh)
            | (CacheState::ChurnStale, CacheState::ChurnStale)
            | (CacheState::AllStale, CacheState::AllStale)
    ));
}

#[test]
fn refresh_plan_matches_state() {
    let fresh = refresh_plan(&CacheState::Fresh);
    assert!(!fresh.fetch_archive && !fresh.fetch_churn);
    let churn = refresh_plan(&CacheState::ChurnStale);
    assert!(!churn.fetch_archive && churn.fetch_churn);
    let all = refresh_plan(&CacheState::AllStale);
    assert!(all.fetch_archive && all.fetch_churn);
}
