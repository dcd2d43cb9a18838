//! Classification of the on-disk directory cache: which files are present,
//! how fresh they are, and which downloads a refresh needs.
//!
//! The classifier itself is a pure function of file presence, file
//! modification times and the current time; the caller reads those values
//! from the filesystem and hands them in.

use vstd::prelude::*;

use crate::calendar::{monday_based_week, week_of, weekday, weekday_of, TS_MAX};
use crate::errors::Error;

verus! {

/// Name of the file holding the trusted authorities.
pub const AUTHORITY_FILENAME: &'static str = "authority.json";

/// Name of the file holding the consensus.
pub const CONSENSUS_FILENAME: &'static str = "consensus.txt";

/// Name of the file holding the microdescriptors.
pub const MICRODESCRIPTORS_FILENAME: &'static str = "microdescriptors.txt";

/// Name of the file holding the authority certificate.
pub const CERTIFICATE_FILENAME: &'static str = "certificate.txt";

/// Name of the file holding the churn delta.
pub const CHURN_FILENAME: &'static str = "churn.txt";

/// Default download URL of the full directory cache archive.
pub const DIRECTORY_CACHE_C4DT: &'static str =
    "https://github.com/c4dt/lightarti-directory/releases/latest/download/directory-cache.tgz";

/// Default download URL of the churn file.
pub const DIRECTORY_CHURN_C4DT: &'static str =
    "https://github.com/c4dt/lightarti-directory/releases/latest/download/churn.txt";

/// What a look at the cache directory found: whether the directory and each
/// required file exist, and the modification times (unix seconds) of the two
/// files whose age drives the classification.
pub struct CacheFiles {
    /// The cache directory itself exists.
    pub dir_exists: bool,
    /// `authority.json` exists.
    pub authority: bool,
    /// `consensus.txt` exists.
    pub consensus: bool,
    /// `microdescriptors.txt` exists.
    pub microdescriptors: bool,
    /// `certificate.txt` exists.
    pub certificate: bool,
    /// `churn.txt` exists.
    pub churn: bool,
    /// Modification time of `microdescriptors.txt`.
    pub microdescriptors_mtime: u64,
    /// Modification time of `churn.txt`.
    pub churn_mtime: u64,
}

/// Freshness of the cache.
pub enum CacheState {
    /// Everything is present and from today: nothing to fetch.
    Fresh,
    /// Only the churn delta is out of date.
    ChurnStale,
    /// The bulk of the cache is out of date or incomplete.
    AllStale,
}

/// Which downloads a refresh performs.
pub struct RefreshPlan {
    /// Fetch and unpack the full directory archive.
    pub fetch_archive: bool,
    /// Fetch the churn file.
    pub fetch_churn: bool,
}

/// All five required files are present in an existing directory.
pub open spec fn all_present(f: CacheFiles) -> bool {
    f.dir_exists && f.authority && f.consensus && f.microdescriptors && f.certificate && f.churn
}

/// The classification rule, as a pure function of the observed state and the
/// current time:
/// missing pieces or a microdescriptor file from another week mean the whole
/// cache is stale; a churn file from the very same day means the cache is
/// fresh; anything else calls for a churn refresh only.
pub open spec fn spec_classify(f: CacheFiles, now: int) -> CacheState {
    if !all_present(f) {
        CacheState::AllStale
    } else if week_of(f.microdescriptors_mtime as int) != week_of(now) {
        CacheState::AllStale
    } else if week_of(f.churn_mtime as int) == week_of(now) && weekday_of(
        f.churn_mtime as int,
    ) == weekday_of(now) {
        CacheState::Fresh
    } else {
        CacheState::ChurnStale
    }
}

/// Check the cache directory's content, reporting the structural problem the
/// way the directory manager words it.
pub fn check_directory(f: &CacheFiles) -> (r: Result<(), Error>)
    ensures
        r is Ok <==> all_present(*f),
        !f.dir_exists ==> (r matches Err(e) && e matches Error::CacheCorruption(m) && m@
            == "cache-directory doesn't exist"@),
        f.dir_exists && !all_present(*f) ==> (r matches Err(e) && e matches Error::CacheCorruption(
            m,
        ) && m@ == "required file(s) missing in cache"@),
{
    if !f.dir_exists {
        return Err(Error::CacheCorruption(String::from_str("cache-directory doesn't exist")));
    }
    if !(f.authority && f.consensus && f.microdescriptors && f.certificate && f.churn) {
        return Err(Error::CacheCorruption(String::from_str("required file(s) missing in cache")));
    }
    Ok(())
}

/// Classify the cache.  Two calls on equal observations and equal times
/// return equal results: the contract ties the result to a function of the
/// arguments alone.
pub fn get_cache_state(f: &CacheFiles, now: u64) -> (r: CacheState)
    requires
        f.microdescriptors_mtime < TS_MAX,
        f.churn_mtime < TS_MAX,
        now < TS_MAX,
    ensures
        r == spec_classify(*f, now as int),
{
    if check_directory(f).is_err() {
        return CacheState::AllStale;
    }
    if monday_based_week(f.microdescriptors_mtime) != monday_based_week(now) {
        return CacheState::AllStale;
    }
    if monday_based_week(f.churn_mtime) == monday_based_week(now) && weekday(f.churn_mtime)
        == weekday(now) {
        CacheState::Fresh
    } else {
        CacheState::ChurnStale
    }
}

/// The classification is a pure function of file presence, modification
/// times and the current time: any two results obtained for the same
/// observation and the same time are equal.
pub proof fn lemma_classification_pure(f: CacheFiles, now: int, r1: CacheState, r2: CacheState)
    requires
        r1 == spec_classify(f, now),
        r2 == spec_classify(f, now),
    ensures
        r1 == r2,
{
}

/// The downloads that each cache state calls for: a stale cache fetches the
/// archive and then the churn file, so the churn's age reflects today; a
/// churn-stale cache fetches the churn file alone; a fresh cache fetches
/// nothing.
pub fn refresh_plan(state: &CacheState) -> (r: RefreshPlan)
    ensures
        r.fetch_archive <==> state is AllStale,
        r.fetch_churn <==> !(state is Fresh),
{
    match state {
        CacheState::Fresh => RefreshPlan { fetch_archive: false, fetch_churn: false },
        CacheState::ChurnStale => RefreshPlan { fetch_archive: false, fetch_churn: true },
        CacheState::AllStale => RefreshPlan { fetch_archive: true, fetch_churn: true },
    }
}

} // verus!
