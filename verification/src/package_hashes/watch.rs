//! Has a watcher hash packages.
use crate::package_hashes::package_hash_watcher::TrackError;
use crate::package_hashes::{Error, PackageInputsHashes};
use std::time::Duration;
use vstd::prelude::*;

verus! {

/// Fields requests for package hashes, and returns the latest known hashes for
/// the requested packages.
#[derive(Debug)]
pub struct WatchingPackageHasher<PD, FW> {
    pub package_discovery: PD,
    pub interval: Duration,
    pub file_watching: FW,
}

impl<PD, FW> WatchingPackageHasher<PD, FW> {
    pub fn new(package_discovery: PD, interval: Duration, file_watching: FW) -> (hasher: Self)
        ensures
            hasher.package_discovery == package_discovery,
            hasher.interval == interval,
            hasher.file_watching == file_watching,
    {
        WatchingPackageHasher { interval, package_discovery, file_watching }
    }

    /// The hashes of tasks that the watcher was asked to track. It has to have
    /// taken the request.
    pub fn calculate_hashes(&self, tracking: Result<PackageInputsHashes, TrackError>) -> (hashes:
        Result<PackageInputsHashes, Error>)
        requires
            tracking is Ok,
        ensures
            hashes is Ok,
            hashes->Ok_0 == tracking->Ok_0,
    {
        match tracking {
            Ok(hashes) => Ok(hashes),
            Err(_) => vstd::pervasive::unreached(),
        }
    }
}

/// The hashes that the watcher gave are handed on as they are, and the hasher keeps what
/// it is made of.
pub proof fn the_hashes_of_the_watcher_are_handed_on<PD, FW>(
    package_discovery: PD,
    interval: Duration,
    file_watching: FW,
    made: WatchingPackageHasher<PD, FW>,
    hasher: &WatchingPackageHasher<PD, FW>,
    given: PackageInputsHashes,
    hashes: Result<PackageInputsHashes, Error>,
)
    requires
        call_ensures(
            WatchingPackageHasher::<PD, FW>::new,
            (package_discovery, interval, file_watching),
            made,
        ),
        call_ensures(
            WatchingPackageHasher::<PD, FW>::calculate_hashes,
            (hasher, Ok::<PackageInputsHashes, TrackError>(given)),
            hashes,
        ),
    ensures
        made.package_discovery == package_discovery,
        made.interval == interval,
        made.file_watching == file_watching,
        hashes matches Ok(same) && same == given,
{
}

} // verus!
