//! The decisions of the file-system cache: where the debug info of a build
//! id is kept, what to do after each step of a cached fetch, and where the
//! cache lives. The file operations themselves are left to the caller.
use vstd::prelude::*;

use crate::buildid::BuildId;

verus! {

/// Where the debug info of a build id is kept below the cache root:
/// `<root>/<dir>/<file>`.
#[derive(Debug)]
pub struct CacheEntry {
    /// The directory of the entry: the build id as hex text.
    pub dir: String,
    /// The file of the entry.
    pub file: String,
}

/// The name of the file that holds the debug info in an entry's directory.
pub open spec fn debuginfo_file() -> Seq<char> {
    "debuginfo"@
}

/// Where the debug info of `build_id` is kept: `<hex build id>/debuginfo`.
pub fn cache_entry(build_id: &BuildId) -> (r: CacheEntry)
    ensures
        r.dir@ == build_id.canonical_hex(),
        r.file@ == debuginfo_file(),
{
    CacheEntry { dir: build_id.to_string(), file: String::from_str("debuginfo") }
}

/// How moving the written temporary file to the entry's path, without
/// replacing anything there, ended.
#[derive(Debug, Clone, Copy, PartialEq, Eq, Structural)]
pub enum MoveOutcome {
    /// The file now stands at the entry's path.
    Moved,
    /// Another writer had already put a file at the entry's path.
    AlreadyExists,
    /// The move failed for another reason.
    Failed,
}

/// What a cached fetch has just learned.
#[derive(Debug, Clone, Copy, PartialEq, Eq, Structural)]
pub enum CacheEvent {
    /// The entry's path was looked up on disk.
    LookedUp {
        /// Whether something exists at the path.
        exists: bool,
    },
    /// The servers were asked.
    Fetched {
        /// Whether one of them had the debug info.
        found: bool,
    },
    /// The fetched data was written to a temporary file in the cache root,
    /// and the file moved to the entry's path.
    Stored(MoveOutcome),
}

/// What a cached fetch does next.
#[derive(Debug, Clone, Copy, PartialEq, Eq, Structural)]
pub enum CacheAction {
    /// Ask the servers.
    Fetch,
    /// Write the data to a temporary file in the cache root, then move that
    /// file to the entry's path, never replacing a file there.
    Store,
    /// Answer with the entry's path.
    ReturnPath,
    /// Answer that no server has the debug info; the disk is not touched.
    ReturnNotFound,
    /// Answer with the failure to store the data.
    ReturnStoreError,
}

/// The step that follows `event`: a hit is answered from disk, a miss asks
/// the servers, data that was found is stored, and a store that lost the
/// race to another writer counts as a success.
pub open spec fn next_step(event: CacheEvent) -> CacheAction {
    match event {
        CacheEvent::LookedUp { exists } => if exists {
            CacheAction::ReturnPath
        } else {
            CacheAction::Fetch
        },
        CacheEvent::Fetched { found } => if found {
            CacheAction::Store
        } else {
            CacheAction::ReturnNotFound
        },
        CacheEvent::Stored(outcome) => match outcome {
            MoveOutcome::Failed => CacheAction::ReturnStoreError,
            _ => CacheAction::ReturnPath,
        },
    }
}

/// Decides what a cached fetch does after `event`.
pub fn next_action(event: CacheEvent) -> (r: CacheAction)
    ensures
        r == next_step(event),
{
    match event {
        CacheEvent::LookedUp { exists } => if exists {
            CacheAction::ReturnPath
        } else {
            CacheAction::Fetch
        },
        CacheEvent::Fetched { found } => if found {
            CacheAction::Store
        } else {
            CacheAction::ReturnNotFound
        },
        CacheEvent::Stored(MoveOutcome::Failed) => CacheAction::ReturnStoreError,
        CacheEvent::Stored(_) => CacheAction::ReturnPath,
    }
}

/// Once an entry exists, a fetch of the same build id is answered from disk
/// without asking the servers, and with the same path as before.
pub proof fn lemma_cache_hit(first: CacheEntry, second: CacheEntry, build_id: BuildId)
    requires
        first.dir@ == build_id.canonical_hex(),
        first.file@ == debuginfo_file(),
        second.dir@ == build_id.canonical_hex(),
        second.file@ == debuginfo_file(),
    ensures
        next_step(CacheEvent::LookedUp { exists: true }) == CacheAction::ReturnPath,
        next_step(CacheEvent::LookedUp { exists: true }) != CacheAction::Fetch,
        first.dir@ == second.dir@,
        first.file@ == second.file@,
{
}

/// Two writers that race to store the same entry both succeed, with the
/// entry's path, whichever of them moved its file there first.
pub proof fn lemma_racing_stores(mine: MoveOutcome, theirs: MoveOutcome)
    requires
        mine != MoveOutcome::Failed,
        theirs != MoveOutcome::Failed,
    ensures
        next_step(CacheEvent::Stored(mine)) == CacheAction::ReturnPath,
        next_step(CacheEvent::Stored(theirs)) == CacheAction::ReturnPath,
{
}

/// Where the cache root comes from.
#[derive(Debug, Clone, PartialEq, Eq)]
pub enum CacheRoot<P> {
    /// The path that `DEBUGINFOD_CACHE_PATH` names, as it stands.
    Explicit(P),
    /// The user's cache directory; the root is its `debuginfod_client`
    /// folder.
    UserCache(P),
    /// The user's home directory; the root is its `.cache/debuginfod_client`
    /// folder.
    Home(P),
}

/// Picks the cache root: the explicit path if there is one, else the
/// user's cache directory, else the home directory, else none.
pub fn pick_cache_root<P>(explicit: Option<P>, user_cache: Option<P>, home: Option<P>) -> (r: Option<CacheRoot<P>>)
    ensures
        r == match (explicit, user_cache, home) {
            (Some(p), _, _) => Some(CacheRoot::Explicit(p)),
            (None, Some(p), _) => Some(CacheRoot::UserCache(p)),
            (None, None, Some(p)) => Some(CacheRoot::Home(p)),
            (None, None, None) => None::<CacheRoot<P>>,
        },
{
    match explicit {
        Some(p) => Some(CacheRoot::Explicit(p)),
        None => match user_cache {
            Some(p) => Some(CacheRoot::UserCache(p)),
            None => match home {
                Some(p) => Some(CacheRoot::Home(p)),
                None => None,
            },
        },
    }
}

} // verus!
