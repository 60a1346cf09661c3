//! The git status cache: the last known status mapping of each repository,
//! valid for a bounded time, and the registry of the filesystem watches that
//! evict an entry as soon as the repository changes.

use vstd::prelude::*;
use vstd::hash_map::StringHashMap;
use std::collections::HashMap;
use std::time::Instant;
use crate::error::CoreError;
use crate::fs::GitStats;
use crate::text::ends_with_component;
use crate::text::final_component_is;

verus! {

/// A point of the monotonic clock of std, opaque to the verifier.
#[verifier::external_type_specification]
#[verifier::external_body]
pub struct ExInstant(Instant);

/// For how many seconds a cached status mapping is served.
pub const CACHE_TTL_SECONDS: u64 = 5;

/// The same time in nanoseconds, the unit in which the cache counts.
pub const CACHE_TTL_NANOS: u128 = CACHE_TTL_SECONDS as u128 * 1_000_000_000;

/// For how many milliseconds a watch task waits on its cancellation channel
/// before it looks again.
pub const WATCH_POLL_MILLIS: u64 = 1000;

/// Calls `Instant::now`: the point from which a cache counts its time.
/// Nothing is claimed of the result.
#[verifier::external_body]
fn clock_start() -> (r: Instant) {
    Instant::now()
}

/// Calls `Instant::elapsed` on the point given and takes the duration in
/// nanoseconds with `Duration::as_nanos`. The result depends on when the
/// call is made, so nothing is claimed of it.
#[verifier::external_body]
fn nanos_since(epoch: &Instant) -> (r: u128) {
    epoch.elapsed().as_nanos()
}

/// The last known status of one repository: the status of each file by its
/// path within the repository, and the time at which it was computed, in
/// nanoseconds of the cache's clock.
pub struct CacheEntry {
    pub stats: HashMap<String, GitStats>,
    pub cached_at: u128,
}

/// An entry stored at `cached_at` is valid at `now` while no more than the
/// time to live has passed since.
pub open spec fn fresh_at(cached_at: u128, now: u128) -> bool {
    now - cached_at <= CACHE_TTL_NANOS
}

/// What a filesystem change was, as the watch notifier classifies it.
#[derive(Clone, Copy, Debug, PartialEq, Eq, Structural)]
pub enum ChangeKind {
    /// A change of unknown kind.
    Any,
    /// A file was opened, read, executed or closed.
    Access,
    /// A file or directory was created.
    Create,
    /// Something was modified; what, is not known.
    ModifyAny,
    /// The content of a file was modified.
    ModifyData,
    /// The metadata of a file was modified.
    ModifyMetadata,
    /// A file was renamed.
    ModifyName,
    /// Another kind of modification.
    ModifyOther,
    /// A file or directory was removed.
    Remove,
    /// Another kind of change.
    Other,
}

/// The changes that may have altered a repository's status: content
/// modifications, and modifications of unknown kind.
pub open spec fn is_modification(kind: ChangeKind) -> bool {
    kind == ChangeKind::ModifyData || kind == ChangeKind::ModifyAny
}

/// The path names one of the control files whose change means that the
/// status of the repository may have changed: its last component is `index`
/// or `HEAD`. Components end at a slash and at a backslash alike, on every
/// platform, so a file whose name ends in a backslash and `index` counts as
/// a control file too.
pub open spec fn is_control_file(path: Seq<char>) -> bool {
    final_component_is(path, "index"@) || final_component_is(path, "HEAD"@)
}

/// Some path of `paths` names a control file.
pub open spec fn touches_control_file(paths: Seq<String>) -> bool {
    exists|i: int| 0 <= i < paths.len() && is_control_file(#[trigger] paths[i]@)
}

/// Whether a change of this kind to these paths evicts the cached status of
/// the repository under watch.
pub open spec fn evicts(kind: ChangeKind, paths: Seq<String>) -> bool {
    is_modification(kind) && touches_control_file(paths)
}

/// What is to be done about a request to watch a repository.
#[derive(Clone, Copy, Debug, PartialEq, Eq, Structural)]
pub enum WatchPlan {
    /// A watch task is to be started and then registered.
    Start,
    /// Nothing: watching is disabled, or the repository is watched already.
    Nothing,
}

/// What a watch task found when it waited on its cancellation channel.
#[derive(Clone, Copy, Debug, PartialEq, Eq, Structural)]
pub enum CancelPoll {
    /// The wait timed out: nobody asked the task to stop.
    Idle,
    /// A stop message arrived.
    StopRequested,
    /// The sending side of the channel is gone.
    Disconnected,
}

/// The cache as mappings: the entries and the watcher registrations by
/// repository root, and the flag that gates new registrations.
#[verifier::reject_recursive_types(C)]
pub struct CacheView<C> {
    pub entries: Map<Seq<char>, CacheEntry>,
    pub watchers: Map<Seq<char>, C>,
    pub enabled: bool,
}

impl<C> CacheView<C> {
    /// The status mapping served for `path` at `now`: that of the entry, if
    /// there is one and it is still valid.
    pub open spec fn lookup(self, path: Seq<char>, now: u128) -> Option<HashMap<String, GitStats>> {
        if self.entries.contains_key(path) && fresh_at(self.entries[path].cached_at, now) {
            Some(self.entries[path].stats)
        } else {
            None
        }
    }

    /// The cache after `stats` was stored for `path` at `now`.
    pub open spec fn stored(self, path: Seq<char>, stats: HashMap<String, GitStats>, now: u128) -> Self {
        CacheView { entries: self.entries.insert(path, CacheEntry { stats, cached_at: now }), ..self }
    }

    /// The cache without an entry for `path`.
    pub open spec fn invalidated(self, path: Seq<char>) -> Self {
        CacheView { entries: self.entries.remove(path), ..self }
    }

    /// What a request to watch `path` leads to, given whether the path holds
    /// repository metadata. A path without metadata is refused whatever the
    /// state of the registry.
    pub open spec fn plan(self, path: Seq<char>, has_metadata: bool) -> Result<WatchPlan, CoreError> {
        if !has_metadata {
            Err(CoreError::NotAGitRepository)
        } else if !self.enabled || self.watchers.contains_key(path) {
            Ok(WatchPlan::Nothing)
        } else {
            Ok(WatchPlan::Start)
        }
    }

    /// The cache after the attempt to start a watch task for `path`, and
    /// what the caller is told. `started` holds the cancellation handle of
    /// the new task, or nothing if the watch could not be set up. A handle
    /// is registered only while watching is enabled and `path` has no
    /// registration; otherwise it is released, which stops the task.
    pub open spec fn started(self, path: Seq<char>, started: Option<C>) -> (Self, Result<(), CoreError>) {
        match started {
            None => (self, Err(CoreError::WatchSetupFailure)),
            Some(cancel) => if self.enabled && !self.watchers.contains_key(path) {
                (CacheView { watchers: self.watchers.insert(path, cancel), ..self }, Ok(()))
            } else {
                (self, Ok(()))
            },
        }
    }

    /// A whole request to watch `path`: the plan, and the start where the
    /// plan asks for one.
    pub open spec fn setup(self, path: Seq<char>, has_metadata: bool, started: Option<C>) -> (
        Self,
        Result<(), CoreError>,
    ) {
        match self.plan(path, has_metadata) {
            Err(e) => (self, Err(e)),
            Ok(WatchPlan::Nothing) => (self, Ok(())),
            Ok(WatchPlan::Start) => self.started(path, started),
        }
    }

    /// The cache without a registration for `path`.
    pub open spec fn stopped(self, path: Seq<char>) -> Self {
        CacheView { watchers: self.watchers.remove(path), ..self }
    }

    /// The cache without any registration.
    pub open spec fn all_stopped(self) -> Self {
        CacheView { watchers: Map::empty(), ..self }
    }

    /// The cache with watching enabled. Registrations that were stopped
    /// stay stopped.
    pub open spec fn with_watching(self) -> Self {
        CacheView { enabled: true, ..self }
    }

    /// The cache with watching disabled and every watch stopped.
    pub open spec fn without_watching(self) -> Self {
        CacheView { enabled: false, watchers: Map::empty(), ..self }
    }

    /// The cache after the watch of `path` reported a change. The entry of
    /// `path` is evicted when the watch is still registered and the change
    /// is a modification that touches a control file.
    pub open spec fn changed(self, path: Seq<char>, kind: ChangeKind, paths: Seq<String>) -> Self {
        if self.watchers.contains_key(path) && evicts(kind, paths) {
            self.invalidated(path)
        } else {
            self
        }
    }
}

/// The git status cache. `C` is the cancellation handle of a watch task:
/// the registry owns it, and releasing it stops the task.
#[verifier::reject_recursive_types(C)]
pub struct GitStatsCache<C> {
    entries: StringHashMap<CacheEntry>,
    watchers: StringHashMap<C>,
    enabled: bool,
    epoch: Instant,
}

impl<C> View for GitStatsCache<C> {
    type V = CacheView<C>;

    closed spec fn view(&self) -> CacheView<C> {
        CacheView { entries: self.entries@, watchers: self.watchers@, enabled: self.enabled }
    }
}

/// Decides whether an entry stored at `cached_at` is still valid at `now`.
pub fn is_fresh(cached_at: u128, now: u128) -> (r: bool)
    ensures
        r == fresh_at(cached_at, now),
{
    now <= cached_at || now - cached_at <= CACHE_TTL_NANOS
}

/// Decides whether the path names a control file of a repository: whether
/// its last component, after the last slash or backslash, is `index` or
/// `HEAD`.
pub fn names_control_file(path: &str) -> (r: bool)
    ensures
        r == is_control_file(path@),
{
    ends_with_component(path, "index") || ends_with_component(path, "HEAD")
}

/// Decides whether a change of this kind to these paths evicts the cached
/// status of the repository under watch.
pub fn should_invalidate(kind: ChangeKind, paths: &Vec<String>) -> (r: bool)
    ensures
        r == evicts(kind, paths@),
{
    match kind {
        ChangeKind::ModifyData | ChangeKind::ModifyAny => {},
        _ => {
            return false;
        },
    }
    let mut i: usize = 0;
    while i < paths.len()
        invariant
            i <= paths.len(),
            is_modification(kind),
            forall|j: int| 0 <= j < i ==> !is_control_file(#[trigger] paths[j]@),
        decreases paths.len() - i,
    {
        if names_control_file(paths[i].as_str()) {
            return true;
        }
        i += 1;
    }
    false
}

/// Whether a watch task goes on after it waited on its cancellation
/// channel. A stop message and a closed channel both end it.
pub fn keeps_watching(poll: CancelPoll) -> (r: bool)
    ensures
        r == (poll == CancelPoll::Idle),
{
    match poll {
        CancelPoll::Idle => true,
        CancelPoll::StopRequested => false,
        CancelPoll::Disconnected => false,
    }
}

impl<C> GitStatsCache<C> {
    /// An empty cache with no watcher and watching enabled. Its clock starts
    /// now.
    pub fn new() -> (r: Self)
        ensures
            r@.entries == Map::<Seq<char>, CacheEntry>::empty(),
            r@.watchers == Map::<Seq<char>, C>::empty(),
            r@.enabled,
    {
        GitStatsCache {
            entries: StringHashMap::new(),
            watchers: StringHashMap::new(),
            enabled: true,
            epoch: clock_start(),
        }
    }

    /// The time of the cache's clock, in nanoseconds since the cache was
    /// made.
    fn now(&self) -> (r: u128) {
        nanos_since(&self.epoch)
    }

    /// The cached status mapping of `repo_path` at the given time: present
    /// exactly when there is an entry and it is still valid.
    pub fn get_at(&self, repo_path: &str, now: u128) -> (r: Option<&HashMap<String, GitStats>>)
        ensures
            r == (match self@.lookup(repo_path@, now) {
                Some(stats) => Some(&stats),
                None => None,
            }),
    {
        match self.entries.get(repo_path) {
            Some(entry) => {
                if is_fresh(entry.cached_at, now) {
                    Some(&entry.stats)
                } else {
                    None
                }
            },
            None => None,
        }
    }

    /// The cached status mapping of `repo_path` as of now. The contract
    /// holds whatever the clock reads: what is returned is what `get_at`
    /// returns at some time, so an absent entry is never served and a
    /// mapping served is the one stored.
    pub fn get(&self, repo_path: &str) -> (r: Option<&HashMap<String, GitStats>>)
        ensures
            exists|now: u128|
                r == (match #[trigger] self@.lookup(repo_path@, now) {
                    Some(stats) => Some(&stats),
                    None => None,
                }),
            r matches Some(stats) ==> self@.entries.contains_key(repo_path@) && *stats
                == self@.entries[repo_path@].stats,
    {
        let now = self.now();
        self.get_at(repo_path, now)
    }

    /// Stores `stats` for `repo_path` as computed at the given time, in
    /// place of any earlier entry.
    pub fn set_at(&mut self, repo_path: String, stats: HashMap<String, GitStats>, now: u128)
        ensures
            final(self)@ == old(self)@.stored(repo_path@, stats, now),
    {
        self.entries.insert(repo_path, CacheEntry { stats, cached_at: now });
    }

    /// Stores `stats` for `repo_path` as computed now, in place of any
    /// earlier entry. Whatever the clock reads, the entry holds `stats` and
    /// nothing else changes.
    pub fn set(&mut self, repo_path: String, stats: HashMap<String, GitStats>)
        ensures
            exists|now: u128| final(self)@ == #[trigger] old(self)@.stored(repo_path@, stats, now),
    {
        let now = self.now();
        self.set_at(repo_path, stats, now);
    }

    /// Removes the entry of `repo_path`, valid or not.
    pub fn invalidate(&mut self, repo_path: &str)
        ensures
            final(self)@ == old(self)@.invalidated(repo_path@),
    {
        self.entries.remove(repo_path);
    }

    /// Whether new watcher registrations are accepted.
    pub fn is_enabled(&self) -> (r: bool)
        ensures
            r == self@.enabled,
    {
        self.enabled
    }

    /// Whether a watch is registered for `repo_path`.
    pub fn is_watching(&self, repo_path: &str) -> (r: bool)
        ensures
            r == self@.watchers.contains_key(repo_path@),
    {
        self.watchers.contains_key(repo_path)
    }

    /// Decides what a request to watch `repo_path` leads to. `has_metadata`
    /// tells whether the path holds a repository metadata directory.
    ///
    /// Fails with `NotAGitRepository` exactly when it does not. Otherwise a
    /// watch is to be started exactly when watching is enabled and the path
    /// has no registration yet. The cache is not changed: a watch that was
    /// started is registered with `watcher_started`.
    pub fn setup_watcher(&self, repo_path: &str, has_metadata: bool) -> (r: Result<
        WatchPlan,
        CoreError,
    >)
        ensures
            r == self@.plan(repo_path@, has_metadata),
    {
        if !has_metadata {
            Err(CoreError::NotAGitRepository)
        } else if !self.enabled || self.watchers.contains_key(repo_path) {
            Ok(WatchPlan::Nothing)
        } else {
            Ok(WatchPlan::Start)
        }
    }

    /// Registers the watch task that was started for `repo_path`, or
    /// reports that none could be: `started` holds the task's cancellation
    /// handle, or nothing. Fails with `WatchSetupFailure` exactly when there
    /// is no handle. A handle that comes when watching was disabled
    /// meanwhile, or when the path got a registration meanwhile, is
    /// released, so that at most one watch per path is ever registered.
    pub fn watcher_started(&mut self, repo_path: String, started: Option<C>) -> (r: Result<
        (),
        CoreError,
    >)
        ensures
            (final(self)@, r) == old(self)@.started(repo_path@, started),
    {
        match started {
            None => Err(CoreError::WatchSetupFailure),
            Some(cancel) => {
                if self.enabled && !self.watchers.contains_key(repo_path.as_str()) {
                    self.watchers.insert(repo_path, cancel);
                }
                Ok(())
            },
        }
    }

    /// Stops the watch of `repo_path`, if there is one, by releasing its
    /// cancellation handle.
    pub fn stop_watcher(&mut self, repo_path: &str)
        ensures
            final(self)@ == old(self)@.stopped(repo_path@),
    {
        self.watchers.remove(repo_path);
    }

    /// Stops every watch.
    pub fn stop_all_watchers(&mut self)
        ensures
            final(self)@ == old(self)@.all_stopped(),
    {
        self.watchers.clear();
    }

    /// Accepts new watcher registrations from now on. Watches that were
    /// stopped are not started again.
    pub fn enable_watchers(&mut self)
        ensures
            final(self)@ == old(self)@.with_watching(),
    {
        self.enabled = true;
    }

    /// Refuses new watcher registrations from now on and stops every watch.
    pub fn disable_watchers(&mut self)
        ensures
            final(self)@ == old(self)@.without_watching(),
    {
        self.enabled = false;
        self.watchers.clear();
    }

    /// Takes a change that the watch of `repo_path` reported, and tells
    /// whether the entry of `repo_path` was evicted for it. It is evicted
    /// exactly when the watch is still registered and the change is a
    /// modification that touches a control file of the repository.
    pub fn on_change(&mut self, repo_path: &str, kind: ChangeKind, paths: &Vec<String>) -> (r: bool)
        ensures
            r == (old(self)@.watchers.contains_key(repo_path@) && evicts(kind, paths@)),
            final(self)@ == old(self)@.changed(repo_path@, kind, paths@),
    {
        if self.watchers.contains_key(repo_path) && should_invalidate(kind, paths) {
            self.entries.remove(repo_path);
            true
        } else {
            false
        }
    }
}

/// A status mapping that was stored is served, exactly as it was stored, at
/// every time at which no more than the time to live has passed.
pub proof fn law_stored_mapping_is_served<C>(
    c: CacheView<C>,
    path: Seq<char>,
    stats: HashMap<String, GitStats>,
    stored_at: u128,
    now: u128,
)
    requires
        now - stored_at <= CACHE_TTL_NANOS,
    ensures
        c.stored(path, stats, stored_at).lookup(path, now) == Some(stats),
{
}

/// Once more than the time to live has passed since a status mapping was
/// stored, nothing is served for its path, though nobody invalidated it.
pub proof fn law_expired_mapping_is_absent<C>(
    c: CacheView<C>,
    path: Seq<char>,
    stats: HashMap<String, GitStats>,
    stored_at: u128,
    now: u128,
)
    requires
        now - stored_at > CACHE_TTL_NANOS,
    ensures
        c.stored(path, stats, stored_at).lookup(path, now) is None,
{
}

/// After an entry was invalidated nothing is served for its path, at any
/// time.
pub proof fn law_invalidated_mapping_is_absent<C>(c: CacheView<C>, path: Seq<char>, now: u128)
    ensures
        c.invalidated(path).lookup(path, now) is None,
{
}

/// A request to watch a path that holds no repository metadata fails with
/// `NotAGitRepository` and registers no watcher, whatever else holds.
pub proof fn law_setup_needs_metadata<C>(c: CacheView<C>, path: Seq<char>, started: Option<C>)
    ensures
        c.setup(path, false, started) == (c, Err::<(), CoreError>(CoreError::NotAGitRepository)),
{
}

/// Requesting a watch of the same repository twice leaves what the first
/// request left: one registration for the path while watching is enabled,
/// and no other registration touched.
pub proof fn law_setup_is_idempotent<C>(
    c: CacheView<C>,
    path: Seq<char>,
    first: Option<C>,
    second: Option<C>,
)
    requires
        first is Some,
    ensures
        ({
            let once = c.setup(path, true, first).0;
            let twice = once.setup(path, true, second);
            &&& twice == (once, Ok::<(), CoreError>(()))
            &&& c.enabled ==> once.watchers.contains_key(path)
            &&& once.watchers.remove(path) == c.watchers.remove(path)
        }),
{
    let once = c.setup(path, true, first).0;
    assert(once.watchers.remove(path) =~= c.watchers.remove(path));
}

/// After watching was disabled, a change to a control file of a repository
/// that was watched evicts nothing: the watch is gone.
pub proof fn law_disabled_watch_evicts_nothing<C>(
    c: CacheView<C>,
    path: Seq<char>,
    kind: ChangeKind,
    paths: Seq<String>,
)
    ensures
        c.without_watching().changed(path, kind, paths) == c.without_watching(),
        c.without_watching().changed(path, kind, paths).entries == c.entries,
{
}

/// With watching enabled and a watch set up for a repository, a
/// modification of one of its control files evicts its entry: from then on
/// nothing is served for the path, at any time, also within the time to
/// live.
pub proof fn law_watched_change_evicts<C>(
    c: CacheView<C>,
    path: Seq<char>,
    cancel: C,
    kind: ChangeKind,
    paths: Seq<String>,
    now: u128,
)
    requires
        evicts(kind, paths),
    ensures
        ({
            let watched = c.with_watching().setup(path, true, Some(cancel));
            let after = watched.0.changed(path, kind, paths);
            &&& watched.1 is Ok
            &&& watched.0.watchers.contains_key(path)
            &&& !after.entries.contains_key(path)
            &&& after.lookup(path, now) is None
            &&& after.entries == c.entries.remove(path)
        }),
{
}

/// Storing, invalidating and evicting the entry of one repository leaves
/// what is served for every other repository as it was.
pub proof fn law_entries_are_independent<C>(
    c: CacheView<C>,
    path: Seq<char>,
    other: Seq<char>,
    stats: HashMap<String, GitStats>,
    at: u128,
    kind: ChangeKind,
    paths: Seq<String>,
    now: u128,
)
    requires
        other != path,
    ensures
        c.stored(path, stats, at).lookup(other, now) == c.lookup(other, now),
        c.invalidated(path).lookup(other, now) == c.lookup(other, now),
        c.changed(path, kind, paths).lookup(other, now) == c.lookup(other, now),
{
}

/// The registry and the flag never touch the entries, and the entries never
/// touch the registry or the flag.
pub proof fn law_registry_and_entries_are_apart<C>(
    c: CacheView<C>,
    path: Seq<char>,
    stats: HashMap<String, GitStats>,
    at: u128,
    has_metadata: bool,
    started: Option<C>,
)
    ensures
        c.setup(path, has_metadata, started).0.entries == c.entries,
        c.stopped(path).entries == c.entries,
        c.all_stopped().entries == c.entries,
        c.with_watching().entries == c.entries,
        c.without_watching().entries == c.entries,
        c.stored(path, stats, at).watchers == c.watchers,
        c.stored(path, stats, at).enabled == c.enabled,
        c.invalidated(path).watchers == c.watchers,
        c.invalidated(path).enabled == c.enabled,
{
}

} // verus!
