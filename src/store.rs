//! The state store's bookkeeping and the maintenance loop's decisions.
//!
//! The working copy itself (a directory) and the object store live with the
//! caller; this module decides, from what the object store lists and from the
//! loaded copy's version and dirty flag, what the next maintenance pass does.

use crate::error::SignalStateError;
use crate::version::{parse_version, version_of};
use vstd::prelude::*;

verus! {

/// How many versions below the last one loaded are kept in the object store.
pub const RETENTION_WINDOW: u32 = 20;

/// Where the key file is, and the seed directory when the store is being
/// bootstrapped.
pub struct SignalStateArgs {
    pub encryption_key: String,
    pub bootstrap: Option<String>,
}

/// The bookkeeping of the loaded working copy.
#[derive(Debug, Clone, Copy, PartialEq, Eq, Structural)]
pub struct LoadedCopy {
    /// The version the copy was loaded as, or last flushed as.
    pub version: u32,
    /// Whether anyone may have changed the copy since it was loaded or flushed.
    pub dirty: bool,
}

/// What one maintenance pass does.
#[derive(Debug, Clone, Copy, PartialEq, Eq, Structural)]
pub enum MaintenanceAction {
    NoAction,
    /// Persist the loaded copy as the next version.
    Flush,
    /// Replace the loaded copy with the given stored version.
    Reload(u32),
}

/// What a listing of the object store tells a maintenance pass.
pub struct Listing {
    /// The highest version stored, if any.
    pub best_version: Option<u32>,
    /// The stored versions that fall below the retention floor, in listing order.
    pub stale: Vec<u32>,
}

/// The versions that the keys name, in listing order; other keys are skipped.
pub open spec fn parsed_versions(keys: Seq<String>) -> Seq<u32>
    decreases keys.len(),
{
    if keys.len() == 0 {
        Seq::empty()
    } else {
        let rest = parsed_versions(keys.drop_last());
        match version_of(keys.last()@) {
            Some(v) => rest.push(v),
            None => rest,
        }
    }
}

/// The largest of some versions, or none if there are none.
pub open spec fn max_version(vs: Seq<u32>) -> Option<u32>
    decreases vs.len(),
{
    if vs.len() == 0 {
        None
    } else {
        match max_version(vs.drop_last()) {
            None => Some(vs.last()),
            Some(m) => Some(if m >= vs.last() { m } else { vs.last() }),
        }
    }
}

/// Versions below this are deleted: the last loaded version less the
/// window, stopping at zero.
pub open spec fn retention_floor(seen_version: u32) -> u32 {
    if seen_version >= RETENTION_WINDOW {
        (seen_version - RETENTION_WINDOW) as u32
    } else {
        0
    }
}

/// The versions among `vs` that lie below the retention floor, in order.
pub open spec fn stale_versions(vs: Seq<u32>, seen_version: u32) -> Seq<u32>
    decreases vs.len(),
{
    if vs.len() == 0 {
        Seq::empty()
    } else {
        let rest = stale_versions(vs.drop_last(), seen_version);
        if vs.last() < retention_floor(seen_version) {
            rest.push(vs.last())
        } else {
            rest
        }
    }
}

/// The largest version is one of them and no other exceeds it.
pub proof fn lemma_max_version(vs: Seq<u32>)
    ensures
        max_version(vs) is None <==> vs.len() == 0,
        max_version(vs) matches Some(m) ==> vs.contains(m) && forall|i: int|
            0 <= i < vs.len() ==> #[trigger] vs[i] <= m,
    decreases vs.len(),
{
    if vs.len() > 0 {
        lemma_max_version(vs.drop_last());
        let m = max_version(vs).unwrap();
        assert forall|i: int| 0 <= i < vs.len() implies #[trigger] vs[i] <= m by {
            if i < vs.len() - 1 {
                assert(vs[i] == vs.drop_last()[i]);
            }
        }
        if m == vs.last() {
            assert(vs[vs.len() - 1] == m);
        } else {
            let k = choose|k: int| 0 <= k < vs.drop_last().len() && vs.drop_last()[k] == m;
            assert(vs[k] == m);
        }
    }
}

/// A maintenance pass deletes exactly the listed versions that lie below the
/// retention floor (the last loaded version less twenty, never below zero),
/// and keeps every other.
pub proof fn lemma_retention(vs: Seq<u32>, seen_version: u32, v: u32)
    ensures
        stale_versions(vs, seen_version).contains(v) <==> (vs.contains(v) && v < retention_floor(
            seen_version,
        )),
    decreases vs.len(),
{
    if vs.len() > 0 {
        let rest = vs.drop_last();
        lemma_retention(rest, seen_version, v);
        if vs.contains(v) {
            let k = choose|k: int| 0 <= k < vs.len() && vs[k] == v;
            if k < vs.len() - 1 {
                assert(rest[k] == v);
            }
        }
        if rest.contains(v) {
            let k = choose|k: int| 0 <= k < rest.len() && rest[k] == v;
            assert(vs[k] == v);
        }
        let st = stale_versions(rest, seen_version);
        if vs.last() < retention_floor(seen_version) {
            assert(stale_versions(vs, seen_version) == st.push(vs.last()));
            if st.push(vs.last()).contains(v) && v != vs.last() {
                let k = choose|k: int| 0 <= k < st.push(vs.last()).len() && st.push(vs.last())[k] == v;
                assert(st[k] == v);
            }
            if st.contains(v) {
                let k = choose|k: int| 0 <= k < st.len() && st[k] == v;
                assert(st.push(vs.last())[k] == v);
            }
            assert(st.push(vs.last())[st.len() as int] == vs.last());
        }
        assert(vs[vs.len() - 1] == vs.last());
    }
}

/// Reads a listing of the object store: the highest version, and the
/// versions that fall below the retention floor.
pub fn scan_listing(keys: &Vec<String>, seen_version: u32) -> (r: Listing)
    ensures
        r.best_version == max_version(parsed_versions(keys@)),
        r.stale@ == stale_versions(parsed_versions(keys@), seen_version),
{
    let floor: u32 = seen_version.saturating_sub(RETENTION_WINDOW);
    let mut best: Option<u32> = None;
    let mut stale: Vec<u32> = Vec::new();
    let mut i: usize = 0;
    while i < keys.len()
        invariant
            i <= keys@.len(),
            floor == retention_floor(seen_version),
            best == max_version(parsed_versions(keys@.subrange(0, i as int))),
            stale@ == stale_versions(parsed_versions(keys@.subrange(0, i as int)), seen_version),
        decreases keys.len() - i,
    {
        let ghost before = parsed_versions(keys@.subrange(0, i as int));
        assert(keys@.subrange(0, i as int + 1).drop_last() =~= keys@.subrange(0, i as int));
        match parse_version(keys[i].as_str()) {
            Some(v) => {
                assert(parsed_versions(keys@.subrange(0, i as int + 1)) == before.push(v));
                assert(before.push(v).drop_last() =~= before);
                if v < floor {
                    stale.push(v);
                }
                best = match best {
                    None => Some(v),
                    Some(m) => Some(if m >= v { m } else { v }),
                };
            },
            None => {},
        }
        i = i + 1;
    }
    assert(keys@.subrange(0, i as int) =~= keys@);
    Listing { best_version: best, stale }
}

/// The version after `v`, unless `v` is the last one.
pub open spec fn next_version(v: u32) -> Option<u32> {
    if v < u32::MAX {
        Some((v + 1) as u32)
    } else {
        None
    }
}

/// The action for a loaded copy (if any) and the highest stored version.
pub open spec fn action_for(loaded: Option<LoadedCopy>, best_version: Option<u32>) -> Result<
    MaintenanceAction,
    SignalStateError,
> {
    match loaded {
        None => match best_version {
            Some(v) => Ok(MaintenanceAction::Reload(v)),
            None => Err(SignalStateError::NoStateAvailable),
        },
        Some(c) => if c.dirty {
            Ok(MaintenanceAction::Flush)
        } else {
            match best_version {
                Some(v) => if v != c.version {
                    Ok(MaintenanceAction::Reload(v))
                } else {
                    Ok(MaintenanceAction::NoAction)
                },
                None => Ok(MaintenanceAction::NoAction),
            }
        },
    }
}

/// Decides a maintenance pass: load what is stored when nothing is loaded,
/// flush a dirty copy, reload a clean copy that another writer has
/// overtaken, or leave things be.
pub fn choose_action(loaded: Option<LoadedCopy>, best_version: Option<u32>) -> (r: Result<
    MaintenanceAction,
    SignalStateError,
>)
    ensures
        r == action_for(loaded, best_version),
{
    match loaded {
        None => match best_version {
            Some(v) => Ok(MaintenanceAction::Reload(v)),
            None => Err(SignalStateError::NoStateAvailable),
        },
        Some(c) => {
            if c.dirty {
                Ok(MaintenanceAction::Flush)
            } else {
                match best_version {
                    Some(v) => {
                        if v != c.version {
                            Ok(MaintenanceAction::Reload(v))
                        } else {
                            Ok(MaintenanceAction::NoAction)
                        }
                    },
                    None => Ok(MaintenanceAction::NoAction),
                }
            }
        },
    }
}

/// A reload may replace the loaded copy only when that copy is clean (or
/// when nothing is loaded).
pub open spec fn may_reload(loaded: Option<LoadedCopy>) -> bool {
    match loaded {
        Some(c) => !c.dirty,
        None => true,
    }
}

/// Tells whether a reload may proceed; asked again under the exclusive lock
/// just before the copy is replaced.
pub fn reload_permitted(loaded: Option<LoadedCopy>) -> (r: bool)
    ensures
        r == may_reload(loaded),
{
    match loaded {
        Some(c) => !c.dirty,
        None => true,
    }
}

/// The version that a shutdown writes: the next one after a dirty copy's,
/// and none for a clean copy or when nothing was loaded.
pub open spec fn final_version(loaded: Option<LoadedCopy>) -> Option<u32> {
    match loaded {
        Some(c) => if c.dirty {
            next_version(c.version)
        } else {
            None
        },
        None => None,
    }
}

/// Decides the shutdown write for the copy taken out of the store.
pub fn final_flush_version(loaded: Option<LoadedCopy>) -> (r: Option<u32>)
    ensures
        r == final_version(loaded),
        (loaded matches Some(c) && c.dirty && c.version < u32::MAX) ==> r == Some(
            (loaded->Some_0.version + 1) as u32,
        ),
        !(loaded matches Some(c) && c.dirty) ==> r is None,
{
    match loaded {
        Some(c) => {
            if c.dirty {
                c.flush_version()
            } else {
                None
            }
        },
        None => None,
    }
}

impl LoadedCopy {
    /// A copy just loaded from the stored `version`.
    pub fn fresh(version: u32) -> (r: LoadedCopy)
        ensures
            r == (LoadedCopy { version, dirty: false }),
    {
        LoadedCopy { version, dirty: false }
    }

    /// Someone was handed the copy's path, and may change what is there.
    pub fn accessed(&mut self)
        ensures
            *final(self) == (LoadedCopy { version: old(self).version, dirty: true }),
    {
        self.dirty = true;
    }

    /// The version that flushing this copy writes.
    pub fn flush_version(&self) -> (r: Option<u32>)
        ensures
            r == next_version(self.version),
    {
        if self.version < u32::MAX {
            Some(self.version + 1)
        } else {
            None
        }
    }

    /// The copy was written as `written`: it now is that version, and clean.
    pub fn flushed(&mut self, written: u32)
        requires
            next_version(old(self).version) == Some(written),
        ensures
            *final(self) == (LoadedCopy { version: written, dirty: false }),
    {
        self.version = written;
        self.dirty = false;
    }
}

/// The versions that `n` flushes in a row write, starting from copy `c`.
pub open spec fn flushed_versions(c: LoadedCopy, n: nat) -> Seq<u32>
    decreases n,
{
    if n == 0 {
        Seq::empty()
    } else {
        match next_version(c.version) {
            Some(v) => seq![v] + flushed_versions(LoadedCopy { version: v, dirty: false }, (n - 1) as nat),
            None => Seq::empty(),
        }
    }
}

/// `n` flushes from version `v0` write exactly the versions `v0 + 1` to
/// `v0 + n`, in that order, each one once, and none at or below `v0`.
pub proof fn lemma_flush_versions(c: LoadedCopy, n: nat)
    requires
        c.version + n <= u32::MAX,
    ensures
        flushed_versions(c, n) == Seq::new(n, |i: int| (c.version + 1 + i) as u32),
        forall|i: int, j: int|
            0 <= i < j < n ==> #[trigger] flushed_versions(c, n)[i] != #[trigger] flushed_versions(c, n)[j],
        forall|i: int| 0 <= i < n ==> #[trigger] flushed_versions(c, n)[i] > c.version,
    decreases n,
{
    if n > 0 {
        let v = (c.version + 1) as u32;
        let next = LoadedCopy { version: v, dirty: false };
        lemma_flush_versions(next, (n - 1) as nat);
        assert(flushed_versions(c, n) =~= Seq::new(n, |i: int| (c.version + 1 + i) as u32));
    }
}

/// Once the copy's path has been handed out, and until it is flushed, no
/// reload may replace it: whatever is stored, a pass flushes it instead.
pub proof fn lemma_accessed_copy_is_kept(c: LoadedCopy, best_version: Option<u32>)
    ensures
        !may_reload(Some(LoadedCopy { version: c.version, dirty: true })),
        action_for(Some(LoadedCopy { version: c.version, dirty: true }), best_version) == Ok::<
            _,
            SignalStateError,
        >(MaintenanceAction::Flush),
{
}

/// After a flush the copy is clean, and a pass that finds the flushed version
/// as the highest stored one does nothing.
pub proof fn lemma_flushed_copy_is_settled(c: LoadedCopy, written: u32)
    requires
        next_version(c.version) == Some(written),
    ensures
        may_reload(Some(LoadedCopy { version: written, dirty: false })),
        action_for(Some(LoadedCopy { version: written, dirty: false }), Some(written)) == Ok::<
            _,
            SignalStateError,
        >(MaintenanceAction::NoAction),
{
}

/// The two futures of the running phase: the shutdown signal and the
/// maintenance loop.
pub struct SignalStateMaintenanceRunning<S, M> {
    pub stopper: S,
    pub maintenance: M,
}

/// The maintenance task's lifecycle: running until the shutdown signal
/// resolves, then cleaning up once.
///
/// While `running` is present, the stopper is polled first and the loop is
/// polled only while the stopper is pending; once it resolves, `stop` drops
/// both and only `cleanup` is polled from then on.
pub struct SignalStateMaintenance<S, M, C> {
    pub running: Option<SignalStateMaintenanceRunning<S, M>>,
    pub cleanup: C,
}

impl<S, M, C> SignalStateMaintenance<S, M, C> {
    /// A task in its running phase.
    pub fn new(stopper: S, maintenance: M, cleanup: C) -> (r: Self)
        ensures
            r.running == Some(SignalStateMaintenanceRunning { stopper, maintenance }),
            r.cleanup == cleanup,
    {
        SignalStateMaintenance {
            running: Some(SignalStateMaintenanceRunning { stopper, maintenance }),
            cleanup,
        }
    }

    /// Whether the task is still in its running phase.
    pub fn is_running(&self) -> (r: bool)
        ensures
            r == self.running is Some,
    {
        self.running.is_some()
    }

    /// Leaves the running phase for good; the cleanup is kept.
    pub fn stop(&mut self)
        ensures
            final(self).running is None,
            final(self).cleanup == old(self).cleanup,
    {
        self.running = None;
    }
}

/// What one maintenance pass does: the stale versions to delete, then the
/// action (or the fatal error when nothing is loaded and nothing is stored).
pub struct PassPlan {
    pub stale: Vec<u32>,
    pub action: Result<MaintenanceAction, SignalStateError>,
}

/// The maintenance loop's own state: the last version it loaded, which sets
/// the retention floor.
///
/// Only a reload moves it; a store that only ever flushes keeps its first
/// floor, and its old versions stay.
pub struct MaintenanceLoop {
    pub seen_version: u32,
}

impl MaintenanceLoop {
    pub fn new() -> (r: MaintenanceLoop)
        ensures
            r.seen_version == 0,
    {
        MaintenanceLoop { seen_version: 0 }
    }

    /// Plans a pass from the listed keys and the loaded copy, if any.
    pub fn plan(&self, keys: &Vec<String>, loaded: Option<LoadedCopy>) -> (r: PassPlan)
        ensures
            r.stale@ == stale_versions(parsed_versions(keys@), self.seen_version),
            r.action == action_for(loaded, max_version(parsed_versions(keys@))),
    {
        let listing = scan_listing(keys, self.seen_version);
        let action = choose_action(loaded, listing.best_version);
        PassPlan { stale: listing.stale, action }
    }

    /// A reload of `version` succeeded.
    pub fn reloaded(&mut self, version: u32)
        ensures
            final(self).seen_version == version,
    {
        self.seen_version = version;
    }
}

} // verus!
