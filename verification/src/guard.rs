use vstd::prelude::*;
use vstd::rwlock::{RwLock, RwLockPredicate};

use crate::date::Datetime;
use crate::error::ReadError;
use crate::id::{spec_normalize, ResourceId};
use crate::slot::{lemma_root_escape_denied, probe_view, Probe};
use crate::source::Source;
use crate::world::{
    first_index, lemma_first_index_found, spec_contains_id, spec_upsert, wf_world, SystemWorld,
};

verus! {

/// The invariant the guard maintains: the session's slot table stays well
/// formed across every critical section.
pub struct WorldInv;

impl RwLockPredicate<SystemWorld> for WorldInv {
    open spec fn inv(self, w: SystemWorld) -> bool {
        wf_world(w@)
    }
}

/// A session behind a single mutual-exclusion guard, for compilers whose
/// parallel phases request resources from several worker threads at once.
///
/// Each operation acquires the guard, runs one whole session operation as
/// its critical section, and releases the guard. Holding the guard across
/// the lookup-or-insert step and the caching step means each content change
/// is decoded at most once; the dependency report takes only a read lock, so
/// concurrent reports do not serialize each other.
pub struct SharedWorld {
    lock: RwLock<SystemWorld, WorldInv>,
}

impl SharedWorld {
    /// Puts a session behind the guard.
    pub fn new(world: SystemWorld) -> SharedWorld
        requires
            wf_world(world@),
    {
        SharedWorld { lock: RwLock::new(world, Ghost(WorldInv)) }
    }

    /// Starts a request for the parsed-text view of `id` under the guard.
    /// Root confinement holds through it: a virtual path that escapes the
    /// root never yields a load plan, whatever the guarded state is.
    pub fn probe_source(&self, id: &ResourceId) -> (r: Probe<Source>)
        ensures
            (!id@.stdin && spec_normalize(id@.vpath) is None) ==> !(probe_view(r) is Miss),
    {
        let (mut w, handle) = self.lock.acquire_write();
        let ghost w0 = w@;
        let r = w.probe_source(id);
        proof {
            if !id@.stdin && spec_normalize(id@.vpath) is None {
                let slots0 = spec_upsert(w0.slots, id@);
                if !spec_contains_id(w0.slots, id@) {
                    assert(slots0[w0.slots.len() as int].id == id@);
                }
                assert(spec_contains_id(slots0, id@));
                lemma_first_index_found(slots0, id@);
                lemma_root_escape_denied(slots0[first_index(slots0, id@)], w0.root);
            }
        }
        handle.release_write(w);
        r
    }

    /// Concludes a request for the parsed-text view of `id` under the guard.
    pub fn provide_source(&self, id: &ResourceId, load: Result<Vec<u8>, ReadError>) -> Result<
        Source,
        ReadError,
    > {
        let (mut w, handle) = self.lock.acquire_write();
        let r = w.provide_source(id, load);
        handle.release_write(w);
        r
    }

    /// Starts a request for the raw-bytes view of `id` under the guard, with
    /// the same root confinement as [`SharedWorld::probe_source`].
    pub fn probe_file(&self, id: &ResourceId) -> (r: Probe<Vec<u8>>)
        ensures
            (!id@.stdin && spec_normalize(id@.vpath) is None) ==> !(probe_view(r) is Miss),
    {
        let (mut w, handle) = self.lock.acquire_write();
        let ghost w0 = w@;
        let r = w.probe_file(id);
        proof {
            if !id@.stdin && spec_normalize(id@.vpath) is None {
                let slots0 = spec_upsert(w0.slots, id@);
                if !spec_contains_id(w0.slots, id@) {
                    assert(slots0[w0.slots.len() as int].id == id@);
                }
                assert(spec_contains_id(slots0, id@));
                lemma_first_index_found(slots0, id@);
                lemma_root_escape_denied(slots0[first_index(slots0, id@)], w0.root);
            }
        }
        handle.release_write(w);
        r
    }

    /// Concludes a request for the raw-bytes view of `id` under the guard.
    pub fn provide_file(&self, id: &ResourceId, load: Result<Vec<u8>, ReadError>) -> Result<
        Vec<u8>,
        ReadError,
    > {
        let (mut w, handle) = self.lock.acquire_write();
        let r = w.provide_file(id, load);
        handle.release_write(w);
        r
    }

    /// The identifier of the main resource.
    pub fn main(&self) -> ResourceId {
        let handle = self.lock.acquire_read();
        let r = handle.borrow().main().dup();
        handle.release_read();
        r
    }

    /// Queries the calendar date under the guard, capturing the wall clock
    /// once per cycle. An offset of a whole day or more is no time zone and
    /// yields nothing, whatever the guarded state is.
    pub fn today(&self, offset: Option<i64>) -> (r: Option<Datetime>)
        ensures
            (offset matches Some(h) && !(-23 <= h <= 23)) ==> r is None,
    {
        let (mut w, handle) = self.lock.acquire_write();
        let r = w.today(offset);
        handle.release_write(w);
        r
    }

    /// Resets the compilation state in preparation of a new cycle.
    pub fn reset(&self) {
        let (mut w, handle) = self.lock.acquire_write();
        w.reset();
        handle.release_write(w);
    }

    /// The dependency report, under a read lock only.
    pub fn dependencies(&self) -> Vec<String> {
        let handle = self.lock.acquire_read();
        let r = handle.borrow().dependencies();
        handle.release_read();
        r
    }

    /// Takes the session back out of the guard.
    pub fn into_inner(self) -> (w: SystemWorld)
        ensures
            wf_world(w@),
    {
        self.lock.into_inner()
    }
}

} // verus!
