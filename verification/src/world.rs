use vstd::prelude::*;
use vstd::string::*;
use vstd::utf8::{decode_utf8, encode_utf8, valid_utf8};

use crate::args::{Input, ProcessArgs, WorldArgs};
use crate::cell::{
    key_of_load, load_digest, load_fingerprint, load_view, result_view, spec_provide, spec_reset,
    CellView, SlotCell,
};
use crate::clock::{local_offset_seconds, now_timestamp, spec_reset_clock, Now};
use crate::date::{spec_date_at, Datetime};
use crate::error::{ReadError, WorldCreationError};
use crate::id::{
    parent_dir, resolve, spec_joined, spec_normalize, spec_parent, spec_within_root, stdin_id_view,
    within_root, IdView, ResourceId,
};
use crate::slot::{
    probe_view, slot_wf, spec_bytes_decoder, spec_slot_probe_file, spec_slot_probe_source,
    spec_source_decoder, FileSlot, Probe, SlotView,
};
use crate::source::{Source, SourceView};

verus! {

/// The ghost shape of a [`SystemWorld`]: the project root, the working
/// directory, the main identifier, the slot table in insertion order, and the
/// clock.
pub struct WorldView {
    pub root: Seq<char>,
    pub workdir: Option<Seq<char>>,
    pub main: IdView,
    pub slots: Seq<SlotView>,
    pub clock: Now,
}

/// An empty cache cell.
pub open spec fn spec_new_cell<V>() -> CellView<V> {
    CellView { data: None, fingerprint: 0, accessed: false }
}

/// The slot a first reference to `id` creates.
pub open spec fn spec_new_slot(id: IdView) -> SlotView {
    SlotView { id, source: spec_new_cell(), file: spec_new_cell() }
}

/// Whether some slot of the table belongs to `id`.
pub open spec fn spec_contains_id(slots: Seq<SlotView>, id: IdView) -> bool {
    exists|k: int| 0 <= k < slots.len() && slots[k].id == id
}

/// The position of the first slot belonging to `id`, or the table's length
/// if there is none.
pub open spec fn first_index(slots: Seq<SlotView>, id: IdView) -> int
    decreases slots.len(),
{
    if slots.len() == 0 {
        0
    } else if slots[0].id == id {
        0
    } else {
        1 + first_index(slots.drop_first(), id)
    }
}

/// Pins [`first_index`] down from what a scan observed: no slot before `i`
/// belongs to `id`, and `i` is a match or the end.
pub proof fn lemma_first_index_at(slots: Seq<SlotView>, id: IdView, i: int)
    requires
        0 <= i <= slots.len(),
        forall|j: int| 0 <= j < i ==> slots[j].id != id,
        i < slots.len() ==> slots[i].id == id,
    ensures
        first_index(slots, id) == i,
    decreases slots.len(),
{
    if slots.len() > 0 && i > 0 {
        lemma_first_index_at(slots.drop_first(), id, i - 1);
    }
}

/// In a table that holds a slot for `id`, [`first_index`] finds one.
pub proof fn lemma_first_index_found(slots: Seq<SlotView>, id: IdView)
    requires
        spec_contains_id(slots, id),
    ensures
        0 <= first_index(slots, id) < slots.len(),
        slots[first_index(slots, id)].id == id,
    decreases slots.len(),
{
    if slots[0].id == id {
    } else {
        let k = choose|k: int| 0 <= k < slots.len() && slots[k].id == id;
        assert(slots.drop_first()[k - 1] == slots[k]);
        assert(spec_contains_id(slots.drop_first(), id));
        lemma_first_index_found(slots.drop_first(), id);
    }
}

/// The table after making sure a slot for `id` exists: untouched if one does,
/// else grown by a fresh slot at the end.
pub open spec fn spec_upsert(slots: Seq<SlotView>, id: IdView) -> Seq<SlotView> {
    if spec_contains_id(slots, id) {
        slots
    } else {
        slots.push(spec_new_slot(id))
    }
}

/// A table is well formed when no two slots share an identifier and each
/// slot is itself well formed.
pub open spec fn wf_slots(slots: Seq<SlotView>) -> bool {
    &&& forall|i: int, j: int| 0 <= i < j < slots.len() ==> slots[i].id != slots[j].id
    &&& forall|i: int| 0 <= i < slots.len() ==> slot_wf(#[trigger] slots[i])
}

/// A session is well formed when its slot table is.
pub open spec fn wf_world(w: WorldView) -> bool {
    wf_slots(w.slots)
}

/// The project root a session is constructed with: the configured one if
/// any, else the lexical parent of the input path, else the current
/// directory.
pub open spec fn spec_chosen_root(input: Input, root_arg: Option<String>) -> Seq<char> {
    match root_arg {
        Some(r) => r@,
        None => match input {
            Input::Path(p) => spec_parent(p@),
            Input::Stdin => "."@,
        },
    }
}

/// The clock a session is constructed with: fixed if a creation timestamp
/// was configured, else the wall clock, not yet captured.
pub open spec fn spec_clock_init(creation_timestamp: Option<i64>) -> Now {
    match creation_timestamp {
        Some(t) => Now::Fixed(t),
        None => Now::System(None),
    }
}

/// A slot after a cycle reset: both cells keep their content and lose their
/// accessed flag.
pub open spec fn spec_reset_slot(s: SlotView) -> SlotView {
    SlotView { id: s.id, source: spec_reset(s.source), file: spec_reset(s.file) }
}

/// The real paths of all slots that the ongoing cycle accessed, in table
/// order, skipping those whose virtual path does not resolve.
pub open spec fn spec_dependencies(slots: Seq<SlotView>, root: Seq<char>) -> Seq<Seq<char>>
    decreases slots.len(),
{
    if slots.len() == 0 {
        Seq::empty()
    } else {
        let prefix = spec_dependencies(slots.drop_last(), root);
        let s = slots.last();
        if (s.source.accessed || s.file.accessed) && spec_normalize(s.id.vpath) is Some {
            prefix.push(spec_joined(root, spec_normalize(s.id.vpath).unwrap()))
        } else {
            prefix
        }
    }
}

/// Every accessed slot with a resolvable virtual path contributes its real
/// path to the dependency report.
pub proof fn lemma_dependencies_complete(slots: Seq<SlotView>, root: Seq<char>, i: int)
    requires
        0 <= i < slots.len(),
        slots[i].source.accessed || slots[i].file.accessed,
        spec_normalize(slots[i].id.vpath) is Some,
    ensures
        spec_dependencies(slots, root).contains(
            spec_joined(root, spec_normalize(slots[i].id.vpath).unwrap()),
        ),
    decreases slots.len(),
{
    let deps = spec_dependencies(slots, root);
    let prefix = spec_dependencies(slots.drop_last(), root);
    if i == slots.len() - 1 {
        let p = spec_joined(root, spec_normalize(slots[i].id.vpath).unwrap());
        assert(deps == prefix.push(p));
        assert(deps[deps.len() - 1] == p);
    } else {
        assert(slots.drop_last()[i] == slots[i]);
        lemma_dependencies_complete(slots.drop_last(), root, i);
        let p = spec_joined(root, spec_normalize(slots[i].id.vpath).unwrap());
        let k = choose|k: int| 0 <= k < prefix.len() && prefix[k] == p;
        assert(deps[k] == p);
    }
}

/// Every path in the dependency report comes from some accessed slot whose
/// virtual path resolves to it; a slot the cycle never touched contributes
/// nothing.
pub proof fn lemma_dependencies_sound(slots: Seq<SlotView>, root: Seq<char>, p: Seq<char>)
    requires
        spec_dependencies(slots, root).contains(p),
    ensures
        exists|i: int|
            {
                &&& 0 <= i < slots.len()
                &&& (#[trigger] slots[i]).source.accessed || slots[i].file.accessed
                &&& spec_normalize(slots[i].id.vpath) is Some
                &&& p == spec_joined(root, spec_normalize(slots[i].id.vpath).unwrap())
            },
    decreases slots.len(),
{
    let deps = spec_dependencies(slots, root);
    let prefix = spec_dependencies(slots.drop_last(), root);
    let s = slots.last();
    if (s.source.accessed || s.file.accessed) && spec_normalize(s.id.vpath) is Some {
        if p == spec_joined(root, spec_normalize(s.id.vpath).unwrap()) {
            assert(slots[slots.len() - 1] == s);
        } else {
            let k = choose|k: int| 0 <= k < deps.len() && deps[k] == p;
            assert(prefix[k] == p);
            assert(prefix.contains(p));
            lemma_dependencies_sound(slots.drop_last(), root, p);
            let i = choose|i: int|
                {
                    &&& 0 <= i < slots.drop_last().len()
                    &&& (#[trigger] slots.drop_last()[i]).source.accessed || slots.drop_last()[
                        i
                    ].file.accessed
                    &&& spec_normalize(slots.drop_last()[i].id.vpath) is Some
                    &&& p == spec_joined(
                        root,
                        spec_normalize(slots.drop_last()[i].id.vpath).unwrap(),
                    )
                };
            assert(slots[i] == slots.drop_last()[i]);
        }
    } else {
        lemma_dependencies_sound(slots.drop_last(), root, p);
        let i = choose|i: int|
            {
                &&& 0 <= i < slots.drop_last().len()
                &&& (#[trigger] slots.drop_last()[i]).source.accessed || slots.drop_last()[
                    i
                ].file.accessed
                &&& spec_normalize(slots.drop_last()[i].id.vpath) is Some
                &&& p == spec_joined(root, spec_normalize(slots.drop_last()[i].id.vpath).unwrap())
            };
        assert(slots[i] == slots.drop_last()[i]);
    }
}

/// How one datetime query moves the clock: a fixed or already captured
/// timestamp stays, an uncaptured wall clock captures some instant.
pub open spec fn spec_clock_resolves(before: Now, after: Now) -> bool {
    match (before, after) {
        (Now::Fixed(a), Now::Fixed(b)) => a == b,
        (Now::System(Some(a)), Now::System(Some(b))) => a == b,
        (Now::System(None), Now::System(Some(_))) => true,
        _ => false,
    }
}

/// The timestamp a resolved clock answers queries with.
pub open spec fn spec_clock_value(c: Now) -> int {
    match c {
        Now::Fixed(t) => t as int,
        Now::System(Some(t)) => t as int,
        Now::System(None) => 0,
    }
}

/// The calendar date for timestamp `ts` under a whole-hours offset. A time
/// zone offset is strictly less than one whole day, so any offset of 24
/// hours or more (in either direction) yields nothing, as does a date
/// outside the supported years.
pub open spec fn spec_today_hours(ts: int, hours: i64) -> Option<Datetime> {
    if -23 <= hours <= 23 {
        spec_date_at(ts, hours * 3600)
    } else {
        None
    }
}

/// A fixed clock never moves: every query leaves it at the same timestamp,
/// so every query computes its date from that same timestamp.
pub proof fn lemma_fixed_clock_stable(t: i64, after1: Now, after2: Now)
    requires
        spec_clock_resolves(Now::Fixed(t), after1),
        spec_clock_resolves(Now::Fixed(t), after2),
    ensures
        after1 == Now::Fixed(t),
        after2 == Now::Fixed(t),
        spec_clock_value(after1) == spec_clock_value(after2),
{
}

/// A session: the project root and working directory, the main resource, the
/// table of cache slots, and the clock. This is the object a compiler is
/// handed; it answers every resource request from the table, asking the
/// embedder to perform a load only when the cache cannot answer.
///
/// Every operation takes the session by exclusive reference and is one
/// atomic step over the whole table. An embedder that shares one session
/// across parallel workers therefore wraps it in a mutual-exclusion guard
/// around whole operations. That is a deliberate policy choice: the guard is
/// held across decoding, and in exchange slot creation, decode, and caching
/// form one critical section, so each content change is decoded at most
/// once.
pub struct SystemWorld {
    workdir: Option<String>,
    root: String,
    main: ResourceId,
    slots: Vec<FileSlot>,
    now: Now,
}

impl View for SystemWorld {
    type V = WorldView;

    closed spec fn view(&self) -> WorldView {
        WorldView {
            root: self.root@,
            workdir: match self.workdir {
                Some(w) => Some(w@),
                None => None,
            },
            main: self.main@,
            slots: Seq::new(self.slots@.len(), |i: int| self.slots@[i]@),
            clock: self.now,
        }
    }
}

impl SystemWorld {
    /// Finds the slot for `id`, creating it on first reference. Returns its
    /// position; everything else is untouched.
    fn slot_index(&mut self, id: &ResourceId) -> (i: usize)
        requires
            wf_world(old(self)@),
        ensures
            wf_world(final(self)@),
            final(self)@.root == old(self)@.root,
            final(self)@.workdir == old(self)@.workdir,
            final(self)@.main == old(self)@.main,
            final(self)@.clock == old(self)@.clock,
            final(self)@.slots == spec_upsert(old(self)@.slots, id@),
            i < final(self)@.slots.len(),
            i as int == first_index(final(self)@.slots, id@),
            final(self)@.slots[i as int].id == id@,
    {
        let n: usize = self.slots.len();
        let mut k: usize = 0;
        while k < n
            invariant
                0 <= k <= n,
                n == self.slots.len(),
                forall|j: int| 0 <= j < k ==> self@.slots[j].id != id@,
                *self == *old(self),
                wf_world(old(self)@),
            decreases n - k,
        {
            if self.slots[k].id().eq_id(id) {
                proof {
                    assert(self@.slots[k as int].id == id@);
                    lemma_first_index_at(self@.slots, id@, k as int);
                    assert(spec_contains_id(self@.slots, id@));
                }
                return k;
            }
            proof {
                assert(self@.slots[k as int].id != id@);
            }
            k += 1;
        }
        proof {
            assert(!spec_contains_id(self@.slots, id@));
        }
        let ghost before = self@.slots;
        self.slots.push(FileSlot::new(id.dup()));
        proof {
            assert(self@.slots[n as int] == self.slots@[n as int]@);
            assert(self@.slots[n as int].id == id@);
            assert(self@.slots[n as int].source == spec_new_cell::<crate::source::SourceView>());
            assert(self@.slots[n as int].file == spec_new_cell::<Seq<u8>>());
            assert(self@.slots[n as int] == spec_new_slot(id@));
            assert(self@.slots =~= before.push(spec_new_slot(id@)));
            lemma_first_index_at(self@.slots, id@, n as int);
        }
        n
    }

    /// Starts a request for the parsed-text view of `id`: creates the slot on
    /// first reference, answers from the cache when possible, and otherwise
    /// tells the embedder what to load. A virtual path escaping the root is
    /// denied immediately and never causes a load plan.
    pub fn probe_source(&mut self, id: &ResourceId) -> (r: Probe<Source>)
        requires
            wf_world(old(self)@),
        ensures
            wf_world(final(self)@),
            final(self)@.root == old(self)@.root,
            final(self)@.workdir == old(self)@.workdir,
            final(self)@.main == old(self)@.main,
            final(self)@.clock == old(self)@.clock,
            ({
                let slots0 = spec_upsert(old(self)@.slots, id@);
                let i = first_index(slots0, id@);
                let sp = spec_slot_probe_source(slots0[i], old(self)@.root);
                &&& final(self)@.slots == slots0.update(i, sp.0)
                &&& probe_view(r) == sp.1
            }),
    {
        let i = self.slot_index(id);
        let ghost slots0 = self@.slots;
        let mut slot = self.slots.remove(i);
        let r = slot.probe_source(self.root.as_str());
        let ghost sp = spec_slot_probe_source(slots0[i as int], self@.root);
        self.slots.insert(i, slot);
        proof {
            assert(self@.slots =~= slots0.update(i as int, sp.0));
            assert(sp.0.id == slots0[i as int].id);
            assert(slot_wf(sp.0));
            assert(wf_world(self@));
        }
        r
    }

    /// Starts a request for the raw-bytes view of `id`, exactly like
    /// [`SystemWorld::probe_source`] but on the bytes cell.
    pub fn probe_file(&mut self, id: &ResourceId) -> (r: Probe<Vec<u8>>)
        requires
            wf_world(old(self)@),
        ensures
            wf_world(final(self)@),
            final(self)@.root == old(self)@.root,
            final(self)@.workdir == old(self)@.workdir,
            final(self)@.main == old(self)@.main,
            final(self)@.clock == old(self)@.clock,
            ({
                let slots0 = spec_upsert(old(self)@.slots, id@);
                let i = first_index(slots0, id@);
                let sp = spec_slot_probe_file(slots0[i], old(self)@.root);
                &&& final(self)@.slots == slots0.update(i, sp.0)
                &&& probe_view(r) == sp.1
            }),
    {
        let i = self.slot_index(id);
        let ghost slots0 = self@.slots;
        let mut slot = self.slots.remove(i);
        let r = slot.probe_file(self.root.as_str());
        let ghost sp = spec_slot_probe_file(slots0[i as int], self@.root);
        self.slots.insert(i, slot);
        proof {
            assert(self@.slots =~= slots0.update(i as int, sp.0));
            assert(sp.0.id == slots0[i as int].id);
            assert(slot_wf(sp.0));
            assert(wf_world(self@));
        }
        r
    }

    /// Concludes a request for the parsed-text view of `id` with the load
    /// outcome the embedder obtained: reuses the cached value when the
    /// content is unchanged, otherwise decodes and caches the outcome,
    /// failures included.
    pub fn provide_source(&mut self, id: &ResourceId, load: Result<Vec<u8>, ReadError>) -> (r:
        Result<Source, ReadError>)
        requires
            wf_world(old(self)@),
        ensures
            wf_world(final(self)@),
            final(self)@.root == old(self)@.root,
            final(self)@.workdir == old(self)@.workdir,
            final(self)@.main == old(self)@.main,
            final(self)@.clock == old(self)@.clock,
            ({
                let slots0 = spec_upsert(old(self)@.slots, id@);
                let i = first_index(slots0, id@);
                let p = spec_provide(slots0[i].source, load_view(load), spec_source_decoder(id@));
                &&& final(self)@.slots == slots0.update(i, (SlotView { source: p.cell, ..slots0[i] }))
                &&& result_view(r) == p.result
            }),
    {
        let i = self.slot_index(id);
        let ghost slots0 = self@.slots;
        let mut slot = self.slots.remove(i);
        let r = slot.provide_source(load);
        self.slots.insert(i, slot);
        proof {
            let p = spec_provide(slots0[i as int].source, load_view(load), spec_source_decoder(id@));
            assert(self@.slots =~= slots0.update(i as int, (SlotView {
                source: p.cell,
                ..slots0[i as int]
            })));
            assert(wf_world(self@));
        }
        r
    }

    /// Concludes a request for the raw-bytes view of `id` with the load
    /// outcome the embedder obtained.
    pub fn provide_file(&mut self, id: &ResourceId, load: Result<Vec<u8>, ReadError>) -> (r: Result<
        Vec<u8>,
        ReadError,
    >)
        requires
            wf_world(old(self)@),
        ensures
            wf_world(final(self)@),
            final(self)@.root == old(self)@.root,
            final(self)@.workdir == old(self)@.workdir,
            final(self)@.main == old(self)@.main,
            final(self)@.clock == old(self)@.clock,
            ({
                let slots0 = spec_upsert(old(self)@.slots, id@);
                let i = first_index(slots0, id@);
                let p = spec_provide(slots0[i].file, load_view(load), spec_bytes_decoder());
                &&& final(self)@.slots == slots0.update(i, (SlotView { file: p.cell, ..slots0[i] }))
                &&& result_view(r) == p.result
            }),
    {
        let i = self.slot_index(id);
        let ghost slots0 = self@.slots;
        let mut slot = self.slots.remove(i);
        let r = slot.provide_file(load);
        self.slots.insert(i, slot);
        proof {
            let p = spec_provide(slots0[i as int].file, load_view(load), spec_bytes_decoder());
            assert(self@.slots =~= slots0.update(i as int, (SlotView {
                file: p.cell,
                ..slots0[i as int]
            })));
            assert(wf_world(self@));
        }
        r
    }

    /// Creates a new session. Paths are taken exactly as the embedder
    /// resolved them: the project root is the configured one, or the lexical
    /// parent of the input path, or the current directory; the main
    /// identifier is standard input, or the input's virtual path within the
    /// root, which must contain it.
    pub fn new(input: &Input, world_args: &WorldArgs, process_args: &ProcessArgs) -> (r: Result<
        SystemWorld,
        WorldCreationError,
    >)
        ensures
            ({
                let rootv = spec_chosen_root(*input, world_args.root);
                match input {
                    Input::Stdin => r matches Ok(w) && w@ == (WorldView {
                        root: rootv,
                        workdir: None,
                        main: stdin_id_view(),
                        slots: Seq::empty(),
                        clock: spec_clock_init(world_args.creation_timestamp),
                    }),
                    Input::Path(p) => match spec_within_root(p@, rootv) {
                        Some(segs) => r matches Ok(w) && w@ == (WorldView {
                            root: rootv,
                            workdir: None,
                            main: (IdView { namespace: None, vpath: segs, stdin: false }),
                            slots: Seq::empty(),
                            clock: spec_clock_init(world_args.creation_timestamp),
                        }),
                        None => r == Err::<SystemWorld, _>(WorldCreationError::InputOutsideRoot),
                    },
                }
            }),
            (r matches Ok(w) ==> wf_world(w@)),
    {
        let _ = process_args;
        let root: String = match &world_args.root {
            Some(r) => r.clone(),
            None => match input {
                Input::Path(p) => parent_dir(p.as_str()),
                Input::Stdin => ".".to_owned(),
            },
        };
        let main: ResourceId = match input {
            Input::Stdin => ResourceId::stdin(),
            Input::Path(p) => match within_root(p.as_str(), root.as_str()) {
                Some(rid) => rid,
                None => {
                    return Err(WorldCreationError::InputOutsideRoot);
                },
            },
        };
        let now = match world_args.creation_timestamp {
            Some(t) => Now::Fixed(t),
            None => Now::System(None),
        };
        let w = SystemWorld { workdir: None, root, main, slots: Vec::new(), now };
        proof {
            assert(w@.slots =~= Seq::<SlotView>::empty());
        }
        Ok(w)
    }

    /// The identifier of the main resource.
    pub fn main(&self) -> (r: &ResourceId)
        ensures
            r@ == self@.main,
    {
        &self.main
    }

    /// Replaces the main resource, e.g. when the embedder hands the session
    /// a different entry point between cycles.
    pub fn set_main(&mut self, id: ResourceId)
        ensures
            final(self)@ == (WorldView { main: id@, ..old(self)@ }),
    {
        self.main = id;
    }

    /// The root relative to which virtual paths are resolved.
    pub fn root(&self) -> (r: &str)
        ensures
            r@ == self@.root,
    {
        self.root.as_str()
    }

    /// The current working directory, or `.` when none was recorded.
    pub fn workdir(&self) -> (r: &str)
        ensures
            r@ == (match self@.workdir {
                Some(w) => w,
                None => "."@,
            }),
    {
        match &self.workdir {
            Some(w) => w.as_str(),
            None => ".",
        }
    }

    /// Records the working directory the embedder determined.
    pub fn set_workdir(&mut self, workdir: Option<String>)
        ensures
            final(self)@ == (WorldView {
                workdir: match workdir {
                    Some(w) => Some(w@),
                    None => None,
                },
                ..old(self)@
            }),
    {
        self.workdir = workdir;
    }

    /// Resets the compilation state in preparation of a new cycle: clears
    /// every slot's accessed flags and drops a captured wall-clock instant.
    /// No cached content is lost.
    pub fn reset(&mut self)
        requires
            wf_world(old(self)@),
        ensures
            wf_world(final(self)@),
            final(self)@.root == old(self)@.root,
            final(self)@.workdir == old(self)@.workdir,
            final(self)@.main == old(self)@.main,
            final(self)@.clock == spec_reset_clock(old(self)@.clock),
            final(self)@.slots.len() == old(self)@.slots.len(),
            forall|i: int|
                0 <= i < old(self)@.slots.len() ==> final(self)@.slots[i] == spec_reset_slot(
                    old(self)@.slots[i],
                ),
    {
        let n: usize = self.slots.len();
        let mut k: usize = 0;
        while k < n
            invariant
                0 <= k <= n,
                n == self.slots.len(),
                self.root == old(self).root,
                self.workdir == old(self).workdir,
                self.main == old(self).main,
                self.now == old(self).now,
                forall|i: int| 0 <= i < k ==> self@.slots[i] == spec_reset_slot(old(self)@.slots[i]),
                forall|i: int| k <= i < n ==> self@.slots[i] == old(self)@.slots[i],
            decreases n - k,
        {
            let ghost prev = self@.slots;
            let mut s = self.slots.remove(k);
            s.reset();
            self.slots.insert(k, s);
            proof {
                assert(self@.slots =~= prev.update(k as int, spec_reset_slot(prev[k as int])));
            }
            k += 1;
        }
        self.now = match self.now {
            Now::Fixed(t) => Now::Fixed(t),
            Now::System(_) => Now::System(None),
        };
        proof {
            assert forall|i: int| 0 <= i < n implies slot_wf(#[trigger] self@.slots[i]) by {
                assert(self@.slots[i] == spec_reset_slot(old(self)@.slots[i]));
            }
        }
    }

    /// The real paths of every resource the ongoing cycle accessed, in table
    /// order: what the compilation depended on, for build-system dependency
    /// reporting.
    pub fn dependencies(&self) -> (r: Vec<String>)
        ensures
            r.deep_view() == spec_dependencies(self@.slots, self@.root),
    {
        let n: usize = self.slots.len();
        let mut out: Vec<String> = Vec::new();
        let mut k: usize = 0;
        proof {
            assert(self@.slots.take(0) =~= Seq::<SlotView>::empty());
            assert(out.deep_view() =~= Seq::<Seq<char>>::empty());
        }
        while k < n
            invariant
                0 <= k <= n,
                n == self.slots.len(),
                out.deep_view() == spec_dependencies(self@.slots.take(k as int), self@.root),
            decreases n - k,
        {
            proof {
                assert(self@.slots.take(k + 1).drop_last() =~= self@.slots.take(k as int));
                assert(self@.slots.take(k + 1).last() == self@.slots[k as int]);
            }
            let slot = &self.slots[k];
            if slot.accessed() {
                match resolve(self.root.as_str(), slot.id()) {
                    Ok(p) => {
                        let ghost before = out.deep_view();
                        out.push(p);
                        proof {
                            assert(out.deep_view() =~= before.push(p@));
                        }
                    },
                    Err(_) => {},
                }
            }
            k += 1;
        }
        proof {
            assert(self@.slots.take(n as int) =~= self@.slots);
        }
        out
    }

    /// The calendar date "today": from the fixed timestamp, or from the
    /// wall-clock instant captured once per cycle. A whole-hours offset
    /// shifts it from UTC; an offset of a whole day or more is no time zone
    /// and yields nothing. Without an offset the machine's local time zone
    /// applies, as the machine reports it at the time of the query.
    pub fn today(&mut self, offset: Option<i64>) -> (r: Option<Datetime>)
        ensures
            final(self)@.root == old(self)@.root,
            final(self)@.workdir == old(self)@.workdir,
            final(self)@.main == old(self)@.main,
            final(self)@.slots == old(self)@.slots,
            spec_clock_resolves(old(self)@.clock, final(self)@.clock),
            ({
                let t = spec_clock_value(final(self)@.clock);
                match offset {
                    Some(h) => r == spec_today_hours(t, h),
                    None => exists|o: int| -86400 < o < 86400 && r == spec_date_at(t, o),
                }
            }),
    {
        let cur: Now = self.now;
        let t: i64 = match cur {
            Now::Fixed(x) => x,
            Now::System(Some(x)) => x,
            Now::System(None) => {
                let x = now_timestamp();
                self.now = Now::System(Some(x));
                x
            },
        };
        let off: i32 = match offset {
            Some(h) => {
                if h < -23 || h > 23 {
                    return None;
                }
                (h * 3600) as i32
            },
            None => local_offset_seconds(t),
        };
        let converted = crate::date::convert_datetime(t, off);
        let r: Option<Datetime> = match converted {
            Some(dt) => Some(Datetime { hour: 0, minute: 0, second: 0, ..dt }),
            None => None,
        };
        proof {
            let tv = spec_clock_value(self@.clock);
            assert(r == spec_date_at(tv, off as int));
            if offset is None {
                let o0: int = off as int;
                assert(-86400 < o0 < 86400 && r == spec_date_at(tv, o0));
            }
        }
        r
    }

    /// The text of an already loaded resource: the cached parsed text, or
    /// the cached raw bytes decoded as UTF-8. The resource must have been
    /// loaded successfully before.
    pub fn lookup(&self, id: &ResourceId) -> (r: String)
        requires
            wf_world(self@),
            spec_contains_id(self@.slots, id@),
            ({
                let s = self@.slots[first_index(self@.slots, id@)];
                match s.source.data {
                    Some(v) => v is Ok,
                    None => match s.file.data {
                        Some(b) => b is Ok && valid_utf8(b.unwrap()),
                        None => false,
                    },
                }
            }),
        ensures
            ({
                let s = self@.slots[first_index(self@.slots, id@)];
                match s.source.data {
                    Some(v) => r@ == v.unwrap().text,
                    None => r@ == decode_utf8(s.file.data.unwrap().unwrap()),
                }
            }),
    {
        let n: usize = self.slots.len();
        let mut k: usize = 0;
        while k < n
            invariant
                0 <= k <= n,
                n == self.slots.len(),
                forall|j: int| 0 <= j < k ==> self@.slots[j].id != id@,
                spec_contains_id(self@.slots, id@),
                ({
                    let s = self@.slots[first_index(self@.slots, id@)];
                    match s.source.data {
                        Some(v) => v is Ok,
                        None => match s.file.data {
                            Some(b) => b is Ok && valid_utf8(b.unwrap()),
                            None => false,
                        },
                    }
                }),
            decreases n - k,
        {
            if self.slots[k].id().eq_id(id) {
                proof {
                    lemma_first_index_at(self@.slots, id@, k as int);
                }
                let slot = &self.slots[k];
                match slot.source_cache() {
                    Some(v) => match v {
                        Ok(src) => {
                            return src.text().clone();
                        },
                        Err(_) => {
                            proof {
                                assert(false);
                            }
                            return String::new();
                        },
                    },
                    None => {
                        match slot.file_cache() {
                            Some(b) => match b {
                                Ok(bytes) => {
                                    match crate::source::utf8_to_string(bytes.as_slice()) {
                                        Some(text) => {
                                            return text;
                                        },
                                        None => {
                                            proof {
                                                assert(false);
                                            }
                                            return String::new();
                                        },
                                    }
                                },
                                Err(_) => {
                                    proof {
                                        assert(false);
                                    }
                                    return String::new();
                                },
                            },
                            None => {
                                proof {
                                    assert(false);
                                }
                                return String::new();
                            },
                        }
                    },
                }
            }
            k += 1;
        }
        proof {
            assert(!spec_contains_id(self@.slots, id@));
            assert(false);
        }
        String::new()
    }

    /// Installs a synthetic in-memory resource, replacing any slot already
    /// held for `id`: the parsed text is cached as if `text`'s bytes had
    /// just been loaded and decoded, so the compiler can be pointed at an
    /// in-memory main document.
    pub fn insert_memory_slot(&mut self, id: &ResourceId, text: String)
        requires
            wf_world(old(self)@),
        ensures
            wf_world(final(self)@),
            final(self)@.root == old(self)@.root,
            final(self)@.workdir == old(self)@.workdir,
            final(self)@.main == old(self)@.main,
            final(self)@.clock == old(self)@.clock,
            ({
                let fp = load_digest(Ok(encode_utf8(text@)));
                let ns = SlotView {
                    id: id@,
                    source: CellView {
                        data: Some(Ok(SourceView { id: id@, text: text@ })),
                        fingerprint: fp,
                        accessed: true,
                    },
                    file: CellView { data: None, fingerprint: fp, accessed: true },
                };
                let slots0 = spec_upsert(old(self)@.slots, id@);
                let i = first_index(slots0, id@);
                final(self)@.slots == slots0.update(i, ns)
            }),
    {
        let i = self.slot_index(id);
        let ghost slots0 = self@.slots;
        let bytes: Vec<u8> = text.as_str().as_bytes_vec();
        let fp: u128 = load_fingerprint(&Ok(bytes));
        let src = Source::new(id.dup(), text);
        let fresh = FileSlot::from_parts(
            id.dup(),
            SlotCell::preloaded(Ok(src), fp),
            SlotCell::new_accessed(fp),
        );
        let ghost nsv = fresh@;
        let _ = self.slots.remove(i);
        self.slots.insert(i, fresh);
        proof {
            assert(self@.slots =~= slots0.update(i as int, nsv));
            assert(wf_world(self@));
        }
    }
}

} // verus!
