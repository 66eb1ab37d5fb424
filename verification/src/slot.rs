use vstd::prelude::*;

use crate::cell::{
    key_of_load, load_digest, result_view, spec_hit, spec_mark, spec_provide, spec_reset,
    CellValue, CellView, ProvideOutcome, SlotCell,
};
use crate::error::ReadError;
use crate::id::{resolve, spec_joined, spec_normalize, IdView, ResourceId};
use crate::source::{spec_decode_text, Source, SourceView};

verus! {

/// The ghost shape of a [`FileSlot`]: its identifier and its two cache cells.
pub struct SlotView {
    pub id: IdView,
    pub source: CellView<SourceView>,
    pub file: CellView<Seq<u8>>,
}

/// How the embedder must perform a pending load: read all of standard input,
/// or read the file at the resolved real path.
#[derive(Debug)]
pub enum LoadPlan {
    /// Read standard input to the end.
    Stdin,
    /// Read the file at this resolved path from disk.
    Disk(String),
}

/// The ghost shape of a [`LoadPlan`].
pub enum PlanView {
    Stdin,
    Disk(Seq<char>),
}

impl View for LoadPlan {
    type V = PlanView;

    closed spec fn view(&self) -> PlanView {
        match self {
            LoadPlan::Stdin => PlanView::Stdin,
            LoadPlan::Disk(p) => PlanView::Disk(p@),
        }
    }
}

/// The outcome of starting a request: either the cache answered it, or the
/// embedder must perform the load described by the plan and hand the outcome
/// back.
#[derive(Debug)]
pub enum Probe<T> {
    /// The request is answered from the cache (or from an immediate
    /// resolution failure) without touching the file system.
    Hit(Result<T, ReadError>),
    /// The request needs this load performed.
    Miss(LoadPlan),
}

/// The ghost shape of a [`Probe`].
pub enum ProbeView<V> {
    Hit(Result<V, ReadError>),
    Miss(PlanView),
}

/// The ghost content of a probe outcome.
pub open spec fn probe_view<T: View>(p: Probe<T>) -> ProbeView<T::V> {
    match p {
        Probe::Hit(r) => ProbeView::Hit(result_view(r)),
        Probe::Miss(plan) => ProbeView::Miss(plan@),
    }
}

/// The decoder for the parsed-text cell of the slot with identifier `id`.
pub open spec fn spec_source_decoder(id: IdView) -> spec_fn(
    Seq<u8>,
    Option<SourceView>,
) -> Result<SourceView, ReadError> {
    |b: Seq<u8>, p: Option<SourceView>| spec_decode_text(id, b, p)
}

/// The identity decoder for the raw-bytes cell.
pub open spec fn spec_bytes_decoder() -> spec_fn(Seq<u8>, Option<Seq<u8>>) -> Result<
    Seq<u8>,
    ReadError,
> {
    |b: Seq<u8>, p: Option<Seq<u8>>| Ok(b)
}

/// Where a missed request for `id` must be loaded from: standard input for
/// the well-known identifier; otherwise the resolved real path below `root`,
/// unless resolution escapes the root, in which case the request fails
/// immediately with [`ReadError::AccessDenied`] and no load happens at all.
pub open spec fn spec_plan(root: Seq<char>, id: IdView) -> Result<PlanView, ReadError> {
    if id.stdin {
        Ok(PlanView::Stdin)
    } else {
        match spec_normalize(id.vpath) {
            Some(parts) => Ok(PlanView::Disk(spec_joined(root, parts))),
            None => Err(ReadError::AccessDenied),
        }
    }
}

/// What starting a request on the text cell does to a slot.
pub open spec fn spec_slot_probe_source(s: SlotView, root: Seq<char>) -> (SlotView, ProbeView<
    SourceView,
>) {
    if spec_hit(s.source) {
        (s, ProbeView::Hit(s.source.data.unwrap()))
    } else {
        let c = spec_mark(s.source);
        match spec_plan(root, s.id) {
            Ok(plan) => (SlotView { source: c, ..s }, ProbeView::Miss(plan)),
            Err(e) => {
                let p = spec_provide(c, Err(e), spec_source_decoder(s.id));
                (SlotView { source: p.cell, ..s }, ProbeView::Hit(p.result))
            },
        }
    }
}

/// What starting a request on the raw-bytes cell does to a slot.
pub open spec fn spec_slot_probe_file(s: SlotView, root: Seq<char>) -> (SlotView, ProbeView<
    Seq<u8>,
>) {
    if spec_hit(s.file) {
        (s, ProbeView::Hit(s.file.data.unwrap()))
    } else {
        let c = spec_mark(s.file);
        match spec_plan(root, s.id) {
            Ok(plan) => (SlotView { file: c, ..s }, ProbeView::Miss(plan)),
            Err(e) => {
                let p = spec_provide(c, Err(e), spec_bytes_decoder());
                (SlotView { file: p.cell, ..s }, ProbeView::Hit(p.result))
            },
        }
    }
}

/// Root confinement, stated over a whole probe. For a slot whose virtual
/// path escapes the project root, no probe ever hands out a load plan, so
/// the file system is never touched for it. The denial itself is the answer
/// whenever the cell holds no cached outcome; on a cell carrying one from an
/// earlier cycle it is also the answer, unless the stored fingerprint equals
/// the denial's own digest — the accepted fingerprint-as-equality
/// approximation — in which case the cached outcome (itself a cached denial,
/// short of a 128-bit collision) is returned instead.
pub proof fn lemma_root_escape_denied(s: SlotView, root: Seq<char>)
    requires
        !s.id.stdin,
        spec_normalize(s.id.vpath) is None,
    ensures
        !(spec_slot_probe_source(s, root).1 is Miss),
        !(spec_slot_probe_file(s, root).1 is Miss),
        s.source.data is None ==> spec_slot_probe_source(s, root).1 == ProbeView::<
            SourceView,
        >::Hit(Err(ReadError::AccessDenied)),
        s.file.data is None ==> spec_slot_probe_file(s, root).1 == ProbeView::<Seq<u8>>::Hit(
            Err(ReadError::AccessDenied),
        ),
        (!s.source.accessed && s.source.fingerprint != load_digest(
            key_of_load(Err(ReadError::AccessDenied)),
        )) ==> spec_slot_probe_source(s, root).1 == ProbeView::<SourceView>::Hit(
            Err(ReadError::AccessDenied),
        ),
        (!s.file.accessed && s.file.fingerprint != load_digest(
            key_of_load(Err(ReadError::AccessDenied)),
        )) ==> spec_slot_probe_file(s, root).1 == ProbeView::<Seq<u8>>::Hit(
            Err(ReadError::AccessDenied),
        ),
{
}

/// Once a cycle has answered a request for a slot's text view, any further
/// request within the same cycle is answered from the cache: the probe hits,
/// no load plan is handed out (so no I/O can happen), and the slot is left
/// exactly as it was.
pub proof fn lemma_second_request_hits(s: SlotView, root: Seq<char>)
    requires
        spec_hit(s.source),
    ensures
        spec_slot_probe_source(s, root) == (s, ProbeView::<SourceView>::Hit(
            s.source.data.unwrap(),
        )),
{
}

/// Holds the cached data for one resource identifier.
///
/// Both cells can be populated if the resource is both imported as text and
/// read as raw bytes. A slot is created on first reference and lives for the
/// whole session; only the content inside its cells is refreshed.
pub struct FileSlot {
    id: ResourceId,
    source: SlotCell<Source>,
    file: SlotCell<Vec<u8>>,
}

impl View for FileSlot {
    type V = SlotView;

    closed spec fn view(&self) -> SlotView {
        SlotView { id: self.id@, source: self.source@, file: self.file@ }
    }
}

/// A slot is well formed when a cached parsed-text value carries the slot's
/// own identifier, so an in-place edit keeps the identity of the resource.
pub open spec fn slot_wf(s: SlotView) -> bool {
    s.source.data matches Some(Ok(v)) ==> v.id == s.id
}

impl FileSlot {
    /// Creates a new, empty slot for `id`.
    pub fn new(id: ResourceId) -> (s: FileSlot)
        ensures
            s@.id == id@,
            s@.source.data is None,
            s@.source.fingerprint == 0,
            !s@.source.accessed,
            s@.file.data is None,
            s@.file.fingerprint == 0,
            !s@.file.accessed,
            slot_wf(s@),
    {
        FileSlot { id, source: SlotCell::new(), file: SlotCell::new() }
    }

    /// Assembles a slot from its parts, for pre-populating the table with an
    /// in-memory resource.
    pub fn from_parts(id: ResourceId, source: SlotCell<Source>, file: SlotCell<Vec<u8>>) -> (s:
        FileSlot)
        ensures
            s@.id == id@,
            s@.source == source@,
            s@.file == file@,
    {
        FileSlot { id, source, file }
    }

    /// The slot's identifier.
    pub fn id(&self) -> (r: &ResourceId)
        ensures
            r@ == self@.id,
    {
        &self.id
    }

    /// The cached parsed-text outcome, if any.
    pub fn source_cache(&self) -> (r: Option<&Result<Source, ReadError>>)
        ensures
            match r {
                Some(v) => self@.source.data == Some(result_view(*v)),
                None => self@.source.data is None,
            },
    {
        self.source.get()
    }

    /// The cached raw-bytes outcome, if any.
    pub fn file_cache(&self) -> (r: Option<&Result<Vec<u8>, ReadError>>)
        ensures
            match r {
                Some(v) => self@.file.data == Some(result_view(*v)),
                None => self@.file.data is None,
            },
    {
        self.file.get()
    }

    /// Whether the resource was requested, as text or as bytes, in the
    /// ongoing compilation cycle.
    pub fn accessed(&self) -> (r: bool)
        ensures
            r == (self@.source.accessed || self@.file.accessed),
    {
        self.source.accessed() || self.file.accessed()
    }

    /// Marks the slot as not yet requested in preparation of the next cycle.
    /// Cached content is kept.
    pub fn reset(&mut self)
        ensures
            final(self)@.id == old(self)@.id,
            final(self)@.source == spec_reset(old(self)@.source),
            final(self)@.file == spec_reset(old(self)@.file),
    {
        self.source.reset();
        self.file.reset();
    }

    /// Starts a request for the parsed-text view: answers it from the cache
    /// when possible, otherwise marks the cell as requested and tells the
    /// embedder what to load. A virtual path escaping the root is denied
    /// right here, cached like any other load failure, and never loaded.
    pub fn probe_source(&mut self, root: &str) -> (r: Probe<Source>)
        ensures
            (final(self)@, probe_view(r)) == spec_slot_probe_source(old(self)@, root@),
    {
        match self.source.begin_access() {
            Some(v) => Probe::Hit(v),
            None => {
                if self.id.is_stdin() {
                    Probe::Miss(LoadPlan::Stdin)
                } else {
                    match resolve(root, &self.id) {
                        Ok(path) => Probe::Miss(LoadPlan::Disk(path)),
                        Err(e) => Probe::Hit(self.provide_source(Err(e))),
                    }
                }
            },
        }
    }

    /// Starts a request for the raw-bytes view, exactly like
    /// [`FileSlot::probe_source`] but on the bytes cell.
    pub fn probe_file(&mut self, root: &str) -> (r: Probe<Vec<u8>>)
        ensures
            (final(self)@, probe_view(r)) == spec_slot_probe_file(old(self)@, root@),
    {
        match self.file.begin_access() {
            Some(v) => Probe::Hit(v),
            None => {
                if self.id.is_stdin() {
                    Probe::Miss(LoadPlan::Stdin)
                } else {
                    match resolve(root, &self.id) {
                        Ok(path) => Probe::Miss(LoadPlan::Disk(path)),
                        Err(e) => Probe::Hit(self.provide_file(Err(e))),
                    }
                }
            },
        }
    }

    /// Concludes a request for the parsed-text view with the load outcome the
    /// embedder obtained: fingerprints it, reuses the cached value when the
    /// content is unchanged, and otherwise decodes (editing the previous
    /// value in place) and caches the outcome, failures included.
    pub fn provide_source(&mut self, load: Result<Vec<u8>, ReadError>) -> (r: Result<
        Source,
        ReadError,
    >)
        ensures
            ({
                let p = spec_provide(
                    old(self)@.source,
                    crate::cell::load_view(load),
                    spec_source_decoder(old(self)@.id),
                );
                &&& final(self)@.source == p.cell
                &&& result_view(r) == p.result
                &&& final(self)@.id == old(self)@.id
                &&& final(self)@.file == old(self)@.file
            }),
    {
        let fp = crate::cell::load_fingerprint(&load);
        if let Some(v) = self.source.check_reuse(fp) {
            return v;
        }
        let prev = self.source.take_prev();
        let value: Result<Source, ReadError> = match load {
            Ok(bytes) => crate::source::decode_text(&self.id, &bytes, prev),
            Err(e) => Err(e),
        };
        self.source.store(value)
    }

    /// Concludes a request for the raw-bytes view with the load outcome the
    /// embedder obtained; the decoder for raw bytes is the identity.
    pub fn provide_file(&mut self, load: Result<Vec<u8>, ReadError>) -> (r: Result<
        Vec<u8>,
        ReadError,
    >)
        ensures
            ({
                let p = spec_provide(
                    old(self)@.file,
                    crate::cell::load_view(load),
                    spec_bytes_decoder(),
                );
                &&& final(self)@.file == p.cell
                &&& result_view(r) == p.result
                &&& final(self)@.id == old(self)@.id
                &&& final(self)@.source == old(self)@.source
            }),
    {
        let fp = crate::cell::load_fingerprint(&load);
        if let Some(v) = self.file.check_reuse(fp) {
            return v;
        }
        let _ = self.file.take_prev();
        let value: Result<Vec<u8>, ReadError> = match load {
            Ok(bytes) => Ok(bytes),
            Err(e) => Err(e),
        };
        self.file.store(value)
    }
}

} // verus!
