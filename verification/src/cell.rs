use vstd::prelude::*;

use crate::error::ReadError;

verus! {

/// A value that can live in a cache cell: it has a ghost view and can hand
/// out a duplicate carrying the same view, so that the cell can return copies
/// of its cached content without losing it.
pub trait CellValue: View + Sized {
    /// A duplicate of this value with the same view.
    fn dup(&self) -> (r: Self)
        ensures
            r@ == self@,
    ;
}

impl CellValue for Vec<u8> {
    fn dup(&self) -> (r: Vec<u8>) {
        let mut out: Vec<u8> = Vec::new();
        let n: usize = self.len();
        let mut i: usize = 0;
        while i < n
            invariant
                0 <= i <= n,
                n == self.len(),
                out@ =~= self@.take(i as int),
            decreases n - i,
        {
            out.push(self[i]);
            i += 1;
        }
        proof {
            assert(self@.take(n as int) =~= self@);
        }
        out
    }
}

/// The ghost shape of a [`SlotCell`]: the optionally cached outcome, the
/// fingerprint of the load that produced it, and whether the cell was
/// requested since the last cycle reset.
pub struct CellView<V> {
    pub data: Option<Result<V, ReadError>>,
    pub fingerprint: u128,
    pub accessed: bool,
}

/// The ghost content of a cached or returned outcome.
pub open spec fn result_view<T: View>(r: Result<T, ReadError>) -> Result<T::V, ReadError> {
    match r {
        Ok(t) => Ok(t@),
        Err(e) => Err(e),
    }
}

/// What the load fingerprint covers: the raw bytes of a successful load, or
/// the code of the failure, so that transitions between readable and
/// unreadable states also count as a content change.
pub open spec fn key_of_load(load: Result<Seq<u8>, ReadError>) -> Result<Seq<u8>, int> {
    match load {
        Ok(b) => Ok(b),
        Err(e) => Err(e.code()),
    }
}

/// The ghost content of a load outcome handed in by the embedder.
pub open spec fn load_view(load: Result<Vec<u8>, ReadError>) -> Result<Seq<u8>, ReadError> {
    match load {
        Ok(b) => Ok(b@),
        Err(e) => Err(e),
    }
}

/// The 128-bit content fingerprint of a load outcome. Collisions are treated
/// as negligible at this width: the contracts only ever promise reuse when
/// fingerprints are equal, and redecoding when they differ.
pub uninterp spec fn load_digest(key: Result<Seq<u8>, int>) -> u128;

/// Relies on `typst_utils::hash128`: a 128-bit siphash (with fixed keys) of
/// the value's hash stream, so it is determined by the loaded bytes or, for a
/// failed load, by the failure kind alone.
#[verifier::external_body]
pub fn load_fingerprint(load: &Result<Vec<u8>, ReadError>) -> (f: u128)
    ensures
        f == load_digest(key_of_load(load_view(*load))),
{
    typst_utils::hash128(load)
}

/// Fast-path state: the cell was already requested this cycle and holds a
/// cached outcome.
pub open spec fn spec_hit<V>(c: CellView<V>) -> bool {
    c.accessed && c.data is Some
}

/// The cell after being marked as requested.
pub open spec fn spec_mark<V>(c: CellView<V>) -> CellView<V> {
    CellView { accessed: true, ..c }
}

/// The cell after a cycle reset: only the accessed flag is cleared; cached
/// content and fingerprint survive the cycle boundary.
pub open spec fn spec_reset<V>(c: CellView<V>) -> CellView<V> {
    CellView { accessed: false, ..c }
}

/// The cell after taking the previous value out for the decoder to reuse.
pub open spec fn spec_clear<V>(c: CellView<V>) -> CellView<V> {
    CellView { data: None, ..c }
}

/// The cell after recording a fresh load fingerprint.
pub open spec fn spec_set_fingerprint<V>(c: CellView<V>, fp: u128) -> CellView<V> {
    CellView { fingerprint: fp, ..c }
}

/// The cell after caching a newly decoded outcome.
pub open spec fn spec_store<V>(c: CellView<V>, value: Result<V, ReadError>) -> CellView<V> {
    CellView { data: Some(value), ..c }
}

/// What one complete request does to a cell, as a function of the cell, the
/// load outcome, and the decoder. `loaded` says whether the request had to
/// perform the load at all, `decoded` whether it had to run the decoder.
pub struct RequestOutcome<V> {
    pub cell: CellView<V>,
    pub result: Result<V, ReadError>,
    pub loaded: bool,
    pub decoded: bool,
}

/// What concluding a request with a fresh load outcome does to a cell.
/// `decoded` says whether the decoder had to run.
pub struct ProvideOutcome<V> {
    pub cell: CellView<V>,
    pub result: Result<V, ReadError>,
    pub decoded: bool,
}

/// The post-load part of a request: if the fresh load's fingerprint equals
/// the stored one and an outcome is cached, the cached outcome is returned
/// without decoding; otherwise the decoder runs on the loaded bytes together
/// with the previous successful value, and its outcome (or the load failure)
/// replaces the cache.
pub open spec fn spec_provide<V>(
    c: CellView<V>,
    load: Result<Seq<u8>, ReadError>,
    decode: spec_fn(Seq<u8>, Option<V>) -> Result<V, ReadError>,
) -> ProvideOutcome<V> {
    let fp = load_digest(key_of_load(load));
    if fp == c.fingerprint && c.data is Some {
        ProvideOutcome {
            cell: spec_set_fingerprint(c, fp),
            result: c.data.unwrap(),
            decoded: false,
        }
    } else {
        let prev = match c.data {
            Some(Ok(v)) => Some(v),
            _ => None,
        };
        let value = match load {
            Ok(b) => decode(b, prev),
            Err(e) => Err(e),
        };
        ProvideOutcome {
            cell: CellView { data: Some(value), fingerprint: fp, accessed: c.accessed },
            result: value,
            decoded: load is Ok,
        }
    }
}

/// The complete request protocol of a cell:
/// 1. if the cell was already requested this cycle and holds an outcome, that
///    outcome is returned unchanged without loading or decoding;
/// 2. otherwise the load happens; if its fingerprint equals the stored one
///    and an outcome is cached, the cached outcome is returned undecoded;
/// 3. otherwise the decoder runs on the loaded bytes together with the
///    previous successful value, and its outcome (or the load failure) is
///    cached and returned.
pub open spec fn spec_request<V>(
    c: CellView<V>,
    load: Result<Seq<u8>, ReadError>,
    decode: spec_fn(Seq<u8>, Option<V>) -> Result<V, ReadError>,
) -> RequestOutcome<V> {
    if spec_hit(c) {
        RequestOutcome { cell: c, result: c.data.unwrap(), loaded: false, decoded: false }
    } else {
        let p = spec_provide(spec_mark(c), load, decode);
        RequestOutcome { cell: p.cell, result: p.result, loaded: true, decoded: p.decoded }
    }
}

/// A memoizing cache cell: an optionally cached decode outcome, the 128-bit
/// fingerprint of the load that produced it, and a flag telling whether the
/// cell was requested since the last cycle reset.
///
/// The cell itself never performs a load: its owner runs the request protocol
/// by calling [`SlotCell::begin_access`] first and, on a miss, handing the
/// load outcome to the steps that conclude the request.
pub struct SlotCell<T> {
    data: Option<Result<T, ReadError>>,
    fingerprint: u128,
    accessed: bool,
}

impl<T: CellValue> View for SlotCell<T> {
    type V = CellView<T::V>;

    closed spec fn view(&self) -> CellView<T::V> {
        CellView {
            data: match self.data {
                None => None,
                Some(r) => Some(result_view(r)),
            },
            fingerprint: self.fingerprint,
            accessed: self.accessed,
        }
    }
}

/// A duplicate of a cached outcome with the same view.
pub fn dup_result<T: CellValue>(r: &Result<T, ReadError>) -> (c: Result<T, ReadError>)
    ensures
        result_view(c) == result_view(*r),
{
    match r {
        Ok(t) => Ok(t.dup()),
        Err(e) => Err(*e),
    }
}

impl<T: CellValue> SlotCell<T> {
    /// Creates a new, empty cell.
    pub fn new() -> (c: SlotCell<T>)
        ensures
            c@.data is None,
            c@.fingerprint == 0,
            !c@.accessed,
    {
        SlotCell { data: None, fingerprint: 0, accessed: false }
    }

    /// Creates a cell already holding a decoded outcome, as if a request with
    /// the given fingerprint had just concluded.
    pub fn preloaded(value: Result<T, ReadError>, fingerprint: u128) -> (c: SlotCell<T>)
        ensures
            c@.data == Some(result_view(value)),
            c@.fingerprint == fingerprint,
            c@.accessed,
    {
        SlotCell { data: Some(value), fingerprint, accessed: true }
    }

    /// Creates an empty cell already marked as requested, carrying the given
    /// fingerprint.
    pub fn new_accessed(fingerprint: u128) -> (c: SlotCell<T>)
        ensures
            c@.data is None,
            c@.fingerprint == fingerprint,
            c@.accessed,
    {
        SlotCell { data: None, fingerprint, accessed: true }
    }

    /// Whether the cell was requested in the ongoing compilation cycle.
    pub fn accessed(&self) -> (r: bool)
        ensures
            r == self@.accessed,
    {
        self.accessed
    }

    /// Marks the cell as not yet requested in preparation of the next cycle.
    /// Cached content is kept.
    pub fn reset(&mut self)
        ensures
            final(self)@ == spec_reset(old(self)@),
    {
        self.accessed = false;
    }

    /// The cached outcome, if any.
    pub fn get(&self) -> (r: Option<&Result<T, ReadError>>)
        ensures
            match r {
                Some(v) => self@.data == Some(result_view(*v)),
                None => self@.data is None,
            },
    {
        self.data.as_ref()
    }

    /// The within-cycle fast path: if the cell was already requested this
    /// cycle and holds an outcome, returns a copy of it and leaves the cell
    /// untouched; otherwise marks the cell as requested and asks the caller
    /// to perform the load.
    pub fn begin_access(&mut self) -> (r: Option<Result<T, ReadError>>)
        ensures
            spec_hit(old(self)@) ==> {
                &&& final(self)@ == old(self)@
                &&& r matches Some(v) && result_view(v) == old(self)@.data.unwrap()
            },
            !spec_hit(old(self)@) ==> {
                &&& final(self)@ == spec_mark(old(self)@)
                &&& r is None
            },
    {
        if self.accessed {
            if let Some(d) = &self.data {
                return Some(dup_result(d));
            }
        }
        self.accessed = true;
        None
    }

    /// The cross-cycle fast path: records the fingerprint of the fresh load;
    /// if it matches the stored one and an outcome is cached, returns a copy
    /// of the cached outcome so that no decode runs.
    pub fn check_reuse(&mut self, fp: u128) -> (r: Option<Result<T, ReadError>>)
        ensures
            final(self)@ == spec_set_fingerprint(old(self)@, fp),
            (old(self)@.fingerprint == fp && old(self)@.data is Some) ==> (r matches Some(v)
                && result_view(v) == old(self)@.data.unwrap()),
            !(old(self)@.fingerprint == fp && old(self)@.data is Some) ==> r is None,
    {
        let same: bool = self.fingerprint == fp;
        self.fingerprint = fp;
        if same {
            if let Some(d) = &self.data {
                return Some(dup_result(d));
            }
        }
        None
    }

    /// Takes the previous successful value out of the cell, for the decoder
    /// to edit in place rather than allocate anew.
    pub fn take_prev(&mut self) -> (p: Option<T>)
        ensures
            final(self)@ == spec_clear(old(self)@),
            (old(self)@.data matches Some(Ok(v)) ==> p matches Some(t) && t@ == v),
            !(old(self)@.data matches Some(Ok(_))) ==> p is None,
    {
        match self.data.take() {
            Some(Ok(t)) => Some(t),
            _ => None,
        }
    }

    /// Caches a newly decoded outcome and returns it. Failures are cached
    /// exactly like successes, so they are not retried within an unchanged
    /// cycle.
    pub fn store(&mut self, value: Result<T, ReadError>) -> (r: Result<T, ReadError>)
        ensures
            final(self)@ == spec_store(old(self)@, result_view(value)),
            result_view(r) == result_view(value),
    {
        let copy = dup_result(&value);
        self.data = Some(copy);
        value
    }
}

/// Requesting a cell twice within one cycle, with no reset in between, loads
/// and decodes nothing the second time and returns the same outcome, leaving
/// the cell exactly as the first request left it.
pub proof fn lemma_idempotent_fast_path<V>(
    c: CellView<V>,
    load1: Result<Seq<u8>, ReadError>,
    load2: Result<Seq<u8>, ReadError>,
    decode: spec_fn(Seq<u8>, Option<V>) -> Result<V, ReadError>,
)
    ensures
        ({
            let first = spec_request(c, load1, decode);
            let second = spec_request(first.cell, load2, decode);
            &&& !second.loaded
            &&& !second.decoded
            &&& second.result == first.result
            &&& second.cell == first.cell
        }),
{
}

/// If the bytes behind a cell are unchanged between two cycles (with a reset
/// in between), the second cycle does not decode again and returns the very
/// outcome cached by the first.
pub proof fn lemma_content_stable_reuse<V>(
    c: CellView<V>,
    bytes: Seq<u8>,
    decode: spec_fn(Seq<u8>, Option<V>) -> Result<V, ReadError>,
)
    requires
        !spec_hit(c),
    ensures
        ({
            let first = spec_request(c, Ok(bytes), decode);
            let second = spec_request(spec_reset(first.cell), Ok(bytes), decode);
            &&& !second.decoded
            &&& second.result == first.result
            &&& second.cell.data == first.cell.data
        }),
{
}

/// If the bytes behind a cell change between two cycles (so that their
/// fingerprints differ), the second cycle decodes exactly once, passes the
/// previously decoded value along as context for in-place reuse, and replaces
/// the stored fingerprint with the new one.
pub proof fn lemma_change_triggers_redecode<V>(
    c: CellView<V>,
    bytes1: Seq<u8>,
    bytes2: Seq<u8>,
    decode: spec_fn(Seq<u8>, Option<V>) -> Result<V, ReadError>,
)
    requires
        !spec_hit(c),
        load_digest(Ok(bytes1)) != load_digest(Ok(bytes2)),
    ensures
        ({
            let first = spec_request(c, Ok(bytes1), decode);
            let second = spec_request(spec_reset(first.cell), Ok(bytes2), decode);
            let prev = match first.result {
                Ok(v) => Some(v),
                Err(_) => None,
            };
            &&& second.decoded
            &&& second.result == decode(bytes2, prev)
            &&& second.cell.fingerprint == load_digest(Ok(bytes2))
            &&& second.cell.data == Some(decode(bytes2, prev))
        }),
{
}

} // verus!
