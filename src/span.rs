//! Source locations and the span table that names each distinct span by a
//! small index, in first-seen order.
use indexmap::IndexSet;
use vstd::prelude::*;

verus! {

#[verifier::external_type_specification]
#[verifier::external_body]
#[verifier::reject_recursive_types(T)]
#[verifier::reject_recursive_types(S)]
pub struct ExIndexSet<T, S>(IndexSet<T, S>);

/// A span as stored in the table: file path, start offset, end offset.
pub type SpanRecord = (String, u64, u64);

/// The mathematical value of a `SpanRecord`.
pub type SpanKey = (Seq<char>, u64, u64);

pub open spec fn key_of(r: SpanRecord) -> SpanKey {
    (r.0@, r.1, r.2)
}

/// What an `IndexSet` of span records holds, in index order.
pub uninterp spec fn span_set_contents(s: IndexSet<SpanRecord>) -> Seq<SpanKey>;

/// Relies on `IndexSet::new`: a new set is empty.
#[verifier::external_body]
fn span_set_new() -> (r: IndexSet<SpanRecord>)
    ensures
        span_set_contents(r) == Seq::<SpanKey>::empty(),
{
    IndexSet::new()
}

/// Relies on `IndexSet::insert_full`: a value already present keeps its index
/// and leaves the set unchanged; a new value is appended at index `len()`.
#[verifier::external_body]
fn span_set_insert(s: &mut IndexSet<SpanRecord>, v: SpanRecord) -> (r: usize)
    ensures
        span_set_contents(*old(s)).contains(key_of(v)) ==> {
            &&& r < span_set_contents(*old(s)).len()
            &&& span_set_contents(*old(s))[r as int] == key_of(v)
            &&& span_set_contents(*final(s)) == span_set_contents(*old(s))
        },
        !span_set_contents(*old(s)).contains(key_of(v)) ==> {
            &&& r == span_set_contents(*old(s)).len()
            &&& span_set_contents(*final(s)) == span_set_contents(*old(s)).push(key_of(v))
        },
{
    s.insert_full(v).0
}

/// Relies on `IndexSet`'s `IntoIterator`: the values come out in index order.
#[verifier::external_body]
fn span_set_into_vec(s: IndexSet<SpanRecord>) -> (r: Vec<SpanRecord>)
    ensures
        r@.len() == span_set_contents(s).len(),
        forall|i: int| 0 <= i < r@.len() ==> key_of(#[trigger] r@[i]) == span_set_contents(s)[i],
{
    s.into_iter().collect()
}

/// The table after interning `k`: unchanged if `k` is already there,
/// otherwise `k` appended.
pub open spec fn intern_table(t: Seq<SpanKey>, k: SpanKey) -> Seq<SpanKey> {
    if t.contains(k) {
        t
    } else {
        t.push(k)
    }
}

/// The index that interning `k` into `t` yields: the position of its first
/// occurrence, or the end of the table for a new span.
pub open spec fn interned_index(t: Seq<SpanKey>, k: SpanKey) -> int {
    if t.contains(k) {
        choose|i: int| 0 <= i < t.len() && t[i] == k
    } else {
        t.len() as int
    }
}

/// An insertion-ordered set of distinct spans.
pub struct SpanTable {
    set: IndexSet<SpanRecord>,
}

impl SpanTable {
    pub closed spec fn view(&self) -> Seq<SpanKey> {
        span_set_contents(self.set)
    }

    /// The spans are distinct, and each starts no later than it ends.
    pub open spec fn wf(&self) -> bool {
        &&& self@.no_duplicates()
        &&& forall|i: int| 0 <= i < self@.len() ==> (#[trigger] self@[i]).1 <= self@[i].2
    }

    pub fn new() -> (r: SpanTable)
        ensures
            r.wf(),
            r@ == Seq::<SpanKey>::empty(),
    {
        SpanTable { set: span_set_new() }
    }

    /// Interns an already-resolved span, which must not end before it
    /// starts: equal spans get equal indices, new spans get the next free
    /// index.
    pub fn intern(&mut self, file: String, lo: u64, hi: u64) -> (r: usize)
        requires
            old(self).wf(),
            lo <= hi,
        ensures
            final(self).wf(),
            final(self)@ == intern_table(old(self)@, (file@, lo, hi)),
            r == interned_index(old(self)@, (file@, lo, hi)),
            r < final(self)@.len(),
            final(self)@[r as int] == (file@, lo, hi),
    {
        let ghost k: SpanKey = (file@, lo, hi);
        let ghost t = self@;
        let r = span_set_insert(&mut self.set, (file, lo, hi));
        proof {
            if t.contains(k) {
                let j = choose|j: int| 0 <= j < t.len() && t[j] == k;
                assert(t[r as int] == k);
                assert(j == r as int);
            } else {
                lemma_intern_keeps_distinct(t, k);
            }
            lemma_interned_index_bounded(t, k);
            lemma_interned_index_locates(t, k);
            assert forall|i: int| 0 <= i < self@.len() implies (#[trigger] self@[i]).1 <= self@[i].2 by {
                if i < t.len() {
                    assert(self@[i] == t[i]);
                }
            }
        }
        r
    }

    /// Resolves a source range and interns it. Fails, leaving the table as
    /// it was, when the range crosses files, lies in no real source file,
    /// or ends before it starts.
    pub fn intern_range(&mut self, range: &SrcRange) -> (r: Result<usize, LocationError>)
        requires
            old(self).wf(),
        ensures
            final(self).wf(),
            match resolve_range(*range) {
                Ok(k) => {
                    &&& r is Ok && r->Ok_0 == interned_index(old(self)@, k)
                    &&& final(self)@ == intern_table(old(self)@, k)
                },
                Err(e) => r == Err::<usize, LocationError>(e) && final(self)@ == old(self)@,
            },
    {
        match resolve(range) {
            Ok((file, lo, hi)) => Ok(self.intern(file, lo, hi)),
            Err(e) => Err(e),
        }
    }

    /// Hands out the spans in index order, consuming the table.
    pub fn export(self) -> (r: Vec<SpanRecord>)
        ensures
            r@.len() == self@.len(),
            forall|i: int| 0 <= i < r@.len() ==> key_of(#[trigger] r@[i]) == self@[i],
    {
        span_set_into_vec(self.set)
    }
}

/// The name under which a source file is known.
#[derive(Clone, Debug, PartialEq, Eq)]
pub enum FileName {
    /// A file on disk, by path.
    Real(String),
    /// Anything else: macro expansions, generated or virtual sources.
    Virtual(String),
}

/// A source file: where it begins in the global position space, and its name.
#[derive(Clone, Debug, PartialEq, Eq)]
pub struct SourceFile {
    pub start_pos: u64,
    pub name: FileName,
}

/// A position resolved to its file and its byte offset within that file.
#[derive(Clone, Debug, PartialEq, Eq)]
pub struct Loc {
    pub file: SourceFile,
    pub pos: u64,
}

/// The resolved ends of a half-open source range.
#[derive(Clone, Debug, PartialEq, Eq)]
pub struct SrcRange {
    pub lo: Loc,
    pub hi: Loc,
}

impl FileName {
    pub fn copy(&self) -> (r: FileName)
        ensures
            r == *self,
    {
        match self {
            FileName::Real(p) => FileName::Real(p.clone()),
            FileName::Virtual(p) => FileName::Virtual(p.clone()),
        }
    }
}

impl SrcRange {
    /// A copy of this range, equal to it.
    pub fn copy(&self) -> (r: SrcRange)
        ensures
            r == *self,
    {
        SrcRange {
            lo: Loc { file: SourceFile { start_pos: self.lo.file.start_pos, name: self.lo.file.name.copy() }, pos: self.lo.pos },
            hi: Loc { file: SourceFile { start_pos: self.hi.file.start_pos, name: self.hi.file.name.copy() }, pos: self.hi.pos },
        }
    }
}

pub fn copy_span(sp: &Option<SrcRange>) -> (r: Option<SrcRange>)
    ensures
        r == *sp,
{
    match sp {
        Some(x) => Some(x.copy()),
        None => None,
    }
}

/// Why a source range cannot be named in the span table; each variant
/// names the offending range by its file(s) and offsets.
#[derive(Clone, Debug, PartialEq, Eq)]
pub enum LocationError {
    /// The range starts in one file and ends in another.
    CrossesFiles { lo_file: FileName, lo: u64, hi_file: FileName, hi: u64 },
    /// The range lies in no real source file.
    NotASourceFile { file: FileName, lo: u64, hi: u64 },
    /// The range ends before it starts.
    Reversed { file: String, lo: u64, hi: u64 },
    /// The expression has no source range at all.
    NoLocation,
}

/// The span that a range denotes, or why it denotes none.
pub open spec fn resolve_range(r: SrcRange) -> Result<SpanKey, LocationError> {
    if r.lo.file.start_pos != r.hi.file.start_pos {
        Err(LocationError::CrossesFiles { lo_file: r.lo.file.name, lo: r.lo.pos, hi_file: r.hi.file.name, hi: r.hi.pos })
    } else {
        match r.lo.file.name {
            FileName::Real(p) => if r.lo.pos <= r.hi.pos {
                Ok((p@, r.lo.pos, r.hi.pos))
            } else {
                Err(LocationError::Reversed { file: p, lo: r.lo.pos, hi: r.hi.pos })
            },
            FileName::Virtual(_) => Err(LocationError::NotASourceFile { file: r.lo.file.name, lo: r.lo.pos, hi: r.hi.pos }),
        }
    }
}

pub fn resolve(r: &SrcRange) -> (res: Result<SpanRecord, LocationError>)
    ensures
        match res {
            Ok(v) => resolve_range(*r) == Ok::<SpanKey, LocationError>(key_of(v)) && v.1 <= v.2,
            Err(e) => resolve_range(*r) == Err::<SpanKey, LocationError>(e),
        },
{
    if r.lo.file.start_pos != r.hi.file.start_pos {
        return Err(
            LocationError::CrossesFiles {
                lo_file: r.lo.file.name.copy(),
                lo: r.lo.pos,
                hi_file: r.hi.file.name.copy(),
                hi: r.hi.pos,
            },
        );
    }
    match &r.lo.file.name {
        FileName::Real(p) => if r.lo.pos <= r.hi.pos {
            Ok((p.clone(), r.lo.pos, r.hi.pos))
        } else {
            Err(LocationError::Reversed { file: p.clone(), lo: r.lo.pos, hi: r.hi.pos })
        },
        FileName::Virtual(_) => Err(
            LocationError::NotASourceFile { file: r.lo.file.name.copy(), lo: r.lo.pos, hi: r.hi.pos },
        ),
    }
}

/// Interning keeps the spans of a table distinct.
pub proof fn lemma_intern_keeps_distinct(t: Seq<SpanKey>, k: SpanKey)
    requires
        t.no_duplicates(),
    ensures
        intern_table(t, k).no_duplicates(),
{
    let t2 = intern_table(t, k);
    assert forall|a: int, b: int| 0 <= a < b < t2.len() implies t2[a] != t2[b] by {
        if !t.contains(k) && b == t.len() {
            assert(t[a] == t2[a]);
        } else {
            assert(t[a] == t2[a] && t[b] == t2[b]);
        }
    }
}

/// After interning, the table holds the span at its interned index.
pub proof fn lemma_interned_index_locates(t: Seq<SpanKey>, k: SpanKey)
    ensures
        intern_table(t, k)[interned_index(t, k)] == k,
{
    if t.contains(k) {
        let i = interned_index(t, k);
        assert(0 <= i < t.len() && t[i] == k);
    }
}

/// Interning a span a second time yields the index of the first time and
/// leaves the table as the first time left it.
pub proof fn lemma_intern_idempotent(t: Seq<SpanKey>, k: SpanKey)
    requires
        t.no_duplicates(),
    ensures
        intern_table(intern_table(t, k), k) == intern_table(t, k),
        interned_index(intern_table(t, k), k) == interned_index(t, k),
{
    let t2 = intern_table(t, k);
    assert(t2.contains(k)) by {
        if !t.contains(k) {
            assert(t2[t.len() as int] == k);
        }
    }
    let i2 = interned_index(t2, k);
    assert(0 <= i2 < t2.len() && t2[i2] == k);
    if t.contains(k) {
        let i1 = interned_index(t, k);
        assert(t[i1] == k);
    } else {
        lemma_intern_keeps_distinct(t, k);
        if i2 < t.len() {
            assert(t[i2] == k);
        }
    }
}

/// An interned index lies within the table as it stands after interning.
pub proof fn lemma_interned_index_bounded(t: Seq<SpanKey>, k: SpanKey)
    ensures
        0 <= interned_index(t, k) < intern_table(t, k).len(),
{
    if t.contains(k) {
        let i = interned_index(t, k);
        assert(0 <= i < t.len() && t[i] == k);
    }
}

/// Interning a span that stands at position `i` of a table of distinct
/// spans returns `i` and leaves the table as it is.
pub proof fn lemma_reintern_returns_position(t: Seq<SpanKey>, k: SpanKey, i: int)
    requires
        t.no_duplicates(),
        0 <= i < t.len(),
        t[i] == k,
    ensures
        interned_index(t, k) == i,
        intern_table(t, k) == t,
{
    lemma_indices_are_positions(t);
}

/// In a table of distinct spans, the span at position `i` has index `i`:
/// the indices are exactly `0..len`, one per span.
pub proof fn lemma_indices_are_positions(t: Seq<SpanKey>)
    requires
        t.no_duplicates(),
    ensures
        forall|i: int| 0 <= i < t.len() ==> interned_index(t, #[trigger] t[i]) == i,
        forall|k: SpanKey| t.contains(k) ==> 0 <= #[trigger] interned_index(t, k) < t.len(),
{
    assert forall|i: int| 0 <= i < t.len() implies interned_index(t, #[trigger] t[i]) == i by {
        assert(t.contains(t[i]));
        let j = interned_index(t, t[i]);
        assert(0 <= j < t.len() && t[j] == t[i]);
    }
}

} // verus!
