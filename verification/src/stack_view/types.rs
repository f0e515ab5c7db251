//! Core types for the stack frame panel: identifiers, path segments,
//! [`NavigationPath`] and its builder, render cursors and expansion phases.

use vstd::prelude::*;

verus! {

/// Maximum number of static fields rendered per object before overflow marker.
pub const STATIC_FIELDS_RENDER_LIMIT: usize = 20;

/// HPROF thread serial number.
#[derive(Hash, PartialEq, Eq, Clone, Copy, Debug, Structural)]
pub struct ThreadId(pub u32);

/// HPROF STACK_FRAME serial.
#[derive(Hash, PartialEq, Eq, Clone, Copy, Debug, Structural)]
pub struct FrameId(pub u64);

/// Collection (array/list) object ID.
#[derive(Hash, PartialEq, Eq, Clone, Copy, Debug, Structural)]
pub struct CollectionId(pub u64);

/// Variable index within a frame.
#[derive(Hash, PartialEq, Eq, Clone, Copy, Debug, Structural)]
pub struct VarIdx(pub usize);

/// Instance field index within an object.
#[derive(Hash, PartialEq, Eq, Clone, Copy, Debug, Structural)]
pub struct FieldIdx(pub usize);

/// Static field index within an object's class.
#[derive(Hash, PartialEq, Eq, Clone, Copy, Debug, Structural)]
pub struct StaticFieldIdx(pub usize);

/// Entry index within a collection.
#[derive(Hash, PartialEq, Eq, Clone, Copy, Debug, Structural)]
pub struct EntryIdx(pub usize);

/// Chunk offset within a paginated collection.
#[derive(Hash, PartialEq, Eq, Clone, Copy, Debug, Structural)]
pub struct ChunkOffset(pub usize);

/// One hop in a [`NavigationPath`].
///
/// `Frame` is always at index 0, `Var` at index 1 when present, all other
/// variants at index 2 and beyond.
#[derive(Hash, PartialEq, Eq, Clone, Copy, Debug, Structural)]
pub enum PathSegment {
    /// A stack frame (must be at position 0).
    Frame(FrameId),
    /// A local variable (must be at position 1).
    Var(VarIdx),
    /// An instance field at the given index.
    Field(FieldIdx),
    /// A static field at the given index.
    StaticField(StaticFieldIdx),
    /// An entry in a collection.
    CollectionEntry(CollectionId, EntryIdx),
}

/// The structural rule of a navigation path: a frame first, a variable
/// second when the path is longer, and neither frames nor variables after.
pub open spec fn path_well_formed(s: Seq<PathSegment>) -> bool {
    &&& s.len() >= 1
    &&& s[0] is Frame
    &&& s.len() >= 2 ==> s[1] is Var
    &&& forall|i: int| 2 <= i < s.len() ==> !(#[trigger] s[i] is Frame) && !(s[i] is Var)
}

/// Composable semantic identity for a position in the stack tree.
///
/// Scoped to one thread's stack. Built through [`NavigationPathBuilder`].
#[derive(Hash, PartialEq, Eq, Clone, Debug)]
pub struct NavigationPath(Vec<PathSegment>);

impl View for NavigationPath {
    type V = Seq<PathSegment>;

    closed spec fn view(&self) -> Seq<PathSegment> {
        self.0@
    }
}

/// Equality of two segments, decided field by field.
pub fn segment_eq(a: &PathSegment, b: &PathSegment) -> (r: bool)
    ensures
        r == (*a == *b),
{
    match (a, b) {
        (PathSegment::Frame(x), PathSegment::Frame(y)) => x.0 == y.0,
        (PathSegment::Var(x), PathSegment::Var(y)) => x.0 == y.0,
        (PathSegment::Field(x), PathSegment::Field(y)) => x.0 == y.0,
        (PathSegment::StaticField(x), PathSegment::StaticField(y)) => x.0 == y.0,
        (PathSegment::CollectionEntry(c, e), PathSegment::CollectionEntry(d, f)) => c.0 == d.0
            && e.0 == f.0,
        _ => false,
    }
}

/// Whether two segment sequences are equal, decided element by element.
pub fn segments_eq(a: &[PathSegment], b: &[PathSegment]) -> (r: bool)
    ensures
        r == (a@ == b@),
{
    if a.len() != b.len() {
        return false;
    }
    let mut i: usize = 0;
    while i < a.len()
        invariant
            a@.len() == b@.len(),
            i <= a@.len(),
            forall|j: int| 0 <= j < i ==> a@[j] == b@[j],
        decreases a@.len() - i,
    {
        if !segment_eq(&a[i], &b[i]) {
            return false;
        }
        i = i + 1;
    }
    assert(a@ =~= b@);
    true
}

/// Whether `a` starts with the segments of `b`.
pub fn segments_start_with(a: &[PathSegment], b: &[PathSegment]) -> (r: bool)
    ensures
        r == (a@.len() >= b@.len() && a@.take(b@.len() as int) == b@),
{
    if a.len() < b.len() {
        return false;
    }
    let mut i: usize = 0;
    while i < b.len()
        invariant
            a@.len() >= b@.len(),
            i <= b@.len(),
            forall|j: int| 0 <= j < i ==> a@[j] == b@[j],
        decreases b@.len() - i,
    {
        if !segment_eq(&a[i], &b[i]) {
            assert(a@.take(b@.len() as int)[i as int] != b@[i as int]);
            return false;
        }
        i = i + 1;
    }
    assert(a@.take(b@.len() as int) =~= b@);
    true
}

impl NavigationPath {
    /// Returns the segments as a slice.
    pub fn segments(&self) -> (r: &[PathSegment])
        ensures
            r@ == self@,
    {
        self.0.as_slice()
    }

    /// Number of segments.
    pub fn len(&self) -> (r: usize)
        ensures
            r == self@.len(),
    {
        self.0.len()
    }

    /// Constructs a `NavigationPath` from segments without validation.
    pub fn from_segments(segs: Vec<PathSegment>) -> (r: NavigationPath)
        ensures
            r@ == segs@,
    {
        NavigationPath(segs)
    }

    /// Constructs a raw `NavigationPath` from segments without validation.
    pub fn from_raw(segs: Vec<PathSegment>) -> (r: NavigationPath)
        ensures
            r@ == segs@,
    {
        NavigationPath(segs)
    }

    /// A copy of the path.
    pub fn duplicate(&self) -> (r: NavigationPath)
        ensures
            r@ == self@,
    {
        let mut v: Vec<PathSegment> = Vec::new();
        let mut i: usize = 0;
        while i < self.0.len()
            invariant
                i <= self.0@.len(),
                v@ == self.0@.subrange(0, i as int),
            decreases self.0@.len() - i,
        {
            v.push(self.0[i]);
            i = i + 1;
            assert(v@ =~= self.0@.subrange(0, i as int));
        }
        assert(self.0@.subrange(0, self.0@.len() as int) =~= self.0@);
        NavigationPath(v)
    }

    /// Whether two paths have the same segments.
    pub fn same(&self, other: &NavigationPath) -> (r: bool)
        ensures
            r == (self@ == other@),
    {
        segments_eq(self.0.as_slice(), other.0.as_slice())
    }

    /// Returns the parent path, or `None` if this is a Frame-only path (depth 1).
    ///
    /// Depth 1 gives `None`; deeper paths lose their last segment.
    pub fn parent(&self) -> (r: Option<NavigationPath>)
        ensures
            self@.len() <= 1 ==> r is None,
            self@.len() > 1 ==> (r matches Some(p) && p@ == self@.drop_last()),
    {
        if self.0.len() <= 1 {
            return None;
        }
        let mut segs = self.duplicate().0;
        segs.pop();
        Some(NavigationPath(segs))
    }
}

/// Builder for [`NavigationPath`] with move semantics to avoid clones.
pub struct NavigationPathBuilder {
    segments: Vec<PathSegment>,
}

impl View for NavigationPathBuilder {
    type V = Seq<PathSegment>;

    closed spec fn view(&self) -> Seq<PathSegment> {
        self.segments@
    }
}

impl NavigationPathBuilder {
    /// Builds a depth-1 path containing only a frame segment.
    pub fn frame_only(frame_id: FrameId) -> (r: NavigationPath)
        ensures
            r@ == seq![PathSegment::Frame(frame_id)],
            path_well_formed(r@),
    {
        let mut v: Vec<PathSegment> = Vec::new();
        v.push(PathSegment::Frame(frame_id));
        NavigationPath(v)
    }

    /// Starts a depth-2 path with a frame and variable segment.
    pub fn new(frame_id: FrameId, var_idx: VarIdx) -> (r: Self)
        ensures
            r@ == seq![PathSegment::Frame(frame_id), PathSegment::Var(var_idx)],
            path_well_formed(r@),
    {
        let mut v: Vec<PathSegment> = Vec::new();
        v.push(PathSegment::Frame(frame_id));
        v.push(PathSegment::Var(var_idx));
        NavigationPathBuilder { segments: v }
    }

    /// Takes ownership of an existing path to extend it further.
    pub fn extend(path: NavigationPath) -> (r: Self)
        ensures
            r@ == path@,
    {
        NavigationPathBuilder { segments: path.0 }
    }

    /// Appends an instance field segment.
    pub fn field(self, idx: FieldIdx) -> (r: Self)
        ensures
            r@ == self@.push(PathSegment::Field(idx)),
            path_well_formed(self@) && self@.len() >= 2 ==> path_well_formed(r@),
    {
        let mut s = self;
        s.segments.push(PathSegment::Field(idx));
        s
    }

    /// Appends a static field segment.
    pub fn static_field(self, idx: StaticFieldIdx) -> (r: Self)
        ensures
            r@ == self@.push(PathSegment::StaticField(idx)),
            path_well_formed(self@) && self@.len() >= 2 ==> path_well_formed(r@),
    {
        let mut s = self;
        s.segments.push(PathSegment::StaticField(idx));
        s
    }

    /// Appends a collection entry segment.
    pub fn collection_entry(self, cid: CollectionId, entry: EntryIdx) -> (r: Self)
        ensures
            r@ == self@.push(PathSegment::CollectionEntry(cid, entry)),
            path_well_formed(self@) && self@.len() >= 2 ==> path_well_formed(r@),
    {
        let mut s = self;
        s.segments.push(PathSegment::CollectionEntry(cid, entry));
        s
    }

    /// Whether the segments follow the structural rule of
    /// [`path_well_formed`]: `Frame` first, `Var` second, and neither
    /// further on.
    pub fn is_well_formed(&self) -> (r: bool)
        ensures
            r == path_well_formed(self@),
    {
        let segs = &self.segments;
        if segs.len() == 0 {
            return false;
        }
        match &segs[0] {
            PathSegment::Frame(_) => {},
            _ => {
                return false;
            },
        }
        if segs.len() >= 2 {
            match &segs[1] {
                PathSegment::Var(_) => {},
                _ => {
                    return false;
                },
            }
        }
        let mut i: usize = 2;
        while i < segs.len()
            invariant
                2 <= i,
                segs@ == self@,
                forall|j: int| 2 <= j < i && j < segs@.len() ==> !(#[trigger] segs@[j] is Frame) && !(segs@[j] is Var),
            decreases segs@.len() - i,
        {
            match &segs[i] {
                PathSegment::Frame(_) => {
                    return false;
                },
                PathSegment::Var(_) => {
                    return false;
                },
                _ => {},
            }
            i = i + 1;
        }
        true
    }

    /// Builds the [`NavigationPath`] when the segments follow the
    /// structural rule of [`path_well_formed`], and gives `None` on exactly
    /// the segments that [`NavigationPathBuilder::build`] refuses.
    pub fn try_build(self) -> (r: Option<NavigationPath>)
        ensures
            r is Some <==> path_well_formed(self@),
            r matches Some(p) ==> p@ == self@,
    {
        if self.is_well_formed() {
            Some(self.build())
        } else {
            None
        }
    }

    /// Builds the [`NavigationPath`]; the segments must follow the
    /// structural rule of [`path_well_formed`].
    pub fn build(self) -> (r: NavigationPath)
        requires
            path_well_formed(self@),
        ensures
            r@ == self@,
            path_well_formed(r@),
    {
        NavigationPath(self.segments)
    }
}

/// Ghost image of a [`RenderCursor`]: the same variants over segment sequences.
pub enum CursorView {
    NoFrames,
    At(Seq<PathSegment>),
    LoadingNode(Seq<PathSegment>),
    FailedNode(Seq<PathSegment>),
    CyclicNode(Seq<PathSegment>),
    ChunkSection(Seq<PathSegment>, usize),
    SectionHeader(Seq<PathSegment>),
    OverflowRow(Seq<PathSegment>),
}

/// Thin rendering wrapper over a [`NavigationPath`]: one variant per kind of
/// row of the stack tree.
#[derive(Debug, Clone, PartialEq, Eq)]
pub enum RenderCursor {
    /// No frames loaded.
    NoFrames,
    /// Cursor on an interactive row at this path.
    At(NavigationPath),
    /// Loading spinner for an object expansion at this path.
    LoadingNode(NavigationPath),
    /// Expansion error node at this path.
    FailedNode(NavigationPath),
    /// Cyclic reference marker at this path (non-expandable).
    CyclicNode(NavigationPath),
    /// Chunk section header inside a paginated collection.
    ChunkSection(NavigationPath, ChunkOffset),
    /// Non-interactive `[static]` section header.
    SectionHeader(NavigationPath),
    /// Non-interactive `[+N more static fields]` overflow row.
    OverflowRow(NavigationPath),
}

impl View for RenderCursor {
    type V = CursorView;

    open spec fn view(&self) -> CursorView {
        match self {
            RenderCursor::NoFrames => CursorView::NoFrames,
            RenderCursor::At(p) => CursorView::At(p@),
            RenderCursor::LoadingNode(p) => CursorView::LoadingNode(p@),
            RenderCursor::FailedNode(p) => CursorView::FailedNode(p@),
            RenderCursor::CyclicNode(p) => CursorView::CyclicNode(p@),
            RenderCursor::ChunkSection(p, o) => CursorView::ChunkSection(p@, o.0),
            RenderCursor::SectionHeader(p) => CursorView::SectionHeader(p@),
            RenderCursor::OverflowRow(p) => CursorView::OverflowRow(p@),
        }
    }
}

/// Cursor position within the stack frame tree.
pub type StackCursor = RenderCursor;

/// The path a cursor view stands on, if any.
pub open spec fn cursor_view_path(c: CursorView) -> Option<Seq<PathSegment>> {
    match c {
        CursorView::NoFrames => None,
        CursorView::At(p) => Some(p),
        CursorView::LoadingNode(p) => Some(p),
        CursorView::FailedNode(p) => Some(p),
        CursorView::CyclicNode(p) => Some(p),
        CursorView::ChunkSection(p, _) => Some(p),
        CursorView::SectionHeader(p) => Some(p),
        CursorView::OverflowRow(p) => Some(p),
    }
}

impl RenderCursor {
    /// A copy of the cursor.
    pub fn duplicate(&self) -> (r: RenderCursor)
        ensures
            r@ == self@,
    {
        match self {
            RenderCursor::NoFrames => RenderCursor::NoFrames,
            RenderCursor::At(p) => RenderCursor::At(p.duplicate()),
            RenderCursor::LoadingNode(p) => RenderCursor::LoadingNode(p.duplicate()),
            RenderCursor::FailedNode(p) => RenderCursor::FailedNode(p.duplicate()),
            RenderCursor::CyclicNode(p) => RenderCursor::CyclicNode(p.duplicate()),
            RenderCursor::ChunkSection(p, o) => RenderCursor::ChunkSection(p.duplicate(), *o),
            RenderCursor::SectionHeader(p) => RenderCursor::SectionHeader(p.duplicate()),
            RenderCursor::OverflowRow(p) => RenderCursor::OverflowRow(p.duplicate()),
        }
    }

    /// Whether two cursors are the same row.
    pub fn same(&self, other: &RenderCursor) -> (r: bool)
        ensures
            r == (self@ == other@),
    {
        match (self, other) {
            (RenderCursor::NoFrames, RenderCursor::NoFrames) => true,
            (RenderCursor::At(p), RenderCursor::At(q)) => p.same(q),
            (RenderCursor::LoadingNode(p), RenderCursor::LoadingNode(q)) => p.same(q),
            (RenderCursor::FailedNode(p), RenderCursor::FailedNode(q)) => p.same(q),
            (RenderCursor::CyclicNode(p), RenderCursor::CyclicNode(q)) => p.same(q),
            (RenderCursor::ChunkSection(p, o), RenderCursor::ChunkSection(q, r)) => o.0 == r.0
                && p.same(q),
            (RenderCursor::SectionHeader(p), RenderCursor::SectionHeader(q)) => p.same(q),
            (RenderCursor::OverflowRow(p), RenderCursor::OverflowRow(q)) => p.same(q),
            _ => false,
        }
    }

    /// The path the cursor stands on; `None` for `NoFrames`.
    pub fn path(&self) -> (r: Option<&NavigationPath>)
        ensures
            match r {
                Some(p) => cursor_view_path(self@) == Some(p@),
                None => cursor_view_path(self@) is None,
            },
    {
        match self {
            RenderCursor::NoFrames => None,
            RenderCursor::At(p) => Some(p),
            RenderCursor::LoadingNode(p) => Some(p),
            RenderCursor::FailedNode(p) => Some(p),
            RenderCursor::CyclicNode(p) => Some(p),
            RenderCursor::ChunkSection(p, _) => Some(p),
            RenderCursor::SectionHeader(p) => Some(p),
            RenderCursor::OverflowRow(p) => Some(p),
        }
    }
}

/// Phase of an object expansion driven by the application.
#[derive(Debug, Clone, Copy, PartialEq, Eq, Structural)]
pub enum ExpansionPhase {
    Collapsed,
    Loading,
    Expanded,
    Failed,
}

/// Laws of paths: a path extended by one segment has the original path as
/// its parent, and the builder keeps the structural rule of paths.
pub proof fn lemma_parent_of_extension(p: Seq<PathSegment>, s: PathSegment)
    requires
        path_well_formed(p),
    ensures
        p.push(s).drop_last() == p,
        p.push(s).len() > 1,
{
    assert(p.push(s).drop_last() =~= p);
}

} // verus!
