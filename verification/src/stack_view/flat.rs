//! The flattened row order of the stack tree.
//!
//! Every rendered row of the stack panel has a [`RenderCursor`]; this
//! module defines their order (as ghost functions over the expansion data)
//! and the executable emitters that produce it.

use std::collections::{HashMap, HashSet};

use vstd::prelude::*;

use crate::engine::{EntryInfo, FieldInfo, FieldValue, FrameInfo, VariableInfo, VariableValue};
use super::chunks::{chunk_ranges_spec, compute_chunk_ranges};
use super::collections::{ChunkState, CollectionChunks};
use super::expansion::{
    count_len_ge, fields_of, lemma_count_monotone, lemma_expanded_count, obj_phase, phase_at,
    ExpansionRegistry, TreeData,
};
use super::types::{
    path_well_formed, ChunkOffset, CollectionId, CursorView, EntryIdx, ExpansionPhase, FieldIdx,
    FrameId, NavigationPath, NavigationPathBuilder, PathSegment, RenderCursor, StaticFieldIdx,
    VarIdx, STATIC_FIELDS_RENDER_LIMIT,
};

verus! {

broadcast use vstd::std_specs::hash::group_hash_axioms;

/// The ghost image of a list of cursors.
pub open spec fn cursors_view(v: Seq<RenderCursor>) -> Seq<CursorView> {
    crate::cursor::key_views(v)
}

/// Number of recorded paths at least as long as `p`: the budget that
/// bounds how deep collections can nest below `p`.
pub open spec fn kp(d: TreeData, p: Seq<PathSegment>) -> int {
    count_len_ge(d.phases, p.len() as int) as int
}

/// Entries of the eager page of a collection.
pub open spec fn eager_entries(cc: CollectionChunks) -> Seq<EntryInfo> {
    match cc.eager_page {
        Some(pg) => pg.entries@,
        None => Seq::empty(),
    }
}

/// Rows below a row whose value is the collection `cid`: shown when the
/// row's path is expanded and the collection's pages are known.
pub open spec fn coll_children(d: TreeData, p: Seq<PathSegment>, cid: u64) -> Seq<CursorView>
    decreases kp(d, p), 1int, 0int, 0int, 0int,
{
    if phase_at(d.phases, p) != ExpansionPhase::Expanded || !d.chunks.contains_key(cid) {
        Seq::empty()
    } else {
        coll_inner(d, p, cid, d.chunks[cid])
    }
}

/// Rows of an expanded collection: eager entries, then one row per chunk
/// section followed by the entries of loaded chunks.
pub open spec fn coll_inner(d: TreeData, p: Seq<PathSegment>, cid: u64, cc: CollectionChunks) -> Seq<
    CursorView,
>
    decreases kp(d, p), 0int, 0int, 3int, 0int,
{
    if phase_at(d.phases, p) != ExpansionPhase::Expanded {
        Seq::empty()
    } else {
        coll_entries(d, p, cid, eager_entries(cc), 0) + coll_sections(
            d,
            p,
            cid,
            cc,
            chunk_ranges_spec((cc.total_count as usize) as nat),
            0,
        )
    }
}

/// Rows of the entries `es[i..]` of a collection.
pub open spec fn coll_entries(
    d: TreeData,
    p: Seq<PathSegment>,
    cid: u64,
    es: Seq<EntryInfo>,
    i: int,
) -> Seq<CursorView>
    decreases kp(d, p), 0int, 0int, 1int, es.len() - i,
{
    if phase_at(d.phases, p) != ExpansionPhase::Expanded || i < 0 || i >= es.len() {
        Seq::empty()
    } else {
        proof {
            lemma_expanded_count(d.phases, p);
        }
        entry_rows(d, p, cid, es[i]) + coll_entries(d, p, cid, es, i + 1)
    }
}

/// Rows of the chunk sections `rs[j..]` of a collection.
pub open spec fn coll_sections(
    d: TreeData,
    p: Seq<PathSegment>,
    cid: u64,
    cc: CollectionChunks,
    rs: Seq<(usize, usize)>,
    j: int,
) -> Seq<CursorView>
    decreases kp(d, p), 0int, 0int, 2int, rs.len() - j,
{
    if phase_at(d.phases, p) != ExpansionPhase::Expanded || j < 0 || j >= rs.len() {
        Seq::empty()
    } else {
        let off = rs[j].0;
        let header = seq![
            CursorView::ChunkSection(
                p.push(PathSegment::CollectionEntry(CollectionId(cid), EntryIdx(off))),
                off,
            ),
        ];
        let loaded = match cc.chunk_pages.lookup(off) {
            Some(ChunkState::Loaded(pg)) => coll_entries(d, p, cid, pg.entries@, 0),
            _ => Seq::empty(),
        };
        header + loaded + coll_sections(d, p, cid, cc, rs, j + 1)
    }
}

/// The row of one collection entry and the rows below it.
pub open spec fn entry_rows(d: TreeData, p: Seq<PathSegment>, cid: u64, e: EntryInfo) -> Seq<
    CursorView,
>
    decreases count_len_ge(d.phases, (p.len() + 1) as int) as int, 5int, 0int, 0int, 0int,
{
    let ep = p.push(PathSegment::CollectionEntry(CollectionId(cid), EntryIdx(e.index)));
    seq![CursorView::At(ep)] + match e.value {
        FieldValue::ObjectRef { id, entry_count, .. } => if entry_count is Some && id != cid {
            coll_children(d, ep, id)
        } else {
            entry_obj(d, ep, id, 0, Set::empty())
        },
        _ => Seq::empty(),
    }
}

/// Rows below an object reached from a collection entry.
pub open spec fn entry_obj(
    d: TreeData,
    ep: Seq<PathSegment>,
    oid: u64,
    depth: int,
    vis: Set<u64>,
) -> Seq<CursorView>
    decreases kp(d, ep), 4int, 16 - depth, 2int, 0int,
{
    if depth >= 16 || depth < 0 {
        Seq::empty()
    } else {
        match obj_phase(d, oid) {
            ExpansionPhase::Loading => seq![CursorView::LoadingNode(ep)],
            ExpansionPhase::Expanded => {
                let fl = fields_of(d, oid);
                (if fl.len() == 0 {
                    seq![CursorView::LoadingNode(ep)]
                } else {
                    entry_obj_fields(d, ep, fl, depth, vis.insert(oid), 0)
                }) + static_section(d, ep, oid)
            },
            _ => Seq::empty(),
        }
    }
}

/// Rows of the fields `fl[i..]` of an object reached from a collection
/// entry. A reference back to an object of the chain is an ordinary row that
/// is not descended into.
pub open spec fn entry_obj_fields(
    d: TreeData,
    ep: Seq<PathSegment>,
    fl: Seq<FieldInfo>,
    depth: int,
    vis: Set<u64>,
    i: int,
) -> Seq<CursorView>
    decreases kp(d, ep), 4int, 16 - depth, 1int, fl.len() - i,
{
    if depth >= 16 || depth < 0 || i < 0 || i >= fl.len() {
        Seq::empty()
    } else {
        let child = ep.push(PathSegment::Field(FieldIdx(i as usize)));
        proof {
            lemma_count_monotone(d.phases, ep.len() as int, child.len() as int);
        }
        let below = match fl[i].value {
            FieldValue::ObjectRef { id, entry_count, .. } => if vis.contains(id) {
                Seq::empty()
            } else if entry_count is Some {
                coll_children(d, child, id)
            } else {
                entry_obj(d, child, id, depth + 1, vis)
            },
            _ => Seq::empty(),
        };
        seq![CursorView::At(child)] + below + entry_obj_fields(d, ep, fl, depth, vis, i + 1)
    }
}

/// The `[static]` section of an object at path `p`: a header, up to
/// [`STATIC_FIELDS_RENDER_LIMIT`] static field rows, and an overflow row.
pub open spec fn static_section(d: TreeData, p: Seq<PathSegment>, oid: u64) -> Seq<CursorView>
    decreases kp(d, p), 3int, 0int, 1int, 0int,
{
    if !d.statics.contains_key(oid) || d.statics[oid]@.len() == 0 {
        Seq::empty()
    } else {
        let sf = d.statics[oid]@;
        let shown: int = if sf.len() < 20 {
            sf.len() as int
        } else {
            20
        };
        seq![CursorView::SectionHeader(p)] + static_rows(d, p, sf, shown, 0) + (if sf.len() > 20 {
            seq![CursorView::OverflowRow(p)]
        } else {
            Seq::empty()
        })
    }
}

/// Rows of the static fields `sf[i..shown]`.
pub open spec fn static_rows(
    d: TreeData,
    p: Seq<PathSegment>,
    sf: Seq<FieldInfo>,
    shown: int,
    i: int,
) -> Seq<CursorView>
    decreases kp(d, p), 3int, 0int, 0int, shown - i,
{
    if i < 0 || i >= shown || i >= sf.len() {
        Seq::empty()
    } else {
        let sp = p.push(PathSegment::StaticField(StaticFieldIdx(i as usize)));
        proof {
            lemma_count_monotone(d.phases, p.len() as int, sp.len() as int);
        }
        let below = match sf[i].value {
            FieldValue::ObjectRef { id, entry_count, .. } => if entry_count is Some {
                coll_children(d, sp, id)
            } else {
                static_obj(d, sp, id, 0, Set::empty())
            },
            _ => Seq::empty(),
        };
        seq![CursorView::At(sp)] + below + static_rows(d, p, sf, shown, i + 1)
    }
}

/// Rows below an object reached from a static field.
pub open spec fn static_obj(
    d: TreeData,
    sp: Seq<PathSegment>,
    oid: u64,
    depth: int,
    vis: Set<u64>,
) -> Seq<CursorView>
    decreases kp(d, sp), 2int, 16 - depth, 2int, 0int,
{
    if depth >= 16 || depth < 0 {
        Seq::empty()
    } else {
        match obj_phase(d, oid) {
            ExpansionPhase::Loading => seq![CursorView::LoadingNode(sp)],
            ExpansionPhase::Expanded => {
                let fl = fields_of(d, oid);
                if fl.len() == 0 {
                    seq![CursorView::LoadingNode(sp)]
                } else {
                    static_obj_fields(d, sp, fl, depth, vis.insert(oid), 0)
                }
            },
            _ => Seq::empty(),
        }
    }
}

/// Rows of the fields `fl[i..]` of an object reached from a static field.
pub open spec fn static_obj_fields(
    d: TreeData,
    sp: Seq<PathSegment>,
    fl: Seq<FieldInfo>,
    depth: int,
    vis: Set<u64>,
    i: int,
) -> Seq<CursorView>
    decreases kp(d, sp), 2int, 16 - depth, 1int, fl.len() - i,
{
    if depth >= 16 || depth < 0 || i < 0 || i >= fl.len() {
        Seq::empty()
    } else {
        let child = sp.push(PathSegment::Field(FieldIdx(i as usize)));
        proof {
            lemma_count_monotone(d.phases, sp.len() as int, child.len() as int);
        }
        let here = match fl[i].value {
            FieldValue::ObjectRef { id, entry_count, .. } => if vis.contains(id) {
                seq![CursorView::CyclicNode(child)]
            } else if entry_count is Some {
                seq![CursorView::At(child)] + coll_children(d, child, id)
            } else {
                seq![CursorView::At(child)] + static_obj(d, child, id, depth + 1, vis)
            },
            _ => seq![CursorView::At(child)],
        };
        here + static_obj_fields(d, sp, fl, depth, vis, i + 1)
    }
}

/// Rows below an object held by a local variable or one of its fields.
pub open spec fn obj_rows(d: TreeData, oid: u64, p: Seq<PathSegment>, vis: Set<u64>) -> Seq<
    CursorView,
>
    decreases kp(d, p), 7int, 18 - p.len(), 2int, 0int,
{
    if p.len() >= 18 {
        Seq::empty()
    } else {
        match obj_phase(d, oid) {
            ExpansionPhase::Loading => seq![CursorView::LoadingNode(p)],
            ExpansionPhase::Expanded => {
                let fl = fields_of(d, oid);
                (if fl.len() == 0 {
                    seq![CursorView::LoadingNode(p)]
                } else {
                    obj_fields(d, p, fl, vis.insert(oid), 0)
                }) + static_section(d, p, oid)
            },
            _ => Seq::empty(),
        }
    }
}

/// Rows of the fields `fl[i..]` of an object at path `p`.
pub open spec fn obj_fields(
    d: TreeData,
    p: Seq<PathSegment>,
    fl: Seq<FieldInfo>,
    vis: Set<u64>,
    i: int,
) -> Seq<CursorView>
    decreases kp(d, p), 7int, 18 - p.len(), 1int, fl.len() - i,
{
    if p.len() >= 18 || i < 0 || i >= fl.len() {
        Seq::empty()
    } else {
        let child = p.push(PathSegment::Field(FieldIdx(i as usize)));
        proof {
            lemma_count_monotone(d.phases, p.len() as int, child.len() as int);
        }
        let here = match fl[i].value {
            FieldValue::ObjectRef { id, entry_count, .. } => if vis.contains(id) {
                seq![CursorView::CyclicNode(child)]
            } else if entry_count is Some {
                seq![CursorView::At(child)] + coll_children(d, child, id)
            } else {
                seq![CursorView::At(child)] + obj_rows(d, id, child, vis)
            },
            _ => seq![CursorView::At(child)],
        };
        here + obj_fields(d, p, fl, vis, i + 1)
    }
}

/// Rows of the variables `vs[i..]` of frame `fid`.
pub open spec fn var_rows(d: TreeData, fid: u64, vs: Seq<VariableInfo>, i: int) -> Seq<CursorView>
    decreases vs.len() - i,
{
    if i < 0 || i >= vs.len() {
        Seq::empty()
    } else {
        let vp = seq![PathSegment::Frame(FrameId(fid)), PathSegment::Var(VarIdx(i as usize))];
        let below = match vs[i].value {
            VariableValue::ObjectRef { id, entry_count, .. } => if entry_count is Some {
                if phase_at(d.phases, vp) == ExpansionPhase::Expanded && d.chunks.contains_key(id) {
                    coll_inner(d, vp, id, d.chunks[id])
                } else {
                    Seq::empty()
                }
            } else {
                obj_rows(d, id, vp, Set::empty())
            },
            VariableValue::Null => Seq::empty(),
        };
        seq![CursorView::At(vp)] + below + var_rows(d, fid, vs, i + 1)
    }
}

/// The variables cached for a frame, empty when none are cached.
pub open spec fn vars_of(vars: Map<u64, Vec<VariableInfo>>, fid: u64) -> Seq<VariableInfo> {
    if vars.contains_key(fid) {
        vars[fid]@
    } else {
        Seq::empty()
    }
}

/// Rows of the frames `frames[i..]` and, for expanded frames, their
/// variables (a single placeholder variable row when none are cached).
pub open spec fn frame_rows(
    d: TreeData,
    frames: Seq<FrameInfo>,
    vars: Map<u64, Vec<VariableInfo>>,
    expanded: Set<u64>,
    i: int,
) -> Seq<CursorView>
    decreases frames.len() - i,
{
    if i < 0 || i >= frames.len() {
        Seq::empty()
    } else {
        let fid = frames[i].frame_id;
        let fp = seq![PathSegment::Frame(FrameId(fid))];
        let below = if expanded.contains(fid) {
            let vs = vars_of(vars, fid);
            if vs.len() == 0 {
                seq![CursorView::At(fp.push(PathSegment::Var(VarIdx(0))))]
            } else {
                var_rows(d, fid, vs, 0)
            }
        } else {
            Seq::empty()
        };
        seq![CursorView::At(fp)] + below + frame_rows(d, frames, vars, expanded, i + 1)
    }
}

/// The rows of the stack panel, in display order; a single `NoFrames` row
/// when there is nothing to show.
pub open spec fn flat_spec(
    d: TreeData,
    frames: Seq<FrameInfo>,
    vars: Map<u64, Vec<VariableInfo>>,
    expanded: Set<u64>,
) -> Seq<CursorView> {
    let r = frame_rows(d, frames, vars, expanded, 0);
    if r.len() == 0 {
        seq![CursorView::NoFrames]
    } else {
        r
    }
}


/// Appends one cursor.
pub fn push_cursor(out: &mut Vec<RenderCursor>, c: RenderCursor)
    ensures
        cursors_view(final(out)@) == cursors_view(old(out)@).push(c@),
{
    let ghost c_view = c@;
    out.push(c);
    assert(cursors_view(final(out)@) =~= cursors_view(old(out)@).push(c_view));
}

/// The path of the field `i` below `p`.
pub fn child_field(p: &NavigationPath, i: usize) -> (r: NavigationPath)
    requires
        path_well_formed(p@),
        p@.len() >= 2,
    ensures
        r@ == p@.push(PathSegment::Field(FieldIdx(i))),
        path_well_formed(r@),
        r@.len() >= 2,
{
    NavigationPathBuilder::extend(p.duplicate()).field(FieldIdx(i)).build()
}

/// The path of the static field `i` below `p`.
pub fn child_static(p: &NavigationPath, i: usize) -> (r: NavigationPath)
    requires
        path_well_formed(p@),
        p@.len() >= 2,
    ensures
        r@ == p@.push(PathSegment::StaticField(StaticFieldIdx(i))),
        path_well_formed(r@),
        r@.len() >= 2,
{
    NavigationPathBuilder::extend(p.duplicate()).static_field(StaticFieldIdx(i)).build()
}

/// The path of the entry `index` of collection `cid` below `p`.
pub fn child_entry(p: &NavigationPath, cid: u64, index: usize) -> (r: NavigationPath)
    requires
        path_well_formed(p@),
        p@.len() >= 2,
    ensures
        r@ == p@.push(PathSegment::CollectionEntry(CollectionId(cid), EntryIdx(index))),
        path_well_formed(r@),
        r@.len() >= 2,
{
    NavigationPathBuilder::extend(p.duplicate()).collection_entry(CollectionId(cid), EntryIdx(index)).build()
}

/// The phase of an object id (defaults to `Collapsed`).
pub fn object_phase(reg: &ExpansionRegistry, oid: u64) -> (r: ExpansionPhase)
    ensures
        r == obj_phase(reg.data(), oid),
{
    match reg.object_phases.get(&oid) {
        Some(p) => *p,
        None => ExpansionPhase::Collapsed,
    }
}

/// Emits the rows below a row whose value is the collection `cid`.
pub fn emit_coll_children(
    reg: &ExpansionRegistry,
    p: &NavigationPath,
    cid: u64,
    out: &mut Vec<RenderCursor>,
)
    requires
        path_well_formed(p@),
        p@.len() >= 2,
    ensures
        cursors_view(final(out)@) == cursors_view(old(out)@) + coll_children(reg.data(), p@, cid),
    decreases kp(reg.data(), p@), 1int, 0int, 0int, 0int,
{
    let phase = reg.expansion_state(p);
    if phase != ExpansionPhase::Expanded {
        assert(cursors_view(out@) =~= cursors_view(out@) + Seq::<CursorView>::empty());
        return;
    }
    match reg.collection_chunks.get(&cid) {
        None => {
            assert(cursors_view(out@) =~= cursors_view(out@) + Seq::<CursorView>::empty());
        },
        Some(cc) => {
            emit_coll_inner(reg, p, cid, cc, out);
        },
    }
}

/// Emits the rows of an expanded collection.
pub fn emit_coll_inner(
    reg: &ExpansionRegistry,
    p: &NavigationPath,
    cid: u64,
    cc: &CollectionChunks,
    out: &mut Vec<RenderCursor>,
)
    requires
        path_well_formed(p@),
        p@.len() >= 2,
        phase_at(reg.data().phases, p@) == ExpansionPhase::Expanded,
    ensures
        cursors_view(final(out)@) == cursors_view(old(out)@) + coll_inner(reg.data(), p@, cid, *cc),
    decreases kp(reg.data(), p@), 0int, 0int, 3int, 0int,
{
    let ghost d = reg.data();
    let ghost out0 = cursors_view(out@);
    if let Some(page) = &cc.eager_page {
        emit_entries(reg, p, cid, page.entries.as_slice(), out);
    } else {
        assert(coll_entries(d, p@, cid, Seq::<EntryInfo>::empty(), 0) =~= Seq::<CursorView>::empty());
        assert(cursors_view(out@) =~= cursors_view(out@) + Seq::<CursorView>::empty());
    }
    let ghost out1 = cursors_view(out@);
    let ranges = compute_chunk_ranges(cc.total_count);
    let ghost rs = ranges@;
    let mut j: usize = 0;
    while j < ranges.len()
        invariant
            d == reg.data(),
            rs == ranges@,
            rs == chunk_ranges_spec((cc.total_count as usize) as nat),
            path_well_formed(p@),
            p@.len() >= 2,
            phase_at(d.phases, p@) == ExpansionPhase::Expanded,
            j <= rs.len(),
            cursors_view(out@) + coll_sections(d, p@, cid, *cc, rs, j as int) == out1
                + coll_sections(d, p@, cid, *cc, rs, 0),
        decreases rs.len() - j,
    {
        let off = ranges[j].0;
        let ghost before = cursors_view(out@);
        let cp = child_entry(p, cid, off);
        push_cursor(out, RenderCursor::ChunkSection(cp, ChunkOffset(off)));
        match cc.chunk_pages.get(off) {
            Some(ChunkState::Loaded(page)) => {
                emit_entries(reg, p, cid, page.entries.as_slice(), out);
            },
            _ => {
                assert(cursors_view(out@) =~= cursors_view(out@) + Seq::<CursorView>::empty());
            },
        }
        proof {
            let header = seq![
                CursorView::ChunkSection(
                    p@.push(PathSegment::CollectionEntry(CollectionId(cid), EntryIdx(off))),
                    off,
                ),
            ];
            let loaded = match cc.chunk_pages.lookup(off) {
                Some(ChunkState::Loaded(pg)) => coll_entries(d, p@, cid, pg.entries@, 0),
                _ => Seq::empty(),
            };
            assert(coll_sections(d, p@, cid, *cc, rs, j as int) == header + loaded + coll_sections(
                d,
                p@,
                cid,
                *cc,
                rs,
                j + 1,
            ));
            assert(cursors_view(out@) =~= before + header + loaded);
        }
        j = j + 1;
    }
    proof {
        assert(coll_sections(d, p@, cid, *cc, rs, j as int) =~= Seq::<CursorView>::empty());
        assert(coll_entries(d, p@, cid, eager_entries(*cc), 0) + coll_sections(d, p@, cid, *cc, rs, 0)
            == coll_inner(d, p@, cid, *cc));
    }
    assert(cursors_view(out@) =~= out0 + coll_inner(d, p@, cid, *cc));
}

/// Emits the rows of the entries `es` of collection `cid`.
pub fn emit_entries(
    reg: &ExpansionRegistry,
    p: &NavigationPath,
    cid: u64,
    es: &[EntryInfo],
    out: &mut Vec<RenderCursor>,
)
    requires
        path_well_formed(p@),
        p@.len() >= 2,
        phase_at(reg.data().phases, p@) == ExpansionPhase::Expanded,
    ensures
        cursors_view(final(out)@) == cursors_view(old(out)@) + coll_entries(reg.data(), p@, cid, es@, 0),
    decreases kp(reg.data(), p@), 0int, 0int, 1int, 0int,
{
    let ghost d = reg.data();
    let ghost out0 = cursors_view(out@);
    let mut i: usize = 0;
    while i < es.len()
        invariant
            d == reg.data(),
            path_well_formed(p@),
            p@.len() >= 2,
            phase_at(d.phases, p@) == ExpansionPhase::Expanded,
            i <= es@.len(),
            cursors_view(out@) + coll_entries(d, p@, cid, es@, i as int) == out0 + coll_entries(
                d,
                p@,
                cid,
                es@,
                0,
            ),
        decreases es@.len() - i,
    {
        let ghost before = cursors_view(out@);
        proof {
            lemma_expanded_count(d.phases, p@);
        }
        emit_entry_rows(reg, p, cid, &es[i], out);
        proof {
            assert(coll_entries(d, p@, cid, es@, i as int) == entry_rows(d, p@, cid, es@[i as int])
                + coll_entries(d, p@, cid, es@, i + 1));
            assert(cursors_view(out@) + coll_entries(d, p@, cid, es@, i + 1) =~= before
                + coll_entries(d, p@, cid, es@, i as int));
        }
        i = i + 1;
    }
    assert(coll_entries(d, p@, cid, es@, i as int) =~= Seq::<CursorView>::empty());
    assert(cursors_view(out@) =~= cursors_view(out@) + coll_entries(d, p@, cid, es@, i as int));
}

/// Emits the row of one collection entry and the rows below it.
pub fn emit_entry_rows(
    reg: &ExpansionRegistry,
    p: &NavigationPath,
    cid: u64,
    e: &EntryInfo,
    out: &mut Vec<RenderCursor>,
)
    requires
        path_well_formed(p@),
        p@.len() >= 2,
    ensures
        cursors_view(final(out)@) == cursors_view(old(out)@) + entry_rows(reg.data(), p@, cid, *e),
    decreases count_len_ge(reg.data().phases, (p@.len() + 1) as int) as int, 5int, 0int, 0int, 0int,
{
    let ghost d = reg.data();
    let ghost out0 = cursors_view(out@);
    let ep = child_entry(p, cid, e.index);
    push_cursor(out, RenderCursor::At(ep.duplicate()));
    let ghost out1 = cursors_view(out@);
    match &e.value {
        FieldValue::ObjectRef { id, entry_count, .. } => {
            if entry_count.is_some() && *id != cid {
                emit_coll_children(reg, &ep, *id, out);
            } else {
                let mut vis: HashSet<u64> = HashSet::new();
                emit_entry_obj(reg, &ep, *id, 0, &mut vis, out);
            }
        },
        _ => {
            assert(cursors_view(out@) =~= cursors_view(out@) + Seq::<CursorView>::empty());
        },
    }
    assert(cursors_view(out@) =~= out0 + entry_rows(d, p@, cid, *e));
}

/// Emits the rows below an object reached from a collection entry.
pub fn emit_entry_obj(
    reg: &ExpansionRegistry,
    ep: &NavigationPath,
    oid: u64,
    depth: usize,
    vis: &mut HashSet<u64>,
    out: &mut Vec<RenderCursor>,
)
    requires
        path_well_formed(ep@),
        ep@.len() >= 2,
        !old(vis)@.contains(oid),
    ensures
        final(vis)@ == old(vis)@,
        cursors_view(final(out)@) == cursors_view(old(out)@) + entry_obj(
            reg.data(),
            ep@,
            oid,
            depth as int,
            old(vis)@,
        ),
    decreases kp(reg.data(), ep@), 4int, 16 - depth, 2int, 0int,
{
    let ghost d = reg.data();
    let ghost out0 = cursors_view(out@);
    let ghost vis0 = vis@;
    if depth >= 16 {
        assert(cursors_view(out@) =~= out0 + Seq::<CursorView>::empty());
        return;
    }
    match object_phase(reg, oid) {
        ExpansionPhase::Loading => {
            push_cursor(out, RenderCursor::LoadingNode(ep.duplicate()));
            assert(cursors_view(out@) =~= out0 + entry_obj(d, ep@, oid, depth as int, vis0));
        },
        ExpansionPhase::Expanded => {
            let fields = reg.object_fields.get(&oid);
            let ghost fl = fields_of(d, oid);
            let empty = match fields {
                Some(f) => f.len() == 0,
                None => true,
            };
            if empty {
                push_cursor(out, RenderCursor::LoadingNode(ep.duplicate()));
            } else {
                let fv = fields.unwrap();
                assert(fv@ == fl);
                vis.insert(oid);
                let ghost vs = vis@;
                assert(vs == vis0.insert(oid));
                let ghost out1 = cursors_view(out@);
                let mut i: usize = 0;
                while i < fv.len()
                    invariant
                        d == reg.data(),
                        fv@ == fl,
                        vis@ == vs,
                        vs.contains(oid),
                        path_well_formed(ep@),
                        ep@.len() >= 2,
                        depth < 16,
                        i <= fl.len(),
                        cursors_view(out@) + entry_obj_fields(d, ep@, fl, depth as int, vs, i as int)
                            == out1 + entry_obj_fields(d, ep@, fl, depth as int, vs, 0),
                    decreases fl.len() - i,
                {
                    let ghost before = cursors_view(out@);
                    let child = child_field(ep, i);
                    proof {
                        lemma_count_monotone(d.phases, ep@.len() as int, child@.len() as int);
                    }
                    push_cursor(out, RenderCursor::At(child.duplicate()));
                    let ghost after_row = cursors_view(out@);
                    match &fv[i].value {
                        FieldValue::ObjectRef { id, entry_count, .. } => {
                            if vis.contains(id) {
                                assert(cursors_view(out@) =~= cursors_view(out@) + Seq::<CursorView>::empty());
                            } else if entry_count.is_some() {
                                emit_coll_children(reg, &child, *id, out);
                            } else {
                                emit_entry_obj(reg, &child, *id, depth + 1, vis, out);
                            }
                        },
                        _ => {
                            assert(cursors_view(out@) =~= cursors_view(out@) + Seq::<CursorView>::empty());
                        },
                    }
                    proof {
                        let below = match fl[i as int].value {
                            FieldValue::ObjectRef { id, entry_count, .. } => if vs.contains(id) {
                                Seq::empty()
                            } else if entry_count is Some {
                                coll_children(d, child@, id)
                            } else {
                                entry_obj(d, child@, id, depth + 1, vs)
                            },
                            _ => Seq::empty(),
                        };
                        assert(entry_obj_fields(d, ep@, fl, depth as int, vs, i as int) == seq![
                            CursorView::At(child@),
                        ] + below + entry_obj_fields(d, ep@, fl, depth as int, vs, i + 1));
                        assert(cursors_view(out@) =~= before + seq![CursorView::At(child@)] + below);
                    }
                    i = i + 1;
                }
                vis.remove(&oid);
                proof {
                    assert(vis@ =~= vis0);
                    assert(entry_obj_fields(d, ep@, fl, depth as int, vs, i as int) =~= Seq::<
                        CursorView,
                    >::empty());
                }
            }
            let ghost out2 = cursors_view(out@);
            emit_static_section(reg, ep, oid, out);
            assert(cursors_view(out@) =~= out0 + entry_obj(d, ep@, oid, depth as int, vis0));
        },
        _ => {
            assert(cursors_view(out@) =~= out0 + entry_obj(d, ep@, oid, depth as int, vis0));
        },
    }
}

/// Emits the `[static]` section of an object at path `p`.
pub fn emit_static_section(
    reg: &ExpansionRegistry,
    p: &NavigationPath,
    oid: u64,
    out: &mut Vec<RenderCursor>,
)
    requires
        path_well_formed(p@),
        p@.len() >= 2,
    ensures
        cursors_view(final(out)@) == cursors_view(old(out)@) + static_section(reg.data(), p@, oid),
    decreases kp(reg.data(), p@), 3int, 0int, 1int, 0int,
{
    let ghost d = reg.data();
    let ghost out0 = cursors_view(out@);
    let sf = match reg.object_static_fields.get(&oid) {
        None => {
            assert(cursors_view(out@) =~= out0 + Seq::<CursorView>::empty());
            return;
        },
        Some(s) => s,
    };
    if sf.len() == 0 {
        assert(cursors_view(out@) =~= out0 + Seq::<CursorView>::empty());
        return;
    }
    push_cursor(out, RenderCursor::SectionHeader(p.duplicate()));
    let shown: usize = if sf.len() < STATIC_FIELDS_RENDER_LIMIT {
        sf.len()
    } else {
        STATIC_FIELDS_RENDER_LIMIT
    };
    let ghost sfv = sf@;
    let ghost out1 = cursors_view(out@);
    let mut i: usize = 0;
    while i < shown
        invariant
            d == reg.data(),
            sfv == sf@,
            sfv == d.statics[oid]@,
            shown <= sfv.len(),
            path_well_formed(p@),
            p@.len() >= 2,
            i <= shown,
            cursors_view(out@) + static_rows(d, p@, sfv, shown as int, i as int) == out1
                + static_rows(d, p@, sfv, shown as int, 0),
        decreases shown - i,
    {
        let ghost before = cursors_view(out@);
        let sp = child_static(p, i);
        proof {
            lemma_count_monotone(d.phases, p@.len() as int, sp@.len() as int);
        }
        push_cursor(out, RenderCursor::At(sp.duplicate()));
        match &sf[i].value {
            FieldValue::ObjectRef { id, entry_count, .. } => {
                if entry_count.is_some() {
                    emit_coll_children(reg, &sp, *id, out);
                } else {
                    let mut vis: HashSet<u64> = HashSet::new();
                    emit_static_obj(reg, &sp, *id, 0, &mut vis, out);
                }
            },
            _ => {
                assert(cursors_view(out@) =~= cursors_view(out@) + Seq::<CursorView>::empty());
            },
        }
        proof {
            let below = match sfv[i as int].value {
                FieldValue::ObjectRef { id, entry_count, .. } => if entry_count is Some {
                    coll_children(d, sp@, id)
                } else {
                    static_obj(d, sp@, id, 0, Set::empty())
                },
                _ => Seq::empty(),
            };
            assert(static_rows(d, p@, sfv, shown as int, i as int) == seq![CursorView::At(sp@)] + below
                + static_rows(d, p@, sfv, shown as int, i + 1));
            assert(cursors_view(out@) =~= before + seq![CursorView::At(sp@)] + below);
        }
        i = i + 1;
    }
    proof {
        assert(static_rows(d, p@, sfv, shown as int, i as int) =~= Seq::<CursorView>::empty());
    }
    let ghost out2 = cursors_view(out@);
    if sf.len() > STATIC_FIELDS_RENDER_LIMIT {
        push_cursor(out, RenderCursor::OverflowRow(p.duplicate()));
    }
    assert(cursors_view(out@) =~= out0 + static_section(d, p@, oid));
}

/// Emits the rows below an object reached from a static field.
pub fn emit_static_obj(
    reg: &ExpansionRegistry,
    sp: &NavigationPath,
    oid: u64,
    depth: usize,
    vis: &mut HashSet<u64>,
    out: &mut Vec<RenderCursor>,
)
    requires
        path_well_formed(sp@),
        sp@.len() >= 2,
        !old(vis)@.contains(oid),
    ensures
        final(vis)@ == old(vis)@,
        cursors_view(final(out)@) == cursors_view(old(out)@) + static_obj(
            reg.data(),
            sp@,
            oid,
            depth as int,
            old(vis)@,
        ),
    decreases kp(reg.data(), sp@), 2int, 16 - depth, 2int, 0int,
{
    let ghost d = reg.data();
    let ghost out0 = cursors_view(out@);
    let ghost vis0 = vis@;
    if depth >= 16 {
        assert(cursors_view(out@) =~= out0 + Seq::<CursorView>::empty());
        return;
    }
    match object_phase(reg, oid) {
        ExpansionPhase::Loading => {
            push_cursor(out, RenderCursor::LoadingNode(sp.duplicate()));
            assert(cursors_view(out@) =~= out0 + static_obj(d, sp@, oid, depth as int, vis0));
        },
        ExpansionPhase::Expanded => {
            let fields = reg.object_fields.get(&oid);
            let ghost fl = fields_of(d, oid);
            let empty = match fields {
                Some(f) => f.len() == 0,
                None => true,
            };
            if empty {
                push_cursor(out, RenderCursor::LoadingNode(sp.duplicate()));
                assert(cursors_view(out@) =~= out0 + static_obj(d, sp@, oid, depth as int, vis0));
                return;
            }
            let fv = fields.unwrap();
            assert(fv@ == fl);
            vis.insert(oid);
            let ghost vs = vis@;
            assert(vs == vis0.insert(oid));
            let mut i: usize = 0;
            while i < fv.len()
                invariant
                    d == reg.data(),
                    fv@ == fl,
                    vis@ == vs,
                    vs.contains(oid),
                    path_well_formed(sp@),
                    sp@.len() >= 2,
                    depth < 16,
                    i <= fl.len(),
                    cursors_view(out@) + static_obj_fields(d, sp@, fl, depth as int, vs, i as int)
                        == out0 + static_obj_fields(d, sp@, fl, depth as int, vs, 0),
                decreases fl.len() - i,
            {
                let ghost before = cursors_view(out@);
                let child = child_field(sp, i);
                proof {
                    lemma_count_monotone(d.phases, sp@.len() as int, child@.len() as int);
                }
                match &fv[i].value {
                    FieldValue::ObjectRef { id, entry_count, .. } => {
                        if vis.contains(id) {
                            push_cursor(out, RenderCursor::CyclicNode(child));
                        } else if entry_count.is_some() {
                            push_cursor(out, RenderCursor::At(child.duplicate()));
                            emit_coll_children(reg, &child, *id, out);
                        } else {
                            push_cursor(out, RenderCursor::At(child.duplicate()));
                            emit_static_obj(reg, &child, *id, depth + 1, vis, out);
                        }
                    },
                    _ => {
                        push_cursor(out, RenderCursor::At(child));
                    },
                }
                proof {
                    assert(static_obj_fields(d, sp@, fl, depth as int, vs, i as int) == (match fl[i as int].value {
                        FieldValue::ObjectRef { id, entry_count, .. } => if vs.contains(id) {
                            seq![CursorView::CyclicNode(sp@.push(PathSegment::Field(FieldIdx(i))))]
                        } else if entry_count is Some {
                            seq![CursorView::At(sp@.push(PathSegment::Field(FieldIdx(i))))] + coll_children(d, sp@.push(PathSegment::Field(FieldIdx(i))), id)
                        } else {
                            seq![CursorView::At(sp@.push(PathSegment::Field(FieldIdx(i))))] + static_obj(d, sp@.push(PathSegment::Field(FieldIdx(i))), id, depth + 1, vs)
                        },
                        _ => seq![CursorView::At(sp@.push(PathSegment::Field(FieldIdx(i))))],
                    }) + static_obj_fields(d, sp@, fl, depth as int, vs, i + 1));
                }
                assert(cursors_view(out@) + static_obj_fields(d, sp@, fl, depth as int, vs, i + 1) =~= before
                    + static_obj_fields(d, sp@, fl, depth as int, vs, i as int));
                i = i + 1;
            }
            vis.remove(&oid);
            proof {
                assert(vis@ =~= vis0);
                assert(static_obj_fields(d, sp@, fl, depth as int, vs, i as int) =~= Seq::<CursorView>::empty());
            }
            assert(cursors_view(out@) =~= out0 + static_obj(d, sp@, oid, depth as int, vis0));
        },
        _ => {
            assert(cursors_view(out@) =~= out0 + static_obj(d, sp@, oid, depth as int, vis0));
        },
    }
}

/// Emits the rows below an object held by a variable or a field.
pub fn emit_obj(
    reg: &ExpansionRegistry,
    oid: u64,
    p: &NavigationPath,
    vis: &mut HashSet<u64>,
    out: &mut Vec<RenderCursor>,
)
    requires
        path_well_formed(p@),
        p@.len() >= 2,
        !old(vis)@.contains(oid),
    ensures
        final(vis)@ == old(vis)@,
        cursors_view(final(out)@) == cursors_view(old(out)@) + obj_rows(reg.data(), oid, p@, old(vis)@),
    decreases kp(reg.data(), p@), 7int, 18 - p@.len(), 2int, 0int,
{
    let ghost d = reg.data();
    let ghost out0 = cursors_view(out@);
    let ghost vis0 = vis@;
    if p.len() >= 18 {
        assert(cursors_view(out@) =~= out0 + Seq::<CursorView>::empty());
        return;
    }
    match object_phase(reg, oid) {
        ExpansionPhase::Loading => {
            push_cursor(out, RenderCursor::LoadingNode(p.duplicate()));
            assert(cursors_view(out@) =~= out0 + obj_rows(d, oid, p@, vis0));
        },
        ExpansionPhase::Expanded => {
            vis.insert(oid);
            let ghost vs = vis@;
            assert(vs == vis0.insert(oid));
            let fields = reg.object_fields.get(&oid);
            let ghost fl = fields_of(d, oid);
            let empty = match fields {
                Some(f) => f.len() == 0,
                None => true,
            };
            if empty {
                push_cursor(out, RenderCursor::LoadingNode(p.duplicate()));
            } else {
                let fv = fields.unwrap();
                assert(fv@ == fl);
                let ghost out1 = cursors_view(out@);
                let mut i: usize = 0;
                while i < fv.len()
                    invariant
                        d == reg.data(),
                        fv@ == fl,
                        vis@ == vs,
                        vs.contains(oid),
                        path_well_formed(p@),
                        p@.len() >= 2,
                        p@.len() < 18,
                        i <= fl.len(),
                        cursors_view(out@) + obj_fields(d, p@, fl, vs, i as int) == out1 + obj_fields(
                            d,
                            p@,
                            fl,
                            vs,
                            0,
                        ),
                    decreases fl.len() - i,
                {
                    let ghost before = cursors_view(out@);
                    let child = child_field(p, i);
                    proof {
                        lemma_count_monotone(d.phases, p@.len() as int, child@.len() as int);
                    }
                    match &fv[i].value {
                        FieldValue::ObjectRef { id, entry_count, .. } => {
                            if vis.contains(id) {
                                push_cursor(out, RenderCursor::CyclicNode(child));
                            } else if entry_count.is_some() {
                                push_cursor(out, RenderCursor::At(child.duplicate()));
                                emit_coll_children(reg, &child, *id, out);
                            } else {
                                push_cursor(out, RenderCursor::At(child.duplicate()));
                                emit_obj(reg, *id, &child, vis, out);
                            }
                        },
                        _ => {
                            push_cursor(out, RenderCursor::At(child));
                        },
                    }
                    proof {
                        assert(obj_fields(d, p@, fl, vs, i as int) == (match fl[i as int].value {
                            FieldValue::ObjectRef { id, entry_count, .. } => if vs.contains(id) {
                                seq![CursorView::CyclicNode(p@.push(PathSegment::Field(FieldIdx(i))))]
                            } else if entry_count is Some {
                                seq![CursorView::At(p@.push(PathSegment::Field(FieldIdx(i))))] + coll_children(d, p@.push(PathSegment::Field(FieldIdx(i))), id)
                            } else {
                                seq![CursorView::At(p@.push(PathSegment::Field(FieldIdx(i))))] + obj_rows(d, id, p@.push(PathSegment::Field(FieldIdx(i))), vs)
                            },
                            _ => seq![CursorView::At(p@.push(PathSegment::Field(FieldIdx(i))))],
                        }) + obj_fields(d, p@, fl, vs, i + 1));
                    }
                    assert(cursors_view(out@) + obj_fields(d, p@, fl, vs, i + 1) =~= before
                        + obj_fields(d, p@, fl, vs, i as int));
                    i = i + 1;
                }
                proof {
                    assert(obj_fields(d, p@, fl, vs, i as int) =~= Seq::<CursorView>::empty());
                }
            }
            emit_static_section(reg, p, oid, out);
            vis.remove(&oid);
            assert(vis@ =~= vis0);
            assert(cursors_view(out@) =~= out0 + obj_rows(d, oid, p@, vis0));
        },
        _ => {
            assert(cursors_view(out@) =~= out0 + obj_rows(d, oid, p@, vis0));
        },
    }
}


/// Emits the rows of the variables `vs` of frame `fid`.
fn emit_var_rows(
    reg: &ExpansionRegistry,
    fid: u64,
    vs: &[VariableInfo],
    out: &mut Vec<RenderCursor>,
)
    ensures
        cursors_view(final(out)@) == cursors_view(old(out)@) + var_rows(reg.data(), fid, vs@, 0),
{
    let ghost d = reg.data();
    let ghost out0 = cursors_view(out@);
    let mut i: usize = 0;
    while i < vs.len()
        invariant
            d == reg.data(),
            i <= vs@.len(),
            cursors_view(out@) + var_rows(d, fid, vs@, i as int) == out0 + var_rows(d, fid, vs@, 0),
        decreases vs@.len() - i,
    {
        let ghost before = cursors_view(out@);
        let vp = NavigationPathBuilder::new(FrameId(fid), VarIdx(i)).build();
        push_cursor(out, RenderCursor::At(vp.duplicate()));
        match &vs[i].value {
            VariableValue::ObjectRef { id, entry_count, .. } => {
                if entry_count.is_some() {
                    let phase = reg.expansion_state(&vp);
                    if phase == ExpansionPhase::Expanded {
                        match reg.collection_chunks.get(id) {
                            Some(cc) => {
                                emit_coll_inner(reg, &vp, *id, cc, out);
                            },
                            None => {
                                assert(cursors_view(out@) =~= cursors_view(out@) + Seq::<CursorView>::empty());
                            },
                        }
                    } else {
                        assert(cursors_view(out@) =~= cursors_view(out@) + Seq::<CursorView>::empty());
                    }
                } else {
                    let mut visited: HashSet<u64> = HashSet::new();
                    emit_obj(reg, *id, &vp, &mut visited, out);
                }
            },
            VariableValue::Null => {
                assert(cursors_view(out@) =~= cursors_view(out@) + Seq::<CursorView>::empty());
            },
        }
        proof {
            let vpv = seq![PathSegment::Frame(FrameId(fid)), PathSegment::Var(VarIdx(i))];
            assert(vp@ == vpv);
            let below = match vs@[i as int].value {
                VariableValue::ObjectRef { id, entry_count, .. } => if entry_count is Some {
                    if phase_at(d.phases, vpv) == ExpansionPhase::Expanded && d.chunks.contains_key(id) {
                        coll_inner(d, vpv, id, d.chunks[id])
                    } else {
                        Seq::empty()
                    }
                } else {
                    obj_rows(d, id, vpv, Set::empty())
                },
                VariableValue::Null => Seq::empty(),
            };
            assert(var_rows(d, fid, vs@, i as int) == seq![CursorView::At(vpv)] + below + var_rows(
                d,
                fid,
                vs@,
                i + 1,
            ));
            assert(cursors_view(out@) =~= before + seq![CursorView::At(vpv)] + below);
        }
        i = i + 1;
    }
    assert(var_rows(d, fid, vs@, i as int) =~= Seq::<CursorView>::empty());
    assert(cursors_view(out@) =~= out0 + var_rows(d, fid, vs@, 0));
}

/// Flattened ordered list of cursors matching the rendered rows.
pub fn flat_items_of(
    frames: &[FrameInfo],
    vars: &HashMap<u64, Vec<VariableInfo>>,
    expanded: &HashSet<u64>,
    reg: &ExpansionRegistry,
) -> (r: Vec<RenderCursor>)
    ensures
        cursors_view(r@) == flat_spec(reg.data(), frames@, vars@, expanded@),
{
    let ghost d = reg.data();
    let mut out: Vec<RenderCursor> = Vec::new();
    let mut i: usize = 0;
    while i < frames.len()
        invariant
            d == reg.data(),
            i <= frames@.len(),
            cursors_view(out@) + frame_rows(d, frames@, vars@, expanded@, i as int) == frame_rows(
                d,
                frames@,
                vars@,
                expanded@,
                0,
            ),
        decreases frames@.len() - i,
    {
        let ghost before = cursors_view(out@);
        let fid = frames[i].frame_id;
        let fp = NavigationPathBuilder::frame_only(FrameId(fid));
        push_cursor(&mut out, RenderCursor::At(fp));
        if expanded.contains(&fid) {
            match vars.get(&fid) {
                Some(vs) if vs.len() > 0 => {
                    emit_var_rows(reg, fid, vs.as_slice(), &mut out);
                },
                _ => {
                    let vp = NavigationPathBuilder::new(FrameId(fid), VarIdx(0)).build();
                    push_cursor(&mut out, RenderCursor::At(vp));
                },
            }
        }
        proof {
            let fpv = seq![PathSegment::Frame(FrameId(fid))];
            let below = if expanded@.contains(fid) {
                let vs = vars_of(vars@, fid);
                if vs.len() == 0 {
                    seq![CursorView::At(fpv.push(PathSegment::Var(VarIdx(0))))]
                } else {
                    var_rows(d, fid, vs, 0)
                }
            } else {
                Seq::empty()
            };
            assert(fpv.push(PathSegment::Var(VarIdx(0))) =~= seq![PathSegment::Frame(FrameId(fid)), PathSegment::Var(VarIdx(0))]);
            assert(frame_rows(d, frames@, vars@, expanded@, i as int) == seq![CursorView::At(fpv)]
                + below + frame_rows(d, frames@, vars@, expanded@, i + 1));
            assert(cursors_view(out@) =~= before + seq![CursorView::At(fpv)] + below);
        }
        i = i + 1;
    }
    assert(frame_rows(d, frames@, vars@, expanded@, i as int) =~= Seq::<CursorView>::empty());
    assert(cursors_view(out@) =~= frame_rows(d, frames@, vars@, expanded@, 0));
    if out.len() == 0 {
        push_cursor(&mut out, RenderCursor::NoFrames);
        assert(cursors_view(out@) =~= seq![CursorView::NoFrames]);
    }
    out
}

} // verus!
