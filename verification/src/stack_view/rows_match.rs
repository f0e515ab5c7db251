//! How the rendered rows of the stack panel relate to its cursor rows:
//! the panel's variable trees always render, every rendered row has exactly
//! one cursor row, so the list selection that the cursor keeps indexes the
//! rendered list; and showing object ids changes neither whether the panel
//! renders nor how many rows it has.

use vstd::prelude::*;

use crate::engine::{EntryInfo, FieldInfo, FieldValue, FrameInfo, VariableInfo, VariableValue};
use crate::stack_view::chunks::chunk_ranges_spec;
use crate::stack_view::collections::{ChunkState, CollectionChunks};
use crate::tree_render as tr;
use crate::tree_render::{renderable, tree_of, tree_spans, FieldScope, TreeCtx};
use crate::tree_shape::{lemma_shape_ignores_ids, same_but_ids, shapes};
use super::expansion::{count_len_ge, fields_of, lemma_count_monotone, lemma_expanded_count, obj_phase, PhaseList, TreeData};
use super::flat as fl;
use super::state::{frame_items, frame_root, stack_rows, stack_tree_ctx, StackState};
use super::types::{CollectionId, CursorView, EntryIdx, ExpansionPhase, FieldIdx, FrameId, PathSegment, StaticFieldIdx, VarIdx};

verus! {

/// The walk context of the stack panel agrees with the expansion data.
pub open spec fn stack_ctx_of(c: TreeCtx, d: TreeData) -> bool {
    &&& c.fields == d.fields
    &&& c.statics == d.statics
    &&& c.chunks == d.chunks
    &&& c.phases == d.object_phases
    &&& !c.snapshot
    &&& c.hidden == Set::<crate::favorites::HideKey>::empty()
    &&& c.collapsed == Set::<Seq<PathSegment>>::empty()
    &&& c.paths == Some(d.phases)
}

/// Cursor rows below an object in scope `k`: below a variable or its
/// fields, below a collection entry, or below a static field.
pub open spec fn flat_obj(d: TreeData, k: FieldScope, oid: u64, p: Seq<PathSegment>, depth: int, vis: Set<u64>) -> Seq<
    CursorView,
> {
    match k {
        FieldScope::Object => fl::obj_rows(d, oid, p, vis),
        FieldScope::Entry => fl::entry_obj(d, p, oid, depth, vis),
        FieldScope::Static => fl::static_obj(d, p, oid, depth, vis),
    }
}

/// Cursor rows of the fields `fs[i..]` of an object in scope `k`.
pub open spec fn flat_fields(d: TreeData, k: FieldScope, p: Seq<PathSegment>, fs: Seq<FieldInfo>, depth: int, vis: Set<u64>, i: int) -> Seq<
    CursorView,
> {
    match k {
        FieldScope::Object => fl::obj_fields(d, p, fs, vis, i),
        FieldScope::Entry => fl::entry_obj_fields(d, p, fs, depth, vis, i),
        FieldScope::Static => fl::static_obj_fields(d, p, fs, depth, vis, i),
    }
}

/// Cursor rows of field `i` of an object in scope `k`: its own row and the
/// rows below it.
pub open spec fn field_count(d: TreeData, k: FieldScope, p: Seq<PathSegment>, fld: FieldInfo, i: int, depth: int, vis: Set<u64>) -> int {
    let child = p.push(PathSegment::Field(FieldIdx(i as usize)));
    match fld.value {
        FieldValue::ObjectRef { id, entry_count, .. } => if vis.contains(id) {
            1
        } else if entry_count is Some {
            1 + fl::coll_children(d, child, id).len() as int
        } else {
            1 + flat_obj(d, k, id, child, depth + 1, vis).len() as int
        },
        _ => 1,
    }
}

/// What the walk reads of the context, in terms of the expansion data.
proof fn lemma_ctx(c: TreeCtx, d: TreeData)
    requires
        stack_ctx_of(c, d),
    ensures
        forall|id: u64, p: Seq<PathSegment>| #[trigger] tr::phase_at(c, id, p) == obj_phase(d, id),
        forall|id: u64| #[trigger] tr::fields_at(c, id) == fields_of(d, id),
        forall|id: u64, ec: Option<u64>, p: Seq<PathSegment>| !(#[trigger] tr::ref_state(c, id, ec, p)).1,
        forall|fld: FieldInfo, ss: bool, p: Seq<PathSegment>| !(#[trigger] tr::field_state(c, fld, ss, p)).1,
        forall|ec: Option<u64>, id: u64| #[trigger] tr::coll_ref(c, ec, id) == ec is Some,
        forall|ph: Option<ExpansionPhase>, id: u64, p: Seq<PathSegment>|
            #[trigger] tr::coll_open(c, ph, id, p) == (d.chunks.contains_key(id)
                && super::expansion::phase_at(d.phases, p) == ExpansionPhase::Expanded),
        forall|depth: int| #[trigger] tr::below_depth(c, depth) == 0,
{
    assert forall|fld: FieldInfo, ss: bool, p: Seq<PathSegment>| !(#[trigger] tr::field_state(c, fld, ss, p)).1 by {
        match fld.value {
            FieldValue::ObjectRef { id, entry_count, .. } => {
                assert(!tr::ref_state(c, id, entry_count, p).1);
            },
            _ => {},
        }
    }
}

proof fn lemma_push_to_set(s: Seq<u64>, a: u64)
    ensures
        s.push(a).to_set() == s.to_set().insert(a),
{
    assert forall|x: u64| #[trigger] s.push(a).to_set().contains(x) == s.to_set().insert(a).contains(x) by {
        if s.contains(x) {
            let k = choose|k: int| 0 <= k < s.len() && s[k] == x;
            assert(s.push(a)[k] == x);
        }
        if x == a {
            assert(s.push(a)[s.len() as int] == a);
        }
        if s.push(a).contains(x) && x != a {
            let k = choose|k: int| 0 <= k < s.len() + 1 && s.push(a)[k] == x;
            assert(k < s.len());
            assert(s[k] == x);
        }
    }
    assert(s.push(a).to_set() =~= s.to_set().insert(a));
}

proof fn lemma_obj(f: nat, c: TreeCtx, d: TreeData, oid: u64, indent: Seq<char>, depth: int, vis: Seq<u64>, k: FieldScope, p: Seq<PathSegment>)
    requires
        stack_ctx_of(c, d),
        depth >= 0,
        k == FieldScope::Object ==> p.len() == depth + 2,
        tr::obj_rows(f, c, oid, indent, depth, vis, k, p) is Some,
    ensures
        tr::obj_rows(f, c, oid, indent, depth, vis, k, p).unwrap().len() == flat_obj(d, k, oid, p, depth, vis.to_set()).len(),
    decreases f, 5int, 0int,
{
    lemma_ctx(c, d);
    if depth < 16 {
        assert(tr::phase_at(c, oid, p) == obj_phase(d, oid));
        if obj_phase(d, oid) == ExpansionPhase::Expanded {
            let fs = tr::fields_at(c, oid);
            assert(fs == fields_of(d, oid));
            if k != FieldScope::Static {
                lemma_statics(f, c, d, oid, indent, depth, p);
            }
            if fs.len() > 0 {
                lemma_push_to_set(vis, oid);
                lemma_fields(f, c, d, oid, fs, 0, indent, depth, vis.push(oid), k, p);
            }
        }
    }
}

proof fn lemma_fields(f: nat, c: TreeCtx, d: TreeData, oid: u64, fs: Seq<FieldInfo>, i: int, indent: Seq<char>, depth: int, vis: Seq<u64>, k: FieldScope, p: Seq<PathSegment>)
    requires
        stack_ctx_of(c, d),
        0 <= depth < 16,
        k == FieldScope::Object ==> p.len() == depth + 2,
        0 <= i <= fs.len(),
        tr::field_list(f, c, oid, fs, i, indent, depth, vis, k, p) is Some,
    ensures
        tr::field_list(f, c, oid, fs, i, indent, depth, vis, k, p).unwrap().len() == flat_fields(
            d,
            k,
            p,
            fs,
            depth,
            vis.to_set(),
            i,
        ).len(),
    decreases f, 4int, fs.len() - i,
{
    if i < fs.len() {
        lemma_field(f, c, d, oid, fs[i], i, indent, depth, vis, k, p);
        lemma_fields(f, c, d, oid, fs, i + 1, indent, depth, vis, k, p);
        assert(flat_fields(d, k, p, fs, depth, vis.to_set(), i).len() == field_count(d, k, p, fs[i], i, depth, vis.to_set())
            + flat_fields(d, k, p, fs, depth, vis.to_set(), i + 1).len());
    }
}

proof fn lemma_field(f: nat, c: TreeCtx, d: TreeData, oid: u64, fld: FieldInfo, i: int, indent: Seq<char>, depth: int, vis: Seq<u64>, k: FieldScope, p: Seq<PathSegment>)
    requires
        stack_ctx_of(c, d),
        0 <= depth < 16,
        k == FieldScope::Object ==> p.len() == depth + 2,
        0 <= i,
        tr::field_entry(f, c, oid, fld, i, indent, depth, vis, k, p) is Some,
    ensures
        tr::field_entry(f, c, oid, fld, i, indent, depth, vis, k, p).unwrap().len() == field_count(
            d,
            k,
            p,
            fld,
            i,
            depth,
            vis.to_set(),
        ),
    decreases f, 2int, 0int,
{
    lemma_ctx(c, d);
    let hk = crate::favorites::HideKey::Field { parent_id: oid, field_idx: i as usize };
    assert(!c.hidden.contains(hk));
    match fld.value {
        FieldValue::ObjectRef { id, entry_count, .. } => {
            if !vis.contains(id) {
                assert(!vis.to_set().contains(id));
                let cp = p.push(PathSegment::Field(FieldIdx(i as usize)));
                let st = tr::field_state(c, fld, k == FieldScope::Static, cp);
                assert(!st.1);
                if entry_count is Some {
                    if d.chunks.contains_key(id) && super::expansion::phase_at(d.phases, cp) == ExpansionPhase::Expanded {
                        assert(tr::coll_open(c, st.0, id, cp));
                        lemma_coll((f - 1) as nat, c, d, id, indent + "  "@, depth, cp, Seq::empty());
                    } else {
                        assert(!tr::coll_open(c, st.0, id, cp));
                    }
                } else {
                    lemma_obj((f - 1) as nat, c, d, id, indent + "  "@, depth + 1, vis, k, cp);
                }
            } else {
                assert(vis.to_set().contains(id));
            }
        },
        _ => {},
    }
}

proof fn lemma_statics(f: nat, c: TreeCtx, d: TreeData, oid: u64, indent: Seq<char>, depth: int, p: Seq<PathSegment>)
    requires
        stack_ctx_of(c, d),
        0 <= depth < 16,
        tr::static_rows(f, c, oid, indent, depth, p) is Some,
    ensures
        tr::static_rows(f, c, oid, indent, depth, p).unwrap().len() == fl::static_section(d, p, oid).len(),
    decreases f, 4int, 0int,
{
    let sf = tr::statics_at(c, oid);
    if sf.len() > 0 {
        assert(d.statics.contains_key(oid) && d.statics[oid]@ == sf);
        let shown: int = if sf.len() < crate::stack_view::types::STATIC_FIELDS_RENDER_LIMIT {
            sf.len() as int
        } else {
            crate::stack_view::types::STATIC_FIELDS_RENDER_LIMIT as int
        };
        lemma_static_list(f, c, d, sf, 0, shown, indent, depth, p);
    }
}

proof fn lemma_static_list(f: nat, c: TreeCtx, d: TreeData, sf: Seq<FieldInfo>, i: int, shown: int, indent: Seq<char>, depth: int, p: Seq<PathSegment>)
    requires
        stack_ctx_of(c, d),
        0 <= depth < 16,
        0 <= i,
        tr::static_list(f, c, sf, i, shown, indent, depth, p) is Some,
    ensures
        tr::static_list(f, c, sf, i, shown, indent, depth, p).unwrap().len() == fl::static_rows(d, p, sf, shown, i).len(),
    decreases f, 3int, shown - i,
{
    if i < shown && i < sf.len() {
        lemma_static_entry(f, c, d, sf[i], i, indent, depth, p);
        lemma_static_list(f, c, d, sf, i + 1, shown, indent, depth, p);
    }
}

proof fn lemma_static_entry(f: nat, c: TreeCtx, d: TreeData, fld: FieldInfo, si: int, indent: Seq<char>, depth: int, p: Seq<PathSegment>)
    requires
        stack_ctx_of(c, d),
        0 <= depth < 16,
        0 <= si,
        tr::static_entry(f, c, fld, si, indent, depth, p) is Some,
    ensures
        tr::static_entry(f, c, fld, si, indent, depth, p).unwrap().len() == 1 + ({
            let sp = p.push(PathSegment::StaticField(StaticFieldIdx(si as usize)));
            match fld.value {
                FieldValue::ObjectRef { id, entry_count, .. } => if entry_count is Some {
                    fl::coll_children(d, sp, id).len() as int
                } else {
                    fl::static_obj(d, sp, id, 0, Set::empty()).len() as int
                },
                _ => 0int,
            }
        }),
    decreases f, 2int, 0int,
{
    lemma_ctx(c, d);
    let sp = p.push(PathSegment::StaticField(StaticFieldIdx(si as usize)));
    let st = tr::field_state(c, fld, true, sp);
    match fld.value {
        FieldValue::ObjectRef { id, entry_count, .. } => {
            if entry_count is Some {
                if d.chunks.contains_key(id) && super::expansion::phase_at(d.phases, sp) == ExpansionPhase::Expanded {
                    assert(tr::coll_open(c, st.0, id, sp));
                    lemma_coll((f - 1) as nat, c, d, id, indent + "    "@, depth, sp, Seq::empty());
                } else {
                    assert(!tr::coll_open(c, st.0, id, sp));
                }
            } else {
                assert(Seq::<u64>::empty().to_set() =~= Set::<u64>::empty());
                lemma_obj((f - 1) as nat, c, d, id, indent + "    "@, 0, Seq::empty(), FieldScope::Static, sp);
            }
        },
        _ => {},
    }
}

proof fn lemma_coll(f: nat, c: TreeCtx, d: TreeData, cid: u64, indent: Seq<char>, depth: int, p: Seq<PathSegment>, vc: Seq<u64>)
    requires
        stack_ctx_of(c, d),
        0 <= depth < 16,
        d.chunks.contains_key(cid),
        super::expansion::phase_at(d.phases, p) == ExpansionPhase::Expanded,
        tr::coll_rows(f, c, cid, indent, depth, p, vc) is Some,
    ensures
        tr::coll_rows(f, c, cid, indent, depth, p, vc).unwrap().len() == fl::coll_inner(d, p, cid, d.chunks[cid]).len(),
    decreases f, 5int, 0int,
{
    let cc = c.chunks[cid];
    match cc.eager_page {
        Some(pg) => {
            lemma_entries(f, c, d, cid, pg.entries@, 0, indent, depth, p, vc.push(cid));
        },
        None => {},
    }
    let rs = chunk_ranges_spec((cc.total_count as usize) as nat);
    lemma_sections(f, c, d, cid, rs, 0, indent, depth, p, vc.push(cid));
}

proof fn lemma_sections(f: nat, c: TreeCtx, d: TreeData, cid: u64, rs: Seq<(usize, usize)>, j: int, indent: Seq<char>, depth: int, p: Seq<PathSegment>, vc: Seq<u64>)
    requires
        stack_ctx_of(c, d),
        0 <= depth < 16,
        d.chunks.contains_key(cid),
        super::expansion::phase_at(d.phases, p) == ExpansionPhase::Expanded,
        0 <= j,
        tr::sections(f, c, cid, rs, j, indent, depth, p, vc) is Some,
    ensures
        tr::sections(f, c, cid, rs, j, indent, depth, p, vc).unwrap().len() == fl::coll_sections(
            d,
            p,
            cid,
            d.chunks[cid],
            rs,
            j,
        ).len(),
    decreases f, 4int, rs.len() - j,
{
    if j < rs.len() {
        let st = c.chunks[cid].chunk_pages.lookup(rs[j].0);
        match st {
            Some(ChunkState::Loaded(pg)) => {
                lemma_entries(f, c, d, cid, pg.entries@, 0, indent, depth, p, vc);
            },
            _ => {},
        }
        lemma_sections(f, c, d, cid, rs, j + 1, indent, depth, p, vc);
    }
}

proof fn lemma_entries(f: nat, c: TreeCtx, d: TreeData, cid: u64, es: Seq<EntryInfo>, i: int, indent: Seq<char>, depth: int, p: Seq<PathSegment>, vc: Seq<u64>)
    requires
        stack_ctx_of(c, d),
        0 <= depth < 16,
        super::expansion::phase_at(d.phases, p) == ExpansionPhase::Expanded,
        0 <= i,
        tr::entry_list(f, c, cid, es, i, indent, depth, p, vc) is Some,
    ensures
        tr::entry_list(f, c, cid, es, i, indent, depth, p, vc).unwrap().len() == fl::coll_entries(d, p, cid, es, i).len(),
    decreases f, 3int, es.len() - i,
{
    if i < es.len() {
        lemma_entry(f, c, d, cid, es[i], indent, depth, p, vc);
        lemma_entries(f, c, d, cid, es, i + 1, indent, depth, p, vc);
    }
}

proof fn lemma_entry(f: nat, c: TreeCtx, d: TreeData, cid: u64, e: EntryInfo, indent: Seq<char>, depth: int, p: Seq<PathSegment>, vc: Seq<u64>)
    requires
        stack_ctx_of(c, d),
        0 <= depth < 16,
        tr::entry_item(f, c, cid, e, indent, depth, p, vc) is Some,
    ensures
        tr::entry_item(f, c, cid, e, indent, depth, p, vc).unwrap().len() == fl::entry_rows(d, p, cid, e).len(),
    decreases f, 2int, 0int,
{
    lemma_ctx(c, d);
    let ep = p.push(PathSegment::CollectionEntry(CollectionId(cid), EntryIdx(e.index)));
    match e.value {
        FieldValue::ObjectRef { id, entry_count, .. } => {
            let st = tr::ref_state(c, id, entry_count, ep);
            assert(!st.1);
            if entry_count is Some && id != cid {
                if d.chunks.contains_key(id) && super::expansion::phase_at(d.phases, ep) == ExpansionPhase::Expanded {
                    assert(tr::coll_open(c, st.0, id, ep));
                    lemma_coll((f - 1) as nat, c, d, id, indent + "  "@, depth, ep, vc);
                } else {
                    assert(!tr::coll_open(c, st.0, id, ep));
                }
            } else {
                assert(Seq::<u64>::empty().to_set() =~= Set::<u64>::empty());
                lemma_obj((f - 1) as nat, c, d, id, indent + "  "@, 0, Seq::empty(), FieldScope::Entry, ep);
            }
        },
        _ => {},
    }
}

proof fn lemma_vars(f: nat, c: TreeCtx, d: TreeData, vars: Seq<VariableInfo>, i: int, fid: u64, indent: Seq<char>)
    requires
        stack_ctx_of(c, d),
        0 <= i <= vars.len(),
        tr::var_list(f, c, vars, i, fid, indent) is Some,
    ensures
        tr::var_list(f, c, vars, i, fid, indent).unwrap().len() == fl::var_rows(d, fid, vars, i).len(),
    decreases vars.len() - i,
{
    lemma_ctx(c, d);
    if i < vars.len() {
        let key = crate::favorites::HideKey::Var(i as usize);
        assert(!c.hidden.contains(key));
        let p = tr::var_path(fid, i);
        let vp = seq![PathSegment::Frame(FrameId(fid)), PathSegment::Var(VarIdx(i as usize))];
        assert(p == vp);
        lemma_vars(f, c, d, vars, i + 1, fid, indent);
        match vars[i].value {
            VariableValue::ObjectRef { id, entry_count, .. } => {
                let st = tr::ref_state(c, id, entry_count, p);
                assert(!st.1);
                if entry_count is Some {
                    if d.chunks.contains_key(id) && super::expansion::phase_at(d.phases, p) == ExpansionPhase::Expanded {
                        assert(tr::coll_open(c, st.0, id, p));
                        lemma_coll(f, c, d, id, indent + "  "@, 0, p, Seq::empty());
                    } else {
                        assert(!tr::coll_open(c, st.0, id, p));
                    }
                } else {
                    assert(Seq::<u64>::empty().to_set() =~= Set::<u64>::empty());
                    lemma_obj(f, c, d, id, indent + "  "@, 0, Seq::empty(), FieldScope::Object, p);
                }
            },
            VariableValue::Null => {},
        }
    }
}

proof fn lemma_tree(c: TreeCtx, d: TreeData, vars: Map<u64, Vec<VariableInfo>>, fid: u64)
    requires
        stack_ctx_of(c, d),
        renderable(c, frame_root(vars, fid)),
    ensures
        tree_of(c, frame_root(vars, fid)).len() == (if fl::vars_of(vars, fid).len() == 0 {
            1
        } else {
            fl::var_rows(d, fid, fl::vars_of(vars, fid), 0).len()
        }),
{
    let vs = fl::vars_of(vars, fid);
    if vs.len() > 0 {
        lemma_vars(tr::WALK_BUDGET as nat, c, d, vs, 0, fid, "  "@);
    }
}

proof fn lemma_frames(c: TreeCtx, d: TreeData, frames: Seq<FrameInfo>, vars: Map<u64, Vec<VariableInfo>>, expanded: Set<u64>, i: int)
    requires
        stack_ctx_of(c, d),
        0 <= i <= frames.len(),
        forall|j: int|
            0 <= j < frames.len() && expanded.contains(#[trigger] frames[j].frame_id) ==> renderable(
                c,
                frame_root(vars, frames[j].frame_id),
            ),
    ensures
        frame_items(c, frames, vars, expanded, i).len() == fl::frame_rows(d, frames, vars, expanded, i).len(),
    decreases frames.len() - i,
{
    if i < frames.len() {
        lemma_frames(c, d, frames, vars, expanded, i + 1);
        let fid = frames[i].frame_id;
        if expanded.contains(fid) {
            lemma_tree(c, d, vars, fid);
        }
    }
}

/// Law: when the variable trees of its expanded frames can be rendered,
/// the stack panel renders exactly as many rows as there are cursor rows,
/// so the list selection kept by the cursor indexes the rendered list.
pub proof fn lemma_rows_match_cursor_rows(s: StackState, show_ids: bool)
    requires
        s.trees_renderable(show_ids),
    ensures
        s.items(show_ids).len() == s.flat().len(),
{
    let c = stack_tree_ctx(s.data(), s.errors(), show_ids);
    lemma_frames(c, s.data(), s.frames_view(), s.vars_view(), s.expanded_view(), 0);
    reveal(stack_rows);
}

proof fn lemma_frames_ids(c1: TreeCtx, c2: TreeCtx, frames: Seq<FrameInfo>, vars: Map<u64, Vec<VariableInfo>>, expanded: Set<u64>, i: int)
    requires
        same_but_ids(c1, c2),
        0 <= i <= frames.len(),
        forall|j: int|
            0 <= j < frames.len() && expanded.contains(#[trigger] frames[j].frame_id) ==> renderable(
                c2,
                frame_root(vars, frames[j].frame_id),
            ),
    ensures
        frame_items(c1, frames, vars, expanded, i).len() == frame_items(c2, frames, vars, expanded, i).len(),
    decreases frames.len() - i,
{
    if i < frames.len() {
        lemma_frames_ids(c1, c2, frames, vars, expanded, i + 1);
        let root = frame_root(vars, frames[i].frame_id);
        lemma_shape_ignores_ids(c1, c2, root);
        if expanded.contains(frames[i].frame_id) {
            assert(shapes(tree_of(c1, root)).len() == tree_of(c1, root).len());
            assert(shapes(tree_of(c2, root)).len() == tree_of(c2, root).len());
            assert(tree_spans(c1, root).len() == tree_spans(c2, root).len());
        }
    }
}

/// Law: whether object ids are shown changes neither whether the stack
/// panel can be rendered nor how many rows it has.
pub proof fn lemma_items_ignore_ids(s: StackState, show_ids: bool)
    ensures
        s.trees_renderable(show_ids) == s.trees_renderable(false),
        s.trees_renderable(false) ==> s.items(show_ids).len() == s.items(false).len(),
{
    let c1 = stack_tree_ctx(s.data(), s.errors(), show_ids);
    let c2 = stack_tree_ctx(s.data(), s.errors(), false);
    assert(same_but_ids(c1, c2));
    assert forall|i: int|
        0 <= i < s.frames_view().len() && s.expanded_view().contains(#[trigger] s.frames_view()[i].frame_id)
            implies renderable(c1, frame_root(s.vars_view(), s.frames_view()[i].frame_id)) == renderable(
            c2,
            frame_root(s.vars_view(), s.frames_view()[i].frame_id),
        ) by {
        lemma_shape_ignores_ids(c1, c2, frame_root(s.vars_view(), s.frames_view()[i].frame_id));
    }
    if s.trees_renderable(false) {
        lemma_frames_ids(c1, c2, s.frames_view(), s.vars_view(), s.expanded_view(), 0);
    }
}

// ── the stack panel's walk always ends ─────────────────────────────

/// Recorded paths at least as long as `p`: collections can nest below `p`
/// only at expanded paths, each longer than the one before.
pub open spec fn kq(d: TreeData, p: Seq<PathSegment>) -> int {
    count_len_ge(d.phases, p.len() as int) as int
}

/// Walk budget that suffices below an object shown at `p` in scope `k` at
/// object depth `depth`.
pub open spec fn obj_need(d: TreeData, k: FieldScope, p: Seq<PathSegment>, depth: int) -> int {
    if depth >= 16 {
        0
    } else {
        40 * kq(d, p) + (if k == FieldScope::Static {
            17int
        } else {
            35int
        }) - depth
    }
}

/// Walk budget that suffices below an expanded collection shown at `p`.
pub open spec fn coll_need(d: TreeData, p: Seq<PathSegment>) -> int {
    40 * (kq(d, p) - 1) + 36
}

proof fn lemma_count_le_len(ph: PhaseList, n: int)
    ensures
        count_len_ge(ph, n) <= ph.len(),
    decreases ph.len(),
{
    if ph.len() > 0 {
        lemma_count_le_len(ph.drop_last(), n);
    }
}

proof fn lemma_kq_child(d: TreeData, p: Seq<PathSegment>, q: Seq<PathSegment>)
    requires
        p.len() <= q.len(),
    ensures
        kq(d, q) <= kq(d, p),
{
    lemma_count_monotone(d.phases, p.len() as int, q.len() as int);
}

proof fn lemma_kq_below_expanded(d: TreeData, p: Seq<PathSegment>, q: Seq<PathSegment>)
    requires
        super::expansion::phase_at(d.phases, p) == ExpansionPhase::Expanded,
        q.len() == p.len() + 1,
    ensures
        kq(d, q) < kq(d, p),
        kq(d, p) >= 1,
{
    lemma_expanded_count(d.phases, p);
}

proof fn lemma_s_obj(f: nat, c: TreeCtx, d: TreeData, oid: u64, indent: Seq<char>, depth: int, vis: Seq<u64>, k: FieldScope, p: Seq<PathSegment>)
    requires
        stack_ctx_of(c, d),
        depth >= 0,
        f >= obj_need(d, k, p, depth),
    ensures
        tr::obj_rows(f, c, oid, indent, depth, vis, k, p) is Some,
    decreases f, 5int, 0int,
{
    lemma_ctx(c, d);
    if depth < 16 && obj_phase(d, oid) == ExpansionPhase::Expanded {
        let fs = tr::fields_at(c, oid);
        if k != FieldScope::Static {
            lemma_s_statics(f, c, d, oid, indent, depth, p);
        }
        if fs.len() > 0 {
            lemma_s_fields(f, c, d, oid, fs, 0, indent, depth, vis.push(oid), k, p);
        }
    }
}

proof fn lemma_s_fields(f: nat, c: TreeCtx, d: TreeData, oid: u64, fs: Seq<FieldInfo>, i: int, indent: Seq<char>, depth: int, vis: Seq<u64>, k: FieldScope, p: Seq<PathSegment>)
    requires
        stack_ctx_of(c, d),
        0 <= depth < 16,
        f >= obj_need(d, k, p, depth),
        0 <= i <= fs.len(),
    ensures
        tr::field_list(f, c, oid, fs, i, indent, depth, vis, k, p) is Some,
    decreases f, 4int, fs.len() - i,
{
    if i < fs.len() {
        lemma_s_field(f, c, d, oid, fs[i], i, indent, depth, vis, k, p);
        lemma_s_fields(f, c, d, oid, fs, i + 1, indent, depth, vis, k, p);
    }
}

proof fn lemma_s_field(f: nat, c: TreeCtx, d: TreeData, oid: u64, fld: FieldInfo, i: int, indent: Seq<char>, depth: int, vis: Seq<u64>, k: FieldScope, p: Seq<PathSegment>)
    requires
        stack_ctx_of(c, d),
        0 <= depth < 16,
        f >= obj_need(d, k, p, depth),
        0 <= i,
    ensures
        tr::field_entry(f, c, oid, fld, i, indent, depth, vis, k, p) is Some,
    decreases f, 2int, 0int,
{
    lemma_ctx(c, d);
    let hk = crate::favorites::HideKey::Field { parent_id: oid, field_idx: i as usize };
    assert(!c.hidden.contains(hk));
    match fld.value {
        FieldValue::ObjectRef { id, entry_count, .. } => {
            if !vis.contains(id) {
                let cp = p.push(PathSegment::Field(FieldIdx(i as usize)));
                let st = tr::field_state(c, fld, k == FieldScope::Static, cp);
                assert(!st.1);
                lemma_kq_child(d, p, cp);
                if entry_count is Some {
                    if d.chunks.contains_key(id) && super::expansion::phase_at(d.phases, cp) == ExpansionPhase::Expanded {
                        assert(tr::coll_open(c, st.0, id, cp));
                        lemma_kq_below_expanded(d, cp, cp.push(PathSegment::Field(FieldIdx(0))));
                        lemma_s_coll((f - 1) as nat, c, d, id, indent + "  "@, depth, cp, Seq::empty());
                    } else {
                        assert(!tr::coll_open(c, st.0, id, cp));
                    }
                } else {
                    lemma_s_obj((f - 1) as nat, c, d, id, indent + "  "@, depth + 1, vis, k, cp);
                }
            }
        },
        _ => {},
    }
}

proof fn lemma_s_statics(f: nat, c: TreeCtx, d: TreeData, oid: u64, indent: Seq<char>, depth: int, p: Seq<PathSegment>)
    requires
        stack_ctx_of(c, d),
        0 <= depth < 16,
        f >= 40 * kq(d, p) + 19,
    ensures
        tr::static_rows(f, c, oid, indent, depth, p) is Some,
    decreases f, 4int, 0int,
{
    let sf = tr::statics_at(c, oid);
    if sf.len() > 0 {
        let shown: int = if sf.len() < crate::stack_view::types::STATIC_FIELDS_RENDER_LIMIT {
            sf.len() as int
        } else {
            crate::stack_view::types::STATIC_FIELDS_RENDER_LIMIT as int
        };
        lemma_s_static_list(f, c, d, sf, 0, shown, indent, depth, p);
    }
}

proof fn lemma_s_static_list(f: nat, c: TreeCtx, d: TreeData, sf: Seq<FieldInfo>, i: int, shown: int, indent: Seq<char>, depth: int, p: Seq<PathSegment>)
    requires
        stack_ctx_of(c, d),
        0 <= depth < 16,
        f >= 40 * kq(d, p) + 19,
        0 <= i,
    ensures
        tr::static_list(f, c, sf, i, shown, indent, depth, p) is Some,
    decreases f, 3int, shown - i,
{
    if i < shown && i < sf.len() {
        lemma_s_static_entry(f, c, d, sf[i], i, indent, depth, p);
        lemma_s_static_list(f, c, d, sf, i + 1, shown, indent, depth, p);
    }
}

proof fn lemma_s_static_entry(f: nat, c: TreeCtx, d: TreeData, fld: FieldInfo, si: int, indent: Seq<char>, depth: int, p: Seq<PathSegment>)
    requires
        stack_ctx_of(c, d),
        0 <= depth < 16,
        f >= 40 * kq(d, p) + 19,
        0 <= si,
    ensures
        tr::static_entry(f, c, fld, si, indent, depth, p) is Some,
    decreases f, 2int, 0int,
{
    lemma_ctx(c, d);
    let sp = p.push(PathSegment::StaticField(StaticFieldIdx(si as usize)));
    let st = tr::field_state(c, fld, true, sp);
    lemma_kq_child(d, p, sp);
    match fld.value {
        FieldValue::ObjectRef { id, entry_count, .. } => {
            if entry_count is Some {
                if d.chunks.contains_key(id) && super::expansion::phase_at(d.phases, sp) == ExpansionPhase::Expanded {
                    assert(tr::coll_open(c, st.0, id, sp));
                    lemma_kq_below_expanded(d, sp, sp.push(PathSegment::Field(FieldIdx(0))));
                    lemma_s_coll((f - 1) as nat, c, d, id, indent + "    "@, depth, sp, Seq::empty());
                } else {
                    assert(!tr::coll_open(c, st.0, id, sp));
                }
            } else {
                lemma_s_obj((f - 1) as nat, c, d, id, indent + "    "@, 0, Seq::empty(), FieldScope::Static, sp);
            }
        },
        _ => {},
    }
}

proof fn lemma_s_coll(f: nat, c: TreeCtx, d: TreeData, cid: u64, indent: Seq<char>, depth: int, p: Seq<PathSegment>, vc: Seq<u64>)
    requires
        stack_ctx_of(c, d),
        super::expansion::phase_at(d.phases, p) == ExpansionPhase::Expanded,
        f >= coll_need(d, p),
    ensures
        tr::coll_rows(f, c, cid, indent, depth, p, vc) is Some,
    decreases f, 5int, 0int,
{
    if !(depth >= 16 || !c.chunks.contains_key(cid)) {
        let cc = c.chunks[cid];
        match cc.eager_page {
            Some(pg) => {
                lemma_s_entries(f, c, d, cid, pg.entries@, 0, indent, depth, p, vc.push(cid));
            },
            None => {},
        }
        let rs = chunk_ranges_spec((cc.total_count as usize) as nat);
        lemma_s_sections(f, c, d, cid, rs, 0, indent, depth, p, vc.push(cid));
    }
}

proof fn lemma_s_sections(f: nat, c: TreeCtx, d: TreeData, cid: u64, rs: Seq<(usize, usize)>, j: int, indent: Seq<char>, depth: int, p: Seq<PathSegment>, vc: Seq<u64>)
    requires
        stack_ctx_of(c, d),
        super::expansion::phase_at(d.phases, p) == ExpansionPhase::Expanded,
        f >= coll_need(d, p),
        0 <= j,
    ensures
        tr::sections(f, c, cid, rs, j, indent, depth, p, vc) is Some,
    decreases f, 4int, rs.len() - j,
{
    if j < rs.len() && c.chunks.contains_key(cid) {
        let st = c.chunks[cid].chunk_pages.lookup(rs[j].0);
        match st {
            Some(ChunkState::Loaded(pg)) => {
                lemma_s_entries(f, c, d, cid, pg.entries@, 0, indent, depth, p, vc);
            },
            _ => {},
        }
        lemma_s_sections(f, c, d, cid, rs, j + 1, indent, depth, p, vc);
    }
}

proof fn lemma_s_entries(f: nat, c: TreeCtx, d: TreeData, cid: u64, es: Seq<EntryInfo>, i: int, indent: Seq<char>, depth: int, p: Seq<PathSegment>, vc: Seq<u64>)
    requires
        stack_ctx_of(c, d),
        super::expansion::phase_at(d.phases, p) == ExpansionPhase::Expanded,
        f >= coll_need(d, p),
        0 <= i,
    ensures
        tr::entry_list(f, c, cid, es, i, indent, depth, p, vc) is Some,
    decreases f, 3int, es.len() - i,
{
    if i < es.len() {
        lemma_s_entry(f, c, d, cid, es[i], indent, depth, p, vc);
        lemma_s_entries(f, c, d, cid, es, i + 1, indent, depth, p, vc);
    }
}

proof fn lemma_s_entry(f: nat, c: TreeCtx, d: TreeData, cid: u64, e: EntryInfo, indent: Seq<char>, depth: int, p: Seq<PathSegment>, vc: Seq<u64>)
    requires
        stack_ctx_of(c, d),
        super::expansion::phase_at(d.phases, p) == ExpansionPhase::Expanded,
        f >= coll_need(d, p),
    ensures
        tr::entry_item(f, c, cid, e, indent, depth, p, vc) is Some,
    decreases f, 2int, 0int,
{
    lemma_ctx(c, d);
    let ep = p.push(PathSegment::CollectionEntry(CollectionId(cid), EntryIdx(e.index)));
    lemma_kq_below_expanded(d, p, ep);
    match e.value {
        FieldValue::ObjectRef { id, entry_count, .. } => {
            let st = tr::ref_state(c, id, entry_count, ep);
            assert(!st.1);
            if entry_count is Some && id != cid {
                if d.chunks.contains_key(id) && super::expansion::phase_at(d.phases, ep) == ExpansionPhase::Expanded {
                    assert(tr::coll_open(c, st.0, id, ep));
                    lemma_kq_below_expanded(d, ep, ep.push(PathSegment::Field(FieldIdx(0))));
                    lemma_s_coll((f - 1) as nat, c, d, id, indent + "  "@, depth, ep, vc);
                } else {
                    assert(!tr::coll_open(c, st.0, id, ep));
                }
            } else {
                lemma_s_obj((f - 1) as nat, c, d, id, indent + "  "@, 0, Seq::empty(), FieldScope::Entry, ep);
            }
        },
        _ => {},
    }
}

proof fn lemma_s_vars(f: nat, c: TreeCtx, d: TreeData, vars: Seq<VariableInfo>, i: int, fid: u64, indent: Seq<char>)
    requires
        stack_ctx_of(c, d),
        0 <= i <= vars.len(),
        f >= 40 * count_len_ge(d.phases, 2) + 35,
    ensures
        tr::var_list(f, c, vars, i, fid, indent) is Some,
    decreases vars.len() - i,
{
    lemma_ctx(c, d);
    if i < vars.len() {
        let key = crate::favorites::HideKey::Var(i as usize);
        assert(!c.hidden.contains(key));
        let p = tr::var_path(fid, i);
        assert(p.len() == 2);
        lemma_s_vars(f, c, d, vars, i + 1, fid, indent);
        match vars[i].value {
            VariableValue::ObjectRef { id, entry_count, .. } => {
                let st = tr::ref_state(c, id, entry_count, p);
                assert(!st.1);
                if entry_count is Some {
                    if d.chunks.contains_key(id) && super::expansion::phase_at(d.phases, p) == ExpansionPhase::Expanded {
                        assert(tr::coll_open(c, st.0, id, p));
                        lemma_kq_below_expanded(d, p, p.push(PathSegment::Field(FieldIdx(0))));
                        lemma_s_coll(f, c, d, id, indent + "  "@, 0, p, Seq::empty());
                    } else {
                        assert(!tr::coll_open(c, st.0, id, p));
                    }
                } else {
                    lemma_s_obj(f, c, d, id, indent + "  "@, 0, Seq::empty(), FieldScope::Object, p);
                }
            },
            VariableValue::Null => {},
        }
    }
}

/// Law: the variable trees of the stack panel always render, whatever
/// the expansion state (collections nest only at expanded paths, and the
/// recorded paths are far fewer than the walk budget allows), so the panel
/// always renders exactly as many rows as there are cursor rows.
pub proof fn lemma_stack_always_renders(s: StackState, show_ids: bool)
    requires
        s.data().phases.len() <= 0x1_0000_0000_0000,
    ensures
        s.trees_renderable(show_ids),
        s.items(show_ids).len() == s.flat().len(),
{
    let c = stack_tree_ctx(s.data(), s.errors(), show_ids);
    let d = s.data();
    lemma_count_le_len(d.phases, 2);
    assert forall|i: int|
        0 <= i < s.frames_view().len() && s.expanded_view().contains(#[trigger] s.frames_view()[i].frame_id)
            implies renderable(c, frame_root(s.vars_view(), s.frames_view()[i].frame_id)) by {
        let fid = s.frames_view()[i].frame_id;
        let vs = fl::vars_of(s.vars_view(), fid);
        if vs.len() > 0 {
            lemma_s_vars(tr::WALK_BUDGET as nat, c, d, vs, 0, fid, "  "@);
        }
    }
    lemma_rows_match_cursor_rows(s, show_ids);
}

} // verus!
