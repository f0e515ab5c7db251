//! [`StackState`]: the frames of a thread, their cached variables, the
//! expansion registry and the cursor over the flattened rows.

use std::collections::{HashMap, HashSet};

use vstd::prelude::*;

use crate::cursor::{index_of_first, key_views, lemma_index_of_first, position_of, CursorState, ListState};
use crate::favorites::HideKey;
use crate::keyset::KeySet;
use crate::rows::{row_view, rows_view, Span, SpanView, Tone};
use crate::text::{push_str, string_of};
use crate::tree_render::{
    render_tree_rows, renderable, root_view, walk_tree, source_ctx, tree_spans, RenderOptions, RootView, TreeCtx, TreeSource,
    TreeRoot,
};
use super::format::{entry_line, format_entry_line, format_frame_label, frame_label};
use crate::engine::{field_ref_id, EntryInfo, FieldInfo, FieldValue, FrameInfo, VariableInfo, VariableValue};
use super::chunks::{chunk_ranges_spec, compute_chunk_ranges};
use super::collections::{find_entry_spec, key_insert, ChunkState, CollectionChunks};
use super::descendants::{collect_descendants, descendants};
use super::expansion::{obj_phase, phase_at, phase_lookup, ExpansionRegistry, TreeData};
use super::flat::{cursors_view, flat_items_of, flat_spec, frame_rows, vars_of};
use super::types::{
    cursor_view_path, CursorView, ExpansionPhase, FrameId, NavigationPath, NavigationPathBuilder,
    PathSegment, RenderCursor,
};

verus! {

broadcast use vstd::std_specs::hash::group_hash_axioms;

/// State for the stack frame panel.
pub struct StackState {
    frames: Vec<FrameInfo>,
    vars: HashMap<u64, Vec<VariableInfo>>,
    expanded: HashSet<u64>,
    nav: CursorState<RenderCursor>,
    expansion: ExpansionRegistry,
}

/// The rows of the stack panel in display order (see [`flat_spec`]).
#[verifier::opaque]
pub open spec fn stack_rows(
    d: TreeData,
    frames: Seq<FrameInfo>,
    vars: Map<u64, Vec<VariableInfo>>,
    expanded: Set<u64>,
) -> Seq<CursorView> {
    flat_spec(d, frames, vars, expanded)
}

/// The selection a cursor has in a list of rows: its first position.
pub open spec fn selection_in(rows: Seq<CursorView>, c: CursorView) -> Option<usize> {
    match index_of_first(rows, c) {
        Some(i) => Some(i as usize),
        None => None,
    }
}

/// The frame a cursor view stands in.
pub open spec fn cursor_frame(c: CursorView) -> Option<u64> {
    match cursor_view_path(c) {
        Some(p) => if p.len() > 0 && p[0] is Frame {
            Some(p[0]->Frame_0.0)
        } else {
            None
        },
        None => None,
    }
}


/// Root object of variable `vi` of frame `fid`.
pub open spec fn var_root(vars: Map<u64, Vec<VariableInfo>>, fid: u64, vi: usize) -> Option<u64> {
    if vars.contains_key(fid) && vi < vars[fid]@.len() {
        match vars[fid]@[vi as int].value {
            VariableValue::ObjectRef { id, .. } => Some(id),
            VariableValue::Null => None,
        }
    } else {
        None
    }
}

/// Root object of the variable a path starts with.
pub open spec fn path_root(vars: Map<u64, Vec<VariableInfo>>, p: Seq<PathSegment>) -> Option<u64> {
    if p.len() >= 2 && p[0] is Frame && p[1] is Var {
        var_root(vars, p[0]->Frame_0.0, p[1]->Var_0.0)
    } else {
        None
    }
}

/// Instance field `idx` of object `owner`.
pub open spec fn field_of(d: TreeData, owner: u64, idx: usize) -> Option<FieldInfo> {
    if d.fields.contains_key(owner) && idx < d.fields[owner]@.len() {
        Some(d.fields[owner]@[idx as int])
    } else {
        None
    }
}

/// Static field `idx` of object `owner`.
pub open spec fn static_of(d: TreeData, owner: u64, idx: usize) -> Option<FieldInfo> {
    if d.statics.contains_key(owner) && idx < d.statics[owner]@.len() {
        Some(d.statics[owner]@[idx as int])
    } else {
        None
    }
}

/// Entry `ei` of collection `cid`, from any loaded page.
pub open spec fn entry_of(d: TreeData, cid: u64, ei: usize) -> Option<EntryInfo> {
    if d.chunks.contains_key(cid) {
        find_entry_spec(d.chunks[cid], ei)
    } else {
        None
    }
}

/// Object reached from `cur` by following the field and entry segments
/// `segs`; `None` when a step is missing or not a reference.
pub open spec fn chain(d: TreeData, cur: u64, segs: Seq<PathSegment>) -> Option<u64>
    decreases segs.len(),
{
    if segs.len() == 0 {
        Some(cur)
    } else {
        let next = match segs[0] {
            PathSegment::Field(fi) => match field_of(d, cur, fi.0) {
                Some(f) => field_ref_id(f.value),
                None => None,
            },
            PathSegment::CollectionEntry(cid, ei) => match entry_of(d, cid.0, ei.0) {
                Some(e) => field_ref_id(e.value),
                None => None,
            },
            _ => None,
        };
        match next {
            Some(n) => chain(d, n, segs.drop_first()),
            None => None,
        }
    }
}

/// `o`, or `root` when `o` is `None`.
pub open spec fn or_root(o: Option<u64>, root: u64) -> u64 {
    match o {
        Some(x) => x,
        None => root,
    }
}

/// Position of the last static-field segment among the first `n`.
pub open spec fn last_static_before(p: Seq<PathSegment>, n: int) -> Option<int>
    decreases n,
{
    if n <= 0 || n > p.len() {
        None
    } else if p[n - 1] is StaticField {
        Some(n - 1)
    } else {
        last_static_before(p, n - 1)
    }
}

/// Position of the last collection-entry segment among the first `n`.
pub open spec fn last_entry_before(p: Seq<PathSegment>, n: int) -> Option<int>
    decreases n,
{
    if n <= 0 || n > p.len() {
        None
    } else if p[n - 1] is CollectionEntry {
        Some(n - 1)
    } else {
        last_entry_before(p, n - 1)
    }
}

/// The field a path ending in a field segment points at, the owner being
/// the object at the parent path (or the variable's object).
pub open spec fn loc_field(d: TreeData, vars: Map<u64, Vec<VariableInfo>>, p: Seq<PathSegment>) -> Option<FieldInfo> {
    if p.len() >= 1 && p.last() is Field {
        match path_root(vars, p) {
            Some(root) => field_of(d, or_root(chain(d, root, p.subrange(2, p.len() - 1)), root), p.last()->Field_0.0),
            None => None,
        }
    } else {
        None
    }
}

/// The static field a path ending in a static-field segment points at.
pub open spec fn loc_static(d: TreeData, vars: Map<u64, Vec<VariableInfo>>, p: Seq<PathSegment>) -> Option<FieldInfo> {
    if p.len() >= 1 && p.last() is StaticField {
        match path_root(vars, p) {
            Some(root) => static_of(d, or_root(chain(d, root, p.subrange(2, p.len() - 1)), root), p.last()->StaticField_0.0),
            None => None,
        }
    } else {
        None
    }
}

/// Follows `rest` from the object `base`: the field named by the last
/// segment of `rest`, owned by the object reached through the others.
pub open spec fn loc_below(d: TreeData, base: u64, rest: Seq<PathSegment>) -> Option<FieldInfo> {
    if rest.len() >= 1 && rest.last() is Field {
        field_of(d, or_root(chain(d, base, rest.drop_last()), base), rest.last()->Field_0.0)
    } else {
        None
    }
}

/// The field below a static field of a variable's object subtree.
pub open spec fn loc_static_obj(d: TreeData, vars: Map<u64, Vec<VariableInfo>>, p: Seq<PathSegment>) -> Option<FieldInfo> {
    match last_static_before(p, p.len() as int) {
        Some(sp) => match path_root(vars, p) {
            Some(root) => {
                let pre = if sp >= 2 {
                    p.subrange(2, sp)
                } else {
                    Seq::empty()
                };
                match static_of(d, or_root(chain(d, root, pre), root), p[sp]->StaticField_0.0) {
                    Some(sf) => match field_ref_id(sf.value) {
                        Some(sroot) => loc_below(d, sroot, p.subrange(sp + 1, p.len() as int)),
                        None => None,
                    },
                    None => None,
                }
            },
            None => None,
        },
        None => None,
    }
}

/// The entry a path ending in a collection-entry segment points at.
pub open spec fn loc_entry(d: TreeData, p: Seq<PathSegment>) -> Option<EntryInfo> {
    if p.len() >= 1 && p.last() is CollectionEntry {
        entry_of(d, p.last()->CollectionEntry_0.0, p.last()->CollectionEntry_1.0)
    } else {
        None
    }
}

/// The object of the last collection entry on a path.
pub open spec fn entry_root_at(d: TreeData, p: Seq<PathSegment>, ep: int) -> Option<u64> {
    if 0 <= ep < p.len() && p[ep] is CollectionEntry {
        match entry_of(d, p[ep]->CollectionEntry_0.0, p[ep]->CollectionEntry_1.0) {
            Some(e) => field_ref_id(e.value),
            None => None,
        }
    } else {
        None
    }
}

/// The field below the last collection entry of a path.
pub open spec fn loc_entry_obj(d: TreeData, p: Seq<PathSegment>) -> Option<FieldInfo> {
    match last_entry_before(p, p.len() as int) {
        Some(ep) => match entry_root_at(d, p, ep) {
            Some(er) => loc_below(d, er, p.subrange(ep + 1, p.len() as int)),
            None => None,
        },
        None => None,
    }
}

/// The static field of an object below the last collection entry.
pub open spec fn loc_entry_static(d: TreeData, p: Seq<PathSegment>) -> Option<FieldInfo> {
    match last_static_before(p, p.len() as int) {
        Some(sp) => match last_entry_before(p, sp) {
            Some(ep) => match entry_root_at(d, p, ep) {
                Some(er) => static_of(d, or_root(chain(d, er, p.subrange(ep + 1, sp)), er), p[sp]->StaticField_0.0),
                None => None,
            },
            None => None,
        },
        None => None,
    }
}

/// The field below a static field below the last collection entry.
pub open spec fn loc_entry_static_obj(d: TreeData, p: Seq<PathSegment>) -> Option<FieldInfo> {
    match last_static_before(p, p.len() as int) {
        Some(sp) => match last_entry_before(p, sp) {
            Some(ep) => match entry_root_at(d, p, ep) {
                Some(er) => match static_of(d, or_root(chain(d, er, p.subrange(ep + 1, sp)), er), p[sp]->StaticField_0.0) {
                    Some(sf) => match field_ref_id(sf.value) {
                        Some(sroot) => loc_below(d, sroot, p.subrange(sp + 1, p.len() as int)),
                        None => None,
                    },
                    None => None,
                },
                None => None,
            },
            None => None,
        },
        None => None,
    }
}

/// `(id, entry_count)` of a reference to a non-empty collection; with
/// `nonzero`, the id must not be zero.
pub open spec fn coll_info(v: FieldValue, nonzero: bool) -> Option<(u64, u64)> {
    match v {
        FieldValue::ObjectRef { id, entry_count, .. } => match entry_count {
            Some(ec) => if ec > 0 && (!nonzero || id != 0) {
                Some((id, ec))
            } else {
                None
            },
            None => None,
        },
        _ => None,
    }
}

/// Applies `f` to a located field.
pub open spec fn info_of(f: Option<FieldInfo>, nonzero: bool) -> Option<(u64, u64)> {
    match f {
        Some(x) => coll_info(x.value, nonzero),
        None => None,
    }
}

/// The reference id of a located field.
pub open spec fn ref_of(f: Option<FieldInfo>) -> Option<u64> {
    match f {
        Some(x) => field_ref_id(x.value),
        None => None,
    }
}

/// Whether the object of a collection entry on the path is `id`.
pub open spec fn path_has_entry_object(d: TreeData, p: Seq<PathSegment>, id: u64) -> bool {
    exists|i: int| 0 <= i < p.len() && #[trigger] entry_root_at(d, p, i) == Some(id)
}

/// The path of a cursor that stands on an interactive row.
pub open spec fn at_path(c: CursorView) -> Option<Seq<PathSegment>> {
    match c {
        CursorView::At(p) => Some(p),
        _ => None,
    }
}


/// Entry count of the variable a two-segment path points at.
pub open spec fn var_entry_count(vars: Map<u64, Vec<VariableInfo>>, p: Seq<PathSegment>) -> Option<u64> {
    if p.len() == 2 && p[0] is Frame && p[1] is Var && vars.contains_key(p[0]->Frame_0.0)
        && p[1]->Var_0.0 < vars[p[0]->Frame_0.0]@.len() {
        match vars[p[0]->Frame_0.0]@[p[1]->Var_0.0 as int].value {
            VariableValue::ObjectRef { entry_count, .. } => entry_count,
            VariableValue::Null => None,
        }
    } else {
        None
    }
}

/// Object owning the last segment of a path: the variable's object for a
/// variable path, else the object at the parent path.
pub open spec fn last_seg_object(d: TreeData, vars: Map<u64, Vec<VariableInfo>>, p: Seq<PathSegment>) -> Option<u64> {
    match path_root(vars, p) {
        Some(root) => if p.len() == 2 {
            Some(root)
        } else {
            chain(d, root, p.subrange(2, p.len() - 1))
        },
        None => None,
    }
}

/// First chunk range starting at `off`.
pub open spec fn range_limit(rs: Seq<(usize, usize)>, off: usize, i: int) -> Option<usize>
    decreases rs.len() - i,
{
    if i < 0 || i >= rs.len() {
        None
    } else if rs[i].0 == off {
        Some(rs[i].1)
    } else {
        range_limit(rs, off, i + 1)
    }
}


/// Cursor and list selection of the panel.
pub struct NavView {
    pub cur: CursorView,
    pub sel: Option<usize>,
    pub off: usize,
}

/// Whether a row can hold the cursor (section headers and overflow rows
/// cannot).
pub open spec fn is_interactive(c: CursorView) -> bool {
    !(c is SectionHeader) && !(c is OverflowRow)
}

/// Position of the first interactive row at or after `i`.
pub open spec fn first_interactive_from(rows: Seq<CursorView>, i: int) -> Option<int>
    decreases rows.len() - i,
{
    if i < 0 || i >= rows.len() {
        None
    } else if is_interactive(rows[i]) {
        Some(i)
    } else {
        first_interactive_from(rows, i + 1)
    }
}

/// Position of the last interactive row before `n`.
pub open spec fn last_interactive_before(rows: Seq<CursorView>, n: int) -> Option<int>
    decreases n,
{
    if n <= 0 || n > rows.len() {
        None
    } else if is_interactive(rows[n - 1]) {
        Some(n - 1)
    } else {
        last_interactive_before(rows, n - 1)
    }
}

/// The cursor placed on `c` and the list selecting its first row in `rows`
/// (deselected and scrolled to the top when absent).
pub open spec fn placed(rows: Seq<CursorView>, nv: NavView, c: CursorView) -> NavView {
    NavView {
        cur: c,
        sel: selection_in(rows, c),
        off: if index_of_first(rows, c) is None {
            0
        } else {
            nv.off
        },
    }
}

/// The parent row of a cursor: the interactive row of its path's parent.
pub open spec fn parent_view(c: CursorView) -> Option<CursorView> {
    match cursor_view_path(c) {
        Some(p) => if p.len() > 1 {
            Some(CursorView::At(p.drop_last()))
        } else {
            None
        },
        None => None,
    }
}

/// The cursor after rows changed under it: kept when still shown, else
/// moved to its parent row when shown, else to the first interactive row,
/// else left (and deselected).
pub open spec fn resync_nav(rows: Seq<CursorView>, nv: NavView) -> NavView {
    if index_of_first(rows, nv.cur) is Some {
        nv
    } else {
        match parent_view(nv.cur) {
            Some(pc) => if index_of_first(rows, pc) is Some {
                placed(rows, nv, pc)
            } else {
                match first_interactive_from(rows, 0) {
                    Some(i) => placed(rows, nv, rows[i]),
                    None => placed(rows, nv, nv.cur),
                }
            },
            None => match first_interactive_from(rows, 0) {
                Some(i) => placed(rows, nv, rows[i]),
                None => placed(rows, nv, nv.cur),
            },
        }
    }
}

/// Expansion data with the objects `r` forgotten: their phases, fields and
/// static fields.
pub open spec fn forget_objects(d: TreeData, r: Set<u64>) -> TreeData {
    TreeData {
        phases: d.phases,
        object_phases: d.object_phases.remove_keys(r),
        fields: d.fields.remove_keys(r),
        statics: d.statics.remove_keys(r),
        chunks: d.chunks,
    }
}


/// The collection a cursor stands inside and the cursor that restores the
/// view when it is collapsed: the innermost collection entry of the path
/// and the path up to it.
pub open spec fn coll_restore(c: CursorView) -> Option<(u64, CursorView)> {
    match cursor_view_path(c) {
        Some(p) => match last_entry_before(p, p.len() as int) {
            Some(cp) => if cp == 1 && !(p[0] is Frame) {
                None
            } else {
                Some((p[cp]->CollectionEntry_0.0, CursorView::At(p.subrange(0, cp))))
            },
            None => None,
        },
        None => None,
    }
}

/// The cursor after an expansion failed: kept when still shown; else the
/// interactive row of its own path, else its parent row, when shown; else
/// left and deselected.
pub open spec fn failed_nav(rows: Seq<CursorView>, nv: NavView) -> NavView {
    if index_of_first(rows, nv.cur) is Some {
        placed(rows, nv, nv.cur)
    } else {
        let same_ok = match cursor_view_path(nv.cur) {
            Some(p) => index_of_first(rows, CursorView::At(p)) is Some,
            None => false,
        };
        if same_ok {
            placed(rows, nv, CursorView::At(cursor_view_path(nv.cur).unwrap()))
        } else {
            match parent_view(nv.cur) {
                Some(pc) => if index_of_first(rows, pc) is Some {
                    placed(rows, nv, pc)
                } else {
                    placed(rows, nv, nv.cur)
                },
                None => placed(rows, nv, nv.cur),
            }
        }
    }
}

/// Object ids of the reference variables, in order.
pub open spec fn var_ids(vs: Seq<VariableInfo>) -> Seq<u64>
    decreases vs.len(),
{
    if vs.len() == 0 {
        Seq::empty()
    } else {
        let rest = var_ids(vs.drop_first());
        match vs[0].value {
            VariableValue::ObjectRef { id, .. } => seq![id] + rest,
            VariableValue::Null => rest,
        }
    }
}

/// Expansion data, errors and cursor during a sequence of collapses.
pub struct CollapseState {
    pub data: TreeData,
    pub errors: Map<u64, String>,
    pub nav: NavView,
}

/// One recursive collapse of `oid`: it and every object reachable from it
/// are forgotten, then the cursor is resynchronised.
#[verifier::opaque]
pub open spec fn collapse_step(st: CollapseState, oid: u64, frames: Seq<FrameInfo>, vars: Map<u64, Vec<VariableInfo>>, expanded: Set<u64>) -> CollapseState {
    let r = descendants(st.data.fields, oid);
    let d2 = forget_objects(st.data, r);
    CollapseState {
        data: d2,
        errors: st.errors.remove_keys(r),
        nav: resync_nav(stack_rows(d2, frames, vars, expanded), st.nav),
    }
}

/// Recursive collapses of `ids`, in order.
pub open spec fn collapse_chain(st: CollapseState, ids: Seq<u64>, frames: Seq<FrameInfo>, vars: Map<u64, Vec<VariableInfo>>, expanded: Set<u64>) -> CollapseState
    decreases ids.len(),
{
    if ids.len() == 0 {
        st
    } else {
        collapse_chain(collapse_step(st, ids[0], frames, vars, expanded), ids.drop_first(), frames, vars, expanded)
    }
}


/// Row index the cursor starts a move from: its own row, else the first
/// interactive row, else the first row.
pub open spec fn move_origin(rows: Seq<CursorView>, c: CursorView) -> int {
    match index_of_first(rows, c) {
        Some(i) => i,
        None => match first_interactive_from(rows, 0) {
            Some(i) => i,
            None => 0,
        },
    }
}

/// Target row of moving down: the next interactive row, or stay.
pub open spec fn down_target(rows: Seq<CursorView>, c: CursorView) -> int {
    let o = move_origin(rows, c);
    match first_interactive_from(rows, o + 1) {
        Some(i) => i,
        None => o,
    }
}

/// Target row of moving up: the previous interactive row, or stay.
pub open spec fn up_target(rows: Seq<CursorView>, c: CursorView) -> int {
    let o = move_origin(rows, c);
    match last_interactive_before(rows, o) {
        Some(i) => i,
        None => o,
    }
}

/// Moves the cursor to row `t` of `rows` when there are rows.
pub open spec fn move_to(rows: Seq<CursorView>, nv: NavView, t: int) -> NavView {
    if rows.len() == 0 {
        nv
    } else {
        placed(rows, nv, rows[t])
    }
}

/// The cursor after a page move of `h` rows (down or up), before snapping
/// to an interactive row.
pub open spec fn paged(rows: Seq<CursorView>, nv: NavView, h: int, down: bool) -> NavView {
    if rows.len() == 0 {
        nv
    } else {
        let t: int = match index_of_first(rows, nv.cur) {
            Some(i) => if down {
                if i + h < rows.len() - 1 {
                    i + h
                } else {
                    rows.len() - 1
                }
            } else if i >= h {
                i - h
            } else {
                0
            },
            None => 0,
        };
        NavView { cur: rows[t], sel: Some(t as usize), off: nv.off }
    }
}

/// The cursor moved off a non-interactive row: to the nearest interactive
/// row in the preferred direction, else in the other; a cursor not shown
/// goes to the first interactive row.
pub open spec fn snapped(rows: Seq<CursorView>, nv: NavView, down: bool) -> NavView {
    match index_of_first(rows, nv.cur) {
        None => match first_interactive_from(rows, 0) {
            Some(i) => placed(rows, nv, rows[i]),
            None => nv,
        },
        Some(ci) => if is_interactive(rows[ci]) {
            nv
        } else {
            match snap_pick(rows, ci, down) {
                Some(i) => placed(rows, nv, rows[i]),
                None => nv,
            }
        },
    }
}

/// The interactive row nearest to row `ci`: in the preferred direction,
/// else in the other.
pub open spec fn snap_pick(rows: Seq<CursorView>, ci: int, down: bool) -> Option<int> {
    let next = first_interactive_from(rows, ci + 1);
    let prev = last_interactive_before(rows, ci);
    if down {
        if next is Some {
            next
        } else {
            prev
        }
    } else if prev is Some {
        prev
    } else {
        next
    }
}

/// `a - b`, or zero.
pub open spec fn sat_sub(a: int, b: int) -> int {
    if a > b {
        a - b
    } else {
        0
    }
}

/// The largest useful offset for `count` rows shown `h` at a time.
pub open spec fn max_offset(count: int, h: int) -> int {
    sat_sub(count, h)
}

/// Offset after scrolling the window up by `step` rows, keeping row `sel`
/// visible.
pub open spec fn scrolled_up(off: int, count: int, h: int, sel: int, step: int) -> int {
    let cur = if off < max_offset(count, h) {
        off
    } else {
        max_offset(count, h)
    };
    let new = sat_sub(cur, step);
    if sel >= new + h {
        sel + 1 - h
    } else {
        new
    }
}

/// Offset after scrolling the window down by `step` rows, keeping row `sel`
/// visible.
pub open spec fn scrolled_down(off: int, count: int, h: int, sel: int, step: int) -> int {
    let m = max_offset(count, h);
    let cur = if off < m {
        off
    } else {
        m
    };
    let new = if cur + step < m {
        cur + step
    } else {
        m
    };
    if sel < new {
        sel
    } else {
        new
    }
}

/// Offset that centers row `sel` in a window of `h` rows.
pub open spec fn centered(count: int, h: int, sel: int) -> int {
    let c = sat_sub(sel, h / 2);
    if c < max_offset(count, h) {
        c
    } else {
        max_offset(count, h)
    }
}

impl StackState {
    /// The frames of the thread.
    pub closed spec fn frames_view(&self) -> Seq<FrameInfo> {
        self.frames@
    }

    /// The cached variables, by frame id.
    pub closed spec fn vars_view(&self) -> Map<u64, Vec<VariableInfo>> {
        self.vars@
    }

    /// The expanded frame ids.
    pub closed spec fn expanded_view(&self) -> Set<u64> {
        self.expanded@
    }

    /// The expansion data.
    pub closed spec fn data(&self) -> TreeData {
        self.expansion.data()
    }

    /// Expansion errors by object id.
    pub closed spec fn errors(&self) -> Map<u64, String> {
        self.expansion.object_errors@
    }

    /// The cursor.
    pub closed spec fn cur(&self) -> CursorView {
        self.nav.cur()
    }

    /// The list state.
    pub closed spec fn list(&self) -> ListState {
        self.nav.list()
    }

    /// The page size.
    pub closed spec fn height(&self) -> usize {
        self.nav.height()
    }

    /// The registry's own rule.
    pub closed spec fn wf(&self) -> bool {
        self.expansion.wf()
    }

    /// The rows of the panel, in display order.
    pub open spec fn flat(&self) -> Seq<CursorView> {
        stack_rows(self.data(), self.frames_view(), self.vars_view(), self.expanded_view())
    }

    /// Flattened ordered list of cursors matching the rendered rows.
    pub fn flat_items(&self) -> (r: Vec<RenderCursor>)
        ensures
            cursors_view(r@) == self.flat(),
    {
        proof {
            reveal(stack_rows);
        }
        flat_items_of(self.frames.as_slice(), &self.vars, &self.expanded, &self.expansion)
    }

    /// Creates a new state for the given frames, with the cursor on the
    /// first frame (or on `NoFrames`) and selected.
    pub fn new(frames: Vec<FrameInfo>) -> (r: Self)
        ensures
            r.wf(),
            r.frames_view() == frames@,
            r.vars_view().is_empty(),
            r.expanded_view().is_empty(),
            r.data().phases.len() == 0,
            r.data().object_phases.is_empty(),
            r.data().fields.is_empty(),
            r.data().statics.is_empty(),
            r.data().chunks.is_empty(),
            r.errors().is_empty(),
            r.cur() == (if frames@.len() == 0 {
                CursorView::NoFrames
            } else {
                CursorView::At(seq![PathSegment::Frame(FrameId(frames@[0].frame_id))])
            }),
            r.list().selected_spec() == Some(0usize),
            r.list().offset_spec() == 0,
            r.height() == 1,
    {
        let cursor = if frames.len() == 0 {
            RenderCursor::NoFrames
        } else {
            RenderCursor::At(NavigationPathBuilder::frame_only(FrameId(frames[0].frame_id)))
        };
        let mut out = StackState {
            frames,
            vars: HashMap::new(),
            expanded: HashSet::new(),
            nav: CursorState::new(cursor),
            expansion: ExpansionRegistry::new(),
        };
        let flat = out.flat_items();
        proof {
            reveal(stack_rows);
            let f = out.flat();
            if out.frames@.len() > 0 {
                assert(frame_rows(out.data(), out.frames@, out.vars@, out.expanded@, 0)[0] == out.cur());
            }
            assert(f[0] == out.cur());
            lemma_index_of_first(f, out.cur(), 0);
        }
        out.nav.sync(flat.as_slice());
        out
    }
    // === resolution helpers ===

    fn var_object_id(&self, fid: u64, vi: usize) -> (r: Option<u64>)
        ensures
            r == var_root(self.vars_view(), fid, vi),
    {
        match self.vars.get(&fid) {
            Some(vs) => if vi < vs.len() {
                match &vs[vi].value {
                    VariableValue::ObjectRef { id, .. } => Some(*id),
                    VariableValue::Null => None,
                }
            } else {
                None
            },
            None => None,
        }
    }

    fn path_root_of(&self, segs: &[PathSegment]) -> (r: Option<u64>)
        ensures
            r == path_root(self.vars_view(), segs@),
    {
        if segs.len() < 2 {
            return None;
        }
        match (&segs[0], &segs[1]) {
            (PathSegment::Frame(fid), PathSegment::Var(vi)) => self.var_object_id(fid.0, vi.0),
            _ => None,
        }
    }

    fn field_at(&self, owner: u64, idx: usize) -> (r: Option<&FieldInfo>)
        ensures
            match r {
                Some(f) => field_of(self.data(), owner, idx) == Some(*f),
                None => field_of(self.data(), owner, idx) is None,
            },
    {
        match self.expansion.object_fields.get(&owner) {
            Some(fl) => if idx < fl.len() {
                Some(&fl[idx])
            } else {
                None
            },
            None => None,
        }
    }

    fn static_at(&self, owner: u64, idx: usize) -> (r: Option<&FieldInfo>)
        ensures
            match r {
                Some(f) => static_of(self.data(), owner, idx) == Some(*f),
                None => static_of(self.data(), owner, idx) is None,
            },
    {
        match self.expansion.object_static_fields.get(&owner) {
            Some(fl) => if idx < fl.len() {
                Some(&fl[idx])
            } else {
                None
            },
            None => None,
        }
    }

    fn entry_at(&self, cid: u64, ei: usize) -> (r: Option<&EntryInfo>)
        ensures
            match r {
                Some(e) => entry_of(self.data(), cid, ei) == Some(*e),
                None => entry_of(self.data(), cid, ei) is None,
            },
    {
        match self.expansion.collection_chunks.get(&cid) {
            Some(cc) => cc.find_entry(ei),
            None => None,
        }
    }

    /// Resolves the object reached from `root` through `segs[lo..hi]`.
    fn resolve_field_chain(&self, root: u64, segs: &[PathSegment], lo: usize, hi: usize) -> (r: Option<u64>)
        requires
            lo <= hi <= segs@.len(),
        ensures
            r == chain(self.data(), root, segs@.subrange(lo as int, hi as int)),
    {
        let ghost d = self.data();
        let mut cur = root;
        let mut i = lo;
        while i < hi
            invariant
                d == self.data(),
                lo <= i <= hi <= segs@.len(),
                chain(d, root, segs@.subrange(lo as int, hi as int)) == chain(d, cur, segs@.subrange(i as int, hi as int)),
            decreases hi - i,
        {
            let ghost rest = segs@.subrange(i as int, hi as int);
            assert(rest[0] == segs@[i as int]);
            assert(rest.drop_first() =~= segs@.subrange(i + 1, hi as int));
            let next = match &segs[i] {
                PathSegment::Field(fi) => match self.field_at(cur, fi.0) {
                    Some(f) => match &f.value {
                        FieldValue::ObjectRef { id, .. } => Some(*id),
                        _ => None,
                    },
                    None => None,
                },
                PathSegment::CollectionEntry(cid, ei) => match self.entry_at(cid.0, ei.0) {
                    Some(e) => match &e.value {
                        FieldValue::ObjectRef { id, .. } => Some(*id),
                        _ => None,
                    },
                    None => None,
                },
                _ => None,
            };
            match next {
                Some(n) => {
                    cur = n;
                },
                None => {
                    return None;
                },
            }
            i = i + 1;
        }
        assert(segs@.subrange(i as int, hi as int).len() == 0);
        Some(cur)
    }

    fn locate_field(&self, segs: &[PathSegment]) -> (r: Option<&FieldInfo>)
        ensures
            match r {
                Some(f) => loc_field(self.data(), self.vars_view(), segs@) == Some(*f),
                None => loc_field(self.data(), self.vars_view(), segs@) is None,
            },
    {
        let n = segs.len();
        if n == 0 {
            return None;
        }
        let fi = match &segs[n - 1] {
            PathSegment::Field(fi) => fi.0,
            _ => return None,
        };
        let root = match self.path_root_of(segs) {
            Some(r) => r,
            None => return None,
        };
        let parent = match self.resolve_field_chain(root, segs, 2, n - 1) {
            Some(p) => p,
            None => root,
        };
        self.field_at(parent, fi)
    }

    fn locate_static(&self, segs: &[PathSegment]) -> (r: Option<&FieldInfo>)
        ensures
            match r {
                Some(f) => loc_static(self.data(), self.vars_view(), segs@) == Some(*f),
                None => loc_static(self.data(), self.vars_view(), segs@) is None,
            },
    {
        let n = segs.len();
        if n == 0 {
            return None;
        }
        let si = match &segs[n - 1] {
            PathSegment::StaticField(si) => si.0,
            _ => return None,
        };
        let root = match self.path_root_of(segs) {
            Some(r) => r,
            None => return None,
        };
        let owner = match self.resolve_field_chain(root, segs, 2, n - 1) {
            Some(p) => p,
            None => root,
        };
        self.static_at(owner, si)
    }

    fn locate_below(&self, base: u64, segs: &[PathSegment], lo: usize) -> (r: Option<&FieldInfo>)
        requires
            lo <= segs@.len(),
        ensures
            match r {
                Some(f) => loc_below(self.data(), base, segs@.subrange(lo as int, segs@.len() as int)) == Some(*f),
                None => loc_below(self.data(), base, segs@.subrange(lo as int, segs@.len() as int)) is None,
            },
    {
        let n = segs.len();
        let ghost rest = segs@.subrange(lo as int, n as int);
        if n == lo {
            return None;
        }
        assert(rest.last() == segs@[n - 1]);
        assert(rest.drop_last() =~= segs@.subrange(lo as int, n - 1));
        let fi = match &segs[n - 1] {
            PathSegment::Field(fi) => fi.0,
            _ => return None,
        };
        let parent = match self.resolve_field_chain(base, segs, lo, n - 1) {
            Some(p) => p,
            None => base,
        };
        self.field_at(parent, fi)
    }

    fn last_static(segs: &[PathSegment], n: usize) -> (r: Option<usize>)
        requires
            n <= segs@.len(),
        ensures
            match last_static_before(segs@, n as int) {
                Some(i) => r == Some(i as usize),
                None => r is None,
            },
    {
        let mut k = n;
        while k > 0
            invariant
                k <= n <= segs@.len(),
                last_static_before(segs@, n as int) == last_static_before(segs@, k as int),
            decreases k,
        {
            if let PathSegment::StaticField(_) = &segs[k - 1] {
                return Some(k - 1);
            }
            k = k - 1;
        }
        None
    }

    fn last_entry(segs: &[PathSegment], n: usize) -> (r: Option<usize>)
        requires
            n <= segs@.len(),
        ensures
            match last_entry_before(segs@, n as int) {
                Some(i) => r == Some(i as usize),
                None => r is None,
            },
    {
        let mut k = n;
        while k > 0
            invariant
                k <= n <= segs@.len(),
                last_entry_before(segs@, n as int) == last_entry_before(segs@, k as int),
            decreases k,
        {
            if let PathSegment::CollectionEntry(_, _) = &segs[k - 1] {
                return Some(k - 1);
            }
            k = k - 1;
        }
        None
    }

    fn locate_static_obj(&self, segs: &[PathSegment]) -> (r: Option<&FieldInfo>)
        ensures
            match r {
                Some(f) => loc_static_obj(self.data(), self.vars_view(), segs@) == Some(*f),
                None => loc_static_obj(self.data(), self.vars_view(), segs@) is None,
            },
    {
        let n = segs.len();
        let sp = match Self::last_static(segs, n) {
            Some(sp) => sp,
            None => return None,
        };
        proof {
            lemma_last_static_in(segs@, n as int);
        }
        let si = match &segs[sp] {
            PathSegment::StaticField(si) => si.0,
            _ => return None,
        };
        let root = match self.path_root_of(segs) {
            Some(r) => r,
            None => return None,
        };
        let owner = if sp >= 2 {
            match self.resolve_field_chain(root, segs, 2, sp) {
                Some(p) => p,
                None => root,
            }
        } else {
            assert(chain(self.data(), root, Seq::empty()) == Some(root));
            root
        };
        let sf = match self.static_at(owner, si) {
            Some(f) => f,
            None => return None,
        };
        let sroot = match &sf.value {
            FieldValue::ObjectRef { id, .. } => *id,
            _ => return None,
        };
        self.locate_below(sroot, segs, sp + 1)
    }

    fn locate_entry(&self, segs: &[PathSegment]) -> (r: Option<&EntryInfo>)
        ensures
            match r {
                Some(e) => loc_entry(self.data(), segs@) == Some(*e),
                None => loc_entry(self.data(), segs@) is None,
            },
    {
        let n = segs.len();
        if n == 0 {
            return None;
        }
        match &segs[n - 1] {
            PathSegment::CollectionEntry(cid, ei) => self.entry_at(cid.0, ei.0),
            _ => None,
        }
    }

    fn entry_root(&self, segs: &[PathSegment], ep: usize) -> (r: Option<u64>)
        requires
            ep < segs@.len(),
        ensures
            r == entry_root_at(self.data(), segs@, ep as int),
    {
        match &segs[ep] {
            PathSegment::CollectionEntry(cid, ei) => match self.entry_at(cid.0, ei.0) {
                Some(e) => match &e.value {
                    FieldValue::ObjectRef { id, .. } => Some(*id),
                    _ => None,
                },
                None => None,
            },
            _ => None,
        }
    }

    fn locate_entry_obj(&self, segs: &[PathSegment]) -> (r: Option<&FieldInfo>)
        ensures
            match r {
                Some(f) => loc_entry_obj(self.data(), segs@) == Some(*f),
                None => loc_entry_obj(self.data(), segs@) is None,
            },
    {
        let n = segs.len();
        let ep = match Self::last_entry(segs, n) {
            Some(ep) => ep,
            None => return None,
        };
        proof {
            lemma_last_entry_in(segs@, n as int);
        }
        let er = match self.entry_root(segs, ep) {
            Some(er) => er,
            None => return None,
        };
        self.locate_below(er, segs, ep + 1)
    }

    fn entry_static_owner(&self, segs: &[PathSegment]) -> (r: Option<(u64, usize)>)
        ensures
            match last_static_before(segs@, segs@.len() as int) {
                Some(sp) => match last_entry_before(segs@, sp) {
                    Some(ep) => match entry_root_at(self.data(), segs@, ep) {
                        Some(er) => r == Some((or_root(chain(self.data(), er, segs@.subrange(ep + 1, sp)), er), segs@[sp]->StaticField_0.0)),
                        None => r is None,
                    },
                    None => r is None,
                },
                None => r is None,
            },
    {
        let n = segs.len();
        let sp = match Self::last_static(segs, n) {
            Some(sp) => sp,
            None => return None,
        };
        proof {
            lemma_last_static_in(segs@, n as int);
        }
        let ep = match Self::last_entry(segs, sp) {
            Some(ep) => ep,
            None => return None,
        };
        proof {
            lemma_last_entry_in(segs@, sp as int);
        }
        let er = match self.entry_root(segs, ep) {
            Some(er) => er,
            None => return None,
        };
        let owner = match self.resolve_field_chain(er, segs, ep + 1, sp) {
            Some(p) => p,
            None => er,
        };
        let si = match &segs[sp] {
            PathSegment::StaticField(si) => si.0,
            _ => return None,
        };
        Some((owner, si))
    }

    fn locate_entry_static(&self, segs: &[PathSegment]) -> (r: Option<&FieldInfo>)
        ensures
            match r {
                Some(f) => loc_entry_static(self.data(), segs@) == Some(*f),
                None => loc_entry_static(self.data(), segs@) is None,
            },
    {
        match self.entry_static_owner(segs) {
            Some((owner, si)) => self.static_at(owner, si),
            None => None,
        }
    }

    fn locate_entry_static_obj(&self, segs: &[PathSegment]) -> (r: Option<&FieldInfo>)
        ensures
            match r {
                Some(f) => loc_entry_static_obj(self.data(), segs@) == Some(*f),
                None => loc_entry_static_obj(self.data(), segs@) is None,
            },
    {
        let (owner, si) = match self.entry_static_owner(segs) {
            Some(x) => x,
            None => return None,
        };
        let sf = match self.static_at(owner, si) {
            Some(f) => f,
            None => return None,
        };
        let sroot = match &sf.value {
            FieldValue::ObjectRef { id, .. } => *id,
            _ => return None,
        };
        let sp = match Self::last_static(segs, segs.len()) {
            Some(sp) => sp,
            None => return None,
        };
        proof {
            lemma_last_static_in(segs@, segs@.len() as int);
        }
        self.locate_below(sroot, segs, sp + 1)
    }
}

/// A found static-field position lies among the first `n` segments.
pub proof fn lemma_last_static_in(p: Seq<PathSegment>, n: int)
    ensures
        match last_static_before(p, n) {
            Some(i) => 0 <= i < n && i < p.len() && p[i] is StaticField,
            None => true,
        },
    decreases n,
{
    if n > 0 && n <= p.len() && !(p[n - 1] is StaticField) {
        lemma_last_static_in(p, n - 1);
    }
}

/// A found collection-entry position lies among the first `n` segments.
pub proof fn lemma_last_entry_in(p: Seq<PathSegment>, n: int)
    ensures
        match last_entry_before(p, n) {
            Some(i) => 0 <= i < n && i < p.len() && p[i] is CollectionEntry,
            None => true,
        },
    decreases n,
{
    if n > 0 && n <= p.len() && !(p[n - 1] is CollectionEntry) {
        lemma_last_entry_in(p, n - 1);
    }
}

impl StackState {
    // === getters ===

    /// Returns the current cursor.
    pub fn cursor(&self) -> (r: &RenderCursor)
        ensures
            r@ == self.cur(),
    {
        self.nav.cursor()
    }

    /// Returns the list state.
    pub fn list_state(&self) -> (r: &ListState)
        ensures
            *r == self.list(),
    {
        self.nav.list_state()
    }

    /// Returns mutable access to the list state for rendering.
    pub fn list_state_mut(&mut self) -> (r: &mut ListState)
        ensures
            *r == old(self).list(),
            final(self).list() == *final(r),
            final(self).cur() == old(self).cur(),
            final(self).height() == old(self).height(),
            final(self).frames_view() == old(self).frames_view(),
            final(self).vars_view() == old(self).vars_view(),
            final(self).expanded_view() == old(self).expanded_view(),
            final(self).data() == old(self).data(),
            final(self).errors() == old(self).errors(),
            final(self).wf() == old(self).wf(),
    {
        self.nav.list_state_mut()
    }

    /// Returns the stack frames.
    pub fn frames(&self) -> (r: &[FrameInfo])
        ensures
            r@ == self.frames_view(),
    {
        self.frames.as_slice()
    }

    /// Returns the cached variables, keyed by frame id.
    pub fn vars(&self) -> (r: &HashMap<u64, Vec<VariableInfo>>)
        ensures
            r@ == self.vars_view(),
    {
        &self.vars
    }

    /// Returns the expansion registry.
    pub fn expansion(&self) -> (r: &ExpansionRegistry)
        ensures
            r.data() == self.data(),
            r.object_errors@ == self.errors(),
            r.wf() == self.wf(),
    {
        &self.expansion
    }

    /// Returns the decoded object fields.
    pub fn object_fields(&self) -> (r: &HashMap<u64, Vec<FieldInfo>>)
        ensures
            r@ == self.data().fields,
    {
        &self.expansion.object_fields
    }

    /// Returns the decoded static fields.
    pub fn object_static_fields(&self) -> (r: &HashMap<u64, Vec<FieldInfo>>)
        ensures
            r@ == self.data().statics,
    {
        &self.expansion.object_static_fields
    }

    /// Returns the collection chunks.
    pub fn collection_chunks_map(&self) -> (r: &HashMap<u64, CollectionChunks>)
        ensures
            r@ == self.data().chunks,
    {
        &self.expansion.collection_chunks
    }

    /// Returns the frame id of the cursor's frame, if any.
    pub fn selected_frame_id(&self) -> (r: Option<u64>)
        ensures
            r == cursor_frame(self.cur()),
    {
        let path = match self.nav.cursor().path() {
            Some(p) => p,
            None => return None,
        };
        let segs = path.segments();
        if segs.len() == 0 {
            return None;
        }
        match &segs[0] {
            PathSegment::Frame(fid) => Some(fid.0),
            _ => None,
        }
    }

    /// Sets the cursor and selects its row.
    pub fn set_cursor(&mut self, new_cursor: RenderCursor)
        ensures
            final(self).cur() == new_cursor@,
            final(self).list().selected_spec() == selection_in(old(self).flat(), new_cursor@),
            final(self).list().offset_spec() == (if index_of_first(old(self).flat(), new_cursor@) is None {
                0
            } else {
                old(self).list().offset_spec()
            }),
            final(self).height() == old(self).height(),
            final(self).frames_view() == old(self).frames_view(),
            final(self).vars_view() == old(self).vars_view(),
            final(self).expanded_view() == old(self).expanded_view(),
            final(self).data() == old(self).data(),
            final(self).errors() == old(self).errors(),
            final(self).wf() == old(self).wf(),
    {
        let flat = self.flat_items();
        self.nav.set_cursor_and_sync(new_cursor, flat.as_slice());
    }

    // === selected_* (derived from the cursor path) ===

    /// The object of the variable under the cursor.
    pub fn selected_object_id(&self) -> (r: Option<u64>)
        ensures
            r == (match at_path(self.cur()) {
                Some(p) => if p.len() == 2 {
                    path_root(self.vars_view(), p)
                } else {
                    None
                },
                None => None,
            }),
    {
        match self.nav.cursor() {
            RenderCursor::At(path) => {
                let segs = path.segments();
                if segs.len() != 2 {
                    return None;
                }
                self.path_root_of(segs)
            },
            _ => None,
        }
    }

    /// The entry count of the collection variable under the cursor.
    pub fn selected_var_entry_count(&self) -> (r: Option<u64>)
        ensures
            r == (match at_path(self.cur()) {
                Some(p) => var_entry_count(self.vars_view(), p),
                None => None,
            }),
    {
        match self.nav.cursor() {
            RenderCursor::At(path) => {
                let segs = path.segments();
                if segs.len() != 2 {
                    return None;
                }
                match (&segs[0], &segs[1]) {
                    (PathSegment::Frame(fid), PathSegment::Var(vi)) => match self.vars.get(&fid.0) {
                        Some(vs) => if vi.0 < vs.len() {
                            match &vs[vi.0].value {
                                VariableValue::ObjectRef { entry_count, .. } => *entry_count,
                                VariableValue::Null => None,
                            }
                        } else {
                            None
                        },
                        None => None,
                    },
                    _ => None,
                }
            },
            _ => None,
        }
    }

    /// The object being loaded (or that failed) under a loading or failed
    /// node.
    pub fn selected_loading_object_id(&self) -> (r: Option<u64>)
        ensures
            r == (match self.cur() {
                CursorView::LoadingNode(p) => last_seg_object(self.data(), self.vars_view(), p),
                CursorView::FailedNode(p) => last_seg_object(self.data(), self.vars_view(), p),
                _ => None,
            }),
    {
        let path = match self.nav.cursor() {
            RenderCursor::LoadingNode(p) => p,
            RenderCursor::FailedNode(p) => p,
            _ => return None,
        };
        let segs = path.segments();
        let root = match self.path_root_of(segs) {
            Some(r) => r,
            None => return None,
        };
        if segs.len() == 2 {
            return Some(root);
        }
        self.resolve_field_chain(root, segs, 2, segs.len() - 1)
    }

    /// `(object_id, entry_count)` of the collection field under the cursor.
    pub fn selected_field_collection_info(&self) -> (r: Option<(u64, u64)>)
        ensures
            r == (match at_path(self.cur()) {
                Some(p) => info_of(loc_field(self.data(), self.vars_view(), p), false),
                None => None,
            }),
    {
        match self.nav.cursor() {
            RenderCursor::At(path) => match self.locate_field(path.segments()) {
                Some(f) => coll_info_of(&f.value, false),
                None => None,
            },
            _ => None,
        }
    }

    /// The object referenced by the field under the cursor.
    pub fn selected_field_ref_id(&self) -> (r: Option<u64>)
        ensures
            r == (match at_path(self.cur()) {
                Some(p) => ref_of(loc_field(self.data(), self.vars_view(), p)),
                None => None,
            }),
    {
        match self.nav.cursor() {
            RenderCursor::At(path) => match self.locate_field(path.segments()) {
                Some(f) => ref_id_of(&f.value),
                None => None,
            },
            _ => None,
        }
    }

    /// `(object_id, entry_count)` of the collection static field under the
    /// cursor.
    pub fn selected_static_field_collection_info(&self) -> (r: Option<(u64, u64)>)
        ensures
            r == (match at_path(self.cur()) {
                Some(p) => info_of(loc_static(self.data(), self.vars_view(), p), false),
                None => None,
            }),
    {
        match self.nav.cursor() {
            RenderCursor::At(path) => match self.locate_static(path.segments()) {
                Some(f) => coll_info_of(&f.value, false),
                None => None,
            },
            _ => None,
        }
    }

    /// The object referenced by the static field under the cursor.
    pub fn selected_static_field_ref_id(&self) -> (r: Option<u64>)
        ensures
            r == (match at_path(self.cur()) {
                Some(p) => ref_of(loc_static(self.data(), self.vars_view(), p)),
                None => None,
            }),
    {
        match self.nav.cursor() {
            RenderCursor::At(path) => match self.locate_static(path.segments()) {
                Some(f) => ref_id_of(&f.value),
                None => None,
            },
            _ => None,
        }
    }

    /// `(object_id, entry_count)` of the collection field under the cursor
    /// inside a static field's object.
    pub fn selected_static_obj_field_collection_info(&self) -> (r: Option<(u64, u64)>)
        ensures
            r == (match at_path(self.cur()) {
                Some(p) => info_of(loc_static_obj(self.data(), self.vars_view(), p), true),
                None => None,
            }),
    {
        match self.nav.cursor() {
            RenderCursor::At(path) => match self.locate_static_obj(path.segments()) {
                Some(f) => coll_info_of(&f.value, true),
                None => None,
            },
            _ => None,
        }
    }

    /// The object referenced by the field under the cursor inside a static
    /// field's object.
    pub fn selected_static_obj_field_ref_id(&self) -> (r: Option<u64>)
        ensures
            r == (match at_path(self.cur()) {
                Some(p) => ref_of(loc_static_obj(self.data(), self.vars_view(), p)),
                None => None,
            }),
    {
        match self.nav.cursor() {
            RenderCursor::At(path) => match self.locate_static_obj(path.segments()) {
                Some(f) => ref_id_of(&f.value),
                None => None,
            },
            _ => None,
        }
    }

    /// The entry count of the collection held by the entry under the
    /// cursor.
    pub fn selected_collection_entry_count(&self) -> (r: Option<u64>)
        ensures
            r == (match at_path(self.cur()) {
                Some(p) => match loc_entry(self.data(), p) {
                    Some(e) => match e.value {
                        FieldValue::ObjectRef { entry_count, .. } => entry_count,
                        _ => None,
                    },
                    None => None,
                },
                None => None,
            }),
    {
        match self.nav.cursor() {
            RenderCursor::At(path) => match self.locate_entry(path.segments()) {
                Some(e) => match &e.value {
                    FieldValue::ObjectRef { entry_count, .. } => *entry_count,
                    _ => None,
                },
                None => None,
            },
            _ => None,
        }
    }

    /// `(collection_id, chunk_offset, chunk_limit)` of the chunk section
    /// under the cursor.
    pub fn selected_chunk_info(&self) -> (r: Option<(u64, usize, usize)>)
        ensures
            r == (match self.cur() {
                CursorView::ChunkSection(p, off) => if p.len() >= 1 && p.last() is CollectionEntry
                    && self.data().chunks.contains_key(p.last()->CollectionEntry_0.0) {
                    let cid = p.last()->CollectionEntry_0.0;
                    match range_limit(
                        chunk_ranges_spec((self.data().chunks[cid].total_count as usize) as nat),
                        off,
                        0,
                    ) {
                        Some(l) => Some((cid, off, l)),
                        None => None,
                    }
                } else {
                    None
                },
                _ => None,
            }),
    {
        let (path, offset) = match self.nav.cursor() {
            RenderCursor::ChunkSection(p, o) => (p, o.0),
            _ => return None,
        };
        let segs = path.segments();
        if segs.len() == 0 {
            return None;
        }
        let cid = match &segs[segs.len() - 1] {
            PathSegment::CollectionEntry(cid, _) => cid.0,
            _ => return None,
        };
        let cc = match self.expansion.collection_chunks.get(&cid) {
            Some(cc) => cc,
            None => return None,
        };
        let ranges = compute_chunk_ranges(cc.total_count);
        match find_limit(ranges.as_slice(), offset) {
            Some(l) => Some((cid, offset, l)),
            None => None,
        }
    }

    /// The object referenced by the collection entry under the cursor.
    pub fn selected_collection_entry_ref_id(&self) -> (r: Option<u64>)
        ensures
            r == (match at_path(self.cur()) {
                Some(p) => match loc_entry(self.data(), p) {
                    Some(e) => field_ref_id(e.value),
                    None => None,
                },
                None => None,
            }),
    {
        match self.nav.cursor() {
            RenderCursor::At(path) => match self.locate_entry(path.segments()) {
                Some(e) => ref_id_of(&e.value),
                None => None,
            },
            _ => None,
        }
    }

    /// `(object_id, entry_count)` of the collection field under the cursor
    /// inside a collection entry's object.
    pub fn selected_collection_entry_obj_field_collection_info(&self) -> (r: Option<(u64, u64)>)
        ensures
            r == (match at_path(self.cur()) {
                Some(p) => info_of(loc_entry_obj(self.data(), p), true),
                None => None,
            }),
    {
        match self.nav.cursor() {
            RenderCursor::At(path) => match self.locate_entry_obj(path.segments()) {
                Some(f) => coll_info_of(&f.value, true),
                None => None,
            },
            _ => None,
        }
    }

    /// The object referenced by the field under the cursor inside a
    /// collection entry's object; `None` when it is the object of an entry
    /// on the path (a cycle).
    pub fn selected_collection_entry_obj_field_ref_id(&self) -> (r: Option<u64>)
        ensures
            r == (match at_path(self.cur()) {
                Some(p) => match ref_of(loc_entry_obj(self.data(), p)) {
                    Some(id) => if path_has_entry_object(self.data(), p, id) {
                        None
                    } else {
                        Some(id)
                    },
                    None => None,
                },
                None => None,
            }),
    {
        let path = match self.nav.cursor() {
            RenderCursor::At(p) => p,
            _ => return None,
        };
        let segs = path.segments();
        let id = match self.locate_entry_obj(segs) {
            Some(f) => match &f.value {
                FieldValue::ObjectRef { id, .. } => *id,
                _ => return None,
            },
            None => return None,
        };
        if self.path_has_entry_object(segs, id) {
            None
        } else {
            Some(id)
        }
    }

    fn path_has_entry_object(&self, segs: &[PathSegment], id: u64) -> (r: bool)
        ensures
            r == path_has_entry_object(self.data(), segs@, id),
    {
        let mut i: usize = 0;
        while i < segs.len()
            invariant
                i <= segs@.len(),
                forall|j: int| 0 <= j < i ==> entry_root_at(self.data(), segs@, j) != Some(id),
            decreases segs@.len() - i,
        {
            if let Some(er) = self.entry_root(segs, i) {
                if er == id {
                    assert(entry_root_at(self.data(), segs@, i as int) == Some(id));
                    return true;
                }
            }
            i = i + 1;
        }
        false
    }

    /// `(object_id, entry_count)` of the collection static field under the
    /// cursor inside a collection entry's object.
    pub fn selected_collection_entry_static_field_collection_info(&self) -> (r: Option<(u64, u64)>)
        ensures
            r == (match at_path(self.cur()) {
                Some(p) => info_of(loc_entry_static(self.data(), p), true),
                None => None,
            }),
    {
        match self.nav.cursor() {
            RenderCursor::At(path) => match self.locate_entry_static(path.segments()) {
                Some(f) => coll_info_of(&f.value, true),
                None => None,
            },
            _ => None,
        }
    }

    /// The object referenced by the static field under the cursor inside a
    /// collection entry's object.
    pub fn selected_collection_entry_static_field_ref_id(&self) -> (r: Option<u64>)
        ensures
            r == (match at_path(self.cur()) {
                Some(p) => ref_of(loc_entry_static(self.data(), p)),
                None => None,
            }),
    {
        match self.nav.cursor() {
            RenderCursor::At(path) => match self.locate_entry_static(path.segments()) {
                Some(f) => ref_id_of(&f.value),
                None => None,
            },
            _ => None,
        }
    }

    /// `(object_id, entry_count)` of the collection field under the cursor
    /// inside a static field's object below a collection entry.
    pub fn selected_collection_entry_static_obj_field_collection_info(&self) -> (r: Option<(u64, u64)>)
        ensures
            r == (match at_path(self.cur()) {
                Some(p) => info_of(loc_entry_static_obj(self.data(), p), true),
                None => None,
            }),
    {
        match self.nav.cursor() {
            RenderCursor::At(path) => match self.locate_entry_static_obj(path.segments()) {
                Some(f) => coll_info_of(&f.value, true),
                None => None,
            },
            _ => None,
        }
    }

    /// The object referenced by the field under the cursor inside a static
    /// field's object below a collection entry.
    pub fn selected_collection_entry_static_obj_field_ref_id(&self) -> (r: Option<u64>)
        ensures
            r == (match at_path(self.cur()) {
                Some(p) => ref_of(loc_entry_static_obj(self.data(), p)),
                None => None,
            }),
    {
        match self.nav.cursor() {
            RenderCursor::At(path) => match self.locate_entry_static_obj(path.segments()) {
                Some(f) => ref_id_of(&f.value),
                None => None,
            },
            _ => None,
        }
    }

    /// Returns the [`ChunkState`] for a specific chunk.
    pub fn chunk_state(&self, collection_id: u64, chunk_offset: usize) -> (r: Option<&ChunkState>)
        ensures
            match self.data().chunks.contains_key(collection_id) {
                false => r is None,
                true => match self.data().chunks[collection_id].chunk_pages.lookup(chunk_offset) {
                    Some(c) => r == Some(&c),
                    None => r is None,
                },
            },
    {
        self.expansion.chunk_state(collection_id, chunk_offset)
    }
}

fn find_limit(ranges: &[(usize, usize)], offset: usize) -> (r: Option<usize>)
    ensures
        r == range_limit(ranges@, offset, 0),
{
    let mut i: usize = 0;
    while i < ranges.len()
        invariant
            i <= ranges@.len(),
            range_limit(ranges@, offset, 0) == range_limit(ranges@, offset, i as int),
        decreases ranges@.len() - i,
    {
        if ranges[i].0 == offset {
            return Some(ranges[i].1);
        }
        i = i + 1;
    }
    None
}

fn coll_info_of(v: &FieldValue, nonzero: bool) -> (r: Option<(u64, u64)>)
    ensures
        r == coll_info(*v, nonzero),
{
    match v {
        FieldValue::ObjectRef { id, entry_count, .. } => match entry_count {
            Some(ec) => if *ec > 0 && (!nonzero || *id != 0) {
                Some((*id, *ec))
            } else {
                None
            },
            None => None,
        },
        _ => None,
    }
}

fn ref_id_of(v: &FieldValue) -> (r: Option<u64>)
    ensures
        r == field_ref_id(*v),
{
    match v {
        FieldValue::ObjectRef { id, .. } => Some(*id),
        _ => None,
    }
}

impl StackState {
    /// The cursor and list selection.
    pub open spec fn nav_view(&self) -> NavView {
        NavView { cur: self.cur(), sel: self.list().selected_spec(), off: self.list().offset_spec() }
    }

    /// The state of a sequence of collapses.
    pub open spec fn collapse_view(&self) -> CollapseState {
        CollapseState { data: self.data(), errors: self.errors(), nav: self.nav_view() }
    }

    fn cursor_path(&self) -> (r: Option<&NavigationPath>)
        ensures
            match r {
                Some(p) => cursor_view_path(self.cur()) == Some(p@),
                None => cursor_view_path(self.cur()) is None,
            },
    {
        self.nav.cursor().path()
    }

    fn sync(&mut self)
        ensures
            final(self).nav_view() == placed(old(self).flat(), old(self).nav_view(), old(self).cur()),
            final(self).frames_view() == old(self).frames_view(),
            final(self).vars_view() == old(self).vars_view(),
            final(self).expanded_view() == old(self).expanded_view(),
            final(self).data() == old(self).data(),
            final(self).errors() == old(self).errors(),
            final(self).wf() == old(self).wf(),
            final(self).height() == old(self).height(),
    {
        let flat = self.flat_items();
        self.nav.sync(flat.as_slice());
    }

    fn place(&mut self, c: RenderCursor)
        ensures
            final(self).nav_view() == placed(old(self).flat(), old(self).nav_view(), c@),
            final(self).frames_view() == old(self).frames_view(),
            final(self).vars_view() == old(self).vars_view(),
            final(self).expanded_view() == old(self).expanded_view(),
            final(self).data() == old(self).data(),
            final(self).errors() == old(self).errors(),
            final(self).wf() == old(self).wf(),
            final(self).height() == old(self).height(),
    {
        let flat = self.flat_items();
        self.nav.set_cursor_and_sync(c, flat.as_slice());
    }

    /// The interactive row of the parent of the cursor's path, or `None` at
    /// the top level.
    pub fn parent_cursor(&self) -> (r: Option<RenderCursor>)
        ensures
            match r {
                Some(c) => parent_view(self.cur()) == Some(c@),
                None => parent_view(self.cur()) is None,
            },
    {
        let path = match self.cursor_path() {
            Some(p) => p,
            None => return None,
        };
        match path.parent() {
            Some(p) => Some(RenderCursor::At(p)),
            None => None,
        }
    }

    /// If the cursor is inside a collection, the innermost collection and
    /// the cursor that restores the view when it is collapsed.
    pub fn cursor_collection_id(&self) -> (r: Option<(u64, RenderCursor)>)
        ensures
            match r {
                Some((cid, c)) => coll_restore(self.cur()) == Some((cid, c@)),
                None => coll_restore(self.cur()) is None,
            },
    {
        let path = match self.cursor_path() {
            Some(p) => p,
            None => return None,
        };
        let segs = path.segments();
        let cp = match Self::last_entry(segs, segs.len()) {
            Some(cp) => cp,
            None => return None,
        };
        proof {
            lemma_last_entry_in(segs@, segs@.len() as int);
        }
        let cid = match &segs[cp] {
            PathSegment::CollectionEntry(cid, _) => cid.0,
            _ => return None,
        };
        if cp == 1 {
            match &segs[0] {
                PathSegment::Frame(fid) => {
                    let c = RenderCursor::At(NavigationPathBuilder::frame_only(*fid));
                    assert(segs@.subrange(0, 1) =~= seq![PathSegment::Frame(*fid)]);
                    assert(c@ == CursorView::At(segs@.subrange(0, 1)));
                    return Some((cid, c));
                },
                _ => return None,
            }
        }
        let mut restore: Vec<PathSegment> = Vec::new();
        let mut i: usize = 0;
        while i < cp
            invariant
                i <= cp < segs@.len(),
                restore@ == segs@.subrange(0, i as int),
            decreases cp - i,
        {
            restore.push(segs[i]);
            assert(restore@ =~= segs@.subrange(0, i + 1));
            i = i + 1;
        }
        Some((cid, RenderCursor::At(NavigationPath::from_segments(restore))))
    }

    /// Returns the expansion phase recorded for `path` (`Collapsed` when
    /// none is).
    pub fn expansion_state_for_path(&self, path: &NavigationPath) -> (r: ExpansionPhase)
        ensures
            r == phase_at(self.data().phases, path@),
    {
        self.expansion.expansion_state(path)
    }

    /// Returns the expansion phase of an object id (`Collapsed` when none
    /// is recorded).
    pub fn expansion_state(&self, object_id: u64) -> (r: ExpansionPhase)
        ensures
            r == obj_phase(self.data(), object_id),
    {
        match self.expansion.object_phases.get(&object_id) {
            Some(p) => *p,
            None => ExpansionPhase::Collapsed,
        }
    }

    /// Marks an object as loading.
    pub fn set_expansion_loading(&mut self, object_id: u64)
        ensures
            final(self).data() == (TreeData { object_phases: old(self).data().object_phases.insert(object_id, ExpansionPhase::Loading), ..old(self).data() }),
            final(self).errors() == old(self).errors(),
            final(self).nav_view() == old(self).nav_view(),
            final(self).frames_view() == old(self).frames_view(),
            final(self).vars_view() == old(self).vars_view(),
            final(self).expanded_view() == old(self).expanded_view(),
            final(self).wf() == old(self).wf(),
            final(self).height() == old(self).height(),
    {
        self.expansion.object_phases.insert(object_id, ExpansionPhase::Loading);
    }

    /// Marks the expansion at `path` as complete: the fields are stored by
    /// object id, the path is expanded, and stale static fields are
    /// dropped.
    pub fn set_expansion_done_at_path(&mut self, path: &NavigationPath, object_id: u64, fields: Vec<FieldInfo>)
        requires
            old(self).wf(),
        ensures
            final(self).wf(),
            final(self).data().fields == old(self).data().fields.insert(object_id, fields),
            final(self).data().statics == old(self).data().statics.remove(object_id),
            final(self).data().phases == key_insert(old(self).data().phases, path@, ExpansionPhase::Expanded),
            phase_lookup(final(self).data().phases, path@) == Some(ExpansionPhase::Expanded),
            forall|q: Seq<PathSegment>|
                q != path@ ==> phase_lookup(final(self).data().phases, q) == phase_lookup(old(self).data().phases, q),
            final(self).data().object_phases == old(self).data().object_phases,
            final(self).data().chunks == old(self).data().chunks,
            final(self).errors() == old(self).errors(),
            final(self).nav_view() == old(self).nav_view(),
            final(self).frames_view() == old(self).frames_view(),
            final(self).vars_view() == old(self).vars_view(),
            final(self).expanded_view() == old(self).expanded_view(),
            final(self).height() == old(self).height(),
    {
        self.expansion.set_expansion_done(path, object_id, fields);
        self.expansion.object_static_fields.remove(&object_id);
    }

    /// Marks an object expansion as complete with decoded fields, dropping
    /// stale static fields.
    pub fn set_expansion_done(&mut self, object_id: u64, fields: Vec<FieldInfo>)
        ensures
            final(self).data() == (TreeData {
                object_phases: old(self).data().object_phases.insert(object_id, ExpansionPhase::Expanded),
                fields: old(self).data().fields.insert(object_id, fields),
                statics: old(self).data().statics.remove(object_id),
                ..old(self).data()
            }),
            final(self).errors() == old(self).errors(),
            final(self).nav_view() == old(self).nav_view(),
            final(self).frames_view() == old(self).frames_view(),
            final(self).vars_view() == old(self).vars_view(),
            final(self).expanded_view() == old(self).expanded_view(),
            final(self).wf() == old(self).wf(),
            final(self).height() == old(self).height(),
    {
        self.expansion.object_fields.insert(object_id, fields);
        self.expansion.object_phases.insert(object_id, ExpansionPhase::Expanded);
        self.expansion.object_static_fields.remove(&object_id);
    }

    /// Stores the paging state of a collection.
    pub fn insert_collection_chunks(&mut self, collection_id: u64, chunks: CollectionChunks)
        ensures
            final(self).data() == (TreeData {
                chunks: old(self).data().chunks.insert(collection_id, chunks),
                ..old(self).data()
            }),
            final(self).errors() == old(self).errors(),
            final(self).nav_view() == old(self).nav_view(),
            final(self).frames_view() == old(self).frames_view(),
            final(self).vars_view() == old(self).vars_view(),
            final(self).expanded_view() == old(self).expanded_view(),
            final(self).wf() == old(self).wf(),
            final(self).height() == old(self).height(),
    {
        self.expansion.collection_chunks.insert(collection_id, chunks);
    }

    /// Records the expansion phase of the node at `path`.
    pub fn set_expansion_phase_at_path(&mut self, path: &NavigationPath, phase: ExpansionPhase)
        requires
            old(self).wf(),
        ensures
            final(self).wf(),
            final(self).data().phases == key_insert(old(self).data().phases, path@, phase),
            phase_lookup(final(self).data().phases, path@) == Some(phase),
            forall|q: Seq<PathSegment>|
                q != path@ ==> phase_lookup(final(self).data().phases, q) == phase_lookup(old(self).data().phases, q),
            final(self).data().object_phases == old(self).data().object_phases,
            final(self).data().fields == old(self).data().fields,
            final(self).data().statics == old(self).data().statics,
            final(self).data().chunks == old(self).data().chunks,
            final(self).errors() == old(self).errors(),
            final(self).nav_view() == old(self).nav_view(),
            final(self).frames_view() == old(self).frames_view(),
            final(self).vars_view() == old(self).vars_view(),
            final(self).expanded_view() == old(self).expanded_view(),
            final(self).height() == old(self).height(),
    {
        self.expansion.set_phase_at_path(path, phase);
    }

    /// Stores the static fields of an object (none drops them) and
    /// reselects the cursor's row.
    pub fn set_static_fields(&mut self, object_id: u64, fields: Vec<FieldInfo>)
        ensures
            final(self).data() == (TreeData {
                statics: if fields@.len() == 0 {
                    old(self).data().statics.remove(object_id)
                } else {
                    old(self).data().statics.insert(object_id, fields)
                },
                ..old(self).data()
            }),
            final(self).nav_view() == placed(final(self).flat(), old(self).nav_view(), old(self).cur()),
            final(self).errors() == old(self).errors(),
            final(self).frames_view() == old(self).frames_view(),
            final(self).vars_view() == old(self).vars_view(),
            final(self).expanded_view() == old(self).expanded_view(),
            final(self).wf() == old(self).wf(),
            final(self).height() == old(self).height(),
    {
        if fields.len() == 0 {
            self.expansion.object_static_fields.remove(&object_id);
        } else {
            self.expansion.object_static_fields.insert(object_id, fields);
        }
        self.sync();
    }

    /// Marks an object expansion as failed with an error message, and moves
    /// the cursor off a row that is no longer shown.
    pub fn set_expansion_failed(&mut self, object_id: u64, error: String)
        ensures
            final(self).data() == (TreeData {
                object_phases: old(self).data().object_phases.insert(object_id, ExpansionPhase::Failed),
                statics: old(self).data().statics.remove(object_id),
                ..old(self).data()
            }),
            final(self).errors() == old(self).errors().insert(object_id, error),
            final(self).nav_view() == failed_nav(final(self).flat(), old(self).nav_view()),
            final(self).frames_view() == old(self).frames_view(),
            final(self).vars_view() == old(self).vars_view(),
            final(self).expanded_view() == old(self).expanded_view(),
            final(self).wf() == old(self).wf(),
            final(self).height() == old(self).height(),
    {
        self.expansion.object_errors.insert(object_id, error);
        self.expansion.object_static_fields.remove(&object_id);
        self.expansion.object_phases.insert(object_id, ExpansionPhase::Failed);
        let flat = self.flat_items();
        let ghost fv = cursors_view(flat@);
        if position_of(flat.as_slice(), self.nav.cursor()).is_none() {
            if let Some(path) = self.cursor_path() {
                let same = RenderCursor::At(path.duplicate());
                if position_of(flat.as_slice(), &same).is_some() {
                    self.nav.set_cursor_and_sync(same, flat.as_slice());
                    return;
                }
            }
            if let Some(parent) = self.parent_cursor() {
                if position_of(flat.as_slice(), &parent).is_some() {
                    self.nav.set_cursor_and_sync(parent, flat.as_slice());
                    return;
                }
            }
        }
        self.nav.sync(flat.as_slice());
    }

    /// Cancels a loading expansion: the object reverts to collapsed and its
    /// data is forgotten.
    pub fn cancel_expansion(&mut self, object_id: u64)
        ensures
            final(self).data() == forget_objects(old(self).data(), set![object_id]),
            final(self).errors() == old(self).errors().remove(object_id),
            final(self).nav_view() == old(self).nav_view(),
            final(self).frames_view() == old(self).frames_view(),
            final(self).vars_view() == old(self).vars_view(),
            final(self).expanded_view() == old(self).expanded_view(),
            final(self).wf() == old(self).wf(),
            final(self).height() == old(self).height(),
    {
        self.collapse_object(object_id);
    }

    /// Collapses an expanded object: its phase and data are forgotten.
    pub fn collapse_object(&mut self, object_id: u64)
        ensures
            final(self).data() == forget_objects(old(self).data(), set![object_id]),
            final(self).errors() == old(self).errors().remove(object_id),
            final(self).nav_view() == old(self).nav_view(),
            final(self).frames_view() == old(self).frames_view(),
            final(self).vars_view() == old(self).vars_view(),
            final(self).expanded_view() == old(self).expanded_view(),
            final(self).wf() == old(self).wf(),
            final(self).height() == old(self).height(),
    {
        self.expansion.collapse_object_by_id(object_id);
        assert(self.data().object_phases =~= old(self).data().object_phases.remove_keys(set![object_id]));
        assert(self.data().fields =~= old(self).data().fields.remove_keys(set![object_id]));
        assert(self.data().statics =~= old(self).data().statics.remove_keys(set![object_id]));
    }

    /// Recursively collapses `object_id` and every object reachable from
    /// it through decoded fields, then moves the cursor off rows that are
    /// no longer shown.
    pub fn collapse_object_recursive(&mut self, object_id: u64)
        ensures
            final(self).collapse_view() == collapse_step(
                old(self).collapse_view(),
                object_id,
                old(self).frames_view(),
                old(self).vars_view(),
                old(self).expanded_view(),
            ),
            final(self).frames_view() == old(self).frames_view(),
            final(self).vars_view() == old(self).vars_view(),
            final(self).expanded_view() == old(self).expanded_view(),
            final(self).wf() == old(self).wf(),
            final(self).height() == old(self).height(),
    {
        let to_remove = collect_descendants(object_id, &self.expansion.object_fields);
        self.forget_all(&to_remove);
        self.resync_cursor_after_collapse();
        proof {
            reveal(collapse_step);
        }
    }

    fn forget_all(&mut self, ids: &Vec<u64>)
        ensures
            final(self).data() == forget_objects(old(self).data(), ids@.to_set()),
            final(self).errors() == old(self).errors().remove_keys(ids@.to_set()),
            final(self).nav_view() == old(self).nav_view(),
            final(self).frames_view() == old(self).frames_view(),
            final(self).vars_view() == old(self).vars_view(),
            final(self).expanded_view() == old(self).expanded_view(),
            final(self).wf() == old(self).wf(),
            final(self).height() == old(self).height(),
    {
        let ghost d0 = self.data();
        let ghost e0 = self.errors();
        let mut i: usize = 0;
        assert(ids@.take(0).to_set() =~= Set::<u64>::empty());
        assert(forget_objects(d0, Set::empty()) =~= d0) by {
            assert(d0.object_phases.remove_keys(Set::empty()) =~= d0.object_phases);
            assert(d0.fields.remove_keys(Set::empty()) =~= d0.fields);
            assert(d0.statics.remove_keys(Set::empty()) =~= d0.statics);
        }
        assert(e0.remove_keys(Set::empty()) =~= e0);
        while i < ids.len()
            invariant
                i <= ids@.len(),
                self.data() == forget_objects(d0, ids@.take(i as int).to_set()),
                self.errors() == e0.remove_keys(ids@.take(i as int).to_set()),
                self.nav_view() == old(self).nav_view(),
                self.frames_view() == old(self).frames_view(),
                self.vars_view() == old(self).vars_view(),
                self.expanded_view() == old(self).expanded_view(),
                self.wf() == old(self).wf(),
                self.height() == old(self).height(),
            decreases ids@.len() - i,
        {
            let id = ids[i];
            let ghost before = ids@.take(i as int).to_set();
            self.collapse_object(id);
            proof {
                assert(ids@.take(i + 1) =~= ids@.take(i as int).push(id));
                ids@.take(i as int).lemma_push_to_set_commute(id);
                lemma_forget_more(d0, e0, before, id);
            }
            i = i + 1;
        }
        assert(ids@.take(ids@.len() as int) =~= ids@);
    }

    /// If the cursor's row is no longer shown, moves it to its parent row
    /// or to the first interactive row.
    fn resync_cursor_after_collapse(&mut self)
        ensures
            final(self).nav_view() == resync_nav(old(self).flat(), old(self).nav_view()),
            final(self).data() == old(self).data(),
            final(self).errors() == old(self).errors(),
            final(self).frames_view() == old(self).frames_view(),
            final(self).vars_view() == old(self).vars_view(),
            final(self).expanded_view() == old(self).expanded_view(),
            final(self).wf() == old(self).wf(),
            final(self).height() == old(self).height(),
    {
        let flat = self.flat_items();
        if position_of(flat.as_slice(), self.nav.cursor()).is_some() {
            return;
        }
        if let Some(parent) = self.parent_cursor() {
            if position_of(flat.as_slice(), &parent).is_some() {
                self.nav.set_cursor_and_sync(parent, flat.as_slice());
                return;
            }
        }
        match first_interactive_index(flat.as_slice()) {
            Some(idx) => {
                proof {
                    lemma_first_interactive_in(cursors_view(flat@), 0);
                }
                let c = flat[idx].duplicate();
                self.nav.set_cursor_and_sync(c, flat.as_slice());
            },
            None => {
                self.nav.sync(flat.as_slice());
            },
        }
    }

    /// Returns whether `frame_id` is currently expanded.
    pub fn is_expanded(&self, frame_id: u64) -> (r: bool)
        ensures
            r == self.expanded_view().contains(frame_id),
    {
        self.expanded.contains(&frame_id)
    }
}

/// Forgetting one more object extends the forgotten set.
pub proof fn lemma_forget_more(d: TreeData, e: Map<u64, String>, s: Set<u64>, id: u64)
    ensures
        forget_objects(forget_objects(d, s), set![id]) == forget_objects(d, s.insert(id)),
        e.remove_keys(s).remove(id) == e.remove_keys(s.insert(id)),
{
    assert(d.object_phases.remove_keys(s).remove_keys(set![id]) =~= d.object_phases.remove_keys(s.insert(id)));
    assert(d.fields.remove_keys(s).remove_keys(set![id]) =~= d.fields.remove_keys(s.insert(id)));
    assert(d.statics.remove_keys(s).remove_keys(set![id]) =~= d.statics.remove_keys(s.insert(id)));
    assert(e.remove_keys(s).remove(id) =~= e.remove_keys(s.insert(id)));
}

/// Position of the first interactive row.
pub fn first_interactive_index(flat: &[RenderCursor]) -> (r: Option<usize>)
    ensures
        match first_interactive_from(cursors_view(flat@), 0) {
            Some(i) => r == Some(i as usize),
            None => r is None,
        },
{
    let ghost fv = cursors_view(flat@);
    let mut i: usize = 0;
    while i < flat.len()
        invariant
            fv == cursors_view(flat@),
            i <= flat@.len(),
            first_interactive_from(fv, 0) == first_interactive_from(fv, i as int),
        decreases flat@.len() - i,
    {
        assert(fv[i as int] == flat@[i as int]@);
        match &flat[i] {
            RenderCursor::SectionHeader(_) => {},
            RenderCursor::OverflowRow(_) => {},
            _ => return Some(i),
        }
        i = i + 1;
    }
    None
}

impl StackState {
    /// Expands a frame with its variables, or collapses an expanded frame:
    /// the objects of its cached variables are collapsed recursively, one
    /// after the other, and a cursor left inside the frame returns to the
    /// frame row.
    pub fn toggle_expand(&mut self, frame_id: u64, vars: Vec<VariableInfo>)
        ensures
            final(self).frames_view() == old(self).frames_view(),
            final(self).wf() == old(self).wf(),
            final(self).height() == old(self).height(),
            old(self).expanded_view().contains(frame_id) ==> {
                let e2 = old(self).expanded_view().remove(frame_id);
                let ch = collapse_chain(
                    old(self).collapse_view(),
                    var_ids(vars_of(old(self).vars_view(), frame_id)),
                    old(self).frames_view(),
                    old(self).vars_view(),
                    e2,
                );
                let rows = stack_rows(ch.data, old(self).frames_view(), old(self).vars_view(), e2);
                &&& final(self).expanded_view() == e2
                &&& final(self).vars_view() == old(self).vars_view()
                &&& final(self).data() == ch.data
                &&& final(self).errors() == ch.errors
                &&& final(self).nav_view() == if cursor_frame(ch.nav.cur) == Some(frame_id) {
                    placed(rows, ch.nav, CursorView::At(seq![PathSegment::Frame(FrameId(frame_id))]))
                } else {
                    placed(rows, ch.nav, ch.nav.cur)
                }
            },
            !old(self).expanded_view().contains(frame_id) ==> {
                &&& final(self).expanded_view() == old(self).expanded_view().insert(frame_id)
                &&& final(self).vars_view() == old(self).vars_view().insert(frame_id, vars)
                &&& final(self).data() == old(self).data()
                &&& final(self).errors() == old(self).errors()
                &&& final(self).nav_view() == placed(final(self).flat(), old(self).nav_view(), old(self).cur())
            },
    {
        if self.expanded.contains(&frame_id) {
            self.collapse_frame(frame_id);
        } else {
            self.vars.insert(frame_id, vars);
            self.expanded.insert(frame_id);
            self.sync();
        }
    }

    fn collapse_frame(&mut self, frame_id: u64)
        ensures
            final(self).frames_view() == old(self).frames_view(),
            final(self).wf() == old(self).wf(),
            final(self).height() == old(self).height(),
            ({
                let e2 = old(self).expanded_view().remove(frame_id);
                let ch = collapse_chain(
                    old(self).collapse_view(),
                    var_ids(vars_of(old(self).vars_view(), frame_id)),
                    old(self).frames_view(),
                    old(self).vars_view(),
                    e2,
                );
                let rows = stack_rows(ch.data, old(self).frames_view(), old(self).vars_view(), e2);
                &&& final(self).expanded_view() == e2
                &&& final(self).vars_view() == old(self).vars_view()
                &&& final(self).data() == ch.data
                &&& final(self).errors() == ch.errors
                &&& final(self).nav_view() == if cursor_frame(ch.nav.cur) == Some(frame_id) {
                    placed(rows, ch.nav, CursorView::At(seq![PathSegment::Frame(FrameId(frame_id))]))
                } else {
                    placed(rows, ch.nav, ch.nav.cur)
                }
            }),
    {
        self.expanded.remove(&frame_id);
        let object_ids: Vec<u64> = match self.vars.get(&frame_id) {
            Some(cached) => collect_var_ids(cached.as_slice()),
            None => {
                let v: Vec<u64> = Vec::new();
                assert(v@ =~= var_ids(Seq::empty()));
                v
            },
        };
        self.collapse_ids(&object_ids);
        let mut in_frame = false;
        if let Some(path) = self.cursor_path() {
            let segs = path.segments();
            if segs.len() > 0 {
                if let PathSegment::Frame(fid) = &segs[0] {
                    in_frame = fid.0 == frame_id;
                }
            }
        }
        if in_frame {
            self.place(RenderCursor::At(NavigationPathBuilder::frame_only(FrameId(frame_id))));
            return;
        }
        self.sync();
    }

    fn collapse_ids(&mut self, object_ids: &Vec<u64>)
        ensures
            final(self).collapse_view() == collapse_chain(
                old(self).collapse_view(),
                object_ids@,
                old(self).frames_view(),
                old(self).vars_view(),
                old(self).expanded_view(),
            ),
            final(self).frames_view() == old(self).frames_view(),
            final(self).vars_view() == old(self).vars_view(),
            final(self).expanded_view() == old(self).expanded_view(),
            final(self).wf() == old(self).wf(),
            final(self).height() == old(self).height(),
    {
        let ghost target = collapse_chain(
            self.collapse_view(),
            object_ids@,
            self.frames_view(),
            self.vars_view(),
            self.expanded_view(),
        );
        let mut i: usize = 0;
        assert(object_ids@.subrange(0, object_ids@.len() as int) =~= object_ids@);
        while i < object_ids.len()
            invariant
                i <= object_ids@.len(),
                self.frames_view() == old(self).frames_view(),
                self.vars_view() == old(self).vars_view(),
                self.expanded_view() == old(self).expanded_view(),
                self.wf() == old(self).wf(),
                self.height() == old(self).height(),
                collapse_chain(
                    self.collapse_view(),
                    object_ids@.subrange(i as int, object_ids@.len() as int),
                    self.frames_view(),
                    self.vars_view(),
                    self.expanded_view(),
                ) == target,
            decreases object_ids@.len() - i,
        {
            let ghost rest = object_ids@.subrange(i as int, object_ids@.len() as int);
            assert(rest[0] == object_ids@[i as int]);
            assert(rest.drop_first() =~= object_ids@.subrange(i + 1, object_ids@.len() as int));
            let ghost st = self.collapse_view();
            self.collapse_object_recursive(object_ids[i]);
            assert(collapse_chain(st, rest, self.frames_view(), self.vars_view(), self.expanded_view())
                == collapse_chain(self.collapse_view(), rest.drop_first(), self.frames_view(), self.vars_view(), self.expanded_view()));
            i = i + 1;
        }
        assert(object_ids@.subrange(i as int, object_ids@.len() as int).len() == 0);
    }
}

/// Object ids of the reference variables, in order.
fn collect_var_ids(vs: &[VariableInfo]) -> (r: Vec<u64>)
    ensures
        r@ == var_ids(vs@),
{
    let mut ids: Vec<u64> = Vec::new();
    let mut i: usize = 0;
    assert(vs@.subrange(0, vs@.len() as int) =~= vs@);
    assert(ids@ + var_ids(vs@) =~= var_ids(vs@));
    while i < vs.len()
        invariant
            i <= vs@.len(),
            ids@ + var_ids(vs@.subrange(i as int, vs@.len() as int)) == var_ids(vs@),
        decreases vs@.len() - i,
    {
        let ghost rest = vs@.subrange(i as int, vs@.len() as int);
        assert(rest[0] == vs@[i as int]);
        assert(rest.drop_first() =~= vs@.subrange(i + 1, vs@.len() as int));
        let ghost before = ids@;
        match &vs[i].value {
            VariableValue::ObjectRef { id, .. } => {
                ids.push(*id);
                assert(ids@ + var_ids(vs@.subrange(i + 1, vs@.len() as int)) =~= before + var_ids(rest));
            },
            VariableValue::Null => {},
        }
        i = i + 1;
    }
    assert(vs@.subrange(i as int, vs@.len() as int).len() == 0);
    assert(ids@ =~= var_ids(vs@));
    ids
}

impl StackState {
    fn move_to_row(&mut self, flat: &Vec<RenderCursor>, t: usize)
        requires
            cursors_view(flat@) == old(self).flat(),
            t < flat@.len(),
        ensures
            final(self).nav_view() == placed(old(self).flat(), old(self).nav_view(), old(self).flat()[t as int]),
            final(self).data() == old(self).data(),
            final(self).errors() == old(self).errors(),
            final(self).frames_view() == old(self).frames_view(),
            final(self).vars_view() == old(self).vars_view(),
            final(self).expanded_view() == old(self).expanded_view(),
            final(self).wf() == old(self).wf(),
            final(self).height() == old(self).height(),
    {
        let c = flat[t].duplicate();
        self.nav.set_cursor_and_sync(c, flat.as_slice());
    }

    fn origin(&self, flat: &Vec<RenderCursor>) -> (r: usize)
        requires
            cursors_view(flat@) == self.flat(),
            flat@.len() > 0,
        ensures
            r == move_origin(self.flat(), self.cur()),
            r < flat@.len(),
    {
        let ghost fv = cursors_view(flat@);
        let n = flat.len();
        let pos = position_of(flat.as_slice(), self.nav.cursor());
        assert(key_views(flat@) == fv);
        let r: usize = if let Some(i) = pos {
            proof {
                crate::cursor::lemma_index_of_first_some(fv, self.cur());
            }
            assert(index_of_first(fv, self.cur()) == Some(i as int));
            assert(i == move_origin(fv, self.cur()));
            i
        } else {
            assert(index_of_first(fv, self.cur()) is None);
            let fi = first_interactive_index(flat.as_slice());
            proof {
                lemma_first_interactive_in(fv, 0);
            }
            match fi {
                Some(i) => {
                    assert(first_interactive_from(fv, 0) == Some(i as int));
                    assert(i == move_origin(fv, self.cur()));
                    i
                },
                None => {
                    assert(first_interactive_from(fv, 0) is None);
                    assert(0 == move_origin(fv, self.cur()));
                    0
                },
            }
        };
        assert(r == move_origin(fv, self.cur()));
        r
    }

    /// Moves the cursor down to the next interactive row.
    pub fn move_down(&mut self)
        ensures
            final(self).nav_view() == move_to(old(self).flat(), old(self).nav_view(), down_target(old(self).flat(), old(self).cur())),
            final(self).data() == old(self).data(),
            final(self).errors() == old(self).errors(),
            final(self).frames_view() == old(self).frames_view(),
            final(self).vars_view() == old(self).vars_view(),
            final(self).expanded_view() == old(self).expanded_view(),
            final(self).wf() == old(self).wf(),
            final(self).height() == old(self).height(),
    {
        let flat = self.flat_items();
        if flat.len() == 0 {
            return;
        }
        let o = self.origin(&flat);
        let t = match next_interactive_index(flat.as_slice(), o + 1) {
            Some(i) => i,
            None => o,
        };
        proof {
            lemma_first_interactive_in(cursors_view(flat@), o + 1);
        }
        self.move_to_row(&flat, t);
    }

    /// Moves the cursor up to the previous interactive row.
    pub fn move_up(&mut self)
        ensures
            final(self).nav_view() == move_to(old(self).flat(), old(self).nav_view(), up_target(old(self).flat(), old(self).cur())),
            final(self).data() == old(self).data(),
            final(self).errors() == old(self).errors(),
            final(self).frames_view() == old(self).frames_view(),
            final(self).vars_view() == old(self).vars_view(),
            final(self).expanded_view() == old(self).expanded_view(),
            final(self).wf() == old(self).wf(),
            final(self).height() == old(self).height(),
    {
        let flat = self.flat_items();
        if flat.len() == 0 {
            return;
        }
        let o = self.origin(&flat);
        let t = match prev_interactive_index(flat.as_slice(), o) {
            Some(i) => i,
            None => o,
        };
        proof {
            lemma_last_interactive_in(cursors_view(flat@), o as int);
        }
        self.move_to_row(&flat, t);
    }

    /// Moves the cursor to the first interactive row.
    pub fn move_home(&mut self)
        ensures
            final(self).nav_view() == match first_interactive_from(old(self).flat(), 0) {
                Some(i) => placed(old(self).flat(), old(self).nav_view(), old(self).flat()[i]),
                None => old(self).nav_view(),
            },
            final(self).data() == old(self).data(),
            final(self).errors() == old(self).errors(),
            final(self).frames_view() == old(self).frames_view(),
            final(self).vars_view() == old(self).vars_view(),
            final(self).expanded_view() == old(self).expanded_view(),
            final(self).wf() == old(self).wf(),
            final(self).height() == old(self).height(),
    {
        let flat = self.flat_items();
        if let Some(i) = first_interactive_index(flat.as_slice()) {
            proof {
                lemma_first_interactive_in(cursors_view(flat@), 0);
            }
            self.move_to_row(&flat, i);
        }
    }

    /// Moves the cursor to the last interactive row.
    pub fn move_end(&mut self)
        ensures
            final(self).nav_view() == match last_interactive_before(old(self).flat(), old(self).flat().len() as int) {
                Some(i) => placed(old(self).flat(), old(self).nav_view(), old(self).flat()[i]),
                None => old(self).nav_view(),
            },
            final(self).data() == old(self).data(),
            final(self).errors() == old(self).errors(),
            final(self).frames_view() == old(self).frames_view(),
            final(self).vars_view() == old(self).vars_view(),
            final(self).expanded_view() == old(self).expanded_view(),
            final(self).wf() == old(self).wf(),
            final(self).height() == old(self).height(),
    {
        let flat = self.flat_items();
        if let Some(i) = prev_interactive_index(flat.as_slice(), flat.len()) {
            proof {
                lemma_last_interactive_in(cursors_view(flat@), flat@.len() as int);
            }
            self.move_to_row(&flat, i);
        }
    }

    /// Sets the page size used by page moves and scrolling.
    pub fn set_visible_height(&mut self, h: usize)
        ensures
            final(self).height() == h,
            final(self).nav_view() == old(self).nav_view(),
            final(self).data() == old(self).data(),
            final(self).errors() == old(self).errors(),
            final(self).frames_view() == old(self).frames_view(),
            final(self).vars_view() == old(self).vars_view(),
            final(self).expanded_view() == old(self).expanded_view(),
            final(self).wf() == old(self).wf(),
    {
        self.nav.set_visible_height(h);
    }

    #[verifier::rlimit(40)]
    fn snap_cursor_to_interactive(&mut self, flat: &Vec<RenderCursor>, prefer_down: bool)
        requires
            cursors_view(flat@) == old(self).flat(),
        ensures
            final(self).nav_view() == snapped(old(self).flat(), old(self).nav_view(), prefer_down),
            final(self).data() == old(self).data(),
            final(self).errors() == old(self).errors(),
            final(self).frames_view() == old(self).frames_view(),
            final(self).vars_view() == old(self).vars_view(),
            final(self).expanded_view() == old(self).expanded_view(),
            final(self).wf() == old(self).wf(),
            final(self).height() == old(self).height(),
    {
        let ghost fv = cursors_view(flat@);
        let n = flat.len();
        assert(key_views(flat@) == fv);
        let ci = match position_of(flat.as_slice(), self.nav.cursor()) {
            Some(ci) => ci,
            None => {
                if let Some(i) = first_interactive_index(flat.as_slice()) {
                    proof {
                        lemma_first_interactive_in(fv, 0);
                    }
                    self.move_to_row(flat, i);
                }
                return;
            },
        };
        proof {
            crate::cursor::lemma_index_of_first_some(fv, self.cur());
        }
        if is_interactive_row(&flat[ci]) {
            return;
        }
        match snap_pick_index(flat, ci, prefer_down) {
            Some(i) => self.move_to_row(flat, i),
            None => {},
        }
    }

    fn page(&mut self, flat: &Vec<RenderCursor>, down: bool)
        requires
            cursors_view(flat@) == old(self).flat(),
        ensures
            final(self).nav_view() == paged(old(self).flat(), old(self).nav_view(), old(self).height() as int, down),
            final(self).data() == old(self).data(),
            final(self).errors() == old(self).errors(),
            final(self).frames_view() == old(self).frames_view(),
            final(self).vars_view() == old(self).vars_view(),
            final(self).expanded_view() == old(self).expanded_view(),
            final(self).wf() == old(self).wf(),
            final(self).height() == old(self).height(),
    {
        let ghost fv = cursors_view(flat@);
        let n = flat.len();
        assert(key_views(flat@) == fv);
        if down {
            self.nav.move_page_down(flat.as_slice());
        } else {
            self.nav.move_page_up(flat.as_slice());
        }
        proof {
            if index_of_first(fv, old(self).cur()) is Some {
                crate::cursor::lemma_index_of_first_some(fv, old(self).cur());
            }
            if n > 0 {
                let t: int = match index_of_first(fv, old(self).cur()) {
                    Some(i) => if down {
                        if i + old(self).height() < n - 1 {
                            i + old(self).height()
                        } else {
                            n - 1
                        }
                    } else if i >= old(self).height() {
                        i - old(self).height()
                    } else {
                        0
                    },
                    None => 0,
                };
                assert(self.cur() == flat@[t]@);
                assert(fv[t] == flat@[t]@);
            }
        }
    }

    /// Moves the cursor one page down, then onto an interactive row.
    #[verifier::rlimit(40)]
    pub fn move_page_down(&mut self)
        ensures
            final(self).nav_view() == snapped(
                old(self).flat(),
                paged(old(self).flat(), old(self).nav_view(), old(self).height() as int, true),
                true,
            ),
            (exists|k: int| 0 <= k < final(self).flat().len() && is_interactive(#[trigger] final(self).flat()[k]))
                ==> is_interactive(final(self).cur()),
            final(self).data() == old(self).data(),
            final(self).errors() == old(self).errors(),
            final(self).frames_view() == old(self).frames_view(),
            final(self).vars_view() == old(self).vars_view(),
            final(self).expanded_view() == old(self).expanded_view(),
            final(self).wf() == old(self).wf(),
            final(self).height() == old(self).height(),
    {
        let flat = self.flat_items();
        let ghost rows = old(self).flat();
        let ghost nv0 = old(self).nav_view();
        let ghost h0 = old(self).height() as int;
        self.page(&flat, true);
        self.snap_cursor_to_interactive(&flat, true);
        proof {
            if exists|k: int| 0 <= k < self.flat().len() && is_interactive(#[trigger] self.flat()[k]) {
                let k = choose|k: int| 0 <= k < self.flat().len() && is_interactive(#[trigger] self.flat()[k]);
                lemma_page_move_is_interactive(rows, nv0, h0, true, k);
            }
        }
    }

    /// Moves the cursor one page up, then onto an interactive row.
    #[verifier::rlimit(40)]
    pub fn move_page_up(&mut self)
        ensures
            final(self).nav_view() == snapped(
                old(self).flat(),
                paged(old(self).flat(), old(self).nav_view(), old(self).height() as int, false),
                false,
            ),
            (exists|k: int| 0 <= k < final(self).flat().len() && is_interactive(#[trigger] final(self).flat()[k]))
                ==> is_interactive(final(self).cur()),
            final(self).data() == old(self).data(),
            final(self).errors() == old(self).errors(),
            final(self).frames_view() == old(self).frames_view(),
            final(self).vars_view() == old(self).vars_view(),
            final(self).expanded_view() == old(self).expanded_view(),
            final(self).wf() == old(self).wf(),
            final(self).height() == old(self).height(),
    {
        let flat = self.flat_items();
        let ghost rows = old(self).flat();
        let ghost nv0 = old(self).nav_view();
        let ghost h0 = old(self).height() as int;
        self.page(&flat, false);
        self.snap_cursor_to_interactive(&flat, false);
        proof {
            if exists|k: int| 0 <= k < self.flat().len() && is_interactive(#[trigger] self.flat()[k]) {
                let k = choose|k: int| 0 <= k < self.flat().len() && is_interactive(#[trigger] self.flat()[k]);
                lemma_page_move_is_interactive(rows, nv0, h0, false, k);
            }
        }
    }
}

fn is_interactive_row(c: &RenderCursor) -> (r: bool)
    ensures
        r == is_interactive(c@),
{
    match c {
        RenderCursor::SectionHeader(_) => false,
        RenderCursor::OverflowRow(_) => false,
        _ => true,
    }
}

fn snap_pick_index(flat: &Vec<RenderCursor>, ci: usize, down: bool) -> (r: Option<usize>)
    requires
        ci < flat@.len(),
    ensures
        match snap_pick(cursors_view(flat@), ci as int, down) {
            Some(i) => r == Some(i as usize) && 0 <= i < flat@.len(),
            None => r is None,
        },
{
    let n = flat.len();
    let next = next_interactive_index(flat.as_slice(), ci + 1);
    let prev = prev_interactive_index(flat.as_slice(), ci);
    proof {
        lemma_first_interactive_in(cursors_view(flat@), ci + 1);
        lemma_last_interactive_in(cursors_view(flat@), ci as int);
    }
    if down {
        if next.is_some() {
            next
        } else {
            prev
        }
    } else if prev.is_some() {
        prev
    } else {
        next
    }
}

/// Position of the first interactive row at or after `from`.
pub fn next_interactive_index(flat: &[RenderCursor], from: usize) -> (r: Option<usize>)
    ensures
        match first_interactive_from(cursors_view(flat@), from as int) {
            Some(i) => r == Some(i as usize),
            None => r is None,
        },
{
    let ghost fv = cursors_view(flat@);
    let mut i: usize = from;
    while i < flat.len()
        invariant
            fv == cursors_view(flat@),
            from <= i,
            i >= flat@.len() ==> first_interactive_from(fv, from as int) == first_interactive_from(fv, i as int),
            i < flat@.len() ==> first_interactive_from(fv, from as int) == first_interactive_from(fv, i as int),
        decreases flat@.len() - i,
    {
        assert(fv[i as int] == flat@[i as int]@);
        match &flat[i] {
            RenderCursor::SectionHeader(_) => {},
            RenderCursor::OverflowRow(_) => {},
            _ => return Some(i),
        }
        i = i + 1;
    }
    None
}

/// Position of the last interactive row before `n`.
pub fn prev_interactive_index(flat: &[RenderCursor], n: usize) -> (r: Option<usize>)
    requires
        n <= flat@.len(),
    ensures
        match last_interactive_before(cursors_view(flat@), n as int) {
            Some(i) => r == Some(i as usize),
            None => r is None,
        },
{
    let ghost fv = cursors_view(flat@);
    let mut k: usize = n;
    while k > 0
        invariant
            fv == cursors_view(flat@),
            k <= n <= flat@.len(),
            last_interactive_before(fv, n as int) == last_interactive_before(fv, k as int),
        decreases k,
    {
        assert(fv[k - 1] == flat@[k - 1]@);
        match &flat[k - 1] {
            RenderCursor::SectionHeader(_) => {},
            RenderCursor::OverflowRow(_) => {},
            _ => return Some(k - 1),
        }
        k = k - 1;
    }
    None
}

/// A found interactive position lies in range, at or after the start.
pub proof fn lemma_first_interactive_in(rows: Seq<CursorView>, i: int)
    ensures
        match first_interactive_from(rows, i) {
            Some(j) => i <= j < rows.len() && 0 <= j,
            None => true,
        },
    decreases rows.len() - i,
{
    if !(i < 0 || i >= rows.len()) && !is_interactive(rows[i]) {
        lemma_first_interactive_in(rows, i + 1);
    }
}

/// The first interactive row at or after `i` is interactive, and one is
/// found whenever some row at or after `i` is interactive.
pub proof fn lemma_first_interactive_found(rows: Seq<CursorView>, i: int, k: int)
    requires
        0 <= i,
    ensures
        first_interactive_from(rows, i) matches Some(j) ==> is_interactive(rows[j]),
        i <= k < rows.len() && is_interactive(rows[k]) ==> first_interactive_from(rows, i) is Some,
    decreases rows.len() - i,
{
    if i < rows.len() && !is_interactive(rows[i]) {
        lemma_first_interactive_found(rows, i + 1, k);
    }
}

/// The last interactive row before `n` is interactive, and one is found
/// whenever some row before `n` is interactive.
pub proof fn lemma_last_interactive_found(rows: Seq<CursorView>, n: int, k: int)
    requires
        n <= rows.len(),
    ensures
        last_interactive_before(rows, n) matches Some(j) ==> is_interactive(rows[j]),
        0 <= k < n && is_interactive(rows[k]) ==> last_interactive_before(rows, n) is Some,
    decreases n,
{
    if n > 0 && !is_interactive(rows[n - 1]) {
        lemma_last_interactive_found(rows, n - 1, k);
    }
}

/// Law: moving the cursor off a row in either direction leaves it on an
/// interactive row (never on a section header or an overflow row) whenever
/// the rows hold any interactive row.
pub proof fn lemma_snapped_is_interactive(rows: Seq<CursorView>, nv: NavView, down: bool, k: int)
    requires
        0 <= k < rows.len(),
        is_interactive(rows[k]),
    ensures
        is_interactive(snapped(rows, nv, down).cur),
{
    lemma_first_interactive_found(rows, 0, k);
    match index_of_first(rows, nv.cur) {
        None => {
            lemma_first_interactive_in(rows, 0);
        },
        Some(ci) => {
            crate::cursor::lemma_index_of_first_some(rows, nv.cur);
            if !is_interactive(rows[ci]) {
                assert(k != ci);
                lemma_first_interactive_found(rows, ci + 1, k);
                lemma_last_interactive_found(rows, ci, k);
                lemma_first_interactive_in(rows, ci + 1);
                lemma_last_interactive_in(rows, ci);
            }
        },
    }
}

/// Law: a one-row move down or up from an interactive row (or from a
/// cursor that is not shown) ends on an interactive row whenever the rows
/// hold any.
pub proof fn lemma_step_targets_interactive(rows: Seq<CursorView>, c: CursorView, k: int)
    requires
        0 <= k < rows.len(),
        is_interactive(rows[k]),
        index_of_first(rows, c) matches Some(i) ==> is_interactive(rows[i]),
    ensures
        0 <= down_target(rows, c) < rows.len(),
        is_interactive(rows[down_target(rows, c)]),
        0 <= up_target(rows, c) < rows.len(),
        is_interactive(rows[up_target(rows, c)]),
{
    lemma_first_interactive_found(rows, 0, k);
    lemma_first_interactive_in(rows, 0);
    if index_of_first(rows, c) is Some {
        crate::cursor::lemma_index_of_first_some(rows, c);
    }
    let o = move_origin(rows, c);
    assert(0 <= o < rows.len() && is_interactive(rows[o]));
    lemma_first_interactive_found(rows, o + 1, k);
    lemma_first_interactive_in(rows, o + 1);
    lemma_last_interactive_found(rows, o, k);
    lemma_last_interactive_in(rows, o);
}

/// Law: jumping home or to the end lands on an interactive row whenever
/// the rows hold any: home on the first one, end on the last one.
pub proof fn lemma_home_end_interactive(rows: Seq<CursorView>, k: int)
    requires
        0 <= k < rows.len(),
        is_interactive(rows[k]),
    ensures
        first_interactive_from(rows, 0) matches Some(i) && 0 <= i <= k && is_interactive(rows[i]) && forall|j: int|
            0 <= j < i ==> !is_interactive(#[trigger] rows[j]),
        last_interactive_before(rows, rows.len() as int) matches Some(i) && k <= i < rows.len() && is_interactive(
            rows[i],
        ) && forall|j: int| i < j < rows.len() ==> !is_interactive(#[trigger] rows[j]),
{
    lemma_first_interactive_found(rows, 0, k);
    lemma_first_interactive_in(rows, 0);
    lemma_last_interactive_found(rows, rows.len() as int, k);
    lemma_last_interactive_in(rows, rows.len() as int);
    lemma_first_interactive_minimal(rows, 0, k);
    lemma_last_interactive_maximal(rows, rows.len() as int, k);
}

proof fn lemma_first_interactive_minimal(rows: Seq<CursorView>, i: int, k: int)
    requires
        0 <= i <= k < rows.len(),
        is_interactive(rows[k]),
    ensures
        first_interactive_from(rows, i) matches Some(m) && m <= k && forall|j: int| i <= j < m ==> !is_interactive(
            #[trigger] rows[j],
        ),
    decreases k - i,
{
    if !is_interactive(rows[i]) {
        lemma_first_interactive_minimal(rows, i + 1, k);
    }
}

proof fn lemma_last_interactive_maximal(rows: Seq<CursorView>, n: int, k: int)
    requires
        0 <= k < n <= rows.len(),
        is_interactive(rows[k]),
    ensures
        last_interactive_before(rows, n) matches Some(m) && k <= m && forall|j: int| m < j < n ==> !is_interactive(
            #[trigger] rows[j],
        ),
    decreases n - k,
{
    if !is_interactive(rows[n - 1]) {
        lemma_last_interactive_maximal(rows, n - 1, k);
    }
}

/// Law: the cursor after a one-row move down or up (as `move_down` and
/// `move_up` state it) is on an interactive row whenever it started on one
/// (or was not shown) and the rows hold any.
pub proof fn lemma_step_move_is_interactive(rows: Seq<CursorView>, nv: NavView, k: int)
    requires
        0 <= k < rows.len(),
        is_interactive(rows[k]),
        index_of_first(rows, nv.cur) matches Some(i) ==> is_interactive(rows[i]),
    ensures
        is_interactive(move_to(rows, nv, down_target(rows, nv.cur)).cur),
        is_interactive(move_to(rows, nv, up_target(rows, nv.cur)).cur),
{
    lemma_step_targets_interactive(rows, nv.cur, k);
}

/// Law: the cursor after jumping home (as `move_home` states it) is on the
/// first interactive row, selected at or before every interactive row;
/// after jumping to the end (as `move_end` states it) it is on the last
/// interactive row.
pub proof fn lemma_jump_is_interactive(rows: Seq<CursorView>, nv: NavView, k: int)
    requires
        0 <= k < rows.len(),
        is_interactive(rows[k]),
    ensures
        ({
            let home = match first_interactive_from(rows, 0) {
                Some(i) => placed(rows, nv, rows[i]),
                None => nv,
            };
            is_interactive(home.cur) && (home.sel matches Some(j) && j <= k)
        }),
        is_interactive(
            (match last_interactive_before(rows, rows.len() as int) {
                Some(i) => placed(rows, nv, rows[i]),
                None => nv,
            }).cur,
        ),
{
    lemma_home_end_interactive(rows, k);
    let i = first_interactive_from(rows, 0).unwrap();
    assert forall|j: int| 0 <= j < i implies rows[j] != rows[i] by {
        assert(!is_interactive(rows[j]));
    }
    crate::cursor::lemma_index_of_first(rows, rows[i], i);
}

/// Law: a page move down or up ends on an interactive row whenever the
/// rows hold any interactive row.
pub proof fn lemma_page_move_is_interactive(rows: Seq<CursorView>, nv: NavView, h: int, down: bool, k: int)
    requires
        0 <= k < rows.len(),
        is_interactive(rows[k]),
    ensures
        is_interactive(snapped(rows, paged(rows, nv, h, down), down).cur),
{
    lemma_snapped_is_interactive(rows, paged(rows, nv, h, down), down, k);
}

/// A found interactive position lies before `n`.
pub proof fn lemma_last_interactive_in(rows: Seq<CursorView>, n: int)
    ensures
        match last_interactive_before(rows, n) {
            Some(j) => 0 <= j < n && j < rows.len(),
            None => true,
        },
    decreases n,
{
    if n > 0 && n <= rows.len() && !is_interactive(rows[n - 1]) {
        lemma_last_interactive_in(rows, n - 1);
    }
}

proof fn lemma_first_interactive_skips(rows: Seq<CursorView>, a: int)
    requires
        first_interactive_from(rows, a) is Some,
    ensures
        is_interactive(rows[first_interactive_from(rows, a).unwrap()]),
        forall|k: int|
            a <= k < first_interactive_from(rows, a).unwrap() ==> !is_interactive(#[trigger] rows[k]),
    decreases rows.len() - a,
{
    if !is_interactive(rows[a]) {
        lemma_first_interactive_skips(rows, a + 1);
    }
}

proof fn lemma_last_interactive_finds(rows: Seq<CursorView>, o: int, n: int)
    requires
        0 <= o < n <= rows.len(),
        is_interactive(rows[o]),
        forall|k: int| o < k < n ==> !is_interactive(#[trigger] rows[k]),
    ensures
        last_interactive_before(rows, n) == Some(o),
    decreases n,
{
    if n - 1 > o {
        lemma_last_interactive_finds(rows, o, n - 1);
    }
}

/// Law: whenever the rows hold an interactive row, resynchronising the
/// cursor after the rows changed leaves it on one of the rows.
pub proof fn lemma_resync_lands_on_row(rows: Seq<CursorView>, nv: NavView)
    requires
        first_interactive_from(rows, 0) is Some,
    ensures
        index_of_first(rows, resync_nav(rows, nv).cur) is Some,
{
    let i = first_interactive_from(rows, 0).unwrap();
    lemma_first_interactive_in(rows, 0);
    assert(rows[i] == rows[i]);
    assert(index_of_first(rows, rows[i]) is Some);
    match parent_view(nv.cur) {
        Some(pc) => {
            if index_of_first(rows, pc) is Some {
                assert(resync_nav(rows, nv).cur == pc || index_of_first(rows, nv.cur) is Some);
            }
        },
        None => {},
    }
}

/// Law: on rows that are all different, moving down from an interactive
/// row and, when that moved, moving back up returns to the same row.
pub proof fn lemma_down_then_up(rows: Seq<CursorView>, c: CursorView)
    requires
        crate::cursor::distinct(rows),
        index_of_first(rows, c) is Some,
        is_interactive(c),
        down_target(rows, c) != index_of_first(rows, c).unwrap(),
    ensures
        up_target(rows, rows[down_target(rows, c)]) == index_of_first(rows, c).unwrap(),
{
    crate::cursor::lemma_index_of_first_some(rows, c);
    let o = index_of_first(rows, c).unwrap();
    assert(move_origin(rows, c) == o);
    let t = down_target(rows, c);
    assert(first_interactive_from(rows, o + 1) is Some);
    lemma_first_interactive_in(rows, o + 1);
    lemma_first_interactive_skips(rows, o + 1);
    assert(o < t < rows.len());
    assert forall|j: int| 0 <= j < t implies rows[j] != rows[t] by {
        assert(j < t);
    }
    lemma_index_of_first(rows, rows[t], t);
    assert(move_origin(rows, rows[t]) == t);
    lemma_last_interactive_finds(rows, o, t);
}

/// The offset after a scroll of the window over `rows`: unchanged without
/// a page size or when the cursor's row is not shown, else `f` of the
/// cursor's row.
pub open spec fn scroll_result(rows: Seq<CursorView>, nv: NavView, h: int, kind: int) -> usize {
    match index_of_first(rows, nv.cur) {
        Some(sel) => if h == 0 {
            nv.off
        } else {
            (if kind == 0 {
                scrolled_up(nv.off as int, rows.len() as int, h, sel, 1)
            } else if kind == 1 {
                scrolled_down(nv.off as int, rows.len() as int, h, sel, 1)
            } else if kind == 2 {
                scrolled_up(nv.off as int, rows.len() as int, h, sel, h)
            } else if kind == 3 {
                scrolled_down(nv.off as int, rows.len() as int, h, sel, h)
            } else {
                centered(rows.len() as int, h, sel)
            }) as usize
        },
        None => nv.off,
    }
}

impl StackState {
    fn scroll(&mut self, kind: u8)
        requires
            kind <= 4,
        ensures
            final(self).nav_view() == (NavView {
                off: scroll_result(old(self).flat(), old(self).nav_view(), old(self).height() as int, kind as int),
                ..old(self).nav_view()
            }),
            final(self).data() == old(self).data(),
            final(self).errors() == old(self).errors(),
            final(self).frames_view() == old(self).frames_view(),
            final(self).vars_view() == old(self).vars_view(),
            final(self).expanded_view() == old(self).expanded_view(),
            final(self).wf() == old(self).wf(),
            final(self).height() == old(self).height(),
    {
        let h = self.nav.visible_height();
        if h == 0 {
            return;
        }
        let flat = self.flat_items();
        let ghost fv = cursors_view(flat@);
        let count = flat.len();
        assert(key_views(flat@) == fv);
        let sel = match position_of(flat.as_slice(), self.nav.cursor()) {
            Some(i) => i,
            None => return,
        };
        proof {
            crate::cursor::lemma_index_of_first_some(fv, self.cur());
        }
        let maxo: usize = if count > h {
            count - h
        } else {
            0
        };
        let off = self.nav.list_state().offset();
        let cur_off = if off < maxo {
            off
        } else {
            maxo
        };
        let new_off: usize = if kind == 0 || kind == 2 {
            let step = if kind == 0 {
                1
            } else {
                h
            };
            let new = if cur_off > step {
                cur_off - step
            } else {
                0
            };
            if sel >= new + h {
                sel + 1 - h
            } else {
                new
            }
        } else if kind == 1 || kind == 3 {
            let step = if kind == 1 {
                1
            } else {
                h
            };
            let new = if step < maxo && cur_off < maxo - step {
                cur_off + step
            } else {
                maxo
            };
            if sel < new {
                sel
            } else {
                new
            }
        } else {
            let half = h / 2;
            let c = if sel > half {
                sel - half
            } else {
                0
            };
            if c < maxo {
                c
            } else {
                maxo
            }
        };
        self.nav.list_state_mut().set_offset(new_off);
    }

    /// Scrolls the visible window up by one row without moving the cursor
    /// (the cursor's row stays visible).
    pub fn scroll_view_up(&mut self)
        ensures
            final(self).nav_view() == (NavView {
                off: scroll_result(old(self).flat(), old(self).nav_view(), old(self).height() as int, 0),
                ..old(self).nav_view()
            }),
            final(self).data() == old(self).data(),
            final(self).errors() == old(self).errors(),
            final(self).frames_view() == old(self).frames_view(),
            final(self).vars_view() == old(self).vars_view(),
            final(self).expanded_view() == old(self).expanded_view(),
            final(self).wf() == old(self).wf(),
            final(self).height() == old(self).height(),
    {
        self.scroll(0);
    }

    /// Scrolls the visible window down by one row without moving the
    /// cursor (the cursor's row stays visible).
    pub fn scroll_view_down(&mut self)
        ensures
            final(self).nav_view() == (NavView {
                off: scroll_result(old(self).flat(), old(self).nav_view(), old(self).height() as int, 1),
                ..old(self).nav_view()
            }),
            final(self).data() == old(self).data(),
            final(self).errors() == old(self).errors(),
            final(self).frames_view() == old(self).frames_view(),
            final(self).vars_view() == old(self).vars_view(),
            final(self).expanded_view() == old(self).expanded_view(),
            final(self).wf() == old(self).wf(),
            final(self).height() == old(self).height(),
    {
        self.scroll(1);
    }

    /// Scrolls the visible window up by one page without moving the cursor
    /// (the cursor's row stays visible).
    pub fn scroll_view_page_up(&mut self)
        ensures
            final(self).nav_view() == (NavView {
                off: scroll_result(old(self).flat(), old(self).nav_view(), old(self).height() as int, 2),
                ..old(self).nav_view()
            }),
            final(self).data() == old(self).data(),
            final(self).errors() == old(self).errors(),
            final(self).frames_view() == old(self).frames_view(),
            final(self).vars_view() == old(self).vars_view(),
            final(self).expanded_view() == old(self).expanded_view(),
            final(self).wf() == old(self).wf(),
            final(self).height() == old(self).height(),
    {
        self.scroll(2);
    }

    /// Scrolls the visible window down by one page without moving the
    /// cursor (the cursor's row stays visible).
    pub fn scroll_view_page_down(&mut self)
        ensures
            final(self).nav_view() == (NavView {
                off: scroll_result(old(self).flat(), old(self).nav_view(), old(self).height() as int, 3),
                ..old(self).nav_view()
            }),
            final(self).data() == old(self).data(),
            final(self).errors() == old(self).errors(),
            final(self).frames_view() == old(self).frames_view(),
            final(self).vars_view() == old(self).vars_view(),
            final(self).expanded_view() == old(self).expanded_view(),
            final(self).wf() == old(self).wf(),
            final(self).height() == old(self).height(),
    {
        self.scroll(3);
    }

    /// Centers the cursor's row in the visible window when possible.
    pub fn center_view_on_selection(&mut self)
        ensures
            final(self).nav_view() == (NavView {
                off: scroll_result(old(self).flat(), old(self).nav_view(), old(self).height() as int, 4),
                ..old(self).nav_view()
            }),
            final(self).data() == old(self).data(),
            final(self).errors() == old(self).errors(),
            final(self).frames_view() == old(self).frames_view(),
            final(self).vars_view() == old(self).vars_view(),
            final(self).expanded_view() == old(self).expanded_view(),
            final(self).wf() == old(self).wf(),
            final(self).height() == old(self).height(),
    {
        self.scroll(4);
    }
}

/// The walk context of the stack panel's trees.
pub open spec fn stack_tree_ctx(d: TreeData, errors: Map<u64, String>, show_ids: bool) -> TreeCtx {
    TreeCtx {
        paths: Some(d.phases),
        ..source_ctx(
            d.fields,
            d.statics,
            d.chunks,
            d.object_phases,
            errors,
            RenderOptions { show_object_ids: show_ids, snapshot_mode: false, show_hidden: false },
            Set::empty(),
            Set::empty(),
        )
    }
}

/// The tree root of a frame's variables.
pub open spec fn frame_root(vars: Map<u64, Vec<VariableInfo>>, fid: u64) -> RootView {
    RootView::Frame { vars: vars_of(vars, fid), frame_id: fid }
}

/// Toggle marker of a frame row.
pub open spec fn frame_toggle(f: FrameInfo, expanded: Set<u64>) -> Seq<char> {
    if !f.has_variables {
        "  "@
    } else if expanded.contains(f.frame_id) {
        "- "@
    } else {
        "+ "@
    }
}

/// Rows of the frames `frames[i..]`: each frame's row and, when expanded,
/// its variable tree.
pub open spec fn frame_items(c: TreeCtx, frames: Seq<FrameInfo>, vars: Map<u64, Vec<VariableInfo>>, expanded: Set<u64>, i: int) -> Seq<Seq<SpanView>>
    decreases frames.len() - i,
{
    if i < 0 || i >= frames.len() {
        Seq::empty()
    } else {
        let f = frames[i];
        let head = seq![seq![(frame_toggle(f, expanded) + frame_label(f), Tone::Plain)]];
        let tree = if expanded.contains(f.frame_id) {
            tree_spans(c, frame_root(vars, f.frame_id))
        } else {
            Seq::empty()
        };
        head + tree + frame_items(c, frames, vars, expanded, i + 1)
    }
}

impl StackState {
    /// Whether the variable tree of every expanded frame can be walked.
    pub open spec fn trees_renderable(&self, show_ids: bool) -> bool {
        forall|i: int|
            0 <= i < self.frames_view().len() && self.expanded_view().contains(
                #[trigger] self.frames_view()[i].frame_id,
            ) ==> renderable(
                stack_tree_ctx(self.data(), self.errors(), show_ids),
                frame_root(self.vars_view(), self.frames_view()[i].frame_id),
            )
    }

    /// The rendered rows of the panel.
    pub open spec fn items(&self, show_ids: bool) -> Seq<Seq<SpanView>> {
        let r = frame_items(
            stack_tree_ctx(self.data(), self.errors(), show_ids),
            self.frames_view(),
            self.vars_view(),
            self.expanded_view(),
            0,
        );
        if r.len() == 0 {
            seq![seq![("(no frames)"@, Tone::Null)]]
        } else {
            r
        }
    }

    /// Builds the rows for rendering, without object ids.
    pub fn build_items(&self) -> (r: Vec<Vec<Span>>)
        requires
            self.trees_renderable(false),
        ensures
            rows_view(r@) == self.items(false),
    {
        self.build_items_with_object_ids(false)
    }

    /// Whether the rows of the panel can be built: the variable tree of
    /// every expanded frame ends.
    pub fn can_build_items(&self, show_object_ids: bool) -> (r: bool)
        ensures
            r == self.trees_renderable(show_object_ids),
    {
        let ghost c = stack_tree_ctx(self.data(), self.errors(), show_object_ids);
        let hidden: KeySet<HideKey> = KeySet::new();
        let collapsed: KeySet<NavigationPath> = KeySet::new();
        let options = RenderOptions { show_object_ids, snapshot_mode: false, show_hidden: false };
        let src = TreeSource {
            object_fields: &self.expansion.object_fields,
            object_static_fields: &self.expansion.object_static_fields,
            collection_chunks: &self.expansion.collection_chunks,
            object_phases: &self.expansion.object_phases,
            object_errors: &self.expansion.object_errors,
            hidden_fields: &hidden,
            local_collapsed: &collapsed,
            options,
            path_phases: Some(&self.expansion.expansion_phases),
        };
        assert(c == src.ctx());
        let mut i: usize = 0;
        while i < self.frames.len()
            invariant
                c == stack_tree_ctx(self.data(), self.errors(), show_object_ids),
                c == src.ctx(),
                i <= self.frames_view().len(),
                forall|j: int|
                    0 <= j < i && self.expanded_view().contains(#[trigger] self.frames_view()[j].frame_id)
                        ==> renderable(c, frame_root(self.vars_view(), self.frames_view()[j].frame_id)),
            decreases self.frames_view().len() - i,
        {
            let frame = &self.frames[i];
            if self.expanded.contains(&frame.frame_id) {
                let empty: Vec<VariableInfo> = Vec::new();
                let vars: &Vec<VariableInfo> = match self.vars.get(&frame.frame_id) {
                    Some(v) => v,
                    None => &empty,
                };
                assert(vars@ == vars_of(self.vars_view(), frame.frame_id));
                let root = TreeRoot::Frame { vars: vars.as_slice(), frame_id: frame.frame_id };
                assert(root_view(root) == frame_root(self.vars_view(), frame.frame_id));
                let ok = walk_tree(&src, root).is_some();
                if !ok {
                    assert(self.frames_view()[i as int] == *frame);
                    return false;
                }
            }
            i = i + 1;
        }
        true
    }

    fn push_frame_items(&self, i: usize, show_object_ids: bool, hidden: &KeySet<HideKey>, collapsed: &KeySet<NavigationPath>, items: &mut Vec<Vec<Span>>)
        requires
            self.trees_renderable(show_object_ids),
            hidden.set() == Set::<HideKey>::empty(),
            collapsed.set() == Set::<Seq<PathSegment>>::empty(),
            i < self.frames_view().len(),
        ensures
            rows_view(final(items)@) == rows_view(old(items)@) + ({
                let f = self.frames_view()[i as int];
                seq![seq![(frame_toggle(f, self.expanded_view()) + frame_label(f), Tone::Plain)]] + (if self.expanded_view().contains(f.frame_id) {
                    tree_spans(stack_tree_ctx(self.data(), self.errors(), show_object_ids), frame_root(self.vars_view(), f.frame_id))
                } else {
                    Seq::empty()
                })
            }),
    {
        let ghost c = stack_tree_ctx(self.data(), self.errors(), show_object_ids);
        let frame = &self.frames[i];
        let expanded = self.expanded.contains(&frame.frame_id);
        let mut text = String::new();
        if !frame.has_variables {
            push_str(&mut text, "  ");
        } else if expanded {
            push_str(&mut text, "- ");
        } else {
            push_str(&mut text, "+ ");
        }
        let label = format_frame_label(frame);
        push_str(&mut text, label.as_str());
        let ghost tv = text@;
        assert(tv =~= frame_toggle(*frame, self.expanded_view()) + frame_label(*frame));
        let mut row: Vec<Span> = Vec::new();
        row.push(Span { text, tone: Tone::Plain });
        assert(row_view(row@) =~= seq![(tv, Tone::Plain)]);
        items.push(row);
        assert(rows_view(items@) =~= rows_view(old(items)@).push(seq![(tv, Tone::Plain)]));
        if expanded {
            let empty: Vec<VariableInfo> = Vec::new();
            let vars: &Vec<VariableInfo> = match self.vars.get(&frame.frame_id) {
                Some(v) => v,
                None => &empty,
            };
            assert(vars@ == vars_of(self.vars_view(), frame.frame_id));
            assert(self.frames_view()[i as int] == *frame);
            assert(renderable(c, frame_root(self.vars_view(), frame.frame_id)));
            let options = RenderOptions { show_object_ids, snapshot_mode: false, show_hidden: false };
            let src = TreeSource {
                object_fields: &self.expansion.object_fields,
                object_static_fields: &self.expansion.object_static_fields,
                collection_chunks: &self.expansion.collection_chunks,
                object_phases: &self.expansion.object_phases,
                object_errors: &self.expansion.object_errors,
                hidden_fields: hidden,
                local_collapsed: collapsed,
                options,
                path_phases: Some(&self.expansion.expansion_phases),
            };
            assert(c == src.ctx());
            let root = TreeRoot::Frame { vars: vars.as_slice(), frame_id: frame.frame_id };
            assert(root_view(root) == frame_root(self.vars_view(), frame.frame_id));
            let tree = render_tree_rows(&src, root);
            let ghost tr = rows_view(tree@);
            let ghost mid = rows_view(items@);
            let mut tree = tree;
            items.append(&mut tree);
            assert(rows_view(items@) =~= mid + tr);
        }
        assert(rows_view(items@) =~= rows_view(old(items)@) + ({
            let f = self.frames_view()[i as int];
            seq![seq![(frame_toggle(f, self.expanded_view()) + frame_label(f), Tone::Plain)]] + (if self.expanded_view().contains(f.frame_id) {
                tree_spans(c, frame_root(self.vars_view(), f.frame_id))
            } else {
                Seq::empty()
            })
        }));
    }

    /// Builds the rows for rendering, showing object ids when asked.
    pub fn build_items_with_object_ids(&self, show_object_ids: bool) -> (r: Vec<Vec<Span>>)
        requires
            self.trees_renderable(show_object_ids),
        ensures
            rows_view(r@) == self.items(show_object_ids),
    {
        let ghost c = stack_tree_ctx(self.data(), self.errors(), show_object_ids);
        let hidden: KeySet<HideKey> = KeySet::new();
        let collapsed: KeySet<NavigationPath> = KeySet::new();
        let mut items: Vec<Vec<Span>> = Vec::new();
        let mut i: usize = 0;
        while i < self.frames.len()
            invariant
                c == stack_tree_ctx(self.data(), self.errors(), show_object_ids),
                self.trees_renderable(show_object_ids),
                hidden.set() == Set::<HideKey>::empty(),
                collapsed.set() == Set::<Seq<PathSegment>>::empty(),
                i <= self.frames_view().len(),
                rows_view(items@) + frame_items(c, self.frames_view(), self.vars_view(), self.expanded_view(), i as int)
                    == frame_items(c, self.frames_view(), self.vars_view(), self.expanded_view(), 0),
            decreases self.frames_view().len() - i,
        {
            let ghost before = rows_view(items@);
            self.push_frame_items(i, show_object_ids, &hidden, &collapsed, &mut items);
            assert(rows_view(items@) + frame_items(c, self.frames_view(), self.vars_view(), self.expanded_view(), i + 1)
                =~= before + frame_items(c, self.frames_view(), self.vars_view(), self.expanded_view(), i as int));
            i = i + 1;
        }
        assert(rows_view(items@) =~= frame_items(c, self.frames_view(), self.vars_view(), self.expanded_view(), 0));
        if items.len() == 0 {
            let t = string_of("(no frames)");
            let ghost tv = t@;
            let mut row: Vec<Span> = Vec::new();
            row.push(Span { text: t, tone: Tone::Null });
            assert(row_view(row@) =~= seq![(tv, Tone::Null)]);
            items.push(row);
            assert(rows_view(items@) =~= seq![seq![("(no frames)"@, Tone::Null)]]);
        }
        items
    }

    /// Formats one collection entry as a display line (see
    /// [`format_entry_line`]).
    pub fn format_entry_line(entry: &EntryInfo, indent: &str, value_phase: Option<ExpansionPhase>, show_object_ids: bool) -> (r: String)
        ensures
            r@ == entry_line(*entry, indent@, value_phase, show_object_ids),
    {
        format_entry_line(entry, indent, value_phase, show_object_ids)
    }
}

} // verus!
