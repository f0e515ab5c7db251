//! The shape of a rendered tree (which rows exist, and the toggle path,
//! toggleable object and hideable key of each) does not depend on whether
//! object ids are shown: only the text of the rows does. And a row has a
//! toggle path exactly when it has a toggleable object.

use vstd::prelude::*;

use crate::engine::{EntryInfo, FieldInfo, FieldValue, VariableInfo, VariableValue};
use crate::favorites::HideKey;
use crate::stack_view::chunks::chunk_ranges_spec;
use crate::stack_view::collections::ChunkState;
use crate::stack_view::types::{CollectionId, EntryIdx, FieldIdx, PathSegment, StaticFieldIdx};
use crate::tree_render::{
    cat, cyclic_row, entry_row as entry_row_spec, hidden_row, none_rows, plain_row, section_row, var_path, coll_rows, entry_item, entry_list, entry_row, field_entry, field_list, field_row,
    field_state, obj_rows, ref_state, renderable, sections, static_entry, static_list,
    static_rows, tree_of, tree_rows, var_children, var_list, var_row, FieldScope, RootView, RowInfo,
    TreeCtx, WALK_BUDGET,
};

verus! {

/// What a row is, apart from its text: toggle path, toggleable object and
/// hideable key.
pub type RowShape = (Option<Seq<PathSegment>>, Option<(u64, bool)>, Option<(HideKey, bool)>);

/// The shape of a row.
pub open spec fn shape_of(r: RowInfo) -> RowShape {
    (r.path, r.kind, r.field)
}

/// The shapes of rows.
pub open spec fn shapes(rs: Seq<RowInfo>) -> Seq<RowShape> {
    rs.map_values(|r: RowInfo| shape_of(r))
}

/// The shapes of a partial result.
pub open spec fn oshapes(o: Option<Seq<RowInfo>>) -> Option<Seq<RowShape>> {
    match o {
        Some(rs) => Some(shapes(rs)),
        None => None,
    }
}

/// Two walk contexts that differ at most in whether object ids are shown.
pub open spec fn same_but_ids(a: TreeCtx, b: TreeCtx) -> bool {
    &&& a.fields == b.fields
    &&& a.statics == b.statics
    &&& a.chunks == b.chunks
    &&& a.phases == b.phases
    &&& a.errors == b.errors
    &&& a.snapshot == b.snapshot
    &&& a.show_hidden == b.show_hidden
    &&& a.hidden == b.hidden
    &&& a.collapsed == b.collapsed
    &&& a.paths == b.paths
}

proof fn lemma_cat(a1: Option<Seq<RowInfo>>, b1: Option<Seq<RowInfo>>, a2: Option<Seq<RowInfo>>, b2: Option<Seq<RowInfo>>)
    requires
        oshapes(a1) == oshapes(a2),
        oshapes(b1) == oshapes(b2),
    ensures
        oshapes(cat(a1, b1)) == oshapes(cat(a2, b2)),
{
    if a1 is Some && b1 is Some {
        assert(shapes(a1.unwrap() + b1.unwrap()) =~= shapes(a1.unwrap()) + shapes(b1.unwrap()));
        assert(shapes(a2.unwrap() + b2.unwrap()) =~= shapes(a2.unwrap()) + shapes(b2.unwrap()));
    }
}

proof fn lemma_one(r1: RowInfo, r2: RowInfo)
    requires
        shape_of(r1) == shape_of(r2),
    ensures
        oshapes(Some(seq![r1])) == oshapes(Some(seq![r2])),
{
    assert(shapes(seq![r1]) =~= seq![shape_of(r1)]);
    assert(shapes(seq![r2]) =~= seq![shape_of(r2)]);
}

proof fn lemma_obj(f: nat, c1: TreeCtx, c2: TreeCtx, oid: u64, indent: Seq<char>, depth: int, vis: Seq<u64>, k: FieldScope, p: Seq<PathSegment>)
    requires
        same_but_ids(c1, c2),
    ensures
        oshapes(obj_rows(f, c1, oid, indent, depth, vis, k, p)) == oshapes(obj_rows(f, c2, oid, indent, depth, vis, k, p)),
    decreases f, 5int, 0int,
{
    let fs = crate::tree_render::fields_at(c1, oid);
    assert(fs == crate::tree_render::fields_at(c2, oid));
    assert(crate::tree_render::phase_at(c1, oid, p) == crate::tree_render::phase_at(c2, oid, p));
    if fs.len() > 0 {
        lemma_fields(f, c1, c2, oid, fs, 0, indent, depth, vis.push(oid), k, p);
    }
    lemma_statics(f, c1, c2, oid, indent, depth, p);
    let b1 = if fs.len() == 0 {
        Some(seq![crate::tree_render::plain_row(indent + "(no fields)"@, crate::rows::Tone::Null)])
    } else {
        field_list(f, c1, oid, fs, 0, indent, depth, vis.push(oid), k, p)
    };
    let b2 = if fs.len() == 0 {
        Some(seq![crate::tree_render::plain_row(indent + "(no fields)"@, crate::rows::Tone::Null)])
    } else {
        field_list(f, c2, oid, fs, 0, indent, depth, vis.push(oid), k, p)
    };
    let s1 = if k != FieldScope::Static {
        static_rows(f, c1, oid, indent, depth, p)
    } else {
        crate::tree_render::none_rows()
    };
    let s2 = if k != FieldScope::Static {
        static_rows(f, c2, oid, indent, depth, p)
    } else {
        crate::tree_render::none_rows()
    };
    lemma_cat(b1, s1, b2, s2);
}

proof fn lemma_fields(f: nat, c1: TreeCtx, c2: TreeCtx, oid: u64, fs: Seq<FieldInfo>, i: int, indent: Seq<char>, depth: int, vis: Seq<u64>, k: FieldScope, p: Seq<PathSegment>)
    requires
        same_but_ids(c1, c2),
    ensures
        oshapes(field_list(f, c1, oid, fs, i, indent, depth, vis, k, p)) == oshapes(
            field_list(f, c2, oid, fs, i, indent, depth, vis, k, p),
        ),
    decreases f, 4int, fs.len() - i,
{
    if 0 <= i < fs.len() {
        lemma_field(f, c1, c2, oid, fs[i], i, indent, depth, vis, k, p);
        lemma_fields(f, c1, c2, oid, fs, i + 1, indent, depth, vis, k, p);
        lemma_cat(
            field_entry(f, c1, oid, fs[i], i, indent, depth, vis, k, p),
            field_list(f, c1, oid, fs, i + 1, indent, depth, vis, k, p),
            field_entry(f, c2, oid, fs[i], i, indent, depth, vis, k, p),
            field_list(f, c2, oid, fs, i + 1, indent, depth, vis, k, p),
        );
    }
}

proof fn lemma_field_row(c1: TreeCtx, c2: TreeCtx, fld: FieldInfo, indent: Seq<char>, static_scope: bool, p: Seq<PathSegment>, hk: Option<HideKey>)
    requires
        same_but_ids(c1, c2),
    ensures
        shape_of(field_row(c1, fld, indent, static_scope, p, hk)) == shape_of(field_row(c2, fld, indent, static_scope, p, hk)),
        field_state(c1, fld, static_scope, p) == field_state(c2, fld, static_scope, p),
{
    match fld.value {
        FieldValue::ObjectRef { id, entry_count, .. } => {
            assert(ref_state(c1, id, entry_count, p) == ref_state(c2, id, entry_count, p));
        },
        _ => {},
    }
}

proof fn lemma_field(f: nat, c1: TreeCtx, c2: TreeCtx, oid: u64, fld: FieldInfo, fi: int, indent: Seq<char>, depth: int, vis: Seq<u64>, k: FieldScope, p: Seq<PathSegment>)
    requires
        same_but_ids(c1, c2),
    ensures
        oshapes(field_entry(f, c1, oid, fld, fi, indent, depth, vis, k, p)) == oshapes(
            field_entry(f, c2, oid, fld, fi, indent, depth, vis, k, p),
        ),
    decreases f, 2int, 0int,
{
    let hk = HideKey::Field { parent_id: oid, field_idx: fi as usize };
    let hko = if k == FieldScope::Object {
        Some(hk)
    } else {
        None
    };
    let cp = p.push(PathSegment::Field(FieldIdx(fi as usize)));
    lemma_field_row(c1, c2, fld, indent, k == FieldScope::Static, cp, hko);
    let r1 = field_row(c1, fld, indent, k == FieldScope::Static, cp, hko);
    let r2 = field_row(c2, fld, indent, k == FieldScope::Static, cp, hko);
    lemma_one(r1, r2);
    match fld.value {
        FieldValue::ObjectRef { id, .. } => {
            if f > 0 {
                lemma_coll((f - 1) as nat, c1, c2, id, indent + "  "@, depth, cp, Seq::empty());
                lemma_obj((f - 1) as nat, c1, c2, id, indent + "  "@, depth + 1, vis, k, cp);
            }
            let st = field_state(c1, fld, k == FieldScope::Static, cp);
            let below1 = if st.1 {
                crate::tree_render::none_rows()
            } else if crate::tree_render::coll_ref(c1, fld.value->entry_count, id) {
                if crate::tree_render::coll_open(c1, st.0, id, cp) {
                    if f == 0 {
                        None
                    } else {
                        coll_rows((f - 1) as nat, c1, id, indent + "  "@, depth, cp, Seq::empty())
                    }
                } else {
                    crate::tree_render::none_rows()
                }
            } else if f == 0 {
                None
            } else {
                obj_rows((f - 1) as nat, c1, id, indent + "  "@, depth + 1, vis, k, cp)
            };
            let below2 = if st.1 {
                crate::tree_render::none_rows()
            } else if crate::tree_render::coll_ref(c2, fld.value->entry_count, id) {
                if crate::tree_render::coll_open(c2, st.0, id, cp) {
                    if f == 0 {
                        None
                    } else {
                        coll_rows((f - 1) as nat, c2, id, indent + "  "@, depth, cp, Seq::empty())
                    }
                } else {
                    crate::tree_render::none_rows()
                }
            } else if f == 0 {
                None
            } else {
                obj_rows((f - 1) as nat, c2, id, indent + "  "@, depth + 1, vis, k, cp)
            };
            lemma_cat(Some(seq![r1]), below1, Some(seq![r2]), below2);
        },
        _ => {},
    }
}

proof fn lemma_statics(f: nat, c1: TreeCtx, c2: TreeCtx, oid: u64, indent: Seq<char>, depth: int, p: Seq<PathSegment>)
    requires
        same_but_ids(c1, c2),
    ensures
        oshapes(static_rows(f, c1, oid, indent, depth, p)) == oshapes(static_rows(f, c2, oid, indent, depth, p)),
    decreases f, 4int, 0int,
{
    let sf = crate::tree_render::statics_at(c1, oid);
    assert(sf == crate::tree_render::statics_at(c2, oid));
    if sf.len() > 0 {
        let shown: int = if sf.len() < crate::stack_view::types::STATIC_FIELDS_RENDER_LIMIT {
            sf.len() as int
        } else {
            crate::stack_view::types::STATIC_FIELDS_RENDER_LIMIT as int
        };
        lemma_static_list(f, c1, c2, sf, 0, shown, indent, depth, p);
        let head = Some(seq![crate::tree_render::plain_row(indent + "[static]"@, crate::rows::Tone::Null)]);
        lemma_cat(
            head,
            static_list(f, c1, sf, 0, shown, indent, depth, p),
            head,
            static_list(f, c2, sf, 0, shown, indent, depth, p),
        );
        let more = if sf.len() > shown {
            seq![
                crate::tree_render::plain_row(
                    indent + "  [+"@ + crate::text::decimal((sf.len() - shown) as nat) + " more static fields]"@,
                    crate::rows::Tone::Null,
                ),
            ]
        } else {
            Seq::empty()
        };
        lemma_cat(
            cat(head, static_list(f, c1, sf, 0, shown, indent, depth, p)),
            Some(more),
            cat(head, static_list(f, c2, sf, 0, shown, indent, depth, p)),
            Some(more),
        );
    }
}

proof fn lemma_static_list(f: nat, c1: TreeCtx, c2: TreeCtx, sf: Seq<FieldInfo>, i: int, shown: int, indent: Seq<char>, depth: int, p: Seq<PathSegment>)
    requires
        same_but_ids(c1, c2),
    ensures
        oshapes(static_list(f, c1, sf, i, shown, indent, depth, p)) == oshapes(
            static_list(f, c2, sf, i, shown, indent, depth, p),
        ),
    decreases f, 3int, shown - i,
{
    if 0 <= i < shown && i < sf.len() {
        lemma_static_entry(f, c1, c2, sf[i], i, indent, depth, p);
        lemma_static_list(f, c1, c2, sf, i + 1, shown, indent, depth, p);
        lemma_cat(
            static_entry(f, c1, sf[i], i, indent, depth, p),
            static_list(f, c1, sf, i + 1, shown, indent, depth, p),
            static_entry(f, c2, sf[i], i, indent, depth, p),
            static_list(f, c2, sf, i + 1, shown, indent, depth, p),
        );
    }
}

proof fn lemma_static_entry(f: nat, c1: TreeCtx, c2: TreeCtx, fld: FieldInfo, si: int, indent: Seq<char>, depth: int, p: Seq<PathSegment>)
    requires
        same_but_ids(c1, c2),
    ensures
        oshapes(static_entry(f, c1, fld, si, indent, depth, p)) == oshapes(static_entry(f, c2, fld, si, indent, depth, p)),
    decreases f, 2int, 0int,
{
    let sp = p.push(PathSegment::StaticField(StaticFieldIdx(si as usize)));
    lemma_field_row(c1, c2, fld, indent + "  "@, true, sp, None);
    let r1 = field_row(c1, fld, indent + "  "@, true, sp, None);
    let r2 = field_row(c2, fld, indent + "  "@, true, sp, None);
    lemma_one(r1, r2);
    let st = field_state(c1, fld, true, sp);
    match fld.value {
        FieldValue::ObjectRef { id, entry_count, .. } => {
            if f > 0 {
                lemma_coll((f - 1) as nat, c1, c2, id, indent + "    "@, depth, sp, Seq::empty());
                lemma_obj((f - 1) as nat, c1, c2, id, indent + "    "@, crate::tree_render::below_depth(c1, depth), Seq::empty(), FieldScope::Static, sp);
            }
            let below1 = if crate::tree_render::coll_ref(c1, entry_count, id) {
                if crate::tree_render::coll_open(c1, st.0, id, sp) {
                    if f == 0 {
                        None
                    } else {
                        coll_rows((f - 1) as nat, c1, id, indent + "    "@, depth, sp, Seq::empty())
                    }
                } else {
                    crate::tree_render::none_rows()
                }
            } else if f == 0 {
                None
            } else {
                obj_rows((f - 1) as nat, c1, id, indent + "    "@, crate::tree_render::below_depth(c1, depth), Seq::empty(), FieldScope::Static, sp)
            };
            let below2 = if crate::tree_render::coll_ref(c2, entry_count, id) {
                if crate::tree_render::coll_open(c2, st.0, id, sp) {
                    if f == 0 {
                        None
                    } else {
                        coll_rows((f - 1) as nat, c2, id, indent + "    "@, depth, sp, Seq::empty())
                    }
                } else {
                    crate::tree_render::none_rows()
                }
            } else if f == 0 {
                None
            } else {
                obj_rows((f - 1) as nat, c2, id, indent + "    "@, crate::tree_render::below_depth(c2, depth), Seq::empty(), FieldScope::Static, sp)
            };
            lemma_cat(Some(seq![r1]), below1, Some(seq![r2]), below2);
        },
        _ => {
            lemma_cat(Some(seq![r1]), crate::tree_render::none_rows(), Some(seq![r2]), crate::tree_render::none_rows());
        },
    }
}

proof fn lemma_coll(f: nat, c1: TreeCtx, c2: TreeCtx, cid: u64, indent: Seq<char>, depth: int, p: Seq<PathSegment>, vc: Seq<u64>)
    requires
        same_but_ids(c1, c2),
    ensures
        oshapes(coll_rows(f, c1, cid, indent, depth, p, vc)) == oshapes(coll_rows(f, c2, cid, indent, depth, p, vc)),
    decreases f, 5int, 0int,
{
    if !(depth >= 16 || (c1.paths is None && vc.contains(cid)) || !c1.chunks.contains_key(cid)) {
        let cc = c1.chunks[cid];
        let e1 = match cc.eager_page {
            Some(pg) => entry_list(f, c1, cid, pg.entries@, 0, indent, depth, p, vc.push(cid)),
            None => crate::tree_render::none_rows(),
        };
        let e2 = match cc.eager_page {
            Some(pg) => entry_list(f, c2, cid, pg.entries@, 0, indent, depth, p, vc.push(cid)),
            None => crate::tree_render::none_rows(),
        };
        match cc.eager_page {
            Some(pg) => {
                lemma_entries(f, c1, c2, cid, pg.entries@, 0, indent, depth, p, vc.push(cid));
            },
            None => {},
        }
        let rs = chunk_ranges_spec((cc.total_count as usize) as nat);
        lemma_sections(f, c1, c2, cid, rs, 0, indent, depth, p, vc.push(cid));
        lemma_cat(
            e1,
            sections(f, c1, cid, rs, 0, indent, depth, p, vc.push(cid)),
            e2,
            sections(f, c2, cid, rs, 0, indent, depth, p, vc.push(cid)),
        );
    }
}

proof fn lemma_sections(f: nat, c1: TreeCtx, c2: TreeCtx, cid: u64, rs: Seq<(usize, usize)>, j: int, indent: Seq<char>, depth: int, p: Seq<PathSegment>, vc: Seq<u64>)
    requires
        same_but_ids(c1, c2),
    ensures
        oshapes(sections(f, c1, cid, rs, j, indent, depth, p, vc)) == oshapes(
            sections(f, c2, cid, rs, j, indent, depth, p, vc),
        ),
    decreases f, 4int, rs.len() - j,
{
    if 0 <= j < rs.len() && c1.chunks.contains_key(cid) {
        let st = c1.chunks[cid].chunk_pages.lookup(rs[j].0);
        let row = crate::tree_render::section_row(indent, rs[j].0, rs[j].1, st);
        lemma_one(row, row);
        let (h1, h2) = match st {
            Some(ChunkState::Loaded(pg)) => {
                lemma_entries(f, c1, c2, cid, pg.entries@, 0, indent, depth, p, vc);
                lemma_cat(
                    Some(seq![row]),
                    entry_list(f, c1, cid, pg.entries@, 0, indent, depth, p, vc),
                    Some(seq![row]),
                    entry_list(f, c2, cid, pg.entries@, 0, indent, depth, p, vc),
                );
                (
                    cat(Some(seq![row]), entry_list(f, c1, cid, pg.entries@, 0, indent, depth, p, vc)),
                    cat(Some(seq![row]), entry_list(f, c2, cid, pg.entries@, 0, indent, depth, p, vc)),
                )
            },
            _ => if c1.snapshot {
                (crate::tree_render::none_rows(), crate::tree_render::none_rows())
            } else {
                (Some(seq![row]), Some(seq![row]))
            },
        };
        lemma_sections(f, c1, c2, cid, rs, j + 1, indent, depth, p, vc);
        lemma_cat(
            h1,
            sections(f, c1, cid, rs, j + 1, indent, depth, p, vc),
            h2,
            sections(f, c2, cid, rs, j + 1, indent, depth, p, vc),
        );
    }
}

proof fn lemma_entries(f: nat, c1: TreeCtx, c2: TreeCtx, cid: u64, es: Seq<EntryInfo>, i: int, indent: Seq<char>, depth: int, p: Seq<PathSegment>, vc: Seq<u64>)
    requires
        same_but_ids(c1, c2),
    ensures
        oshapes(entry_list(f, c1, cid, es, i, indent, depth, p, vc)) == oshapes(
            entry_list(f, c2, cid, es, i, indent, depth, p, vc),
        ),
    decreases f, 3int, es.len() - i,
{
    if 0 <= i < es.len() {
        lemma_entry(f, c1, c2, cid, es[i], indent, depth, p, vc);
        lemma_entries(f, c1, c2, cid, es, i + 1, indent, depth, p, vc);
        lemma_cat(
            entry_item(f, c1, cid, es[i], indent, depth, p, vc),
            entry_list(f, c1, cid, es, i + 1, indent, depth, p, vc),
            entry_item(f, c2, cid, es[i], indent, depth, p, vc),
            entry_list(f, c2, cid, es, i + 1, indent, depth, p, vc),
        );
    }
}

proof fn lemma_entry(f: nat, c1: TreeCtx, c2: TreeCtx, cid: u64, e: EntryInfo, indent: Seq<char>, depth: int, p: Seq<PathSegment>, vc: Seq<u64>)
    requires
        same_but_ids(c1, c2),
    ensures
        oshapes(entry_item(f, c1, cid, e, indent, depth, p, vc)) == oshapes(entry_item(f, c2, cid, e, indent, depth, p, vc)),
    decreases f, 2int, 0int,
{
    let ep = p.push(PathSegment::CollectionEntry(CollectionId(cid), EntryIdx(e.index)));
    let r1 = entry_row(c1, e, indent, ep);
    let r2 = entry_row(c2, e, indent, ep);
    match e.value {
        FieldValue::ObjectRef { id, entry_count, .. } => {
            assert(ref_state(c1, id, entry_count, ep) == ref_state(c2, id, entry_count, ep));
            let st = ref_state(c1, id, entry_count, ep);
            lemma_one(r1, r2);
            if f > 0 {
                lemma_coll((f - 1) as nat, c1, c2, id, indent + "  "@, depth, ep, vc);
                lemma_obj((f - 1) as nat, c1, c2, id, indent + "  "@, crate::tree_render::below_depth(c1, depth), Seq::empty(), FieldScope::Entry, ep);
            }
            let below1 = if st.1 {
                crate::tree_render::none_rows()
            } else if crate::tree_render::coll_ref(c1, entry_count, id) && id != cid {
                if crate::tree_render::coll_open(c1, st.0, id, ep) {
                    if f == 0 {
                        None
                    } else {
                        coll_rows((f - 1) as nat, c1, id, indent + "  "@, depth, ep, vc)
                    }
                } else {
                    crate::tree_render::none_rows()
                }
            } else if f == 0 {
                None
            } else {
                obj_rows((f - 1) as nat, c1, id, indent + "  "@, crate::tree_render::below_depth(c1, depth), Seq::empty(), FieldScope::Entry, ep)
            };
            let below2 = if st.1 {
                crate::tree_render::none_rows()
            } else if crate::tree_render::coll_ref(c2, entry_count, id) && id != cid {
                if crate::tree_render::coll_open(c2, st.0, id, ep) {
                    if f == 0 {
                        None
                    } else {
                        coll_rows((f - 1) as nat, c2, id, indent + "  "@, depth, ep, vc)
                    }
                } else {
                    crate::tree_render::none_rows()
                }
            } else if f == 0 {
                None
            } else {
                obj_rows((f - 1) as nat, c2, id, indent + "  "@, crate::tree_render::below_depth(c2, depth), Seq::empty(), FieldScope::Entry, ep)
            };
            lemma_cat(Some(seq![r1]), below1, Some(seq![r2]), below2);
        },
        _ => {
            lemma_one(r1, r2);
            lemma_cat(Some(seq![r1]), crate::tree_render::none_rows(), Some(seq![r2]), crate::tree_render::none_rows());
        },
    }
}

proof fn lemma_var_children(f: nat, c1: TreeCtx, c2: TreeCtx, v: VariableInfo, indent: Seq<char>, p: Seq<PathSegment>)
    requires
        same_but_ids(c1, c2),
    ensures
        oshapes(var_children(f, c1, v, indent, p)) == oshapes(var_children(f, c2, v, indent, p)),
{
    match v.value {
        VariableValue::ObjectRef { id, entry_count, .. } => {
            assert(ref_state(c1, id, entry_count, p) == ref_state(c2, id, entry_count, p));
            lemma_coll(f, c1, c2, id, indent + "  "@, 0, p, Seq::empty());
            lemma_obj(f, c1, c2, id, indent + "  "@, 0, Seq::empty(), FieldScope::Object, p);
        },
        VariableValue::Null => {},
    }
}

proof fn lemma_vars(f: nat, c1: TreeCtx, c2: TreeCtx, vars: Seq<VariableInfo>, i: int, fid: u64, indent: Seq<char>)
    requires
        same_but_ids(c1, c2),
    ensures
        oshapes(var_list(f, c1, vars, i, fid, indent)) == oshapes(var_list(f, c2, vars, i, fid, indent)),
    decreases vars.len() - i,
{
    if 0 <= i < vars.len() {
        let key = HideKey::Var(i as usize);
        let p = crate::tree_render::var_path(fid, i);
        lemma_vars(f, c1, c2, vars, i + 1, fid, indent);
        let r1 = var_row(c1, vars[i], indent, p, key);
        let r2 = var_row(c2, vars[i], indent, p, key);
        match vars[i].value {
            VariableValue::ObjectRef { id, entry_count, .. } => {
                assert(ref_state(c1, id, entry_count, p) == ref_state(c2, id, entry_count, p));
            },
            VariableValue::Null => {},
        }
        lemma_one(r1, r2);
        lemma_var_children(f, c1, c2, vars[i], indent, p);
        lemma_cat(Some(seq![r1]), var_children(f, c1, vars[i], indent, p), Some(seq![r2]), var_children(f, c2, vars[i], indent, p));
        let hr = crate::tree_render::hidden_row(indent, "["@ + crate::text::decimal(vars[i].index as nat) + "]"@, key);
        lemma_one(hr, hr);
        let h1 = if c1.hidden.contains(key) {
            if c1.show_hidden {
                Some(seq![hr])
            } else {
                crate::tree_render::none_rows()
            }
        } else {
            cat(Some(seq![r1]), var_children(f, c1, vars[i], indent, p))
        };
        let h2 = if c2.hidden.contains(key) {
            if c2.show_hidden {
                Some(seq![hr])
            } else {
                crate::tree_render::none_rows()
            }
        } else {
            cat(Some(seq![r2]), var_children(f, c2, vars[i], indent, p))
        };
        lemma_cat(h1, var_list(f, c1, vars, i + 1, fid, indent), h2, var_list(f, c2, vars, i + 1, fid, indent));
    }
}

/// Law: showing object ids or not changes only the text of a tree's rows:
/// the walk completes for both or for neither, with the same rows, toggle
/// paths, toggleable objects and hideable keys.
pub proof fn lemma_shape_ignores_ids(c1: TreeCtx, c2: TreeCtx, root: RootView)
    requires
        same_but_ids(c1, c2),
    ensures
        renderable(c1, root) == renderable(c2, root),
        renderable(c1, root) ==> shapes(tree_of(c1, root)) == shapes(tree_of(c2, root)),
{
    let f = WALK_BUDGET as nat;
    match root {
        RootView::Frame { vars, frame_id } => {
            lemma_vars(f, c1, c2, vars, 0, frame_id, "  "@);
        },
        RootView::Subtree { root_id } => {
            let rp = crate::tree_render::var_path(root_id, 0);
            lemma_coll(f, c1, c2, root_id, "  "@, 0, rp, Seq::empty());
            lemma_obj(f, c1, c2, root_id, "  "@, 0, Seq::empty(), FieldScope::Object, rp);
        },
    }
    assert(oshapes(tree_rows(f, c1, root)) == oshapes(tree_rows(f, c2, root)));
}

// ── toggle rows carry their paths ──────────────────────────────────

/// A row has a toggle path exactly when it has a toggleable object.
pub open spec fn paired(r: RowInfo) -> bool {
    (r.kind is Some) == (r.path is Some)
}

/// Every row of a partial result is paired.
pub open spec fn all_paired(o: Option<Seq<RowInfo>>) -> bool {
    o is Some ==> forall|i: int| 0 <= i < o.unwrap().len() ==> #[trigger] paired(o.unwrap()[i])
}

proof fn lemma_pcat()
    ensures
        forall|a: Option<Seq<RowInfo>>, b: Option<Seq<RowInfo>>|
            all_paired(a) && all_paired(b) ==> #[trigger] all_paired(cat(a, b)),
{
    assert forall|a: Option<Seq<RowInfo>>, b: Option<Seq<RowInfo>>|
        all_paired(a) && all_paired(b) implies #[trigger] all_paired(cat(a, b)) by {
        if a is Some && b is Some {
            let x = a.unwrap();
            let y = b.unwrap();
            assert forall|i: int| 0 <= i < (x + y).len() implies #[trigger] paired((x + y)[i]) by {
                if i < x.len() {
                    assert(paired(x[i]));
                } else {
                    assert(paired(y[i - x.len()]));
                }
            }
        }
    }
}

proof fn lemma_pone(r: RowInfo)
    requires
        paired(r),
    ensures
        all_paired(Some(seq![r])),
{
    assert forall|i: int| 0 <= i < seq![r].len() implies #[trigger] paired(seq![r][i]) by {
        assert(seq![r][i] == r);
    }
}

proof fn lemma_rows_paired(c: TreeCtx)
    ensures
        forall|fld: FieldInfo, indent: Seq<char>, st: bool, p: Seq<PathSegment>, hk: Option<HideKey>|
            #[trigger] paired(field_row(c, fld, indent, st, p, hk)),
        forall|v: VariableInfo, indent: Seq<char>, p: Seq<PathSegment>, k: HideKey|
            #[trigger] paired(var_row(c, v, indent, p, k)),
        forall|e: EntryInfo, indent: Seq<char>, ep: Seq<PathSegment>|
            #[trigger] paired(entry_row_spec(c, e, indent, ep)),
        forall|t: Seq<char>, tone: crate::rows::Tone| #[trigger] paired(plain_row(t, tone)),
        forall|indent: Seq<char>, label: Seq<char>, k: HideKey| #[trigger] paired(hidden_row(indent, label, k)),
        forall|indent: Seq<char>, n: Seq<char>, cn: Seq<char>, id: u64, sr: bool|
            #[trigger] paired(cyclic_row(indent, n, cn, id, sr)),
        forall|indent: Seq<char>, off: usize, lim: usize, st: Option<ChunkState>|
            #[trigger] paired(section_row(indent, off, lim, st)),
        all_paired(none_rows()),
        all_paired(None),
{
    assert forall|e: EntryInfo, indent: Seq<char>, ep: Seq<PathSegment>|
        #[trigger] paired(entry_row_spec(c, e, indent, ep)) by {
        match e.value {
            FieldValue::ObjectRef { .. } => {},
            _ => {},
        }
    }
    assert forall|fld: FieldInfo, indent: Seq<char>, st: bool, p: Seq<PathSegment>, hk: Option<HideKey>|
        #[trigger] paired(field_row(c, fld, indent, st, p, hk)) by {
        match fld.value {
            FieldValue::ObjectRef { .. } => {},
            _ => {},
        }
    }
    assert(none_rows() == Some(Seq::<RowInfo>::empty()));
}

proof fn lemma_p_obj(f: nat, c: TreeCtx, oid: u64, indent: Seq<char>, depth: int, vis: Seq<u64>, k: FieldScope, p: Seq<PathSegment>)
    ensures
        all_paired(obj_rows(f, c, oid, indent, depth, vis, k, p)),
    decreases f, 5int, 0int,
{
    lemma_pcat();
    lemma_rows_paired(c);
    let fs = crate::tree_render::fields_at(c, oid);
    lemma_p_fields(f, c, oid, fs, 0, indent, depth, vis.push(oid), k, p);
    lemma_p_statics(f, c, oid, indent, depth, p);
    lemma_pone(plain_row(indent + "(no fields)"@, crate::rows::Tone::Null));
    lemma_pone(plain_row(indent + "~ Loading..."@, crate::rows::Tone::Loading));
}

proof fn lemma_p_fields(f: nat, c: TreeCtx, oid: u64, fs: Seq<FieldInfo>, i: int, indent: Seq<char>, depth: int, vis: Seq<u64>, k: FieldScope, p: Seq<PathSegment>)
    ensures
        all_paired(field_list(f, c, oid, fs, i, indent, depth, vis, k, p)),
    decreases f, 4int, fs.len() - i,
{
    lemma_pcat();
    lemma_rows_paired(c);
    if 0 <= i < fs.len() {
        lemma_p_field(f, c, oid, fs[i], i, indent, depth, vis, k, p);
        lemma_p_fields(f, c, oid, fs, i + 1, indent, depth, vis, k, p);
    }
}

proof fn lemma_p_field(f: nat, c: TreeCtx, oid: u64, fld: FieldInfo, fi: int, indent: Seq<char>, depth: int, vis: Seq<u64>, k: FieldScope, p: Seq<PathSegment>)
    ensures
        all_paired(field_entry(f, c, oid, fld, fi, indent, depth, vis, k, p)),
    decreases f, 2int, 0int,
{
    lemma_pcat();
    lemma_rows_paired(c);
    let hk = HideKey::Field { parent_id: oid, field_idx: fi as usize };
    let hko = if k == FieldScope::Object {
        Some(hk)
    } else {
        None
    };
    let cp = p.push(PathSegment::Field(FieldIdx(fi as usize)));
    lemma_pone(field_row(c, fld, indent, k == FieldScope::Static, cp, hko));
    lemma_pone(hidden_row(indent, fld.name@, hk));
    match fld.value {
        FieldValue::ObjectRef { id, class_name, .. } => {
            lemma_pone(cyclic_row(indent, fld.name@, class_name@, id, id == oid));
            if f > 0 {
                lemma_p_coll((f - 1) as nat, c, id, indent + "  "@, depth, cp, Seq::empty());
                lemma_p_obj((f - 1) as nat, c, id, indent + "  "@, depth + 1, vis, k, cp);
            }
        },
        _ => {},
    }
}

proof fn lemma_p_statics(f: nat, c: TreeCtx, oid: u64, indent: Seq<char>, depth: int, p: Seq<PathSegment>)
    ensures
        all_paired(static_rows(f, c, oid, indent, depth, p)),
    decreases f, 4int, 0int,
{
    lemma_pcat();
    lemma_rows_paired(c);
    let sf = crate::tree_render::statics_at(c, oid);
    if sf.len() > 0 {
        let shown: int = if sf.len() < crate::stack_view::types::STATIC_FIELDS_RENDER_LIMIT {
            sf.len() as int
        } else {
            crate::stack_view::types::STATIC_FIELDS_RENDER_LIMIT as int
        };
        lemma_p_static_list(f, c, sf, 0, shown, indent, depth, p);
        lemma_pone(plain_row(indent + "[static]"@, crate::rows::Tone::Null));
        let more = if sf.len() > shown {
            seq![
                plain_row(
                    indent + "  [+"@ + crate::text::decimal((sf.len() - shown) as nat) + " more static fields]"@,
                    crate::rows::Tone::Null,
                ),
            ]
        } else {
            Seq::empty()
        };
        if sf.len() > shown {
            lemma_pone(more[0]);
            assert(more == seq![more[0]]);
        }
        assert(all_paired(Some(more)));
    }
}

proof fn lemma_p_static_list(f: nat, c: TreeCtx, sf: Seq<FieldInfo>, i: int, shown: int, indent: Seq<char>, depth: int, p: Seq<PathSegment>)
    ensures
        all_paired(static_list(f, c, sf, i, shown, indent, depth, p)),
    decreases f, 3int, shown - i,
{
    lemma_pcat();
    lemma_rows_paired(c);
    if 0 <= i < shown && i < sf.len() {
        lemma_p_static_entry(f, c, sf[i], i, indent, depth, p);
        lemma_p_static_list(f, c, sf, i + 1, shown, indent, depth, p);
    }
}

proof fn lemma_p_static_entry(f: nat, c: TreeCtx, fld: FieldInfo, si: int, indent: Seq<char>, depth: int, p: Seq<PathSegment>)
    ensures
        all_paired(static_entry(f, c, fld, si, indent, depth, p)),
    decreases f, 2int, 0int,
{
    lemma_pcat();
    lemma_rows_paired(c);
    let sp = p.push(PathSegment::StaticField(StaticFieldIdx(si as usize)));
    lemma_pone(field_row(c, fld, indent + "  "@, true, sp, None));
    match fld.value {
        FieldValue::ObjectRef { id, .. } => {
            if f > 0 {
                lemma_p_coll((f - 1) as nat, c, id, indent + "    "@, depth, sp, Seq::empty());
                lemma_p_obj((f - 1) as nat, c, id, indent + "    "@, crate::tree_render::below_depth(c, depth), Seq::empty(), FieldScope::Static, sp);
            }
        },
        _ => {},
    }
}

proof fn lemma_p_coll(f: nat, c: TreeCtx, cid: u64, indent: Seq<char>, depth: int, p: Seq<PathSegment>, vc: Seq<u64>)
    ensures
        all_paired(coll_rows(f, c, cid, indent, depth, p, vc)),
    decreases f, 5int, 0int,
{
    lemma_pcat();
    lemma_rows_paired(c);
    if !(depth >= 16 || (c.paths is None && vc.contains(cid)) || !c.chunks.contains_key(cid)) {
        let cc = c.chunks[cid];
        match cc.eager_page {
            Some(pg) => {
                lemma_p_entries(f, c, cid, pg.entries@, 0, indent, depth, p, vc.push(cid));
            },
            None => {},
        }
        let rs = chunk_ranges_spec((cc.total_count as usize) as nat);
        lemma_p_sections(f, c, cid, rs, 0, indent, depth, p, vc.push(cid));
    }
}

proof fn lemma_p_sections(f: nat, c: TreeCtx, cid: u64, rs: Seq<(usize, usize)>, j: int, indent: Seq<char>, depth: int, p: Seq<PathSegment>, vc: Seq<u64>)
    ensures
        all_paired(sections(f, c, cid, rs, j, indent, depth, p, vc)),
    decreases f, 4int, rs.len() - j,
{
    lemma_pcat();
    lemma_rows_paired(c);
    if 0 <= j < rs.len() && c.chunks.contains_key(cid) {
        let st = c.chunks[cid].chunk_pages.lookup(rs[j].0);
        lemma_pone(section_row(indent, rs[j].0, rs[j].1, st));
        match st {
            Some(ChunkState::Loaded(pg)) => {
                lemma_p_entries(f, c, cid, pg.entries@, 0, indent, depth, p, vc);
            },
            _ => {},
        }
        lemma_p_sections(f, c, cid, rs, j + 1, indent, depth, p, vc);
    }
}

proof fn lemma_p_entries(f: nat, c: TreeCtx, cid: u64, es: Seq<EntryInfo>, i: int, indent: Seq<char>, depth: int, p: Seq<PathSegment>, vc: Seq<u64>)
    ensures
        all_paired(entry_list(f, c, cid, es, i, indent, depth, p, vc)),
    decreases f, 3int, es.len() - i,
{
    lemma_pcat();
    lemma_rows_paired(c);
    if 0 <= i < es.len() {
        lemma_p_entry(f, c, cid, es[i], indent, depth, p, vc);
        lemma_p_entries(f, c, cid, es, i + 1, indent, depth, p, vc);
    }
}

proof fn lemma_p_entry(f: nat, c: TreeCtx, cid: u64, e: EntryInfo, indent: Seq<char>, depth: int, p: Seq<PathSegment>, vc: Seq<u64>)
    ensures
        all_paired(entry_item(f, c, cid, e, indent, depth, p, vc)),
    decreases f, 2int, 0int,
{
    lemma_pcat();
    lemma_rows_paired(c);
    let ep = p.push(PathSegment::CollectionEntry(CollectionId(cid), EntryIdx(e.index)));
    lemma_pone(entry_row_spec(c, e, indent, ep));
    match e.value {
        FieldValue::ObjectRef { id, .. } => {
            if f > 0 {
                lemma_p_coll((f - 1) as nat, c, id, indent + "  "@, depth, ep, vc);
                lemma_p_obj((f - 1) as nat, c, id, indent + "  "@, crate::tree_render::below_depth(c, depth), Seq::empty(), FieldScope::Entry, ep);
            }
        },
        _ => {},
    }
}

proof fn lemma_p_var_children(f: nat, c: TreeCtx, v: VariableInfo, indent: Seq<char>, p: Seq<PathSegment>)
    ensures
        all_paired(var_children(f, c, v, indent, p)),
{
    lemma_rows_paired(c);
    match v.value {
        VariableValue::ObjectRef { id, .. } => {
            lemma_p_coll(f, c, id, indent + "  "@, 0, p, Seq::empty());
            lemma_p_obj(f, c, id, indent + "  "@, 0, Seq::empty(), FieldScope::Object, p);
        },
        VariableValue::Null => {},
    }
}

proof fn lemma_p_vars(f: nat, c: TreeCtx, vars: Seq<VariableInfo>, i: int, fid: u64, indent: Seq<char>)
    ensures
        all_paired(var_list(f, c, vars, i, fid, indent)),
    decreases vars.len() - i,
{
    lemma_pcat();
    lemma_rows_paired(c);
    if 0 <= i < vars.len() {
        let key = HideKey::Var(i as usize);
        let p = var_path(fid, i);
        lemma_p_vars(f, c, vars, i + 1, fid, indent);
        lemma_pone(var_row(c, vars[i], indent, p, key));
        lemma_p_var_children(f, c, vars[i], indent, p);
        lemma_pone(hidden_row(indent, "["@ + crate::text::decimal(vars[i].index as nat) + "]"@, key));
    }
}

/// Law: in a tree that renders, a row has a toggle path exactly when it
/// has a toggleable object.
pub proof fn lemma_toggle_rows_have_paths(c: TreeCtx, root: RootView)
    requires
        renderable(c, root),
    ensures
        forall|i: int|
            0 <= i < tree_of(c, root).len() ==> (#[trigger] tree_of(c, root)[i].kind is Some) == (
            tree_of(c, root)[i].path is Some),
{
    let f = WALK_BUDGET as nat;
    lemma_rows_paired(c);
    match root {
        RootView::Frame { vars, frame_id } => {
            lemma_p_vars(f, c, vars, 0, frame_id, "  "@);
            lemma_pone(plain_row("  (no locals)"@, crate::rows::Tone::Null));
        },
        RootView::Subtree { root_id } => {
            let rp = var_path(root_id, 0);
            lemma_p_coll(f, c, root_id, "  "@, 0, rp, Seq::empty());
            lemma_p_obj(f, c, root_id, "  "@, 0, Seq::empty(), FieldScope::Object, rp);
        },
    }
    assert(all_paired(tree_rows(f, c, root)));
    assert forall|i: int| 0 <= i < tree_of(c, root).len() implies (#[trigger] tree_of(c, root)[i].kind is Some) == (
        tree_of(c, root)[i].path is Some) by {
        assert(paired(tree_of(c, root)[i]));
    }
}

} // verus!
