//! Shared variable-tree rendering for the stack view and the favorites
//! panel.
//!
//! The tree of a frame (or of one object) is walked once into
//! [`TreeRow`]s: the styled spans of each row together with the row's
//! toggle path, its toggleable object and its hideable key. The renderer
//! keeps the spans; the favorites panel keeps the rest to map its cursor.
//!
//! Object expansion is keyed by object id, so a collection whose entries
//! lead back to the collection through object fields makes the walk
//! unbounded. The specification therefore walks with a recursion budget
//! (`fuel`) of [`WALK_BUDGET`] nested object and collection descents, the
//! largest `u64`: a tree is rendered exactly when its walk ends within it,
//! which every walk that ends does (its nested descents each hold a row in
//! memory). A walk that does not end, as through such a loop, recurses
//! until the stack runs out.

use vstd::prelude::*;

use std::collections::HashMap;

use crate::engine::{field_ref_id, EntryInfo, FieldInfo, FieldValue, VariableInfo, VariableValue};
use crate::favorites::HideKey;
use crate::keyset::KeySet;
use crate::rows::{row_view, rows_view, Span, SpanView, Tone};
use crate::stack_view::chunks::{chunk_ranges_spec, compute_chunk_ranges};
use crate::stack_view::collections::{ChunkState, CollectionChunks};
use crate::stack_view::expansion::{PathPhases, PhaseList};
use crate::stack_view::format::{
    collapsed_label, entry_line, failed_label, is_open, phase_toggle, short_name, value_text,
    value_tone,
};
use crate::stack_view::flat::{child_entry, child_field, child_static};
use crate::stack_view::types::{
    path_well_formed, CollectionId, EntryIdx, ExpansionPhase, FieldIdx, FrameId, NavigationPath,
    NavigationPathBuilder, PathSegment,
    StaticFieldIdx, VarIdx, STATIC_FIELDS_RENDER_LIMIT,
};
use crate::stack_view::format::{
    field_value_style, format_entry_line, push_collapsed_label, push_short_class, push_short_name,
    push_value_text, FAILED_LABEL_SEP,
};
use crate::text::{
    chars_of, decimal, find_from, first_from, hex_upper, occurs_at, push_char, push_decimal, push_hex,
    push_str, string_of,
};

verus! {

broadcast use vstd::string::group_string_axioms;

// ── ghost model ────────────────────────────────────────────────────

/// Ghost image of everything the walk reads.
pub struct TreeCtx {
    pub fields: Map<u64, Vec<FieldInfo>>,
    pub statics: Map<u64, Vec<FieldInfo>>,
    pub chunks: Map<u64, CollectionChunks>,
    pub phases: Map<u64, ExpansionPhase>,
    pub errors: Map<u64, String>,
    pub show_ids: bool,
    pub snapshot: bool,
    pub show_hidden: bool,
    pub hidden: Set<HideKey>,
    pub collapsed: Set<Seq<PathSegment>>,
    /// The expansion phases of the stack panel by path, when the walk draws
    /// that panel: a collection then shows its entries exactly where its
    /// path is expanded, as the panel's cursor rows do.
    pub paths: Option<PhaseList>,
}

/// Ghost image of one rendered row with its bookkeeping.
pub struct RowInfo {
    /// Styled text.
    pub spans: Seq<SpanView>,
    /// Path of a toggleable object row.
    pub path: Option<Seq<PathSegment>>,
    /// Toggleable object of the row and whether it shows collapsed.
    pub kind: Option<(u64, bool)>,
    /// Hideable key of the row and whether it is a hidden placeholder.
    pub field: Option<(HideKey, bool)>,
}

/// Which object subtree a field list belongs to.
#[derive(Debug, Clone, Copy, PartialEq, Eq, Structural)]
pub enum FieldScope {
    /// Below a variable or the pinned root: fields can be hidden, static
    /// sections are shown.
    Object,
    /// Below a collection entry: static sections are shown.
    Entry,
    /// Below a static field: no static sections, and objects without data
    /// show collapsed rather than unavailable.
    Static,
}

/// Concatenation of two partial results.
pub open spec fn cat(a: Option<Seq<RowInfo>>, b: Option<Seq<RowInfo>>) -> Option<Seq<RowInfo>> {
    match (a, b) {
        (Some(x), Some(y)) => Some(x + y),
        _ => None,
    }
}

/// A complete result with no rows.
pub open spec fn none_rows() -> Option<Seq<RowInfo>> {
    Some(Seq::empty())
}

/// Whether a reference with entry count `ec` to `id` is walked as a
/// collection: in the stack panel whenever it has an entry count, elsewhere
/// when the collection's pages are known.
pub open spec fn coll_ref(c: TreeCtx, ec: Option<u64>, id: u64) -> bool {
    ec is Some && (c.chunks.contains_key(id) || c.paths is Some)
}

/// Whether the entries of collection `id` shown at `p` with phase `ph` are
/// drawn: in the stack panel when its pages are known and its path is
/// expanded, elsewhere when its phase is open.
pub open spec fn coll_open(c: TreeCtx, ph: Option<ExpansionPhase>, id: u64, p: Seq<PathSegment>) -> bool {
    match c.paths {
        None => is_open(ph),
        Some(pl) => c.chunks.contains_key(id) && crate::stack_view::expansion::phase_at(pl, p)
            == ExpansionPhase::Expanded,
    }
}

/// Nesting depth of an object below a collection entry or a static field:
/// in the stack panel counted afresh from there, elsewhere carried on.
pub open spec fn below_depth(c: TreeCtx, depth: int) -> int {
    if c.paths is Some {
        0
    } else {
        depth
    }
}

/// A row of one span with no bookkeeping.
pub open spec fn plain_row(text: Seq<char>, tone: Tone) -> RowInfo {
    RowInfo { spans: seq![(text, tone)], path: None, kind: None, field: None }
}

/// Phase recorded for an object id, `Collapsed` when none is.
pub open spec fn phase_of(c: TreeCtx, id: u64) -> ExpansionPhase {
    if c.phases.contains_key(id) {
        c.phases[id]
    } else {
        ExpansionPhase::Collapsed
    }
}

/// Phase of an object shown at path `p`: collapsed when the path is
/// collapsed locally, its recorded phase otherwise.
pub open spec fn phase_at(c: TreeCtx, id: u64, p: Seq<PathSegment>) -> ExpansionPhase {
    if c.collapsed.contains(p) {
        ExpansionPhase::Collapsed
    } else {
        phase_of(c, id)
    }
}

/// Phase of a referenced object at `p` and whether it is unavailable (a
/// snapshot that holds nothing of it).
pub open spec fn ref_state(c: TreeCtx, id: u64, ec: Option<u64>, p: Seq<PathSegment>) -> (Option<ExpansionPhase>, bool) {
    if ec is Some && c.chunks.contains_key(id) {
        if c.snapshot {
            (Some(phase_at(c, id, p)), false)
        } else {
            (Some(ExpansionPhase::Expanded), false)
        }
    } else if c.fields.contains_key(id) || c.statics.contains_key(id) || c.phases.contains_key(id)
        || !c.snapshot {
        (Some(phase_at(c, id, p)), false)
    } else {
        (None, true)
    }
}

/// Error text of a failed object.
pub open spec fn err_text(c: TreeCtx, id: u64) -> Seq<char> {
    if c.errors.contains_key(id) {
        c.errors[id]@
    } else {
        "Failed to resolve object"@
    }
}

/// Decoded instance fields of an object.
pub open spec fn fields_at(c: TreeCtx, id: u64) -> Seq<FieldInfo> {
    if c.fields.contains_key(id) {
        c.fields[id]@
    } else {
        Seq::empty()
    }
}

/// Decoded static fields of an object.
pub open spec fn statics_at(c: TreeCtx, id: u64) -> Seq<FieldInfo> {
    if c.statics.contains_key(id) {
        c.statics[id]@
    } else {
        Seq::empty()
    }
}

/// Object id range inside a label: from the `@` of ` @ 0x` to the ` = `
/// of an inline value or the end.
pub open spec fn id_range(t: Seq<char>) -> Option<(int, int)> {
    match first_from(t, " @ 0x"@, 0) {
        None => None,
        Some(i) => {
            let start = i + 1;
            let end = match first_from(t, " = "@, start) {
                Some(j) => j,
                None => t.len() as int,
            };
            if end <= start + 5 {
                None
            } else {
                Some((start, end))
            }
        },
    }
}

/// A label as spans, with its object id dimmed.
pub open spec fn dimmed_spans(t: Seq<char>, tone: Tone) -> Seq<SpanView> {
    match id_range(t) {
        Some((s, e)) => seq![
            (t.subrange(0, s), tone),
            (t.subrange(s, e), Tone::ObjectId),
            (t.subrange(e, t.len() as int), tone),
        ],
        None => seq![(t, tone)],
    }
}

/// Spans of a tree row: indent, toggle marker, label.
pub open spec fn label_spans(indent: Seq<char>, toggle: Seq<char>, blank: bool, label: Seq<char>, tone: Tone) -> Seq<SpanView> {
    seq![(indent, Tone::Plain), (toggle, if blank { tone } else { Tone::Expand })] + dimmed_spans(
        label,
        tone,
    )
}

/// Placeholder of a hidden row.
pub open spec fn hidden_row(indent: Seq<char>, label: Seq<char>, k: HideKey) -> RowInfo {
    RowInfo {
        spans: seq![(indent + "  "@ + label + " (hidden)"@, Tone::Null)],
        path: None,
        kind: None,
        field: Some((k, true)),
    }
}

/// Marker row of a field that leads back to an object shown above it.
pub open spec fn cyclic_row(indent: Seq<char>, name: Seq<char>, class_name: Seq<char>, id: u64, self_ref: bool) -> RowInfo {
    plain_row(
        indent + "  "@ + name + ": \u{21BB} "@ + short_name(class_name) + " @ 0x"@ + hex_upper(
            id as nat,
        ) + " ["@ + (if self_ref {
            "self-ref"@
        } else {
            "cyclic"@
        }) + "]"@,
        Tone::Cyclic,
    )
}

/// Phase and unavailability of a field's value at `p`.
pub open spec fn field_state(c: TreeCtx, f: FieldInfo, static_scope: bool, p: Seq<PathSegment>) -> (Option<ExpansionPhase>, bool) {
    match f.value {
        FieldValue::ObjectRef { id, entry_count, .. } => {
            let st = ref_state(c, id, entry_count, p);
            if static_scope && st.1 {
                (Some(phase_at(c, id, p)), false)
            } else {
                st
            }
        },
        _ => (None, false),
    }
}

/// Whether a field's value is a reference to an object the context holds.
pub open spec fn field_available(c: TreeCtx, f: FieldInfo, p: Seq<PathSegment>) -> bool {
    match f.value {
        FieldValue::ObjectRef { id, entry_count, .. } => !ref_state(c, id, entry_count, p).1,
        _ => false,
    }
}

/// Row of one field.
pub open spec fn field_row(c: TreeCtx, f: FieldInfo, indent: Seq<char>, static_scope: bool, p: Seq<PathSegment>, hk: Option<HideKey>) -> RowInfo {
    let st = field_state(c, f, static_scope, p);
    let cp = st.0;
    let cu = st.1;
    let tone = if cu {
        Tone::Null
    } else if cp == Some(ExpansionPhase::Failed) {
        Tone::Error
    } else {
        value_tone(f.value)
    };
    let val = match f.value {
        FieldValue::ObjectRef { id, class_name, .. } => if cp == Some(ExpansionPhase::Failed) {
            failed_label(class_name@, err_text(c, id))
        } else {
            value_text(f.value, cp, c.show_ids)
        },
        _ => value_text(f.value, cp, c.show_ids),
    };
    let toggle = if cu {
        "? "@
    } else {
        phase_toggle(cp)
    };
    let avail = field_available(c, f, p);
    RowInfo {
        spans: label_spans(indent, toggle, !cu && cp is None, f.name@ + ": "@ + val, tone),
        path: if avail {
            Some(p)
        } else {
            None
        },
        kind: match f.value {
            FieldValue::ObjectRef { id, .. } => if avail {
                Some((id, cp == Some(ExpansionPhase::Collapsed)))
            } else {
                None
            },
            _ => None,
        },
        field: match hk {
            Some(k) => Some((k, false)),
            None => None,
        },
    }
}

/// Row of a local variable at path `p`.
pub open spec fn var_row(c: TreeCtx, v: VariableInfo, indent: Seq<char>, p: Seq<PathSegment>, k: HideKey) -> RowInfo {
    let head = "["@ + decimal(v.index as nat) + "] "@;
    match v.value {
        VariableValue::Null => RowInfo {
            spans: label_spans(indent, "  "@, true, head + "null"@, Tone::Plain),
            path: None,
            kind: None,
            field: Some((k, false)),
        },
        VariableValue::ObjectRef { id, class_name, entry_count } => {
            let st = ref_state(c, id, entry_count, p);
            let phase = match st.0 {
                Some(ph) => ph,
                None => ExpansionPhase::Collapsed,
            };
            let label = "local variable: "@ + collapsed_label(class_name@, entry_count, c.show_ids, id);
            let toggle = if st.1 {
                "? "@
            } else if phase == ExpansionPhase::Failed {
                "! "@
            } else if phase == ExpansionPhase::Collapsed {
                "+ "@
            } else {
                "- "@
            };
            let text = if !st.1 && phase == ExpansionPhase::Failed {
                failed_label(class_name@, err_text(c, id))
            } else {
                label
            };
            let tone = if st.1 {
                Tone::Null
            } else if phase == ExpansionPhase::Failed {
                Tone::Error
            } else {
                Tone::Plain
            };
            RowInfo {
                spans: label_spans(indent, toggle, false, head + text, tone),
                path: if st.1 {
                    None
                } else {
                    Some(p)
                },
                kind: if st.1 {
                    None
                } else {
                    Some((id, phase == ExpansionPhase::Collapsed))
                },
                field: Some((k, false)),
            }
        },
    }
}

/// Header row of a chunk section.
pub open spec fn section_row(indent: Seq<char>, off: usize, lim: usize, st: Option<ChunkState>) -> RowInfo {
    let range = "["@ + decimal(off as nat) + "..."@ + decimal((off + lim - 1) as nat) + "]"@;
    match st {
        Some(ChunkState::Loading) => plain_row(indent + "~ "@ + "Loading "@ + range, Tone::Loading),
        Some(ChunkState::Loaded(_)) => plain_row(indent + "- "@ + range, Tone::Expand),
        _ => plain_row(indent + "+ "@ + range, Tone::Expand),
    }
}

/// Row of one collection entry at path `ep`.
pub open spec fn entry_row(c: TreeCtx, e: EntryInfo, indent: Seq<char>, ep: Seq<PathSegment>) -> RowInfo {
    let st = match e.value {
        FieldValue::ObjectRef { id, entry_count, .. } => ref_state(c, id, entry_count, ep),
        _ => (None, false),
    };
    let vp = st.0;
    let vu = st.1;
    let head = "["@ + decimal(e.index as nat) + "] "@;
    let key_part = match e.key {
        Some(k) => value_text(k, None, false) + " => "@,
        None => Seq::empty(),
    };
    let text = match e.value {
        FieldValue::ObjectRef { id, class_name, .. } => if vp == Some(ExpansionPhase::Failed) {
            indent + "! "@ + head + key_part + failed_label(class_name@, err_text(c, id))
        } else if vu {
            indent + "? "@ + head + key_part + value_text(e.value, None, c.show_ids)
        } else {
            entry_line(e, indent, vp, c.show_ids)
        },
        _ => entry_line(e, indent, vp, c.show_ids),
    };
    let tone = if vu {
        Tone::Null
    } else if vp == Some(ExpansionPhase::Failed) {
        Tone::Error
    } else {
        value_tone(e.value)
    };
    let avail = field_ref_id(e.value) is Some && !vu;
    RowInfo {
        spans: seq![(text, tone)],
        path: if avail {
            Some(ep)
        } else {
            None
        },
        kind: match e.value {
            FieldValue::ObjectRef { id, .. } => if avail {
                Some((id, vp == Some(ExpansionPhase::Collapsed)))
            } else {
                None
            },
            _ => None,
        },
        field: None,
    }
}

// ── the walk ───────────────────────────────────────────────────────

/// Rows below an object shown at `p`: its fields (or a loading / no-fields
/// row) and, outside static scope, its static section.
pub open spec fn obj_rows(f: nat, c: TreeCtx, oid: u64, indent: Seq<char>, depth: int, vis: Seq<u64>, k: FieldScope, p: Seq<PathSegment>) -> Option<Seq<RowInfo>>
    decreases f, 5int, 0int,
{
    if depth >= 16 {
        none_rows()
    } else {
        match phase_at(c, oid, p) {
            ExpansionPhase::Loading => Some(seq![plain_row(indent + "~ Loading..."@, Tone::Loading)]),
            ExpansionPhase::Expanded => {
                let fl = fields_at(c, oid);
                let body = if fl.len() == 0 {
                    Some(seq![plain_row(indent + "(no fields)"@, Tone::Null)])
                } else {
                    field_list(f, c, oid, fl, 0, indent, depth, vis.push(oid), k, p)
                };
                let st = if k != FieldScope::Static {
                    static_rows(f, c, oid, indent, depth, p)
                } else {
                    none_rows()
                };
                cat(body, st)
            },
            _ => none_rows(),
        }
    }
}

/// Rows of the fields `fl[i..]` of object `oid`.
pub open spec fn field_list(f: nat, c: TreeCtx, oid: u64, fl: Seq<FieldInfo>, i: int, indent: Seq<char>, depth: int, vis: Seq<u64>, k: FieldScope, p: Seq<PathSegment>) -> Option<Seq<RowInfo>>
    decreases f, 4int, fl.len() - i,
{
    if i < 0 || i >= fl.len() {
        none_rows()
    } else {
        cat(
            field_entry(f, c, oid, fl[i], i, indent, depth, vis, k, p),
            field_list(f, c, oid, fl, i + 1, indent, depth, vis, k, p),
        )
    }
}

/// Rows of field `fi` of object `oid`: a hidden placeholder, a cyclic
/// marker, or the field row followed by its subtree.
pub open spec fn field_entry(f: nat, c: TreeCtx, oid: u64, fld: FieldInfo, fi: int, indent: Seq<char>, depth: int, vis: Seq<u64>, k: FieldScope, p: Seq<PathSegment>) -> Option<Seq<RowInfo>>
    decreases f, 2int, 0int,
{
    let hk = HideKey::Field { parent_id: oid, field_idx: fi as usize };
    if k == FieldScope::Object && c.hidden.contains(hk) {
        if c.show_hidden {
            Some(seq![hidden_row(indent, fld.name@, hk)])
        } else {
            none_rows()
        }
    } else {
        match fld.value {
            FieldValue::ObjectRef { id, class_name, entry_count, .. } => if vis.contains(id) {
                Some(seq![cyclic_row(indent, fld.name@, class_name@, id, id == oid)])
            } else {
                let cp = p.push(PathSegment::Field(FieldIdx(fi as usize)));
                let row = field_row(
                    c,
                    fld,
                    indent,
                    k == FieldScope::Static,
                    cp,
                    if k == FieldScope::Object {
                        Some(hk)
                    } else {
                        None
                    },
                );
                let st = field_state(c, fld, k == FieldScope::Static, cp);
                let below = if st.1 {
                    none_rows()
                } else if coll_ref(c, entry_count, id) {
                    if coll_open(c, st.0, id, cp) {
                        if f == 0 {
                            None
                        } else {
                            coll_rows((f - 1) as nat, c, id, indent + "  "@, depth, cp, Seq::empty())
                        }
                    } else {
                        none_rows()
                    }
                } else if f == 0 {
                    None
                } else {
                    obj_rows((f - 1) as nat, c, id, indent + "  "@, depth + 1, vis, k, cp)
                };
                cat(Some(seq![row]), below)
            },
            _ => {
                let cp = p.push(PathSegment::Field(FieldIdx(fi as usize)));
                Some(
                    seq![field_row(
                        c,
                        fld,
                        indent,
                        k == FieldScope::Static,
                        cp,
                        if k == FieldScope::Object {
                            Some(hk)
                        } else {
                            None
                        },
                    )],
                )
            },
        }
    }
}

/// The `[static]` section of an object: header, at most
/// [`STATIC_FIELDS_RENDER_LIMIT`] fields with their subtrees, and an
/// overflow row.
pub open spec fn static_rows(f: nat, c: TreeCtx, oid: u64, indent: Seq<char>, depth: int, p: Seq<PathSegment>) -> Option<Seq<RowInfo>>
    decreases f, 4int, 0int,
{
    let sf = statics_at(c, oid);
    if sf.len() == 0 {
        none_rows()
    } else {
        let shown: int = if sf.len() < STATIC_FIELDS_RENDER_LIMIT {
            sf.len() as int
        } else {
            STATIC_FIELDS_RENDER_LIMIT as int
        };
        let more = if sf.len() > shown {
            seq![plain_row(indent + "  [+"@ + decimal((sf.len() - shown) as nat) + " more static fields]"@, Tone::Null)]
        } else {
            Seq::empty()
        };
        cat(
            cat(Some(seq![plain_row(indent + "[static]"@, Tone::Null)]), static_list(f, c, sf, 0, shown, indent, depth, p)),
            Some(more),
        )
    }
}

/// Rows of the static fields `sf[i..shown]`.
pub open spec fn static_list(f: nat, c: TreeCtx, sf: Seq<FieldInfo>, i: int, shown: int, indent: Seq<char>, depth: int, p: Seq<PathSegment>) -> Option<Seq<RowInfo>>
    decreases f, 3int, shown - i,
{
    if i < 0 || i >= shown || i >= sf.len() {
        none_rows()
    } else {
        cat(
            static_entry(f, c, sf[i], i, indent, depth, p),
            static_list(f, c, sf, i + 1, shown, indent, depth, p),
        )
    }
}

/// Rows of static field `si`: its row and its subtree.
pub open spec fn static_entry(f: nat, c: TreeCtx, fld: FieldInfo, si: int, indent: Seq<char>, depth: int, p: Seq<PathSegment>) -> Option<Seq<RowInfo>>
    decreases f, 2int, 0int,
{
    let sp = p.push(PathSegment::StaticField(StaticFieldIdx(si as usize)));
    let row = field_row(c, fld, indent + "  "@, true, sp, None);
    let st = field_state(c, fld, true, sp);
    let below = match fld.value {
        FieldValue::ObjectRef { id, entry_count, .. } => if coll_ref(c, entry_count, id) {
            if coll_open(c, st.0, id, sp) {
                if f == 0 {
                    None
                } else {
                    coll_rows((f - 1) as nat, c, id, indent + "    "@, depth, sp, Seq::empty())
                }
            } else {
                none_rows()
            }
        } else if f == 0 {
            None
        } else {
            obj_rows((f - 1) as nat, c, id, indent + "    "@, below_depth(c, depth), Seq::empty(), FieldScope::Static, sp)
        },
        _ => none_rows(),
    };
    cat(Some(seq![row]), below)
}

/// Rows of collection `cid` shown at `p`: the eager entries, then each
/// chunk section (in snapshots only the loaded ones) with its entries.
/// `vc` holds the collections being shown above.
pub open spec fn coll_rows(f: nat, c: TreeCtx, cid: u64, indent: Seq<char>, depth: int, p: Seq<PathSegment>, vc: Seq<u64>) -> Option<Seq<RowInfo>>
    decreases f, 5int, 0int,
{
    if depth >= 16 || (c.paths is None && vc.contains(cid)) || !c.chunks.contains_key(cid) {
        none_rows()
    } else {
        let cc = c.chunks[cid];
        let eager = match cc.eager_page {
            Some(pg) => entry_list(f, c, cid, pg.entries@, 0, indent, depth, p, vc.push(cid)),
            None => none_rows(),
        };
        let rs = chunk_ranges_spec((cc.total_count as usize) as nat);
        cat(eager, sections(f, c, cid, rs, 0, indent, depth, p, vc.push(cid)))
    }
}

/// Rows of the chunk sections `rs[j..]` of collection `cid`.
pub open spec fn sections(f: nat, c: TreeCtx, cid: u64, rs: Seq<(usize, usize)>, j: int, indent: Seq<char>, depth: int, p: Seq<PathSegment>, vc: Seq<u64>) -> Option<Seq<RowInfo>>
    decreases f, 4int, rs.len() - j,
{
    if j < 0 || j >= rs.len() || !c.chunks.contains_key(cid) {
        none_rows()
    } else {
        let st = c.chunks[cid].chunk_pages.lookup(rs[j].0);
        let here = match st {
            Some(ChunkState::Loaded(pg)) => cat(
                Some(seq![section_row(indent, rs[j].0, rs[j].1, st)]),
                entry_list(f, c, cid, pg.entries@, 0, indent, depth, p, vc),
            ),
            _ => if c.snapshot {
                none_rows()
            } else {
                Some(seq![section_row(indent, rs[j].0, rs[j].1, st)])
            },
        };
        cat(here, sections(f, c, cid, rs, j + 1, indent, depth, p, vc))
    }
}

/// Rows of the entries `es[i..]` of collection `cid`.
pub open spec fn entry_list(f: nat, c: TreeCtx, cid: u64, es: Seq<EntryInfo>, i: int, indent: Seq<char>, depth: int, p: Seq<PathSegment>, vc: Seq<u64>) -> Option<Seq<RowInfo>>
    decreases f, 3int, es.len() - i,
{
    if i < 0 || i >= es.len() {
        none_rows()
    } else {
        cat(
            entry_item(f, c, cid, es[i], indent, depth, p, vc),
            entry_list(f, c, cid, es, i + 1, indent, depth, p, vc),
        )
    }
}

/// Rows of one entry of collection `cid`: its row and its value's subtree.
pub open spec fn entry_item(f: nat, c: TreeCtx, cid: u64, e: EntryInfo, indent: Seq<char>, depth: int, p: Seq<PathSegment>, vc: Seq<u64>) -> Option<Seq<RowInfo>>
    decreases f, 2int, 0int,
{
    let ep = p.push(PathSegment::CollectionEntry(CollectionId(cid), EntryIdx(e.index)));
    let row = entry_row(c, e, indent, ep);
    let below = match e.value {
        FieldValue::ObjectRef { id, entry_count, .. } => {
            let st = ref_state(c, id, entry_count, ep);
            if st.1 {
                none_rows()
            } else if coll_ref(c, entry_count, id) && id != cid {
                if coll_open(c, st.0, id, ep) {
                    if f == 0 {
                        None
                    } else {
                        coll_rows((f - 1) as nat, c, id, indent + "  "@, depth, ep, vc)
                    }
                } else {
                    none_rows()
                }
            } else if f == 0 {
                None
            } else {
                obj_rows((f - 1) as nat, c, id, indent + "  "@, below_depth(c, depth), Seq::empty(), FieldScope::Entry, ep)
            }
        },
        _ => none_rows(),
    };
    cat(Some(seq![row]), below)
}

/// Rows below a variable shown at `p`.
pub open spec fn var_children(f: nat, c: TreeCtx, v: VariableInfo, indent: Seq<char>, p: Seq<PathSegment>) -> Option<Seq<RowInfo>> {
    match v.value {
        VariableValue::Null => none_rows(),
        VariableValue::ObjectRef { id, entry_count, .. } => {
            let st = ref_state(c, id, entry_count, p);
            if st.1 {
                none_rows()
            } else if entry_count is Some {
                if coll_open(c, st.0, id, p) && c.chunks.contains_key(id) {
                    coll_rows(f, c, id, indent + "  "@, 0, p, Seq::empty())
                } else {
                    none_rows()
                }
            } else {
                obj_rows(f, c, id, indent + "  "@, 0, Seq::empty(), FieldScope::Object, p)
            }
        },
    }
}

/// The path of variable `i` of frame `frame_id`.
pub open spec fn var_path(frame_id: u64, i: int) -> Seq<PathSegment> {
    seq![PathSegment::Frame(FrameId(frame_id)), PathSegment::Var(VarIdx(i as usize))]
}

/// Rows of the variables `vars[i..]` of frame `frame_id`.
pub open spec fn var_list(f: nat, c: TreeCtx, vars: Seq<VariableInfo>, i: int, frame_id: u64, indent: Seq<char>) -> Option<Seq<RowInfo>>
    decreases vars.len() - i,
{
    if i < 0 || i >= vars.len() {
        none_rows()
    } else {
        let key = HideKey::Var(i as usize);
        let here = if c.hidden.contains(key) {
            if c.show_hidden {
                Some(seq![hidden_row(indent, "["@ + decimal(vars[i].index as nat) + "]"@, key)])
            } else {
                none_rows()
            }
        } else {
            let p = var_path(frame_id, i);
            cat(Some(seq![var_row(c, vars[i], indent, p, key)]), var_children(f, c, vars[i], indent, p))
        };
        cat(here, var_list(f, c, vars, i + 1, frame_id, indent))
    }
}

/// Ghost image of a tree root.
pub enum RootView {
    Frame { vars: Seq<VariableInfo>, frame_id: u64 },
    Subtree { root_id: u64 },
}

/// Rows of a tree with recursion budget `f`; `None` when the budget runs
/// out.
pub open spec fn tree_rows(f: nat, c: TreeCtx, root: RootView) -> Option<Seq<RowInfo>> {
    match root {
        RootView::Frame { vars, frame_id } => if vars.len() == 0 {
            Some(seq![plain_row("  (no locals)"@, Tone::Null)])
        } else {
            var_list(f, c, vars, 0, frame_id, "  "@)
        },
        RootView::Subtree { root_id } => {
            let rp = var_path(root_id, 0);
            if c.chunks.contains_key(root_id) {
                coll_rows(f, c, root_id, "  "@, 0, rp, Seq::empty())
            } else {
                obj_rows(f, c, root_id, "  "@, 0, Seq::empty(), FieldScope::Object, rp)
            }
        },
    }
}

/// Nesting budget of a walk: how many object and collection descents may
/// stack below a variable or the root. It is the largest `u64`, so only a
/// walk that does not end exceeds it.
pub const WALK_BUDGET: u64 = 0xffff_ffff_ffff_ffff;

/// Whether the walk of a tree completes within the budget.
pub open spec fn renderable(c: TreeCtx, root: RootView) -> bool {
    tree_rows(WALK_BUDGET as nat, c, root) is Some
}

/// The rows of a tree whose walk completes.
pub open spec fn tree_of(c: TreeCtx, root: RootView) -> Seq<RowInfo> {
    tree_rows(WALK_BUDGET as nat, c, root).unwrap()
}

// ── exec: sources, rows and helpers ─────────────────────────────────

/// Rendering options that vary per panel.
#[derive(Debug, Clone, Copy)]
pub struct RenderOptions {
    /// Whether object ids are shown in labels.
    pub show_object_ids: bool,
    /// Whether the tree is a frozen snapshot: objects it holds nothing of
    /// show as unavailable (`?`), and unloaded chunk sections are omitted.
    pub snapshot_mode: bool,
    /// Whether hidden rows show as placeholders.
    pub show_hidden: bool,
}

/// Root of a variable tree to render.
pub enum TreeRoot<'a> {
    /// All variables of a stack frame.
    Frame { vars: &'a [VariableInfo], frame_id: u64 },
    /// The expanded fields (or entries) of a single object.
    Subtree { root_id: u64 },
}

/// Ghost image of a root.
pub open spec fn root_view(r: TreeRoot) -> RootView {
    match r {
        TreeRoot::Frame { vars, frame_id } => RootView::Frame { vars: vars@, frame_id },
        TreeRoot::Subtree { root_id } => RootView::Subtree { root_id },
    }
}

/// Everything a tree walk reads.
pub struct TreeSource<'a> {
    pub object_fields: &'a HashMap<u64, Vec<FieldInfo>>,
    pub object_static_fields: &'a HashMap<u64, Vec<FieldInfo>>,
    pub collection_chunks: &'a HashMap<u64, CollectionChunks>,
    pub object_phases: &'a HashMap<u64, ExpansionPhase>,
    pub object_errors: &'a HashMap<u64, String>,
    pub hidden_fields: &'a KeySet<HideKey>,
    pub local_collapsed: &'a KeySet<NavigationPath>,
    pub options: RenderOptions,
    /// The stack panel's phases by path, when the walk draws that panel.
    pub path_phases: Option<&'a PathPhases>,
}

impl<'a> TreeSource<'a> {
    /// The ghost image of the source.
    pub open spec fn ctx(&self) -> TreeCtx {
        TreeCtx {
            fields: self.object_fields@,
            statics: self.object_static_fields@,
            chunks: self.collection_chunks@,
            phases: self.object_phases@,
            errors: self.object_errors@,
            show_ids: self.options.show_object_ids,
            snapshot: self.options.snapshot_mode,
            show_hidden: self.options.show_hidden,
            hidden: self.hidden_fields.set(),
            collapsed: self.local_collapsed.set(),
            paths: match self.path_phases {
                Some(pp) => Some(pp.pairs()),
                None => None,
            },
        }
    }
}

/// One rendered row with its bookkeeping.
#[derive(Debug)]
pub struct TreeRow {
    /// Styled text.
    pub spans: Vec<Span>,
    /// Path of a toggleable object row.
    pub path: Option<NavigationPath>,
    /// Toggleable object of the row and whether it shows collapsed.
    pub kind: Option<(u64, bool)>,
    /// Hideable key of the row and whether it is a hidden placeholder.
    pub field: Option<(HideKey, bool)>,
}

/// Ghost image of a row.
pub open spec fn row_info(r: TreeRow) -> RowInfo {
    RowInfo {
        spans: row_view(r.spans@),
        path: match r.path {
            Some(p) => Some(p@),
            None => None,
        },
        kind: r.kind,
        field: r.field,
    }
}

/// Ghost image of a list of rows.
pub open spec fn rows_info(s: Seq<TreeRow>) -> Seq<RowInfo> {
    s.map_values(|r: TreeRow| row_info(r))
}

fn push_row(out: &mut Vec<TreeRow>, r: TreeRow)
    ensures
        rows_info(final(out)@) == rows_info(old(out)@).push(row_info(r)),
{
    let ghost ri = row_info(r);
    out.push(r);
    assert(rows_info(final(out)@) =~= rows_info(old(out)@).push(ri));
}

fn cat_str(a: &str, b: &str) -> (r: String)
    ensures
        r@ == a@ + b@,
{
    let mut s = String::new();
    push_str(&mut s, a);
    push_str(&mut s, b);
    assert(s@ =~= a@ + b@);
    s
}

fn plain(text: String, tone: Tone) -> (r: TreeRow)
    ensures
        row_info(r) == plain_row(text@, tone),
{
    let ghost t = text@;
    let mut spans: Vec<Span> = Vec::new();
    spans.push(Span { text, tone });
    let r = TreeRow { spans, path: None, kind: None, field: None };
    assert(row_view(r.spans@) =~= seq![(t, tone)]);
    r
}

fn string_range(cs: &[char], s: usize, e: usize) -> (r: String)
    requires
        s <= e <= cs@.len(),
    ensures
        r@ == cs@.subrange(s as int, e as int),
{
    let mut out = String::new();
    let mut k: usize = s;
    while k < e
        invariant
            s <= k <= e,
            e <= cs@.len(),
            out@ == cs@.subrange(s as int, k as int),
        decreases e - k,
    {
        push_char(&mut out, cs[k]);
        assert(cs@.subrange(s as int, k + 1) =~= cs@.subrange(s as int, k as int).push(cs@[k as int]));
        k = k + 1;
    }
    out
}

fn split_chars(cs: &[char]) -> (r: Option<(usize, usize)>)
    ensures
        match id_range(cs@) {
            Some((s, e)) => r == Some((s as usize, e as usize)) && 0 <= s <= e <= cs@.len(),
            None => r is None,
        },
        r matches Some((x, y)) ==> x <= y && y <= cs@.len(),
{
    let n = cs.len();
    let marker = chars_of(" @ 0x");
    let eq = chars_of(" = ");
    let m = marker.as_slice();
    let q = eq.as_slice();
    assert(m@ == " @ 0x"@);
    assert(q@ == " = "@);
    proof {
        lemma_first_from_in_range(cs@, m@, 0);
    }
    match find_from(cs, m, 0) {
        None => None,
        Some(i) => {
            let start = i + 1;
            proof {
                lemma_first_from_in_range(cs@, q@, start as int);
            }
            let end = match find_from(cs, q, start) {
                Some(j) => j,
                None => n,
            };
            if end <= start || end - start <= 5 {
                None
            } else {
                Some((start, end))
            }
        },
    }
}

/// A found position lies at or after the start and inside the sequence.
proof fn lemma_first_from_in_range(hay: Seq<char>, needle: Seq<char>, i: int)
    ensures
        match first_from(hay, needle, i) {
            Some(j) => i <= j < hay.len(),
            None => true,
        },
    decreases hay.len() - i,
{
    if !(i < 0 || i >= hay.len() || i + needle.len() > hay.len()) && !occurs_at(hay, needle, i) {
        lemma_first_from_in_range(hay, needle, i + 1);
    }
}

/// Number of bytes of a character in UTF-8.
pub open spec fn utf8_len(c: char) -> nat {
    if (c as u32) < 0x80 {
        1
    } else if (c as u32) < 0x800 {
        2
    } else if (c as u32) < 0x10000 {
        3
    } else {
        4
    }
}

/// Number of bytes of a character sequence in UTF-8.
pub open spec fn utf8_bytes(cs: Seq<char>) -> nat
    decreases cs.len(),
{
    if cs.len() == 0 {
        0
    } else {
        utf8_bytes(cs.drop_last()) + utf8_len(cs.last())
    }
}

proof fn lemma_utf8_bytes_prefix(cs: Seq<char>, i: int, j: int)
    requires
        0 <= i <= j <= cs.len(),
    ensures
        utf8_bytes(cs.take(i)) <= utf8_bytes(cs.take(j)),
    decreases j - i,
{
    if i < j {
        lemma_utf8_bytes_prefix(cs, i, j - 1);
        assert(cs.take(j).drop_last() =~= cs.take(j - 1));
    }
}

/// Byte offsets of the first `i` and first `j` characters.
fn byte_offsets(cs: &[char], i: usize, j: usize) -> (r: (usize, usize))
    requires
        i <= j <= cs@.len(),
        utf8_bytes(cs@) <= usize::MAX,
    ensures
        r.0 == utf8_bytes(cs@.take(i as int)),
        r.1 == utf8_bytes(cs@.take(j as int)),
{
    proof {
        assert(cs@.take(cs@.len() as int) =~= cs@);
        lemma_utf8_bytes_prefix(cs@, j as int, cs@.len() as int);
    }
    let mut n: usize = 0;
    let mut first: usize = 0;
    let mut k: usize = 0;
    assert(cs@.take(0) =~= Seq::<char>::empty());
    while k < j
        invariant
            k <= j <= cs@.len(),
            i <= j,
            utf8_bytes(cs@.take(j as int)) <= usize::MAX,
            n == utf8_bytes(cs@.take(k as int)),
            k <= i ==> first == 0,
            k > i ==> first == utf8_bytes(cs@.take(i as int)),
        decreases j - k,
    {
        if k == i {
            first = n;
        }
        let c = cs[k];
        let w: usize = if (c as u32) < 0x80 {
            1
        } else if (c as u32) < 0x800 {
            2
        } else if (c as u32) < 0x10000 {
            3
        } else {
            4
        };
        proof {
            assert(cs@.take(k + 1).drop_last() =~= cs@.take(k as int));
            lemma_utf8_bytes_prefix(cs@, k + 1, j as int);
        }
        n = n + w;
        k = k + 1;
    }
    if i == j {
        first = n;
    }
    (first, n)
}

/// Byte range `[start, end)` of the object id in a label: from the `@` of
/// ` @ 0x` to the ` = ` of an inline value, or to the end.
pub fn split_object_id_range(text: &str) -> (r: Option<(usize, usize)>)
    requires
        utf8_bytes(text@) <= usize::MAX,
    ensures
        match id_range(text@) {
            Some((s, e)) => r == Some(
                (utf8_bytes(text@.take(s)) as usize, utf8_bytes(text@.take(e)) as usize),
            ),
            None => r is None,
        },
{
    let cs = chars_of(text);
    match split_chars(cs.as_slice()) {
        Some((s, e)) => {
            let sl = cs.as_slice();
            assert(sl@ == cs@);
            Some(byte_offsets(sl, s, e))
        },
        None => None,
    }
}

/// Splits a label into spans with its object id dimmed.
pub fn spans_with_dimmed_object_id(text: String, tone: Tone) -> (r: Vec<Span>)
    ensures
        row_view(r@) == dimmed_spans(text@, tone),
{
    let cs = chars_of(text.as_str());
    let sl = cs.as_slice();
    let n = sl.len();
    let mut out: Vec<Span> = Vec::new();
    match split_chars(sl) {
        Some((s, e)) => {
            out.push(Span { text: string_range(sl, 0, s), tone });
            out.push(Span { text: string_range(sl, s, e), tone: Tone::ObjectId });
            out.push(Span { text: string_range(sl, e, n), tone });
        },
        None => {
            out.push(Span { text, tone });
        },
    }
    assert(row_view(out@) =~= dimmed_spans(text@, tone));
    out
}

fn label_row_spans(indent: &str, toggle: &str, blank: bool, label: String, tone: Tone) -> (r: Vec<Span>)
    ensures
        row_view(r@) == label_spans(indent@, toggle@, blank, label@, tone),
{
    let mut out: Vec<Span> = Vec::new();
    out.push(Span { text: string_of(indent), tone: Tone::Plain });
    out.push(Span { text: string_of(toggle), tone: if blank { tone } else { Tone::Expand } });
    let ghost head = row_view(out@);
    let rest = spans_with_dimmed_object_id(label, tone);
    let ghost tail = row_view(rest@);
    let mut rest = rest;
    out.append(&mut rest);
    assert(row_view(out@) =~= head + tail);
    out
}

fn toggle_str(phase: Option<ExpansionPhase>) -> (r: &'static str)
    ensures
        r@ == phase_toggle(phase),
{
    match phase {
        Some(ExpansionPhase::Expanded) => "- ",
        Some(ExpansionPhase::Loading) => "- ",
        Some(ExpansionPhase::Failed) => "! ",
        Some(ExpansionPhase::Collapsed) => "+ ",
        None => "  ",
    }
}

fn is_open_exec(phase: Option<ExpansionPhase>) -> (r: bool)
    ensures
        r == is_open(phase),
{
    match phase {
        Some(ExpansionPhase::Expanded) => true,
        Some(ExpansionPhase::Loading) => true,
        _ => false,
    }
}

fn is_failed(phase: Option<ExpansionPhase>) -> (r: bool)
    ensures
        r == (phase == Some(ExpansionPhase::Failed)),
{
    match phase {
        Some(ExpansionPhase::Failed) => true,
        _ => false,
    }
}

fn is_collapsed(phase: Option<ExpansionPhase>) -> (r: bool)
    ensures
        r == (phase == Some(ExpansionPhase::Collapsed)),
{
    match phase {
        Some(ExpansionPhase::Collapsed) => true,
        _ => false,
    }
}

fn seq_has(v: &Vec<u64>, x: u64) -> (r: bool)
    ensures
        r == v@.contains(x),
{
    let mut i: usize = 0;
    while i < v.len()
        invariant
            i <= v@.len(),
            forall|j: int| 0 <= j < i ==> v@[j] != x,
        decreases v@.len() - i,
    {
        if v[i] == x {
            assert(v@[i as int] == x);
            return true;
        }
        i = i + 1;
    }
    false
}

impl<'a> TreeSource<'a> {
    fn phase_of(&self, id: u64) -> (r: ExpansionPhase)
        ensures
            r == phase_of(self.ctx(), id),
    {
        match self.object_phases.get(&id) {
            Some(p) => *p,
            None => ExpansionPhase::Collapsed,
        }
    }

    fn phase_at(&self, id: u64, p: &NavigationPath) -> (r: ExpansionPhase)
        ensures
            r == phase_at(self.ctx(), id, p@),
    {
        if self.local_collapsed.contains(p) {
            ExpansionPhase::Collapsed
        } else {
            self.phase_of(id)
        }
    }

    fn ref_state(&self, id: u64, ec: Option<u64>, p: &NavigationPath) -> (r: (Option<ExpansionPhase>, bool))
        ensures
            r == ref_state(self.ctx(), id, ec, p@),
    {
        if ec.is_some() && self.collection_chunks.contains_key(&id) {
            if self.options.snapshot_mode {
                (Some(self.phase_at(id, p)), false)
            } else {
                (Some(ExpansionPhase::Expanded), false)
            }
        } else if self.object_fields.contains_key(&id) || self.object_static_fields.contains_key(&id)
            || self.object_phases.contains_key(&id) || !self.options.snapshot_mode {
            (Some(self.phase_at(id, p)), false)
        } else {
            (None, true)
        }
    }

    fn coll_ref(&self, ec: Option<u64>, id: u64) -> (r: bool)
        ensures
            r == coll_ref(self.ctx(), ec, id),
    {
        ec.is_some() && (self.collection_chunks.contains_key(&id) || self.path_phases.is_some())
    }

    fn coll_open(&self, ph: Option<ExpansionPhase>, id: u64, p: &NavigationPath) -> (r: bool)
        ensures
            r == coll_open(self.ctx(), ph, id, p@),
    {
        match self.path_phases {
            None => is_open_exec(ph),
            Some(pp) => self.collection_chunks.contains_key(&id) && match pp.get(p) {
                Some(ExpansionPhase::Expanded) => true,
                _ => false,
            },
        }
    }

    fn below_depth(&self, depth: usize) -> (r: usize)
        ensures
            r == below_depth(self.ctx(), depth as int),
    {
        if self.path_phases.is_some() {
            0
        } else {
            depth
        }
    }

    fn field_state(&self, fld: &FieldInfo, static_scope: bool, p: &NavigationPath) -> (r: (Option<ExpansionPhase>, bool))
        ensures
            r == field_state(self.ctx(), *fld, static_scope, p@),
    {
        match &fld.value {
            FieldValue::ObjectRef { id, entry_count, .. } => {
                let st = self.ref_state(*id, *entry_count, p);
                if static_scope && st.1 {
                    (Some(self.phase_at(*id, p)), false)
                } else {
                    st
                }
            },
            _ => (None, false),
        }
    }

    fn push_failed_label(&self, out: &mut String, class_name: &str, id: u64)
        ensures
            final(out)@ == old(out)@ + failed_label(class_name@, err_text(self.ctx(), id)),
    {
        push_short_class(out, class_name);
        push_str(out, FAILED_LABEL_SEP);
        match self.object_errors.get(&id) {
            Some(e) => push_str(out, e.as_str()),
            None => push_str(out, "Failed to resolve object"),
        }
        assert(final(out)@ =~= old(out)@ + failed_label(class_name@, err_text(self.ctx(), id)));
    }

    fn field_row(&self, fld: &FieldInfo, indent: &str, static_scope: bool, p: &NavigationPath, hk: Option<HideKey>) -> (r: TreeRow)
        ensures
            row_info(r) == field_row(self.ctx(), *fld, indent@, static_scope, p@, hk),
    {
        let st = self.field_state(fld, static_scope, p);
        let cp = st.0;
        let cu = st.1;
        let failed = is_failed(cp);
        let tone = if cu {
            Tone::Null
        } else if failed {
            Tone::Error
        } else {
            field_value_style(&fld.value)
        };
        let mut label = String::new();
        push_str(&mut label, fld.name.as_str());
        push_str(&mut label, ": ");
        let mut avail = false;
        let mut kind: Option<(u64, bool)> = None;
        match &fld.value {
            FieldValue::ObjectRef { id, class_name, entry_count, .. } => {
                if failed {
                    self.push_failed_label(&mut label, class_name.as_str(), *id);
                } else {
                    push_value_text(&mut label, &fld.value, cp, self.options.show_object_ids);
                }
                avail = !self.ref_state(*id, *entry_count, p).1;
                if avail {
                    kind = Some((*id, is_collapsed(cp)));
                }
            },
            _ => push_value_text(&mut label, &fld.value, cp, self.options.show_object_ids),
        }
        let toggle: &str = if cu {
            "? "
        } else {
            toggle_str(cp)
        };
        let blank = !cu && cp.is_none();
        let ghost lv = label@;
        let spans = label_row_spans(indent, toggle, blank, label, tone);
        let r = TreeRow {
            spans,
            path: if avail {
                Some(p.duplicate())
            } else {
                None
            },
            kind,
            field: match hk {
                Some(k) => Some((k, false)),
                None => None,
            },
        };
        assert(lv =~= fld.name@ + ": "@ + (match fld.value {
            FieldValue::ObjectRef { id, class_name, .. } => if cp == Some(ExpansionPhase::Failed) {
                failed_label(class_name@, err_text(self.ctx(), id))
            } else {
                value_text(fld.value, cp, self.ctx().show_ids)
            },
            _ => value_text(fld.value, cp, self.ctx().show_ids),
        }));
        r
    }
    fn var_row(&self, v: &VariableInfo, indent: &str, p: &NavigationPath, k: HideKey) -> (r: TreeRow)
        ensures
            row_info(r) == var_row(self.ctx(), *v, indent@, p@, k),
    {
        let mut label = String::new();
        push_str(&mut label, "[");
        push_decimal(&mut label, v.index as u64);
        push_str(&mut label, "] ");
        let ghost head = label@;
        match &v.value {
            VariableValue::Null => {
                push_str(&mut label, "null");
                let spans = label_row_spans(indent, "  ", true, label, Tone::Plain);
                let r = TreeRow { spans, path: None, kind: None, field: Some((k, false)) };
                r
            },
            VariableValue::ObjectRef { id, class_name, entry_count } => {
                let st = self.ref_state(*id, *entry_count, p);
                let phase = match st.0 {
                    Some(ph) => ph,
                    None => ExpansionPhase::Collapsed,
                };
                let failed = match phase {
                    ExpansionPhase::Failed => true,
                    _ => false,
                };
                let collapsed = match phase {
                    ExpansionPhase::Collapsed => true,
                    _ => false,
                };
                let toggle: &str = if st.1 {
                    "? "
                } else if failed {
                    "! "
                } else if collapsed {
                    "+ "
                } else {
                    "- "
                };
                if !st.1 && failed {
                    self.push_failed_label(&mut label, class_name.as_str(), *id);
                } else {
                    push_str(&mut label, "local variable: ");
                    push_collapsed_label(
                        &mut label,
                        class_name.as_str(),
                        *entry_count,
                        self.options.show_object_ids,
                        *id,
                    );
                }
                let tone = if st.1 {
                    Tone::Null
                } else if failed {
                    Tone::Error
                } else {
                    Tone::Plain
                };
                let ghost lv = label@;
                let spans = label_row_spans(indent, toggle, false, label, tone);
                let r = TreeRow {
                    spans,
                    path: if st.1 {
                        None
                    } else {
                        Some(p.duplicate())
                    },
                    kind: if st.1 {
                        None
                    } else {
                        Some((*id, collapsed))
                    },
                    field: Some((k, false)),
                };
                assert(lv =~= head + (if !st.1 && phase == ExpansionPhase::Failed {
                    failed_label(class_name@, err_text(self.ctx(), *id))
                } else {
                    "local variable: "@ + collapsed_label(class_name@, *entry_count, self.ctx().show_ids, *id)
                }));
                r
            },
        }
    }

    fn entry_row(&self, e: &EntryInfo, indent: &str, ep: &NavigationPath) -> (r: TreeRow)
        ensures
            row_info(r) == entry_row(self.ctx(), *e, indent@, ep@),
    {
        let st = match &e.value {
            FieldValue::ObjectRef { id, entry_count, .. } => self.ref_state(*id, *entry_count, ep),
            _ => (None, false),
        };
        let vp = st.0;
        let vu = st.1;
        let failed = is_failed(vp);
        let mut head = String::new();
        push_str(&mut head, "[");
        push_decimal(&mut head, e.index as u64);
        push_str(&mut head, "] ");
        let mut key_part = String::new();
        match &e.key {
            Some(k) => {
                push_value_text(&mut key_part, k, None, false);
                push_str(&mut key_part, " => ");
            },
            None => {},
        }
        let ghost kp = key_part@;
        assert(kp =~= (match e.key {
            Some(k) => value_text(k, None, false) + " => "@,
            None => Seq::empty(),
        }));
        let mut avail = false;
        let mut kind: Option<(u64, bool)> = None;
        let text = match &e.value {
            FieldValue::ObjectRef { id, class_name, .. } => {
                avail = !vu;
                if avail {
                    kind = Some((*id, is_collapsed(vp)));
                }
                if failed {
                    let mut t = string_of(indent);
                    push_str(&mut t, "! ");
                    push_str(&mut t, head.as_str());
                    push_str(&mut t, key_part.as_str());
                    self.push_failed_label(&mut t, class_name.as_str(), *id);
                    t
                } else if vu {
                    let mut t = string_of(indent);
                    push_str(&mut t, "? ");
                    push_str(&mut t, head.as_str());
                    push_str(&mut t, key_part.as_str());
                    push_value_text(&mut t, &e.value, None, self.options.show_object_ids);
                    t
                } else {
                    format_entry_line(e, indent, vp, self.options.show_object_ids)
                }
            },
            _ => format_entry_line(e, indent, vp, self.options.show_object_ids),
        };
        let tone = if vu {
            Tone::Null
        } else if failed {
            Tone::Error
        } else {
            field_value_style(&e.value)
        };
        let ghost tv = text@;
        let mut spans: Vec<Span> = Vec::new();
        spans.push(Span { text, tone });
        let r = TreeRow {
            spans,
            path: if avail {
                Some(ep.duplicate())
            } else {
                None
            },
            kind,
            field: None,
        };
        assert(row_view(r.spans@) =~= seq![(tv, tone)]);
        r
    }
}

fn hidden_row_exec(indent: &str, label: String, k: HideKey) -> (r: TreeRow)
    ensures
        row_info(r) == hidden_row(indent@, label@, k),
{
    let mut t = string_of(indent);
    push_str(&mut t, "  ");
    push_str(&mut t, label.as_str());
    push_str(&mut t, " (hidden)");
    let ghost tv = t@;
    let mut spans: Vec<Span> = Vec::new();
    spans.push(Span { text: t, tone: Tone::Null });
    let r = TreeRow { spans, path: None, kind: None, field: Some((k, true)) };
    assert(row_view(r.spans@) =~= seq![(tv, Tone::Null)]);
    r
}

fn cyclic_row_exec(indent: &str, name: &str, class_name: &str, id: u64, self_ref: bool) -> (r: TreeRow)
    ensures
        row_info(r) == cyclic_row(indent@, name@, class_name@, id, self_ref),
{
    let mut t = string_of(indent);
    push_str(&mut t, "  ");
    push_str(&mut t, name);
    push_str(&mut t, ": \u{21BB} ");
    push_short_name(&mut t, class_name);
    push_str(&mut t, " @ 0x");
    push_hex(&mut t, id);
    push_str(&mut t, " [");
    if self_ref {
        push_str(&mut t, "self-ref");
    } else {
        push_str(&mut t, "cyclic");
    }
    push_str(&mut t, "]");
    let ghost tv = t@;
    assert(tv =~= indent@ + "  "@ + name@ + ": \u{21BB} "@ + short_name(class_name@) + " @ 0x"@
        + hex_upper(id as nat) + " ["@ + (if self_ref {
        "self-ref"@
    } else {
        "cyclic"@
    }) + "]"@);
    plain(t, Tone::Cyclic)
}

fn section_row_exec(indent: &str, off: usize, lim: usize, st: Option<&ChunkState>) -> (r: TreeRow)
    requires
        1 <= lim,
        off + lim <= usize::MAX,
    ensures
        row_info(r) == section_row(
            indent@,
            off,
            lim,
            match st {
                Some(c) => Some(*c),
                None => None,
            },
        ),
{
    let mut range = String::new();
    push_str(&mut range, "[");
    push_decimal(&mut range, off as u64);
    push_str(&mut range, "...");
    push_decimal(&mut range, (off + lim - 1) as u64);
    push_str(&mut range, "]");
    let mut t = string_of(indent);
    let tone = match st {
        Some(ChunkState::Loading) => {
            push_str(&mut t, "~ ");
            push_str(&mut t, "Loading ");
            Tone::Loading
        },
        Some(ChunkState::Loaded(_)) => {
            push_str(&mut t, "- ");
            Tone::Expand
        },
        _ => {
            push_str(&mut t, "+ ");
            Tone::Expand
        },
    };
    push_str(&mut t, range.as_str());
    plain(t, tone)
}

// ── exec: the walk ─────────────────────────────────────────────────

fn indent_plus(indent: &str, extra: &str) -> (r: String)
    ensures
        r@ == indent@ + extra@,
{
    cat_str(indent, extra)
}

impl<'a> TreeSource<'a> {
    fn obj_rows(&self, fuel: u64, oid: u64, indent: &str, depth: usize, vis: &mut Vec<u64>, k: FieldScope, p: &NavigationPath, out: &mut Vec<TreeRow>) -> (ok: bool)
        requires
            path_well_formed(p@),
            p@.len() >= 2,
        ensures
            final(vis)@ == old(vis)@,
            ok == obj_rows(fuel as nat, self.ctx(), oid, indent@, depth as int, old(vis)@, k, p@) is Some,
            ok ==> rows_info(final(out)@) == rows_info(old(out)@) + obj_rows(
                fuel as nat,
                self.ctx(),
                oid,
                indent@,
                depth as int,
                old(vis)@,
                k,
                p@,
            ).unwrap(),
        decreases fuel, 5int, 0int,
    {
        let ghost f: nat = fuel as nat;
        let ghost c = self.ctx();
        let ghost total = obj_rows(f, c, oid, indent@, depth as int, vis@, k, p@);
        if depth >= 16 {
            assert(rows_info(out@) =~= rows_info(old(out)@) + total.unwrap());
            return true;
        }
        match self.phase_at(oid, p) {
            ExpansionPhase::Loading => {
                push_row(out, plain(indent_plus(indent, "~ Loading..."), Tone::Loading));
                assert(rows_info(out@) =~= rows_info(old(out)@) + total.unwrap());
                true
            },
            ExpansionPhase::Expanded => {
                let empty: Vec<FieldInfo> = Vec::new();
                let fl: &Vec<FieldInfo> = match self.object_fields.get(&oid) {
                    Some(v) => v,
                    None => &empty,
                };
                assert(fl@ == fields_at(c, oid));
                let ghost mid = rows_info(out@);
                let ghost b = if fl@.len() == 0 {
                    Some(seq![plain_row(indent@ + "(no fields)"@, Tone::Null)])
                } else {
                    field_list(f, c, oid, fl@, 0, indent@, depth as int, old(vis)@.push(oid), k, p@)
                };
                let ghost st = if k != FieldScope::Static {
                    static_rows(f, c, oid, indent@, depth as int, p@)
                } else {
                    none_rows()
                };
                assert(total == cat(b, st));
                if fl.len() == 0 {
                    push_row(out, plain(indent_plus(indent, "(no fields)"), Tone::Null));
                } else {
                    vis.push(oid);
                    let ok1 = self.field_list(fuel, oid, fl.as_slice(), indent, depth, vis, k, p, out);
                    vis.pop();
                    assert(vis@ =~= old(vis)@);
                    if !ok1 {
                        return false;
                    }
                }
                let ghost after_body = rows_info(out@);
                assert(after_body =~= mid + b.unwrap());
                if k != FieldScope::Static {
                    let ok2 = self.static_rows(fuel, oid, indent, depth, p, out);
                    if !ok2 {
                        return false;
                    }
                }
                assert(rows_info(out@) =~= after_body + st.unwrap());
                assert(rows_info(out@) =~= rows_info(old(out)@) + total.unwrap());
                true
            },
            _ => {
                assert(rows_info(out@) =~= rows_info(old(out)@) + total.unwrap());
                true
            },
        }
    }

    fn field_list(&self, fuel: u64, oid: u64, fl: &[FieldInfo], indent: &str, depth: usize, vis: &mut Vec<u64>, k: FieldScope, p: &NavigationPath, out: &mut Vec<TreeRow>) -> (ok: bool)
        requires
            path_well_formed(p@),
            p@.len() >= 2,
            depth < 16,
        ensures
            final(vis)@ == old(vis)@,
            ok == field_list(fuel as nat, self.ctx(), oid, fl@, 0, indent@, depth as int, old(vis)@, k, p@) is Some,
            ok ==> rows_info(final(out)@) == rows_info(old(out)@) + field_list(
                fuel as nat,
                self.ctx(),
                oid,
                fl@,
                0,
                indent@,
                depth as int,
                old(vis)@,
                k,
                p@,
            ).unwrap(),
        decreases fuel, 4int, 0int,
    {
        let ghost f: nat = fuel as nat;
        let ghost c = self.ctx();
        let ghost v0 = vis@;
        let ghost whole = field_list(f, c, oid, fl@, 0, indent@, depth as int, v0, k, p@);
        let ghost base = rows_info(old(out)@);
        let mut i: usize = 0;
        while i < fl.len()
            invariant
                c == self.ctx(),
                f == fuel as nat,
                path_well_formed(p@),
                p@.len() >= 2,
                depth < 16,
                i <= fl@.len(),
                vis@ == v0,
                v0 == old(vis)@,
                base == rows_info(old(out)@),
                whole == field_list(f, c, oid, fl@, 0, indent@, depth as int, v0, k, p@),
                (whole is Some) == (field_list(f, c, oid, fl@, i as int, indent@, depth as int, v0, k, p@) is Some),
                field_list(f, c, oid, fl@, i as int, indent@, depth as int, v0, k, p@) is Some ==> rows_info(out@)
                    + field_list(f, c, oid, fl@, i as int, indent@, depth as int, v0, k, p@).unwrap() == base + whole.unwrap(),
            decreases fl@.len() - i,
        {
            let ghost before = rows_info(out@);
            let ghost here = field_entry(f, c, oid, fl@[i as int], i as int, indent@, depth as int, v0, k, p@);
            let ghost rest = field_list(f, c, oid, fl@, i + 1, indent@, depth as int, v0, k, p@);
            assert(field_list(f, c, oid, fl@, i as int, indent@, depth as int, v0, k, p@) == cat(here, rest));
            let ok = self.field_entry(fuel, oid, &fl[i], i, indent, depth, vis, k, p, out);
            if !ok {
                return false;
            }
            assert(rest is Some ==> rows_info(out@) + rest.unwrap() =~= before + (here.unwrap() + rest.unwrap()));
            i = i + 1;
        }
        assert(rows_info(out@) =~= base + whole.unwrap());
        true
    }

    fn field_entry(&self, fuel: u64, oid: u64, fld: &FieldInfo, fi: usize, indent: &str, depth: usize, vis: &mut Vec<u64>, k: FieldScope, p: &NavigationPath, out: &mut Vec<TreeRow>) -> (ok: bool)
        requires
            path_well_formed(p@),
            p@.len() >= 2,
            depth < 16,
        ensures
            final(vis)@ == old(vis)@,
            ok == field_entry(fuel as nat, self.ctx(), oid, *fld, fi as int, indent@, depth as int, old(vis)@, k, p@) is Some,
            ok ==> rows_info(final(out)@) == rows_info(old(out)@) + field_entry(
                fuel as nat,
                self.ctx(),
                oid,
                *fld,
                fi as int,
                indent@,
                depth as int,
                old(vis)@,
                k,
                p@,
            ).unwrap(),
        decreases fuel, 2int, 0int,
    {
        let ghost f: nat = fuel as nat;
        let ghost c = self.ctx();
        let ghost total = field_entry(f, c, oid, *fld, fi as int, indent@, depth as int, vis@, k, p@);
        let hk = HideKey::Field { parent_id: oid, field_idx: fi };
        if k == FieldScope::Object && self.hidden_fields.contains(&hk) {
            if self.options.show_hidden {
                push_row(out, hidden_row_exec(indent, string_of(fld.name.as_str()), hk));
            }
            assert(rows_info(out@) =~= rows_info(old(out)@) + total.unwrap());
            return true;
        }
        let hko = if k == FieldScope::Object {
            Some(hk)
        } else {
            None
        };
        match &fld.value {
            FieldValue::ObjectRef { id, class_name, entry_count, .. } => {
                if seq_has(vis, *id) {
                    push_row(out, cyclic_row_exec(indent, fld.name.as_str(), class_name.as_str(), *id, *id == oid));
                    assert(rows_info(out@) =~= rows_info(old(out)@) + total.unwrap());
                    return true;
                }
                let cp = child_field(p, fi);
                let static_scope = k == FieldScope::Static;
                let row = self.field_row(fld, indent, static_scope, &cp, hko);
                push_row(out, row);
                let st = self.field_state(fld, static_scope, &cp);
                if st.1 {
                    assert(rows_info(out@) =~= rows_info(old(out)@) + total.unwrap());
                    return true;
                }
                let ci = indent_plus(indent, "  ");
                if self.coll_ref(*entry_count, *id) {
                    if self.coll_open(st.0, *id, &cp) {
                        if fuel == 0 {
                            return false;
                        }
                        let mut vc: Vec<u64> = Vec::new();
                        assert(vc@ =~= Seq::<u64>::empty());
                        let ok = self.coll_rows(fuel - 1, *id, ci.as_str(), depth, &cp, &mut vc, out);
                        if !ok {
                            return false;
                        }
                    }
                } else {
                    if fuel == 0 {
                        return false;
                    }
                    let ok = self.obj_rows(fuel - 1, *id, ci.as_str(), depth + 1, vis, k, &cp, out);
                    if !ok {
                        return false;
                    }
                }
                assert(rows_info(out@) =~= rows_info(old(out)@) + total.unwrap());
                true
            },
            _ => {
                let cp = child_field(p, fi);
                let row = self.field_row(fld, indent, k == FieldScope::Static, &cp, hko);
                push_row(out, row);
                assert(rows_info(out@) =~= rows_info(old(out)@) + total.unwrap());
                true
            },
        }
    }

    fn static_rows(&self, fuel: u64, oid: u64, indent: &str, depth: usize, p: &NavigationPath, out: &mut Vec<TreeRow>) -> (ok: bool)
        requires
            path_well_formed(p@),
            p@.len() >= 2,
        ensures
            ok == static_rows(fuel as nat, self.ctx(), oid, indent@, depth as int, p@) is Some,
            ok ==> rows_info(final(out)@) == rows_info(old(out)@) + static_rows(
                fuel as nat,
                self.ctx(),
                oid,
                indent@,
                depth as int,
                p@,
            ).unwrap(),
        decreases fuel, 4int, 0int,
    {
        let ghost f: nat = fuel as nat;
        let ghost c = self.ctx();
        let ghost total = static_rows(f, c, oid, indent@, depth as int, p@);
        let sf: &Vec<FieldInfo> = match self.object_static_fields.get(&oid) {
            Some(v) => v,
            None => {
                assert(rows_info(out@) =~= rows_info(old(out)@) + total.unwrap());
                return true;
            },
        };
        assert(sf@ == statics_at(c, oid));
        if sf.len() == 0 {
            assert(rows_info(out@) =~= rows_info(old(out)@) + total.unwrap());
            return true;
        }
        let shown: usize = if sf.len() < STATIC_FIELDS_RENDER_LIMIT {
            sf.len()
        } else {
            STATIC_FIELDS_RENDER_LIMIT
        };
        push_row(out, plain(indent_plus(indent, "[static]"), Tone::Null));
        let ghost start = rows_info(out@);
        let ghost list = static_list(f, c, sf@, 0, shown as int, indent@, depth as int, p@);
        let mut i: usize = 0;
        while i < shown
            invariant
                c == self.ctx(),
                f == fuel as nat,
                path_well_formed(p@),
                p@.len() >= 2,
                i <= shown <= sf@.len(),
                list == static_list(f, c, sf@, 0, shown as int, indent@, depth as int, p@),
                static_rows(f, c, oid, indent@, depth as int, p@) is Some ==> list is Some,
                (list is Some) == (static_list(f, c, sf@, i as int, shown as int, indent@, depth as int, p@) is Some),
                static_list(f, c, sf@, i as int, shown as int, indent@, depth as int, p@) is Some ==> rows_info(out@)
                    + static_list(f, c, sf@, i as int, shown as int, indent@, depth as int, p@).unwrap() == start
                    + list.unwrap(),
            decreases shown - i,
        {
            let ghost before = rows_info(out@);
            let ghost here = static_entry(f, c, sf@[i as int], i as int, indent@, depth as int, p@);
            let ghost rest = static_list(f, c, sf@, i + 1, shown as int, indent@, depth as int, p@);
            assert(static_list(f, c, sf@, i as int, shown as int, indent@, depth as int, p@) == cat(here, rest));
            let ok = self.static_entry(fuel, &sf[i], i, indent, depth, p, out);
            if !ok {
                return false;
            }
            assert(rest is Some ==> rows_info(out@) + rest.unwrap() =~= before + (here.unwrap() + rest.unwrap()));
            i = i + 1;
        }
        assert(rows_info(out@) =~= start + list.unwrap());
        if sf.len() > shown {
            let mut t = string_of(indent);
            push_str(&mut t, "  [+");
            push_decimal(&mut t, (sf.len() - shown) as u64);
            push_str(&mut t, " more static fields]");
            push_row(out, plain(t, Tone::Null));
        }
        assert(rows_info(out@) =~= rows_info(old(out)@) + total.unwrap());
        true
    }

    fn static_entry(&self, fuel: u64, fld: &FieldInfo, si: usize, indent: &str, depth: usize, p: &NavigationPath, out: &mut Vec<TreeRow>) -> (ok: bool)
        requires
            path_well_formed(p@),
            p@.len() >= 2,
        ensures
            ok == static_entry(fuel as nat, self.ctx(), *fld, si as int, indent@, depth as int, p@) is Some,
            ok ==> rows_info(final(out)@) == rows_info(old(out)@) + static_entry(
                fuel as nat,
                self.ctx(),
                *fld,
                si as int,
                indent@,
                depth as int,
                p@,
            ).unwrap(),
        decreases fuel, 2int, 0int,
    {
        let ghost f: nat = fuel as nat;
        let ghost c = self.ctx();
        let ghost total = static_entry(f, c, *fld, si as int, indent@, depth as int, p@);
        let sp = child_static(p, si);
        let fi = indent_plus(indent, "  ");
        let row = self.field_row(fld, fi.as_str(), true, &sp, None);
        push_row(out, row);
        let st = self.field_state(fld, true, &sp);
        match &fld.value {
            FieldValue::ObjectRef { id, entry_count, .. } => {
                let ci = indent_plus(indent, "    ");
                if self.coll_ref(*entry_count, *id) {
                    if self.coll_open(st.0, *id, &sp) {
                        if fuel == 0 {
                            return false;
                        }
                        let mut vc: Vec<u64> = Vec::new();
                        assert(vc@ =~= Seq::<u64>::empty());
                        let ok = self.coll_rows(fuel - 1, *id, ci.as_str(), depth, &sp, &mut vc, out);
                        if !ok {
                            return false;
                        }
                    }
                } else {
                    if fuel == 0 {
                        return false;
                    }
                    let mut vis: Vec<u64> = Vec::new();
                    assert(vis@ =~= Seq::<u64>::empty());
                    let bd = self.below_depth(depth);
                    let ok = self.obj_rows(fuel - 1, *id, ci.as_str(), bd, &mut vis, FieldScope::Static, &sp, out);
                    if !ok {
                        return false;
                    }
                }
            },
            _ => {},
        }
        assert(rows_info(out@) =~= rows_info(old(out)@) + total.unwrap());
        true
    }

    fn coll_rows(&self, fuel: u64, cid: u64, indent: &str, depth: usize, p: &NavigationPath, vc: &mut Vec<u64>, out: &mut Vec<TreeRow>) -> (ok: bool)
        requires
            path_well_formed(p@),
            p@.len() >= 2,
        ensures
            final(vc)@ == old(vc)@,
            ok == coll_rows(fuel as nat, self.ctx(), cid, indent@, depth as int, p@, old(vc)@) is Some,
            ok ==> rows_info(final(out)@) == rows_info(old(out)@) + coll_rows(
                fuel as nat,
                self.ctx(),
                cid,
                indent@,
                depth as int,
                p@,
                old(vc)@,
            ).unwrap(),
        decreases fuel, 5int, 0int,
    {
        let ghost f: nat = fuel as nat;
        let ghost c = self.ctx();
        let ghost total = coll_rows(f, c, cid, indent@, depth as int, p@, vc@);
        if depth >= 16 || (self.path_phases.is_none() && seq_has(vc, cid)) {
            assert(rows_info(out@) =~= rows_info(old(out)@) + total.unwrap());
            return true;
        }
        let cc: &CollectionChunks = match self.collection_chunks.get(&cid) {
            Some(cc) => cc,
            None => {
                assert(rows_info(out@) =~= rows_info(old(out)@) + total.unwrap());
                return true;
            },
        };
        let ghost v0 = vc@;
        let ghost ccv = c.chunks[cid];
        let ghost eager = match ccv.eager_page {
            Some(pg) => entry_list(f, c, cid, pg.entries@, 0, indent@, depth as int, p@, v0.push(cid)),
            None => none_rows(),
        };
        vc.push(cid);
        let ghost start = rows_info(out@);
        match &cc.eager_page {
            Some(pg) => {
                let ok1 = self.entry_list(fuel, cid, pg.entries.as_slice(), indent, depth, p, vc, out);
                if !ok1 {
                    vc.pop();
                    assert(vc@ =~= v0);
                    return false;
                }
            },
            None => {},
        }
        let ghost mid = rows_info(out@);
        assert(mid =~= start + eager.unwrap());
        let rs = compute_chunk_ranges(cc.total_count);
        let ok2 = self.sections(fuel, cid, cc, rs.as_slice(), indent, depth, p, vc, out);
        vc.pop();
        assert(vc@ =~= v0);
        if !ok2 {
            return false;
        }
        assert(rows_info(out@) =~= rows_info(old(out)@) + total.unwrap());
        true
    }

    fn sections(&self, fuel: u64, cid: u64, cc: &CollectionChunks, rs: &[(usize, usize)], indent: &str, depth: usize, p: &NavigationPath, vc: &mut Vec<u64>, out: &mut Vec<TreeRow>) -> (ok: bool)
        requires
            path_well_formed(p@),
            p@.len() >= 2,
            self.ctx().chunks.contains_key(cid),
            self.ctx().chunks[cid] == *cc,
            rs@ == chunk_ranges_spec((cc.total_count as usize) as nat),
        ensures
            final(vc)@ == old(vc)@,
            ok == sections(fuel as nat, self.ctx(), cid, rs@, 0, indent@, depth as int, p@, old(vc)@) is Some,
            ok ==> rows_info(final(out)@) == rows_info(old(out)@) + sections(
                fuel as nat,
                self.ctx(),
                cid,
                rs@,
                0,
                indent@,
                depth as int,
                p@,
                old(vc)@,
            ).unwrap(),
        decreases fuel, 4int, 0int,
    {
        let ghost f: nat = fuel as nat;
        let ghost c = self.ctx();
        let ghost v0 = vc@;
        let ghost whole = sections(f, c, cid, rs@, 0, indent@, depth as int, p@, v0);
        let ghost base = rows_info(old(out)@);
        let total_n = cc.total_count as usize;
        if total_n > 100 {
            proof {
                crate::stack_view::chunks::lemma_chunk_ranges_tile(total_n);
            }
        }
        let mut j: usize = 0;
        while j < rs.len()
            invariant
                c == self.ctx(),
                f == fuel as nat,
                path_well_formed(p@),
                p@.len() >= 2,
                c.chunks.contains_key(cid),
                c.chunks[cid] == *cc,
                total_n == cc.total_count as usize,
                rs@ == chunk_ranges_spec(total_n as nat),
                rs@.len() > 0 ==> total_n > 100,
                total_n > 100 ==> forall|i: int|
                    0 <= i < rs@.len() ==> {
                        let (o, l) = #[trigger] rs@[i];
                        &&& l >= 1
                        &&& o + l <= total_n
                    },
                j <= rs@.len(),
                vc@ == v0,
                v0 == old(vc)@,
                base == rows_info(old(out)@),
                whole == sections(f, c, cid, rs@, 0, indent@, depth as int, p@, v0),
                (whole is Some) == (sections(f, c, cid, rs@, j as int, indent@, depth as int, p@, v0) is Some),
                sections(f, c, cid, rs@, j as int, indent@, depth as int, p@, v0) is Some ==> rows_info(out@)
                    + sections(f, c, cid, rs@, j as int, indent@, depth as int, p@, v0).unwrap() == base + whole.unwrap(),
            decreases rs@.len() - j,
        {
            let ghost before = rows_info(out@);
            let ghost rest = sections(f, c, cid, rs@, j + 1, indent@, depth as int, p@, v0);
            let ghost cur = sections(f, c, cid, rs@, j as int, indent@, depth as int, p@, v0);
            let (off, lim) = rs[j];
            assert(rs@[j as int] == (off, lim));
            let st = cc.chunk_pages.get(off);
            match st {
                Some(ChunkState::Loaded(pg)) => {
                    push_row(out, section_row_exec(indent, off, lim, st));
                    let ok = self.entry_list(fuel, cid, pg.entries.as_slice(), indent, depth, p, vc, out);
                    if !ok {
                        return false;
                    }
                },
                _ => {
                    if !self.options.snapshot_mode {
                        push_row(out, section_row_exec(indent, off, lim, st));
                    }
                },
            }
            assert(rest is Some ==> rows_info(out@) + rest.unwrap() =~= before + cur.unwrap());
            j = j + 1;
        }
        assert(rows_info(out@) =~= base + whole.unwrap());
        true
    }

    fn entry_list(&self, fuel: u64, cid: u64, es: &[EntryInfo], indent: &str, depth: usize, p: &NavigationPath, vc: &mut Vec<u64>, out: &mut Vec<TreeRow>) -> (ok: bool)
        requires
            path_well_formed(p@),
            p@.len() >= 2,
        ensures
            final(vc)@ == old(vc)@,
            ok == entry_list(fuel as nat, self.ctx(), cid, es@, 0, indent@, depth as int, p@, old(vc)@) is Some,
            ok ==> rows_info(final(out)@) == rows_info(old(out)@) + entry_list(
                fuel as nat,
                self.ctx(),
                cid,
                es@,
                0,
                indent@,
                depth as int,
                p@,
                old(vc)@,
            ).unwrap(),
        decreases fuel, 3int, 0int,
    {
        let ghost f: nat = fuel as nat;
        let ghost c = self.ctx();
        let ghost v0 = vc@;
        let ghost whole = entry_list(f, c, cid, es@, 0, indent@, depth as int, p@, v0);
        let ghost base = rows_info(old(out)@);
        let mut i: usize = 0;
        while i < es.len()
            invariant
                c == self.ctx(),
                f == fuel as nat,
                path_well_formed(p@),
                p@.len() >= 2,
                i <= es@.len(),
                vc@ == v0,
                v0 == old(vc)@,
                base == rows_info(old(out)@),
                whole == entry_list(f, c, cid, es@, 0, indent@, depth as int, p@, v0),
                (whole is Some) == (entry_list(f, c, cid, es@, i as int, indent@, depth as int, p@, v0) is Some),
                entry_list(f, c, cid, es@, i as int, indent@, depth as int, p@, v0) is Some ==> rows_info(out@)
                    + entry_list(f, c, cid, es@, i as int, indent@, depth as int, p@, v0).unwrap() == base + whole.unwrap(),
            decreases es@.len() - i,
        {
            let ghost before = rows_info(out@);
            let ghost here = entry_item(f, c, cid, es@[i as int], indent@, depth as int, p@, v0);
            let ghost rest = entry_list(f, c, cid, es@, i + 1, indent@, depth as int, p@, v0);
            assert(entry_list(f, c, cid, es@, i as int, indent@, depth as int, p@, v0) == cat(here, rest));
            let ok = self.entry_item(fuel, cid, &es[i], indent, depth, p, vc, out);
            if !ok {
                return false;
            }
            assert(rest is Some ==> rows_info(out@) + rest.unwrap() =~= before + (here.unwrap() + rest.unwrap()));
            i = i + 1;
        }
        assert(rows_info(out@) =~= base + whole.unwrap());
        true
    }

    fn entry_item(&self, fuel: u64, cid: u64, e: &EntryInfo, indent: &str, depth: usize, p: &NavigationPath, vc: &mut Vec<u64>, out: &mut Vec<TreeRow>) -> (ok: bool)
        requires
            path_well_formed(p@),
            p@.len() >= 2,
        ensures
            final(vc)@ == old(vc)@,
            ok == entry_item(fuel as nat, self.ctx(), cid, *e, indent@, depth as int, p@, old(vc)@) is Some,
            ok ==> rows_info(final(out)@) == rows_info(old(out)@) + entry_item(
                fuel as nat,
                self.ctx(),
                cid,
                *e,
                indent@,
                depth as int,
                p@,
                old(vc)@,
            ).unwrap(),
        decreases fuel, 2int, 0int,
    {
        let ghost f: nat = fuel as nat;
        let ghost c = self.ctx();
        let ghost total = entry_item(f, c, cid, *e, indent@, depth as int, p@, vc@);
        let ep = child_entry(p, cid, e.index);
        let row = self.entry_row(e, indent, &ep);
        push_row(out, row);
        match &e.value {
            FieldValue::ObjectRef { id, entry_count, .. } => {
                let st = self.ref_state(*id, *entry_count, &ep);
                if !st.1 {
                    let ci = indent_plus(indent, "  ");
                    if self.coll_ref(*entry_count, *id) && *id != cid {
                        if self.coll_open(st.0, *id, &ep) {
                            if fuel == 0 {
                                return false;
                            }
                            let ok = self.coll_rows(fuel - 1, *id, ci.as_str(), depth, &ep, vc, out);
                            if !ok {
                                return false;
                            }
                        }
                    } else {
                        if fuel == 0 {
                            return false;
                        }
                        let mut vis: Vec<u64> = Vec::new();
                        assert(vis@ =~= Seq::<u64>::empty());
                        let bd = self.below_depth(depth);
                        let ok = self.obj_rows(fuel - 1, *id, ci.as_str(), bd, &mut vis, FieldScope::Entry, &ep, out);
                        if !ok {
                            return false;
                        }
                    }
                }
            },
            _ => {},
        }
        assert(rows_info(out@) =~= rows_info(old(out)@) + total.unwrap());
        true
    }
}

impl<'a> TreeSource<'a> {
    fn var_children(&self, fuel: u64, v: &VariableInfo, indent: &str, p: &NavigationPath, out: &mut Vec<TreeRow>) -> (ok: bool)
        requires
            path_well_formed(p@),
            p@.len() >= 2,
        ensures
            ok == var_children(fuel as nat, self.ctx(), *v, indent@, p@) is Some,
            ok ==> rows_info(final(out)@) == rows_info(old(out)@) + var_children(fuel as nat, self.ctx(), *v, indent@, p@).unwrap(),
    {
        let ghost total = var_children(fuel as nat, self.ctx(), *v, indent@, p@);
        match &v.value {
            VariableValue::Null => {},
            VariableValue::ObjectRef { id, entry_count, .. } => {
                let st = self.ref_state(*id, *entry_count, p);
                if !st.1 {
                    let ci = indent_plus(indent, "  ");
                    if entry_count.is_some() {
                        if self.coll_open(st.0, *id, p) && self.collection_chunks.contains_key(id) {
                            let mut vc: Vec<u64> = Vec::new();
                            assert(vc@ =~= Seq::<u64>::empty());
                            let ok = self.coll_rows(fuel, *id, ci.as_str(), 0, p, &mut vc, out);
                            if !ok {
                                return false;
                            }
                        }
                    } else {
                        let mut vis: Vec<u64> = Vec::new();
                        assert(vis@ =~= Seq::<u64>::empty());
                        let ok = self.obj_rows(fuel, *id, ci.as_str(), 0, &mut vis, FieldScope::Object, p, out);
                        if !ok {
                            return false;
                        }
                    }
                }
            },
        }
        assert(rows_info(out@) =~= rows_info(old(out)@) + total.unwrap());
        true
    }

    fn var_list(&self, fuel: u64, vars: &[VariableInfo], frame_id: u64, indent: &str, out: &mut Vec<TreeRow>) -> (ok: bool)
        ensures
            ok == var_list(fuel as nat, self.ctx(), vars@, 0, frame_id, indent@) is Some,
            ok ==> rows_info(final(out)@) == rows_info(old(out)@) + var_list(fuel as nat, self.ctx(), vars@, 0, frame_id, indent@).unwrap(),
    {
        let ghost f: nat = fuel as nat;
        let ghost c = self.ctx();
        let ghost whole = var_list(f, c, vars@, 0, frame_id, indent@);
        let ghost base = rows_info(old(out)@);
        let mut i: usize = 0;
        while i < vars.len()
            invariant
                c == self.ctx(),
                f == fuel as nat,
                i <= vars@.len(),
                base == rows_info(old(out)@),
                whole == var_list(f, c, vars@, 0, frame_id, indent@),
                (whole is Some) == (var_list(f, c, vars@, i as int, frame_id, indent@) is Some),
                var_list(f, c, vars@, i as int, frame_id, indent@) is Some ==> rows_info(out@) + var_list(
                    f,
                    c,
                    vars@,
                    i as int,
                    frame_id,
                    indent@,
                ).unwrap() == base + whole.unwrap(),
            decreases vars@.len() - i,
        {
            let ghost before = rows_info(out@);
            let ghost rest = var_list(f, c, vars@, i + 1, frame_id, indent@);
            let ghost cur = var_list(f, c, vars@, i as int, frame_id, indent@);
            let v = &vars[i];
            let key = HideKey::Var(i);
            if self.hidden_fields.contains(&key) {
                if self.options.show_hidden {
                    let mut label = String::new();
                    push_str(&mut label, "[");
                    push_decimal(&mut label, v.index as u64);
                    push_str(&mut label, "]");
                    assert(label@ =~= "["@ + decimal(v.index as nat) + "]"@);
                    push_row(out, hidden_row_exec(indent, label, key));
                }
            } else {
                let p = NavigationPathBuilder::new(FrameId(frame_id), VarIdx(i)).build();
                assert(p@ =~= var_path(frame_id, i as int));
                let row = self.var_row(v, indent, &p, key);
                push_row(out, row);
                let ok = self.var_children(fuel, v, indent, &p, out);
                if !ok {
                    return false;
                }
            }
            assert(rest is Some ==> rows_info(out@) + rest.unwrap() =~= before + cur.unwrap());
            i = i + 1;
        }
        assert(rows_info(out@) =~= base + whole.unwrap());
        true
    }
}

/// Walks a tree into rows with their bookkeeping; `None` when the walk
/// runs out of its nesting budget.
pub fn walk_tree(src: &TreeSource, root: TreeRoot) -> (r: Option<Vec<TreeRow>>)
    ensures
        r is Some == renderable(src.ctx(), root_view(root)),
        r matches Some(rows) ==> rows_info(rows@) == tree_of(src.ctx(), root_view(root)),
{
    let ghost c = src.ctx();
    let ghost rv = root_view(root);
    let fuel = WALK_BUDGET;
    let mut out: Vec<TreeRow> = Vec::new();
    assert(rows_info(out@) =~= Seq::<RowInfo>::empty());
    let ok = match root {
        TreeRoot::Frame { vars, frame_id } => {
            if vars.len() == 0 {
                push_row(&mut out, plain(string_of("  (no locals)"), Tone::Null));
                true
            } else {
                src.var_list(fuel, vars, frame_id, "  ", &mut out)
            }
        },
        TreeRoot::Subtree { root_id } => {
            let rp = NavigationPathBuilder::new(FrameId(root_id), VarIdx(0)).build();
            assert(rp@ =~= var_path(root_id, 0));
            if src.collection_chunks.contains_key(&root_id) {
                let mut vc: Vec<u64> = Vec::new();
                assert(vc@ =~= Seq::<u64>::empty());
                src.coll_rows(fuel, root_id, "  ", 0, &rp, &mut vc, &mut out)
            } else {
                let mut vis: Vec<u64> = Vec::new();
                assert(vis@ =~= Seq::<u64>::empty());
                src.obj_rows(fuel, root_id, "  ", 0, &mut vis, FieldScope::Object, &rp, &mut out)
            }
        },
    };
    if ok {
        assert(rows_info(out@) =~= tree_of(c, rv));
        Some(out)
    } else {
        None
    }
}

/// The spans of the rows of a tree.
pub open spec fn tree_spans(c: TreeCtx, root: RootView) -> Seq<Seq<SpanView>> {
    tree_of(c, root).map_values(|r: RowInfo| r.spans)
}

/// The ghost image of a walk source built from its parts.
pub open spec fn source_ctx(
    object_fields: Map<u64, Vec<FieldInfo>>,
    object_static_fields: Map<u64, Vec<FieldInfo>>,
    collection_chunks: Map<u64, CollectionChunks>,
    object_phases: Map<u64, ExpansionPhase>,
    object_errors: Map<u64, String>,
    options: RenderOptions,
    hidden: Set<HideKey>,
    collapsed: Set<Seq<PathSegment>>,
) -> TreeCtx {
    TreeCtx {
        fields: object_fields,
        statics: object_static_fields,
        chunks: collection_chunks,
        phases: object_phases,
        errors: object_errors,
        show_ids: options.show_object_ids,
        snapshot: options.snapshot_mode,
        show_hidden: options.show_hidden,
        hidden,
        collapsed,
        paths: None,
    }
}

/// The styled rows of a tree walked over `src`.
pub fn render_tree_rows(src: &TreeSource, root: TreeRoot) -> (r: Vec<Vec<Span>>)
    requires
        renderable(src.ctx(), root_view(root)),
    ensures
        rows_view(r@) == tree_spans(src.ctx(), root_view(root)),
{
    let rows = match walk_tree(src, root) {
        Some(rows) => rows,
        None => {
            return Vec::new();
        },
    };
    let ghost iv = rows@;
    let ghost ri = rows_info(iv);
    let mut out: Vec<Vec<Span>> = Vec::new();
    for row in it: rows
        invariant
            it.seq() == iv,
            ri == rows_info(iv),
            rows_view(out@) == ri.take(it.index() as int).map_values(|r: RowInfo| r.spans),
    {
        let ghost k = it.index();
        assert(row == iv[k as int]);
        let ghost before = rows_view(out@);
        out.push(row.spans);
        assert(rows_view(out@) =~= before.push(ri[k as int].spans));
        assert(ri.take(k + 1).map_values(|r: RowInfo| r.spans) =~= ri.take(k as int).map_values(
            |r: RowInfo| r.spans,
        ).push(ri[k as int].spans));
    }
    assert(ri.take(iv.len() as int) =~= ri);
    assert(rows_view(out@) =~= ri.map_values(|r: RowInfo| r.spans));
    out
}

/// Renders a variable tree into styled rows.
///
/// No cursor is embedded: selection is the caller's. A frame root renders
/// its variables at indent two spaces (or `(no locals)`); a subtree root
/// renders the fields or entries of one object at indent two spaces.
pub fn render_variable_tree(
    root: TreeRoot,
    object_fields: &HashMap<u64, Vec<FieldInfo>>,
    object_static_fields: &HashMap<u64, Vec<FieldInfo>>,
    collection_chunks: &HashMap<u64, CollectionChunks>,
    object_phases: &HashMap<u64, ExpansionPhase>,
    object_errors: &HashMap<u64, String>,
    options: RenderOptions,
    hidden_fields: &KeySet<HideKey>,
    local_collapsed: &KeySet<NavigationPath>,
) -> (r: Vec<Vec<Span>>)
    requires
        renderable(
            source_ctx(
                object_fields@,
                object_static_fields@,
                collection_chunks@,
                object_phases@,
                object_errors@,
                options,
                hidden_fields.set(),
                local_collapsed.set(),
            ),
            root_view(root),
        ),
    ensures
        rows_view(r@) == tree_spans(
            source_ctx(
                object_fields@,
                object_static_fields@,
                collection_chunks@,
                object_phases@,
                object_errors@,
                options,
                hidden_fields.set(),
                local_collapsed.set(),
            ),
            root_view(root),
        ),
{
    let src = TreeSource {
        object_fields,
        object_static_fields,
        collection_chunks,
        object_phases,
        object_errors,
        hidden_fields,
        local_collapsed,
        options,
        path_phases: None,
    };
    render_tree_rows(&src, root)
}

/// Whether a variable tree can be rendered: its walk ends (within
/// [`WALK_BUDGET`] nested descents). [`render_variable_tree`] asks this of
/// its inputs.
pub fn tree_renderable(
    root: TreeRoot,
    object_fields: &HashMap<u64, Vec<FieldInfo>>,
    object_static_fields: &HashMap<u64, Vec<FieldInfo>>,
    collection_chunks: &HashMap<u64, CollectionChunks>,
    object_phases: &HashMap<u64, ExpansionPhase>,
    object_errors: &HashMap<u64, String>,
    options: RenderOptions,
    hidden_fields: &KeySet<HideKey>,
    local_collapsed: &KeySet<NavigationPath>,
) -> (r: bool)
    ensures
        r == renderable(
            source_ctx(
                object_fields@,
                object_static_fields@,
                collection_chunks@,
                object_phases@,
                object_errors@,
                options,
                hidden_fields.set(),
                local_collapsed.set(),
            ),
            root_view(root),
        ),
{
    let src = TreeSource {
        object_fields,
        object_static_fields,
        collection_chunks,
        object_phases,
        object_errors,
        hidden_fields,
        local_collapsed,
        options,
        path_phases: None,
    };
    walk_tree(&src, root).is_some()
}

} // verus!
