//! Expansion lifecycle state for the stack view.
//!
//! [`ExpansionRegistry`] owns all object expansion data (phases, decoded
//! fields, errors) and collection pagination state, decoupled from cursor
//! and frame logic.

use std::collections::HashMap;

use vstd::prelude::*;

use crate::engine::FieldInfo;
use super::collections::{key_insert, key_pos, lemma_key_pos, lemma_key_pos_push, lemma_key_pos_same_keys, ChunkState, CollectionChunks};
use super::types::{ExpansionPhase, NavigationPath, PathSegment};

verus! {

broadcast use vstd::std_specs::hash::group_hash_axioms;

/// Ghost image of the path-keyed phases: pairs of segment sequences and
/// phases.
pub type PhaseList = Seq<(Seq<PathSegment>, ExpansionPhase)>;

/// Expansion phases keyed by navigation path, at most one per path.
///
/// Paths are the library's own structs, for which Verus models no
/// hashing, so the phases are a vector of pairs searched by path view
/// rather than a `HashMap`.
pub struct PathPhases {
    items: Vec<(NavigationPath, ExpansionPhase)>,
}

/// The ghost image of a list of path/phase pairs.
pub open spec fn phase_pairs(v: Seq<(NavigationPath, ExpansionPhase)>) -> PhaseList {
    v.map_values(|e: (NavigationPath, ExpansionPhase)| (e.0@, e.1))
}

/// The phase recorded for a path, if any.
pub open spec fn phase_lookup(ph: PhaseList, p: Seq<PathSegment>) -> Option<ExpansionPhase> {
    match key_pos(ph, p) {
        Some(i) => Some(ph[i].1),
        None => None,
    }
}

/// The phase of a path, `Collapsed` when none is recorded.
pub open spec fn phase_at(ph: PhaseList, p: Seq<PathSegment>) -> ExpansionPhase {
    match phase_lookup(ph, p) {
        Some(x) => x,
        None => ExpansionPhase::Collapsed,
    }
}

/// Number of recorded paths of at least `n` segments.
pub open spec fn count_len_ge(ph: PhaseList, n: int) -> nat
    decreases ph.len(),
{
    if ph.len() == 0 {
        0
    } else {
        count_len_ge(ph.drop_last(), n) + if ph.last().0.len() >= n {
            1nat
        } else {
            0nat
        }
    }
}

/// Longer lengths are held by no more recorded paths.
pub proof fn lemma_count_monotone(ph: PhaseList, n: int, m: int)
    requires
        n <= m,
    ensures
        count_len_ge(ph, m) <= count_len_ge(ph, n),
    decreases ph.len(),
{
    if ph.len() > 0 {
        lemma_count_monotone(ph.drop_last(), n, m);
    }
}

/// A recorded path of length `n` makes the count drop past `n`.
pub proof fn lemma_count_strict(ph: PhaseList, n: int, i: int)
    requires
        0 <= i < ph.len(),
        ph[i].0.len() == n,
    ensures
        count_len_ge(ph, n + 1) < count_len_ge(ph, n),
    decreases ph.len(),
{
    if i == ph.len() - 1 {
        lemma_count_monotone(ph.drop_last(), n, n + 1);
    } else {
        lemma_count_strict(ph.drop_last(), n, i);
    }
}

/// A path recorded as expanded makes the count drop past its length.
pub proof fn lemma_expanded_count(ph: PhaseList, p: Seq<PathSegment>)
    requires
        phase_at(ph, p) == ExpansionPhase::Expanded,
    ensures
        count_len_ge(ph, (p.len() + 1) as int) < count_len_ge(ph, p.len() as int),
{
    lemma_key_pos(ph, p);
    let i = key_pos(ph, p).unwrap();
    lemma_count_strict(ph, p.len() as int, i);
}

/// Whether `pre` is a prefix of `s`.
pub open spec fn is_prefix(pre: Seq<PathSegment>, s: Seq<PathSegment>) -> bool {
    pre.len() <= s.len() && s.subrange(0, pre.len() as int) == pre
}

/// The pairs whose path does not start with `pre`, in order.
pub open spec fn drop_under(ph: PhaseList, pre: Seq<PathSegment>) -> PhaseList
    decreases ph.len(),
{
    if ph.len() == 0 {
        Seq::empty()
    } else {
        let rest = drop_under(ph.drop_last(), pre);
        if is_prefix(pre, ph.last().0) {
            rest
        } else {
            rest.push(ph.last())
        }
    }
}

proof fn lemma_drop_under_subset(ph: PhaseList, pre: Seq<PathSegment>)
    ensures
        forall|j: int|
            0 <= j < drop_under(ph, pre).len() ==> #[trigger] ph.contains(drop_under(ph, pre)[j]),
        forall|x: (Seq<PathSegment>, ExpansionPhase)|
            #[trigger] ph.contains(x) && !is_prefix(pre, x.0) ==> drop_under(ph, pre).contains(x),
        forall|x: (Seq<PathSegment>, ExpansionPhase)|
            #[trigger] drop_under(ph, pre).contains(x) ==> !is_prefix(pre, x.0),
    decreases ph.len(),
{
    if ph.len() > 0 {
        lemma_drop_under_subset(ph.drop_last(), pre);
        let rest = drop_under(ph.drop_last(), pre);
        assert forall|j: int| 0 <= j < drop_under(ph, pre).len() implies #[trigger] ph.contains(
            drop_under(ph, pre)[j],
        ) by {
            if j < rest.len() {
                assert(ph.drop_last().contains(rest[j]));
                let k = choose|k: int| 0 <= k < ph.drop_last().len() && ph.drop_last()[k] == rest[j];
                assert(ph[k] == rest[j]);
            } else {
                assert(ph[ph.len() - 1] == ph.last());
            }
        }
        assert forall|x: (Seq<PathSegment>, ExpansionPhase)|
            #[trigger] ph.contains(x) && !is_prefix(pre, x.0) implies drop_under(ph, pre).contains(x) by {
            let k = choose|k: int| 0 <= k < ph.len() && ph[k] == x;
            if k < ph.len() - 1 {
                assert(ph.drop_last()[k] == x);
                assert(ph.drop_last().contains(x));
                assert(rest.contains(x));
                let q = choose|q: int| 0 <= q < rest.len() && rest[q] == x;
                assert(drop_under(ph, pre)[q] == x);
            } else {
                assert(drop_under(ph, pre)[drop_under(ph, pre).len() - 1] == x);
            }
        }
        assert forall|x: (Seq<PathSegment>, ExpansionPhase)|
            #[trigger] drop_under(ph, pre).contains(x) implies !is_prefix(pre, x.0) by {
            let q = choose|q: int| 0 <= q < drop_under(ph, pre).len() && drop_under(ph, pre)[q] == x;
            if q < rest.len() {
                assert(rest[q] == x);
                assert(rest.contains(x));
            }
        }
    }
}

impl PathPhases {
    /// The ghost image of the pairs.
    pub closed spec fn pairs(&self) -> PhaseList {
        phase_pairs(self.items@)
    }

    /// At most one phase per path.
    pub open spec fn wf(&self) -> bool {
        forall|i: int, j: int|
            0 <= i < j < self.pairs().len() ==> self.pairs()[i].0 != self.pairs()[j].0
    }

    /// No recorded phase.
    pub fn new() -> (r: PathPhases)
        ensures
            r.pairs().len() == 0,
            r.wf(),
    {
        let r = PathPhases { items: Vec::new() };
        assert(r.pairs() =~= Seq::empty());
        r
    }

    /// The phase recorded for `path`.
    pub fn get(&self, path: &NavigationPath) -> (r: Option<ExpansionPhase>)
        ensures
            r == phase_lookup(self.pairs(), path@),
    {
        proof {
            lemma_key_pos(self.pairs(), path@);
        }
        let mut i: usize = 0;
        while i < self.items.len()
            invariant
                i <= self.items@.len(),
                self.pairs().len() == self.items@.len(),
                forall|j: int| 0 <= j < i ==> self.pairs()[j].0 != path@,
                match key_pos(self.pairs(), path@) {
                    Some(p) => 0 <= p < self.pairs().len() && self.pairs()[p].0 == path@
                        && forall|j: int| 0 <= j < p ==> self.pairs()[j].0 != path@,
                    None => forall|j: int| 0 <= j < self.pairs().len() ==> self.pairs()[j].0 != path@,
                },
            decreases self.items@.len() - i,
        {
            assert(self.pairs()[i as int] == (self.items@[i as int].0@, self.items@[i as int].1));
            if self.items[i].0.same(path) {
                return Some(self.items[i].1);
            }
            i = i + 1;
        }
        None
    }

    /// Records `phase` for `path`, replacing any earlier phase.
    pub fn insert(&mut self, path: NavigationPath, phase: ExpansionPhase)
        requires
            old(self).wf(),
        ensures
            final(self).wf(),
            final(self).pairs() == key_insert(old(self).pairs(), path@, phase),
            phase_lookup(final(self).pairs(), path@) == Some(phase),
            forall|q: Seq<PathSegment>|
                q != path@ ==> phase_lookup(final(self).pairs(), q) == phase_lookup(
                    old(self).pairs(),
                    q,
                ),
            forall|n: int|
                #![trigger count_len_ge(final(self).pairs(), n)]
                count_len_ge(final(self).pairs(), n) <= count_len_ge(old(self).pairs(), n) + 1,
    {
        let ghost pv = path@;
        let mut i: usize = 0;
        while i < self.items.len()
            invariant
                i <= self.items@.len(),
                self.wf(),
                self.items@ == old(self).items@,
                self.pairs().len() == self.items@.len(),
                pv == path@,
                forall|j: int| 0 <= j < i ==> self.pairs()[j].0 != pv,
            decreases self.items@.len() - i,
        {
            assert(self.pairs()[i as int] == (self.items@[i as int].0@, self.items@[i as int].1));
            if self.items[i].0.same(&path) {
                let ghost before = self.pairs();
                self.items.set(i, (path, phase));
                proof {
                    assert(self.pairs() =~= before.update(i as int, (pv, phase)));
                    lemma_key_pos_same_keys(before, self.pairs(), pv);
                    assert forall|q: Seq<PathSegment>| q != pv implies phase_lookup(self.pairs(), q)
                        == phase_lookup(before, q) by {
                        lemma_key_pos_same_keys(before, self.pairs(), q);
                        lemma_key_pos(before, q);
                    }
                    lemma_key_pos(self.pairs(), pv);
                    lemma_key_pos(before, pv);
                    assert(key_pos(before, pv) == Some(i as int));
                    assert forall|n: int| #![trigger count_len_ge(self.pairs(), n)]
                        count_len_ge(self.pairs(), n) <= count_len_ge(before, n) + 1 by {
                        lemma_count_same_lens(before, self.pairs(), n);
                    }
                }
                return;
            }
            i = i + 1;
        }
        let ghost before = self.pairs();
        self.items.push((path, phase));
        proof {
            assert(self.pairs() =~= before.push((pv, phase)));
            assert forall|q: Seq<PathSegment>| q != pv implies phase_lookup(self.pairs(), q)
                == phase_lookup(before, q) by {
                lemma_key_pos_push(before, (pv, phase), q);
                lemma_key_pos(before, q);
            }
            lemma_key_pos_push(before, (pv, phase), pv);
            lemma_key_pos(before, pv);
            assert forall|n: int| #![trigger count_len_ge(self.pairs(), n)]
                count_len_ge(self.pairs(), n) <= count_len_ge(before, n) + 1 by {
                assert(self.pairs().drop_last() =~= before);
            }
        }
    }

    /// Removes the phase of `path` and of every path that starts with it.
    pub fn collapse_at_path(&mut self, path: &NavigationPath)
        requires
            old(self).wf(),
        ensures
            final(self).wf(),
            final(self).pairs() == drop_under(old(self).pairs(), path@),
            forall|q: Seq<PathSegment>|
                #[trigger] phase_lookup(final(self).pairs(), q) == if is_prefix(path@, q) {
                    None
                } else {
                    phase_lookup(old(self).pairs(), q)
                },
    {
        let ghost before = self.pairs();
        let mut items: Vec<(NavigationPath, ExpansionPhase)> = Vec::new();
        std::mem::swap(&mut items, &mut self.items);
        let ghost iv = items@;
        assert(phase_pairs(iv) == before);
        let mut kept: Vec<(NavigationPath, ExpansionPhase)> = Vec::new();
        let target = path.segments();
        proof {
            assert(phase_pairs(kept@) =~= drop_under(before.subrange(0, 0), path@));
        }
        for e in it: items
            invariant
                before == phase_pairs(iv),
                it.seq() == iv,
                target@ == path@,
                phase_pairs(kept@) == drop_under(before.subrange(0, it.index() as int), path@),
        {
            let ghost k = it.index();
            assert(e == iv[k as int]);
            let segs = e.0.segments();
            let under = super::types::segments_start_with(segs, target);
            proof {
                let bk = before.subrange(0, k + 1);
                assert(bk.drop_last() =~= before.subrange(0, k as int));
                assert(bk.last() == (e.0@, e.1));
                if segs@.len() >= target@.len() {
                    assert(segs@.subrange(0, target@.len() as int) =~= segs@.take(target@.len() as int));
                }
            }
            let ghost old_kept = kept@;
            if !under {
                kept.push(e);
                proof {
                    assert(phase_pairs(kept@) =~= phase_pairs(old_kept).push((e.0@, e.1)));
                }
            }
        }
        proof {
            assert(before.subrange(0, iv.len() as int) =~= before);
        }
        self.items = kept;
        proof {
            lemma_drop_under_subset(before, path@);
            lemma_drop_under_distinct(before, path@);
            assert forall|q: Seq<PathSegment>|
                #[trigger] phase_lookup(self.pairs(), q) == if is_prefix(path@, q) {
                    None
                } else {
                    phase_lookup(before, q)
                } by {
                lemma_drop_under_lookup(before, path@, q);
            }
        }
    }

    /// The pairs, in order.
    pub fn as_slice(&self) -> (r: &[(NavigationPath, ExpansionPhase)])
        ensures
            phase_pairs(r@) == self.pairs(),
    {
        self.items.as_slice()
    }
}

proof fn lemma_count_same_lens(a: PhaseList, b: PhaseList, n: int)
    requires
        a.len() == b.len(),
        forall|j: int| 0 <= j < a.len() ==> a[j].0.len() == b[j].0.len(),
    ensures
        count_len_ge(a, n) == count_len_ge(b, n),
    decreases a.len(),
{
    if a.len() > 0 {
        lemma_count_same_lens(a.drop_last(), b.drop_last(), n);
    }
}

/// Dropping the paths under `pre` forgets exactly their phases.
pub proof fn lemma_drop_under_lookup(ph: PhaseList, pre: Seq<PathSegment>, q: Seq<PathSegment>)
    requires
        forall|i: int, j: int| 0 <= i < j < ph.len() ==> ph[i].0 != ph[j].0,
    ensures
        phase_lookup(drop_under(ph, pre), q) == if is_prefix(pre, q) {
            None
        } else {
            phase_lookup(ph, q)
        },
{
    let r = drop_under(ph, pre);
    lemma_drop_under_subset(ph, pre);
    lemma_key_pos(ph, q);
    lemma_key_pos(r, q);
    match key_pos(r, q) {
        Some(j) => {
            assert(r.contains(r[j]));
            assert(ph.contains(r[j]));
            let k = choose|k: int| 0 <= k < ph.len() && ph[k] == r[j];
            match key_pos(ph, q) {
                Some(i) => {
                    assert(i == k);
                },
                None => {
                    assert(ph[k].0 == q);
                },
            }
        },
        None => {
            match key_pos(ph, q) {
                Some(i) => {
                    assert(ph.contains(ph[i]));
                    if !is_prefix(pre, q) {
                        assert(r.contains(ph[i]));
                        let m = choose|m: int| 0 <= m < r.len() && r[m] == ph[i];
                        assert(r[m].0 == q);
                    }
                },
                None => {},
            }
        },
    }
}

proof fn lemma_drop_under_distinct(ph: PhaseList, pre: Seq<PathSegment>)
    requires
        forall|i: int, j: int| 0 <= i < j < ph.len() ==> ph[i].0 != ph[j].0,
    ensures
        forall|i: int, j: int|
            0 <= i < j < drop_under(ph, pre).len() ==> drop_under(ph, pre)[i].0 != drop_under(
                ph,
                pre,
            )[j].0,
    decreases ph.len(),
{
    if ph.len() > 0 {
        lemma_drop_under_distinct(ph.drop_last(), pre);
        lemma_drop_under_subset(ph.drop_last(), pre);
        let rest = drop_under(ph.drop_last(), pre);
        if !is_prefix(pre, ph.last().0) {
            assert forall|i: int| 0 <= i < rest.len() implies rest[i].0 != ph.last().0 by {
                assert(ph.drop_last().contains(rest[i]));
                let k = choose|k: int| 0 <= k < ph.drop_last().len() && ph.drop_last()[k] == rest[i];
                assert(ph[k] == rest[i]);
            }
        }
    }
}

/// Ghost image of the expansion data that the stack tree reads.
pub struct TreeData {
    pub phases: PhaseList,
    pub object_phases: Map<u64, ExpansionPhase>,
    pub fields: Map<u64, Vec<FieldInfo>>,
    pub statics: Map<u64, Vec<FieldInfo>>,
    pub chunks: Map<u64, CollectionChunks>,
}

/// The phase of an object id, `Collapsed` when none is recorded.
pub open spec fn obj_phase(d: TreeData, id: u64) -> ExpansionPhase {
    if d.object_phases.contains_key(id) {
        d.object_phases[id]
    } else {
        ExpansionPhase::Collapsed
    }
}

/// The decoded instance fields of an object, empty when not decoded.
pub open spec fn fields_of(d: TreeData, id: u64) -> Seq<FieldInfo> {
    if d.fields.contains_key(id) {
        d.fields[id]@
    } else {
        Seq::empty()
    }
}

/// Holds expansion state for all objects in the stack view.
pub struct ExpansionRegistry {
    /// UI expansion phase keyed by `NavigationPath`.
    pub expansion_phases: PathPhases,
    /// UI expansion phase keyed by object id.
    pub object_phases: HashMap<u64, ExpansionPhase>,
    /// Decoded instance fields keyed by `object_id`.
    pub object_fields: HashMap<u64, Vec<FieldInfo>>,
    /// Decoded static fields keyed by `object_id`.
    pub object_static_fields: HashMap<u64, Vec<FieldInfo>>,
    /// Expansion errors keyed by `object_id`.
    pub object_errors: HashMap<u64, String>,
    /// Collection pagination state keyed by `collection_id`.
    pub collection_chunks: HashMap<u64, CollectionChunks>,
}

impl ExpansionRegistry {
    /// The ghost image of the data the tree reads.
    pub open spec fn data(&self) -> TreeData {
        TreeData {
            phases: self.expansion_phases.pairs(),
            object_phases: self.object_phases@,
            fields: self.object_fields@,
            statics: self.object_static_fields@,
            chunks: self.collection_chunks@,
        }
    }

    /// The registry's own rule: at most one phase per path.
    pub open spec fn wf(&self) -> bool {
        self.expansion_phases.wf()
    }

    /// Creates a new empty registry.
    pub fn new() -> (r: Self)
        ensures
            r.wf(),
            r.data().phases.len() == 0,
            r.data().object_phases.is_empty(),
            r.data().fields.is_empty(),
            r.data().statics.is_empty(),
            r.data().chunks.is_empty(),
            r.object_errors@.is_empty(),
    {
        ExpansionRegistry {
            expansion_phases: PathPhases::new(),
            object_phases: HashMap::new(),
            object_fields: HashMap::new(),
            object_static_fields: HashMap::new(),
            object_errors: HashMap::new(),
            collection_chunks: HashMap::new(),
        }
    }

    /// Returns the expansion phase for the given path (defaults to `Collapsed`).
    pub fn expansion_state(&self, path: &NavigationPath) -> (r: ExpansionPhase)
        ensures
            r == phase_at(self.data().phases, path@),
    {
        match self.expansion_phases.get(path) {
            Some(p) => p,
            None => ExpansionPhase::Collapsed,
        }
    }

    /// Marks a path expansion as complete with decoded fields; the fields
    /// are stored by `object_id`.
    pub fn set_expansion_done(&mut self, path: &NavigationPath, object_id: u64, fields: Vec<FieldInfo>)
        requires
            old(self).wf(),
        ensures
            final(self).wf(),
            final(self).data().fields == old(self).data().fields.insert(object_id, fields),
            final(self).data().phases == key_insert(
                old(self).data().phases,
                path@,
                ExpansionPhase::Expanded,
            ),
            phase_lookup(final(self).data().phases, path@) == Some(ExpansionPhase::Expanded),
            forall|q: Seq<PathSegment>|
                q != path@ ==> phase_lookup(final(self).data().phases, q) == phase_lookup(
                    old(self).data().phases,
                    q,
                ),
            final(self).data().object_phases == old(self).data().object_phases,
            final(self).data().statics == old(self).data().statics,
            final(self).data().chunks == old(self).data().chunks,
            final(self).object_errors@ == old(self).object_errors@,
    {
        self.object_fields.insert(object_id, fields);
        self.expansion_phases.insert(path.duplicate(), ExpansionPhase::Expanded);
    }

    /// Records a phase for a path.
    pub fn set_phase_at_path(&mut self, path: &NavigationPath, phase: ExpansionPhase)
        requires
            old(self).wf(),
        ensures
            final(self).wf(),
            final(self).data().phases == key_insert(old(self).data().phases, path@, phase),
            phase_lookup(final(self).data().phases, path@) == Some(phase),
            forall|q: Seq<PathSegment>|
                q != path@ ==> phase_lookup(final(self).data().phases, q) == phase_lookup(
                    old(self).data().phases,
                    q,
                ),
            final(self).data().object_phases == old(self).data().object_phases,
            final(self).data().fields == old(self).data().fields,
            final(self).data().statics == old(self).data().statics,
            final(self).data().chunks == old(self).data().chunks,
            final(self).object_errors@ == old(self).object_errors@,
    {
        self.expansion_phases.insert(path.duplicate(), phase);
    }

    /// Collapses at a path and all descendant paths: removes every phase
    /// whose path starts with `path`. Data caches are left as they are.
    pub fn collapse_at_path(&mut self, path: &NavigationPath)
        requires
            old(self).wf(),
        ensures
            final(self).wf(),
            final(self).data().phases == drop_under(old(self).data().phases, path@),
            forall|q: Seq<PathSegment>|
                #[trigger] phase_lookup(final(self).data().phases, q) == if is_prefix(path@, q) {
                    None
                } else {
                    phase_lookup(old(self).data().phases, q)
                },
            final(self).data().object_phases == old(self).data().object_phases,
            final(self).data().fields == old(self).data().fields,
            final(self).data().statics == old(self).data().statics,
            final(self).data().chunks == old(self).data().chunks,
            final(self).object_errors@ == old(self).object_errors@,
    {
        self.expansion_phases.collapse_at_path(path);
    }

    /// Clears data caches for a given `object_id`: instance fields, static
    /// fields, and errors. Phases are left as they are.
    pub fn collapse_all_for_object(&mut self, object_id: u64)
        ensures
            final(self).wf() == old(self).wf(),
            final(self).data().fields == old(self).data().fields.remove(object_id),
            final(self).data().statics == old(self).data().statics.remove(object_id),
            final(self).object_errors@ == old(self).object_errors@.remove(object_id),
            final(self).data().phases == old(self).data().phases,
            final(self).data().object_phases == old(self).data().object_phases,
            final(self).data().chunks == old(self).data().chunks,
    {
        self.object_fields.remove(&object_id);
        self.object_static_fields.remove(&object_id);
        self.object_errors.remove(&object_id);
    }

    /// Collapses an object by id: forgets its phase and its data caches.
    pub fn collapse_object_by_id(&mut self, object_id: u64)
        ensures
            final(self).wf() == old(self).wf(),
            final(self).data().object_phases == old(self).data().object_phases.remove(object_id),
            final(self).data().fields == old(self).data().fields.remove(object_id),
            final(self).data().statics == old(self).data().statics.remove(object_id),
            final(self).object_errors@ == old(self).object_errors@.remove(object_id),
            final(self).data().phases == old(self).data().phases,
            final(self).data().chunks == old(self).data().chunks,
    {
        self.object_phases.remove(&object_id);
        self.collapse_all_for_object(object_id);
    }

    /// Returns the [`ChunkState`] for a specific chunk.
    pub fn chunk_state(&self, collection_id: u64, chunk_offset: usize) -> (r: Option<&ChunkState>)
        ensures
            match self.data().chunks.contains_key(collection_id) {
                false => r is None,
                true => match self.data().chunks[collection_id].chunk_pages.lookup(chunk_offset) {
                    Some(c) => r == Some(&c),
                    None => r is None,
                },
            },
    {
        match self.collection_chunks.get(&collection_id) {
            Some(cc) => cc.chunk_pages.get(chunk_offset),
            None => None,
        }
    }
}

} // verus!
