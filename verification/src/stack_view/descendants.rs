//! Objects reachable from an object through decoded fields: the set that a
//! recursive collapse forgets.

use std::collections::HashMap;

use vstd::prelude::*;

use crate::engine::{field_ref_id, FieldInfo, FieldValue};

verus! {

broadcast use vstd::std_specs::hash::group_hash_axioms;

/// Whether `c` is referenced by a decoded field of `x`.
pub open spec fn child_of(fields: Map<u64, Vec<FieldInfo>>, x: u64, c: u64) -> bool {
    fields.contains_key(x) && exists|i: int|
        0 <= i < fields[x]@.len() && #[trigger] field_ref_id(fields[x]@[i].value) == Some(c)
}

/// Objects reachable from `root` in at most `n` steps.
pub open spec fn reach_in(fields: Map<u64, Vec<FieldInfo>>, root: u64, n: nat) -> Set<u64>
    decreases n,
{
    if n == 0 {
        set![root]
    } else {
        let prev = reach_in(fields, root, (n - 1) as nat);
        prev.union(Set::new(|c: u64| exists|y: u64| prev.contains(y) && #[trigger] child_of(fields, y, c)))
    }
}

/// Whether `y` is reachable from `root`.
pub open spec fn reaches(fields: Map<u64, Vec<FieldInfo>>, root: u64, y: u64) -> bool {
    exists|n: nat| #[trigger] reach_in(fields, root, n).contains(y)
}

/// The objects reachable from `root`, `root` included.
pub open spec fn descendants(fields: Map<u64, Vec<FieldInfo>>, root: u64) -> Set<u64> {
    Set::new(|y: u64| reaches(fields, root, y))
}

/// Steps compose: what a child reaches, its parent reaches one step later.
pub proof fn lemma_reach_through_child(fields: Map<u64, Vec<FieldInfo>>, x: u64, c: u64, y: u64, n: nat)
    requires
        child_of(fields, x, c),
        reach_in(fields, c, n).contains(y),
    ensures
        reach_in(fields, x, n + 1).contains(y),
    decreases n,
{
    if n == 0 {
        assert(y == c);
        assert(reach_in(fields, x, 0).contains(x));
    } else {
        let prev = reach_in(fields, c, (n - 1) as nat);
        if prev.contains(y) {
            lemma_reach_through_child(fields, x, c, y, (n - 1) as nat);
        } else {
            let z = choose|z: u64| prev.contains(z) && #[trigger] child_of(fields, z, y);
            lemma_reach_through_child(fields, x, c, z, (n - 1) as nat);
            assert(reach_in(fields, x, n).contains(z));
        }
    }
}

/// A set holding `root` and the children of each of its members holds
/// every object reachable from `root`.
pub proof fn lemma_closed_holds_reach(fields: Map<u64, Vec<FieldInfo>>, root: u64, s: Set<u64>, n: nat)
    requires
        s.contains(root),
        forall|y: u64, c: u64| s.contains(y) && #[trigger] child_of(fields, y, c) ==> s.contains(c),
    ensures
        reach_in(fields, root, n).subset_of(s),
    decreases n,
{
    if n > 0 {
        lemma_closed_holds_reach(fields, root, s, (n - 1) as nat);
    }
}

fn seq_has(v: &Vec<u64>, x: u64) -> (r: bool)
    ensures
        r == v@.contains(x),
{
    let mut i: usize = 0;
    while i < v.len()
        invariant
            i <= v@.len(),
            forall|j: int| 0 <= j < i ==> v@[j] != x,
        decreases v@.len() - i,
    {
        if v[i] == x {
            assert(v@[i as int] == x);
            return true;
        }
        i = i + 1;
    }
    false
}

/// Budget of a visit: the objects with decoded fields not yet visited, plus
/// one when `x` itself is such an object.
pub open spec fn visit_measure(fields: Map<u64, Vec<FieldInfo>>, visited: Seq<u64>, x: u64) -> nat {
    fields.dom().difference(visited.to_set()).len() + (if fields.contains_key(x) && !visited.contains(x) {
        1nat
    } else {
        0nat
    })
}

proof fn lemma_measure_drops(fields: Map<u64, Vec<FieldInfo>>, old_v: Seq<u64>, v: Seq<u64>, x: u64, c: u64)
    requires
        fields.dom().finite(),
        fields.contains_key(x),
        !old_v.contains(x),
        v.contains(x),
        forall|y: u64| old_v.contains(y) ==> v.contains(y),
    ensures
        visit_measure(fields, v, c) < visit_measure(fields, old_v, x),
{
    let d = fields.dom();
    let a = d.difference(old_v.to_set());
    let b = d.difference(v.to_set());
    assert(b.subset_of(a.remove(x)));
    vstd::set_lib::lemma_len_subset(b, a.remove(x));
    assert(a.contains(x));
}

fn collect(fields: &HashMap<u64, Vec<FieldInfo>>, x: u64, visited: &mut Vec<u64>)
    ensures
        forall|y: u64| old(visited)@.contains(y) ==> final(visited)@.contains(y),
        final(visited)@.contains(x),
        forall|y: u64| final(visited)@.contains(y) ==> old(visited)@.contains(y) || reaches(fields@, x, y),
        forall|y: u64, c: u64|
            final(visited)@.contains(y) && !old(visited)@.contains(y) && #[trigger] child_of(fields@, y, c)
                ==> final(visited)@.contains(c),
    decreases visit_measure(fields@, old(visited)@, x),
{
    if seq_has(visited, x) {
        return;
    }
    broadcast use vstd::seq_lib::group_seq_properties;
    let ghost v0 = visited@;
    visited.push(x);
    assert(visited@[v0.len() as int] == x);
    assert(reach_in(fields@, x, 0).contains(x));
    match fields.get(&x) {
        Some(fl) => {
            let mut i: usize = 0;
            while i < fl.len()
                invariant
                    fields@.contains_key(x),
                    fl@ == fields@[x]@,
                    !v0.contains(x),
                    v0 == old(visited)@,
                    fields@.dom().finite(),
                    i <= fl@.len(),
                    visited@.contains(x),
                    forall|y: u64| v0.contains(y) ==> visited@.contains(y),
                    forall|y: u64| visited@.contains(y) ==> v0.contains(y) || reaches(fields@, x, y),
                    forall|j: int| 0 <= j < i ==> match #[trigger] field_ref_id(fl@[j].value) {
                        Some(c) => visited@.contains(c),
                        None => true,
                    },
                    forall|y: u64, c: u64|
                        visited@.contains(y) && !v0.contains(y) && y != x && #[trigger] child_of(fields@, y, c)
                            ==> visited@.contains(c),
                decreases fl@.len() - i,
            {
                match &fl[i].value {
                    FieldValue::ObjectRef { id, .. } => {
                        let ghost before = visited@;
                        proof {
                            lemma_measure_drops(fields@, v0, before, x, *id);
                        }
                        collect(fields, *id, visited);
                        proof {
                            assert(child_of(fields@, x, *id)) by {
                                assert(field_ref_id(fields@[x]@[i as int].value) == Some(*id));
                            }
                            assert forall|y: u64| visited@.contains(y) implies v0.contains(y) || reaches(fields@, x, y) by {
                                if !before.contains(y) {
                                    let n = choose|n: nat| #[trigger] reach_in(fields@, *id, n).contains(y);
                                    lemma_reach_through_child(fields@, x, *id, y, n);
                                }
                            }
                        }
                    },
                    _ => {},
                }
                i = i + 1;
            }
            assert forall|y: u64, c: u64|
                visited@.contains(y) && !old(visited)@.contains(y) && #[trigger] child_of(fields@, y, c)
                    implies visited@.contains(c) by {
                if y == x {
                    let j = choose|j: int| 0 <= j < fields@[x]@.len() && #[trigger] field_ref_id(fields@[x]@[j].value) == Some(c);
                    assert(field_ref_id(fl@[j].value) == Some(c));
                }
            }
        },
        None => {
            assert forall|y: u64, c: u64|
                visited@.contains(y) && !old(visited)@.contains(y) && #[trigger] child_of(fields@, y, c)
                    implies visited@.contains(c) by {
                assert(y == x);
            }
        },
    }
}

/// Collects every object reachable from `root` through decoded fields,
/// `root` included.
pub fn collect_descendants(root: u64, fields: &HashMap<u64, Vec<FieldInfo>>) -> (r: Vec<u64>)
    ensures
        r@.to_set() == descendants(fields@, root),
{
    let mut visited: Vec<u64> = Vec::new();
    collect(fields, root, &mut visited);
    proof {
        let s = visited@.to_set();
        assert forall|y: u64, c: u64| s.contains(y) && #[trigger] child_of(fields@, y, c) implies s.contains(c) by {
            assert(visited@.contains(y));
        }
        assert forall|y: u64| s.contains(y) <==> descendants(fields@, root).contains(y) by {
            if descendants(fields@, root).contains(y) {
                let n = choose|n: nat| #[trigger] reach_in(fields@, root, n).contains(y);
                lemma_closed_holds_reach(fields@, root, s, n);
            }
        }
        assert(s =~= descendants(fields@, root));
    }
    visited
}

} // verus!
