//! Chunk sections of paginated collections.
//!
//! Collections with up to 100 entries are shown eagerly. Larger ones show
//! their first 100 entries eagerly, then sections of 100 entries up to
//! index 1000, then sections of 1000 entries.

use vstd::prelude::*;

verus! {

/// Number of sections of `size` entries needed to cover `n` entries.
pub open spec fn sections_needed(n: int, size: int) -> nat {
    if n <= 0 {
        0
    } else {
        ((n + size - 1) / size) as nat
    }
}

/// The `(offset, limit)` ranges of the chunk sections of a collection of
/// `total` entries.
pub open spec fn chunk_ranges_spec(total: nat) -> Seq<(usize, usize)> {
    if total <= 100 {
        Seq::empty()
    } else {
        let boundary: int = if total < 1000 { total as int } else { 1000 };
        let small = Seq::new(
            sections_needed(boundary - 100, 100),
            |i: int|
                (
                    (100 + 100 * i) as usize,
                    (if boundary - (100 + 100 * i) < 100 {
                        boundary - (100 + 100 * i)
                    } else {
                        100
                    }) as usize,
                ),
        );
        let large = Seq::new(
            sections_needed(total - 1000, 1000),
            |j: int|
                (
                    (1000 + 1000 * j) as usize,
                    (if total - (1000 + 1000 * j) < 1000 {
                        total - (1000 + 1000 * j)
                    } else {
                        1000
                    }) as usize,
                ),
        );
        small + large
    }
}

proof fn lemma_div_facts(n: int, size: int)
    requires
        n > 0,
        size > 0,
    ensures
        sections_needed(n, size) * size >= n,
        (sections_needed(n, size) - 1) * size < n,
        sections_needed(n, size) >= 1,
{
    let k = (n + size - 1) / size;
    assert(k * size <= n + size - 1) by (nonlinear_arith)
        requires
            k == (n + size - 1) / size,
            size > 0,
    ;
    assert(k * size > n - 1) by (nonlinear_arith)
        requires
            k == (n + size - 1) / size,
            size > 0,
    ;
    assert((k - 1) * size == k * size - size) by (nonlinear_arith);
    assert(k >= 1) by (nonlinear_arith)
        requires
            k == (n + size - 1) / size,
            size > 0,
            n > 0,
    ;
}

/// Computes chunk ranges for a collection with `total_count` entries.
///
/// Returns `(offset, limit)` pairs following the 100/100/1000 chunking
/// rules: up to 100 entries no sections; up to 1000 sections of 100 from
/// offset 100; beyond, sections of 100 up to 1000, then sections of 1000.
pub fn compute_chunk_ranges(total_count: u64) -> (ranges: Vec<(usize, usize)>)
    ensures
        ranges@ == chunk_ranges_spec((total_count as usize) as nat),
{
    if total_count <= 100 {
        return Vec::new();
    }
    let total = total_count as usize;
    if total <= 100 {
        return Vec::new();
    }
    let mut ranges: Vec<(usize, usize)> = Vec::new();
    let boundary: usize = if total < 1000 { total } else { 1000 };
    let ghost b: int = boundary as int;
    let ghost t: int = total as int;
    let ghost small = Seq::new(
        sections_needed(b - 100, 100),
        |i: int|
            (
                (100 + 100 * i) as usize,
                (if b - (100 + 100 * i) < 100 { b - (100 + 100 * i) } else { 100 }) as usize,
            ),
    );
    let ghost large = Seq::new(
        sections_needed(t - 1000, 1000),
        |j: int|
            (
                (1000 + 1000 * j) as usize,
                (if t - (1000 + 1000 * j) < 1000 { t - (1000 + 1000 * j) } else { 1000 }) as usize,
            ),
    );
    proof {
        lemma_div_facts(b - 100, 100);
    }
    let n_small: usize = (boundary - 100 + 99) / 100;
    let mut k: usize = 0;
    while k < n_small
        invariant
            100 < b <= 1000,
            b == boundary,
            n_small == sections_needed(b - 100, 100),
            k <= n_small,
            n_small * 100 >= b - 100,
            (n_small - 1) * 100 < b - 100,
            ranges@ == small.subrange(0, k as int),
            small.len() == n_small,
            small == Seq::new(
                sections_needed(b - 100, 100),
                |i: int|
                    (
                        (100 + 100 * i) as usize,
                        (if b - (100 + 100 * i) < 100 {
                            b - (100 + 100 * i)
                        } else {
                            100
                        }) as usize,
                    ),
            ),
        decreases n_small - k,
    {
        let offset: usize = 100 + 100 * k;
        let rest = boundary - offset;
        let limit: usize = if rest < 100 { rest } else { 100 };
        ranges.push((offset, limit));
        k = k + 1;
        assert(ranges@ =~= small.subrange(0, k as int));
    }
    assert(ranges@ =~= small);
    let n_large: usize = if total > 1000 { (total - 1000 + 999) / 1000 } else { 0 };
    if total > 1000 {
        proof {
            lemma_div_facts(t - 1000, 1000);
        }
    }
    let mut j: usize = 0;
    while j < n_large
        invariant
            t == total,
            t > 100,
            n_large == sections_needed(t - 1000, 1000),
            j <= n_large,
            t > 1000 ==> n_large * 1000 >= t - 1000,
            t > 1000 ==> (n_large - 1) * 1000 < t - 1000,
            t <= 1000 ==> n_large == 0,
            ranges@ == small + large.subrange(0, j as int),
            large.len() == n_large,
            large == Seq::new(
                sections_needed(t - 1000, 1000),
                |jj: int|
                    (
                        (1000 + 1000 * jj) as usize,
                        (if t - (1000 + 1000 * jj) < 1000 {
                            t - (1000 + 1000 * jj)
                        } else {
                            1000
                        }) as usize,
                    ),
            ),
        decreases n_large - j,
    {
        assert(1000 * j < t - 1000) by (nonlinear_arith)
            requires
                j < n_large,
                (n_large - 1) * 1000 < t - 1000,
        ;
        let offset: usize = 1000 + 1000 * j;
        let rest = total - offset;
        let limit: usize = if rest < 1000 { rest } else { 1000 };
        ranges.push((offset, limit));
        j = j + 1;
        assert(ranges@ =~= small + large.subrange(0, j as int));
    }
    assert(ranges@ =~= small + large);
    ranges
}

/// The closed form of one chunk section.
pub open spec fn chunk_at(t: int, i: int) -> (int, int) {
    let b: int = if t < 1000 { t } else { 1000 };
    let ns = sections_needed(b - 100, 100) as int;
    if i < ns {
        (100 + 100 * i, if b - (100 + 100 * i) < 100 { b - (100 + 100 * i) } else { 100 })
    } else {
        let j = i - ns;
        (1000 + 1000 * j, if t - (1000 + 1000 * j) < 1000 { t - (1000 + 1000 * j) } else { 1000 })
    }
}

proof fn lemma_chunk_index(total: nat, i: int)
    requires
        total > 100,
        total <= usize::MAX,
        0 <= i < chunk_ranges_spec(total).len(),
    ensures
        chunk_ranges_spec(total)[i].0 as int == chunk_at(total as int, i).0,
        chunk_ranges_spec(total)[i].1 as int == chunk_at(total as int, i).1,
        chunk_at(total as int, i).0 < total,
        chunk_at(total as int, i).1 >= 1,
{
    let t: int = total as int;
    let b: int = if t < 1000 { t } else { 1000 };
    lemma_div_facts(b - 100, 100);
    let ns = sections_needed(b - 100, 100) as int;
    if i >= ns {
        lemma_div_facts(t - 1000, 1000);
        let j = i - ns;
        assert(1000 * j < t - 1000);
    } else {
        assert(100 * i < b - 100);
    }
}

/// Laws of chunk sections: the sections of a collection larger than 100
/// entries tile the index range `[100, total)` without gaps or overlap;
/// sections start at offsets below 1000 with at most 100 entries and at
/// offsets from 1000 with at most 1000 entries; no section is empty and
/// none reaches past the last entry.
pub proof fn lemma_chunk_ranges_tile(total: usize)
    requires
        total > 100,
    ensures
        chunk_ranges_spec(total as nat).len() >= 1,
        chunk_ranges_spec(total as nat)[0].0 == 100,
        ({
            let r = chunk_ranges_spec(total as nat);
            r[r.len() - 1].0 + r[r.len() - 1].1 == total
        }),
        forall|i: int|
            0 <= i < chunk_ranges_spec(total as nat).len() - 1 ==> (
            #[trigger] chunk_ranges_spec(total as nat)[i]).0 + chunk_ranges_spec(
                total as nat,
            )[i].1 == chunk_ranges_spec(total as nat)[i + 1].0,
        forall|i: int|
            0 <= i < chunk_ranges_spec(total as nat).len() ==> {
                let (o, l) = #[trigger] chunk_ranges_spec(total as nat)[i];
                &&& l >= 1
                &&& o + l <= total
                &&& o < 1000 ==> l <= 100
                &&& o >= 1000 ==> l <= 1000
            },
{
    let t: int = total as int;
    let b: int = if t < 1000 { t } else { 1000 };
    lemma_div_facts(b - 100, 100);
    if t > 1000 {
        lemma_div_facts(t - 1000, 1000);
    }
    let r = chunk_ranges_spec(total as nat);
    let ns = sections_needed(b - 100, 100) as int;
    let nl = sections_needed(t - 1000, 1000) as int;
    assert(r.len() == ns + nl);
    lemma_chunk_index(total as nat, 0);
    lemma_chunk_index(total as nat, r.len() - 1);
    if t > 1000 {
        assert(ns == 9);
        let j = nl - 1;
        assert(1000 * j < t - 1000);
        assert(t - (1000 + 1000 * j) <= 1000);
    } else {
        assert(100 * (ns - 1) < b - 100);
        assert(b - (100 + 100 * (ns - 1)) <= 100);
    }
    assert forall|i: int| 0 <= i < r.len() - 1 implies (#[trigger] r[i]).0 + r[i].1 == r[i
        + 1].0 by {
        lemma_chunk_index(total as nat, i);
        lemma_chunk_index(total as nat, i + 1);
        if i < ns - 1 {
            assert(100 * (i + 1) < b - 100);
        } else if i == ns - 1 {
            assert(100 * i < b - 100);
            assert(b - (100 + 100 * i) <= 100);
            assert(t > 1000);
        } else {
            let j = i - ns;
            assert(1000 * (j + 1) < t - 1000);
        }
    }
    assert forall|i: int| 0 <= i < r.len() implies {
        let (o, l) = #[trigger] r[i];
        &&& l >= 1
        &&& o + l <= total
        &&& o < 1000 ==> l <= 100
        &&& o >= 1000 ==> l <= 1000
    } by {
        lemma_chunk_index(total as nat, i);
        if i >= ns {
            assert(chunk_at(t, i).0 >= 1000);
        } else {
            assert(chunk_at(t, i).0 < 1000);
        }
    }
}

} // verus!
