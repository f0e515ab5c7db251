//! Pagination state of expanded collections: chunk states keyed by chunk
//! offset, the eagerly loaded first page, and entry lookup across pages.

use vstd::prelude::*;

use crate::engine::{CollectionPage, EntryInfo};

verus! {

/// State of one chunk section in a paginated collection.
#[derive(Debug)]
pub enum ChunkState {
    /// Chunk not yet loaded — shows `+ [offset...end]`.
    Collapsed,
    /// Chunk load in progress — shows `~ Loading...`.
    Loading,
    /// Chunk loaded — shows entries inline.
    Loaded(CollectionPage),
}

/// Chunk states keyed by chunk offset, kept in insertion order with at most
/// one state per offset.
#[derive(Debug)]
pub struct ChunkPages {
    items: Vec<(usize, ChunkState)>,
}

/// Position of the first pair with key `k`.
pub open spec fn key_pos<K, V>(s: Seq<(K, V)>, k: K) -> Option<int>
    decreases s.len(),
{
    if s.len() == 0 {
        None
    } else if s[0].0 == k {
        Some(0)
    } else {
        match key_pos(s.drop_first(), k) {
            Some(i) => Some(i + 1),
            None => None,
        }
    }
}

/// The pairs after setting key `k` to `v`: the first pair with key `k`
/// replaced in place, or `(k, v)` appended when there is none.
pub open spec fn key_insert<K, V>(s: Seq<(K, V)>, k: K, v: V) -> Seq<(K, V)> {
    match key_pos(s, k) {
        Some(i) => s.update(i, (k, v)),
        None => s.push((k, v)),
    }
}

pub proof fn lemma_key_pos<K, V>(s: Seq<(K, V)>, k: K)
    ensures
        match key_pos(s, k) {
            Some(i) => 0 <= i < s.len() && s[i].0 == k && forall|j: int| 0 <= j < i ==> s[j].0 != k,
            None => forall|j: int| 0 <= j < s.len() ==> s[j].0 != k,
        },
    decreases s.len(),
{
    if s.len() > 0 {
        lemma_key_pos(s.drop_first(), k);
        if s[0].0 != k {
            assert forall|j: int| 0 < j < s.len() implies s[j] == s.drop_first()[j - 1] by {}
        }
    }
}

pub proof fn lemma_key_pos_same_keys<K, V>(s1: Seq<(K, V)>, s2: Seq<(K, V)>, k: K)
    requires
        s1.len() == s2.len(),
        forall|j: int| 0 <= j < s1.len() ==> s1[j].0 == s2[j].0,
    ensures
        key_pos(s1, k) == key_pos(s2, k),
    decreases s1.len(),
{
    if s1.len() > 0 {
        lemma_key_pos_same_keys(s1.drop_first(), s2.drop_first(), k);
    }
}

pub proof fn lemma_key_pos_push<K, V>(s: Seq<(K, V)>, x: (K, V), k: K)
    ensures
        key_pos(s.push(x), k) == (match key_pos(s, k) {
            Some(i) => Some(i),
            None => if x.0 == k {
                Some(s.len() as int)
            } else {
                None
            },
        }),
    decreases s.len(),
{
    if s.len() > 0 {
        assert(s.push(x).drop_first() =~= s.drop_first().push(x));
        assert(s.push(x)[0] == s[0]);
        lemma_key_pos_push(s.drop_first(), x, k);
        if s[0].0 != k {
            assert(key_pos(s.push(x), k) == match key_pos(s.drop_first().push(x), k) {
                Some(i) => Some(i + 1),
                None => None::<int>,
            });
        }
    } else {
        assert(s.push(x).drop_first() =~= Seq::<(K, V)>::empty());
        assert(key_pos(Seq::<(K, V)>::empty(), k) == None::<int>);
        assert(s.push(x)[0] == x);
    }
}

impl ChunkPages {
    /// The pairs, in order.
    pub closed spec fn pairs(&self) -> Seq<(usize, ChunkState)> {
        self.items@
    }

    /// Every offset occurs at most once.
    pub closed spec fn wf(&self) -> bool {
        forall|i: int, j: int|
            0 <= i < j < self.items@.len() ==> self.items@[i].0 != self.items@[j].0
    }

    /// The state at an offset.
    pub open spec fn lookup(&self, offset: usize) -> Option<ChunkState> {
        match key_pos(self.pairs(), offset) {
            Some(i) => Some(self.pairs()[i].1),
            None => None,
        }
    }

    /// No chunk state.
    pub fn new() -> (r: ChunkPages)
        ensures
            r.pairs().len() == 0,
            r.wf(),
    {
        ChunkPages { items: Vec::new() }
    }

    /// The state of the chunk at `offset`.
    pub fn get(&self, offset: usize) -> (r: Option<&ChunkState>)
        ensures
            match self.lookup(offset) {
                Some(c) => r == Some(&c),
                None => r is None,
            },
    {
        proof {
            lemma_key_pos(self.items@, offset);
        }
        let mut i: usize = 0;
        while i < self.items.len()
            invariant
                i <= self.items@.len(),
                forall|j: int| 0 <= j < i ==> self.items@[j].0 != offset,
                match key_pos(self.items@, offset) {
                    Some(p) => 0 <= p < self.items@.len() && self.items@[p].0 == offset
                        && forall|j: int| 0 <= j < p ==> self.items@[j].0 != offset,
                    None => forall|j: int| 0 <= j < self.items@.len() ==> self.items@[j].0 != offset,
                },
            decreases self.items@.len() - i,
        {
            if self.items[i].0 == offset {
                return Some(&self.items[i].1);
            }
            i = i + 1;
        }
        None
    }

    /// Sets the state of the chunk at `offset`, replacing any earlier one.
    pub fn insert(&mut self, offset: usize, state: ChunkState)
        requires
            old(self).wf(),
        ensures
            final(self).wf(),
            final(self).pairs() == key_insert(old(self).pairs(), offset, state),
            final(self).lookup(offset) == Some(state),
            forall|o: usize| o != offset ==> final(self).lookup(o) == old(self).lookup(o),
    {
        proof {
            lemma_key_pos(self.items@, offset);
        }
        let mut i: usize = 0;
        while i < self.items.len()
            invariant
                i <= self.items@.len(),
                self.wf(),
                self.items@ == old(self).items@,
                forall|j: int| 0 <= j < i ==> self.items@[j].0 != offset,
            decreases self.items@.len() - i,
        {
            if self.items[i].0 == offset {
                let ghost before = self.items@;
                self.items.set(i, (offset, state));
                proof {
                    lemma_key_pos_same_keys(before, self.items@, offset);
                    assert forall|o: usize| o != offset implies self.lookup(o) == old(self).lookup(o) by {
                        lemma_key_pos_same_keys(before, self.items@, o);
                        lemma_key_pos(before, o);
                    }
                    lemma_key_pos(self.items@, offset);
                    lemma_key_pos(before, offset);
                    assert(key_pos(before, offset) == Some(i as int));
                }
                return;
            }
            i = i + 1;
        }
        self.items.push((offset, state));
        proof {
            assert forall|o: usize| o != offset implies self.lookup(o) == old(self).lookup(o) by {
                lemma_key_pos_push(old(self).items@, (offset, state), o);
                lemma_key_pos(old(self).items@, o);
            }
            lemma_key_pos_push(old(self).items@, (offset, state), offset);
            lemma_key_pos(old(self).items@, offset);
        }
    }

    /// The pairs, in order.
    pub fn as_slice(&self) -> (r: &[(usize, ChunkState)])
        ensures
            r@ == self.pairs(),
    {
        self.items.as_slice()
    }
}

/// State for one expanded collection in the tree.
#[derive(Debug)]
pub struct CollectionChunks {
    /// Total entry count of the collection.
    pub total_count: u64,
    /// First page (eagerly loaded, entries 0..100).
    pub eager_page: Option<CollectionPage>,
    /// Chunk sections keyed by chunk offset.
    pub chunk_pages: ChunkPages,
}

/// Position of the first entry with the given index.
pub open spec fn entry_pos(es: Seq<EntryInfo>, index: usize) -> Option<int>
    decreases es.len(),
{
    if es.len() == 0 {
        None
    } else if es[0].index == index {
        Some(0)
    } else {
        match entry_pos(es.drop_first(), index) {
            Some(i) => Some(i + 1),
            None => None,
        }
    }
}

pub proof fn lemma_entry_pos(es: Seq<EntryInfo>, index: usize)
    ensures
        match entry_pos(es, index) {
            Some(i) => 0 <= i < es.len() && es[i].index == index && forall|j: int|
                0 <= j < i ==> es[j].index != index,
            None => forall|j: int| 0 <= j < es.len() ==> es[j].index != index,
        },
    decreases es.len(),
{
    if es.len() > 0 {
        lemma_entry_pos(es.drop_first(), index);
        if es[0].index != index {
            assert forall|j: int| 0 < j < es.len() implies es[j] == es.drop_first()[j - 1] by {}
        }
    }
}

/// The first entry with the given index in a page.
pub open spec fn page_entry(p: CollectionPage, index: usize) -> Option<EntryInfo> {
    match entry_pos(p.entries@, index) {
        Some(i) => Some(p.entries@[i]),
        None => None,
    }
}

/// The first entry with the given index over the loaded chunk pages, in
/// chunk order.
pub open spec fn chunks_entry(ps: Seq<(usize, ChunkState)>, index: usize) -> Option<EntryInfo>
    decreases ps.len(),
{
    if ps.len() == 0 {
        None
    } else {
        match ps[0].1 {
            ChunkState::Loaded(p) => match page_entry(p, index) {
                Some(e) => Some(e),
                None => chunks_entry(ps.drop_first(), index),
            },
            _ => chunks_entry(ps.drop_first(), index),
        }
    }
}

/// The entry with the given index: from the eager page first, then from
/// the loaded chunk pages in chunk order.
pub open spec fn find_entry_spec(cc: CollectionChunks, index: usize) -> Option<EntryInfo> {
    match cc.eager_page {
        Some(p) => match page_entry(p, index) {
            Some(e) => Some(e),
            None => chunks_entry(cc.chunk_pages.pairs(), index),
        },
        None => chunks_entry(cc.chunk_pages.pairs(), index),
    }
}

fn page_find(p: &CollectionPage, index: usize) -> (r: Option<&EntryInfo>)
    ensures
        match page_entry(*p, index) {
            Some(e) => r == Some(&e),
            None => r is None,
        },
{
    proof {
        lemma_entry_pos(p.entries@, index);
    }
    let mut i: usize = 0;
    while i < p.entries.len()
        invariant
            i <= p.entries@.len(),
            forall|j: int| 0 <= j < i ==> p.entries@[j].index != index,
            match entry_pos(p.entries@, index) {
                Some(k) => 0 <= k < p.entries@.len() && p.entries@[k].index == index
                    && forall|j: int| 0 <= j < k ==> p.entries@[j].index != index,
                None => forall|j: int| 0 <= j < p.entries@.len() ==> p.entries@[j].index != index,
            },
        decreases p.entries@.len() - i,
    {
        if p.entries[i].index == index {
            return Some(&p.entries[i]);
        }
        i = i + 1;
    }
    None
}

impl CollectionChunks {
    /// Finds the entry with the given `index` across all loaded pages
    /// (eager page first, then the loaded chunk pages).
    pub fn find_entry(&self, index: usize) -> (r: Option<&EntryInfo>)
        ensures
            match find_entry_spec(*self, index) {
                Some(e) => r == Some(&e),
                None => r is None,
            },
    {
        if let Some(page) = &self.eager_page {
            if let Some(e) = page_find(page, index) {
                return Some(e);
            }
        }
        let ps = self.chunk_pages.as_slice();
        assert(ps@.subrange(0, ps@.len() as int) =~= ps@);
        let mut i: usize = 0;
        while i < ps.len()
            invariant
                ps@ == self.chunk_pages.pairs(),
                i <= ps@.len(),
                find_entry_spec(*self, index) == chunks_entry(ps@, index),
                chunks_entry(ps@, index) == chunks_entry(ps@.subrange(i as int, ps@.len() as int), index),
            decreases ps@.len() - i,
        {
            proof {
                let rest = ps@.subrange(i as int, ps@.len() as int);
                assert(rest.drop_first() =~= ps@.subrange(i + 1, ps@.len() as int));
                assert(rest[0] == ps@[i as int]);
            }
            if let ChunkState::Loaded(page) = &ps[i].1 {
                if let Some(e) = page_find(page, index) {
                    proof {
                        let rest = ps@.subrange(i as int, ps@.len() as int);
                        assert(rest[0].1 == ChunkState::Loaded(*page));
                        assert(chunks_entry(rest, index) == Some(*e));
                    }
                    return Some(e);
                }
            }
            i = i + 1;
        }
        proof {
            assert(ps@.subrange(i as int, ps@.len() as int).len() == 0);
        }
        None
    }
}

} // verus!
