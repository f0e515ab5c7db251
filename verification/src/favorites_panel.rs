//! Favorites panel: the rows of the pinned snapshots and the cursor over
//! them. Each pinned item shows a header, its frozen tree (or value) and a
//! separator; the cursor is an item index and a row inside that item.

use vstd::prelude::*;

use std::collections::HashMap;

use crate::cursor::ListState;
use crate::rows::{row_view, rows_view, Span, SpanView, Tone};
use crate::stack_view::format::{push_short_name, short_name};
use crate::text::{decimal, hex_upper, push_decimal, push_hex, push_str, string_of};
use crate::engine::FieldInfo;
use crate::stack_view::collections::CollectionChunks;
use crate::favorites::{HideKey, PinnedItem, PinnedSnapshot};
use crate::tree_render::{
    renderable, row_info, rows_info, source_ctx, tree_of, walk_tree, RenderOptions, RootView, RowInfo, TreeCtx,
    TreeRoot, TreeRow, TreeSource,
};
use crate::stack_view::types::{ExpansionPhase, NavigationPath, PathSegment};
use crate::tree_shape::{lemma_shape_ignores_ids, same_but_ids, shapes};

verus! {

/// Row kinds of one item: sub-row to (object id, shown collapsed).
pub type RowKindMap = HashMap<usize, (u64, bool)>;

/// Chunk sentinels of one item: sub-row to (collection id, chunk offset).
pub type ChunkSentinelMap = HashMap<usize, (u64, usize)>;

/// Hideable rows of one item: sub-row to (key, is a hidden placeholder).
pub type FieldRowMap = HashMap<usize, (HideKey, bool)>;

/// Toggle paths of one item, by sub-row.
pub type PathMap = Vec<Option<NavigationPath>>;

/// Row bookkeeping of one item: row count and the four maps.
pub type RowMetadata = (usize, RowKindMap, ChunkSentinelMap, FieldRowMap, PathMap);

/// Number of rows of item `i`, one when unknown.
pub open spec fn count_at(counts: Seq<usize>, i: int) -> int {
    if 0 <= i < counts.len() {
        counts[i] as int
    } else {
        1
    }
}

/// The last sub-row of item `i`.
pub open spec fn last_sub_row(counts: Seq<usize>, i: int) -> int {
    if count_at(counts, i) >= 1 {
        count_at(counts, i) - 1
    } else {
        0
    }
}

/// Sum of the row counts of the items before `n`.
pub open spec fn rows_before(counts: Seq<usize>, n: int) -> int
    decreases n,
{
    if n <= 0 || counts.len() == 0 {
        0
    } else if n > counts.len() {
        rows_before(counts, counts.len() as int)
    } else {
        rows_before(counts, n - 1) + counts[n - 1]
    }
}

/// Position (item, sub-row) after moving one row down among `n` items:
/// the next row of the item, else the header of the next item, else stay.
pub open spec fn row_down(counts: Seq<usize>, n: int, sel: int, sub: int) -> (int, int) {
    if n == 0 {
        (sel, sub)
    } else if sub + 1 < count_at(counts, sel) {
        (sel, sub + 1)
    } else if sel + 1 < n {
        (sel + 1, 0)
    } else {
        (sel, sub)
    }
}

/// Position (item, sub-row) after moving one row up among `n` items: the
/// previous row of the item, else the last row of the previous item, else
/// stay.
pub open spec fn row_up(counts: Seq<usize>, n: int, sel: int, sub: int) -> (int, int) {
    if n == 0 {
        (sel, sub)
    } else if sub > 0 {
        (sel, sub - 1)
    } else if sel > 0 {
        (sel - 1, last_sub_row(counts, sel - 1))
    } else {
        (sel, sub)
    }
}

/// Law: from a row inside its item, moving down and, when that moved,
/// moving back up returns to the same row; the absolute row (the list row
/// that is highlighted) grows by exactly one.
pub proof fn lemma_row_down_then_up(counts: Seq<usize>, n: int, sel: int, sub: int)
    requires
        counts.len() == n,
        0 <= sel < n,
        counts[sel] >= 1,
        0 <= sub <= last_sub_row(counts, sel),
        row_down(counts, n, sel, sub) != (sel, sub),
    ensures
        row_up(counts, n, row_down(counts, n, sel, sub).0, row_down(counts, n, sel, sub).1) == (sel, sub),
        rows_before(counts, row_down(counts, n, sel, sub).0) + row_down(counts, n, sel, sub).1
            == rows_before(counts, sel) + sub + 1,
{
    if !(sub + 1 < count_at(counts, sel)) {
        assert(rows_before(counts, sel + 1) == rows_before(counts, sel) + counts[sel]);
    }
}

/// `s` cut or extended to `n` elements, new ones being `fill`.
pub open spec fn resized<T>(s: Seq<T>, n: int, fill: T) -> Seq<T> {
    Seq::new(n as nat, |i: int| if i < s.len() { s[i] } else { fill })
}

/// Ghost image of a path map.
pub open spec fn paths_view(pm: Seq<Option<NavigationPath>>) -> Seq<Option<Seq<PathSegment>>> {
    pm.map_values(|p: Option<NavigationPath>| match p {
        Some(q) => Some(q@),
        None => None,
    })
}

/// Ghost image of the path maps of all items.
pub open spec fn path_maps_view(pms: Seq<Vec<Option<NavigationPath>>>) -> Seq<Seq<Option<Seq<PathSegment>>>> {
    pms.map_values(|pm: Vec<Option<NavigationPath>>| paths_view(pm@))
}

/// Ghost image of a list of hash maps.
pub open spec fn maps_view<V>(ms: Seq<HashMap<usize, V>>) -> Seq<Map<usize, V>> {
    ms.map_values(|m: HashMap<usize, V>| m@)
}

/// Mutable scroll state for the favorites panel.
pub struct FavoritesPanelState {
    selected_item: usize,
    items_len: usize,
    sub_row: usize,
    row_counts: Vec<usize>,
    row_kind_maps: Vec<RowKindMap>,
    chunk_sentinel_maps: Vec<ChunkSentinelMap>,
    field_row_maps: Vec<FieldRowMap>,
    path_maps: Vec<PathMap>,
    list_state: ListState,
}

impl FavoritesPanelState {
    /// Index of the selected item.
    pub closed spec fn sel(&self) -> usize {
        self.selected_item
    }

    /// Known number of items.
    pub closed spec fn n_items(&self) -> usize {
        self.items_len
    }

    /// Selected row inside the selected item (0 is its header).
    pub closed spec fn sub(&self) -> usize {
        self.sub_row
    }

    /// Row counts per item.
    pub closed spec fn counts(&self) -> Seq<usize> {
        self.row_counts@
    }

    /// Row-kind maps per item.
    pub closed spec fn kinds(&self) -> Seq<Map<usize, (u64, bool)>> {
        maps_view(self.row_kind_maps@)
    }

    /// Chunk sentinel maps per item.
    pub closed spec fn sentinels(&self) -> Seq<Map<usize, (u64, usize)>> {
        maps_view(self.chunk_sentinel_maps@)
    }

    /// Field-row maps per item.
    pub closed spec fn field_rows(&self) -> Seq<Map<usize, (HideKey, bool)>> {
        maps_view(self.field_row_maps@)
    }

    /// Path maps per item.
    pub closed spec fn paths(&self) -> Seq<Seq<Option<Seq<PathSegment>>>> {
        path_maps_view(self.path_maps@)
    }

    /// The list state.
    pub closed spec fn list(&self) -> ListState {
        self.list_state
    }

    /// A state with no items.
    pub fn new() -> (r: Self)
        ensures
            r.sel() == 0,
            r.n_items() == 0,
            r.sub() == 0,
            r.counts().len() == 0,
            r.kinds().len() == 0,
            r.sentinels().len() == 0,
            r.field_rows().len() == 0,
            r.paths().len() == 0,
            r.list().selected_spec() is None,
            r.list().offset_spec() == 0,
    {
        let r = FavoritesPanelState {
            selected_item: 0,
            items_len: 0,
            sub_row: 0,
            row_counts: Vec::new(),
            row_kind_maps: Vec::new(),
            chunk_sentinel_maps: Vec::new(),
            field_row_maps: Vec::new(),
            path_maps: Vec::new(),
            list_state: ListState::new(),
        };
        assert(maps_view(r.row_kind_maps@).len() == 0);
        r
    }

    /// Returns selected item index in `pinned`.
    pub fn selected_index(&self) -> (r: usize)
        ensures
            r == self.sel(),
    {
        self.selected_item
    }

    /// The selected row inside the selected item.
    pub fn selected_sub_row(&self) -> (r: usize)
        ensures
            r == self.sub(),
    {
        self.sub_row
    }

    fn clamp_sub_row(&mut self)
        ensures
            final(self).sub() == (if old(self).sub() <= last_sub_row(old(self).counts(), old(self).sel() as int) {
                old(self).sub() as int
            } else {
                last_sub_row(old(self).counts(), old(self).sel() as int)
            }),
            final(self).sel() == old(self).sel(),
            final(self).n_items() == old(self).n_items(),
            final(self).counts() == old(self).counts(),
            final(self).kinds() == old(self).kinds(),
            final(self).sentinels() == old(self).sentinels(),
            final(self).field_rows() == old(self).field_rows(),
            final(self).paths() == old(self).paths(),
            final(self).list() == old(self).list(),
    {
        let rows = if self.selected_item < self.row_counts.len() {
            self.row_counts[self.selected_item]
        } else {
            1
        };
        let max_sub = if rows >= 1 {
            rows - 1
        } else {
            0
        };
        if self.sub_row > max_sub {
            self.sub_row = max_sub;
        }
    }
    /// Updates the known item count: with no items, the selection and all
    /// row bookkeeping are cleared; otherwise the selection is clamped to
    /// the last item, the bookkeeping is cut or extended to `len` items (a
    /// new item counts one row and has empty maps), and the sub-row is
    /// clamped to the selected item's rows.
    pub fn set_items_len(&mut self, len: usize)
        ensures
            final(self).n_items() == len,
            len == 0 ==> {
                &&& final(self).sel() == 0
                &&& final(self).sub() == 0
                &&& final(self).counts().len() == 0
                &&& final(self).kinds().len() == 0
                &&& final(self).sentinels().len() == 0
                &&& final(self).field_rows().len() == 0
                &&& final(self).paths().len() == 0
                &&& final(self).list().selected_spec() is None
                &&& final(self).list().offset_spec() == 0
            },
            len > 0 ==> {
                &&& final(self).sel() == (if old(self).sel() < len {
                    old(self).sel() as int
                } else {
                    len - 1
                })
                &&& final(self).counts() == resized(old(self).counts(), len as int, 1usize)
                &&& final(self).kinds() == resized(old(self).kinds(), len as int, Map::empty())
                &&& final(self).sentinels() == resized(old(self).sentinels(), len as int, Map::empty())
                &&& final(self).field_rows() == resized(old(self).field_rows(), len as int, Map::empty())
                &&& final(self).paths() == resized(old(self).paths(), len as int, Seq::empty())
                &&& final(self).sub() == (if old(self).sub() <= last_sub_row(
                    final(self).counts(),
                    final(self).sel() as int,
                ) {
                    old(self).sub() as int
                } else {
                    last_sub_row(final(self).counts(), final(self).sel() as int)
                })
                &&& final(self).list() == old(self).list()
            },
    {
        self.items_len = len;
        if len == 0 {
            self.selected_item = 0;
            self.sub_row = 0;
            self.row_counts.clear();
            self.row_kind_maps.clear();
            self.chunk_sentinel_maps.clear();
            self.field_row_maps.clear();
            self.path_maps.clear();
            self.list_state.select(None);
            assert(maps_view(self.row_kind_maps@) =~= Seq::<Map<usize, (u64, bool)>>::empty());
            assert(maps_view(self.chunk_sentinel_maps@) =~= Seq::<Map<usize, (u64, usize)>>::empty());
            assert(maps_view(self.field_row_maps@) =~= Seq::<Map<usize, (HideKey, bool)>>::empty());
            assert(path_maps_view(self.path_maps@) =~= Seq::<Seq<Option<Seq<PathSegment>>>>::empty());
            return;
        }
        if self.selected_item >= len {
            self.selected_item = len - 1;
        }
        resize_counts(&mut self.row_counts, len);
        resize_maps(&mut self.row_kind_maps, len);
        resize_maps(&mut self.chunk_sentinel_maps, len);
        resize_maps(&mut self.field_row_maps, len);
        resize_paths(&mut self.path_maps, len);
        self.clamp_sub_row();
    }

    /// Selects item `idx` (clamped to the last item; the sub-row resets to
    /// the header when the item changes), or deselects with `None`.
    pub fn set_selected_index(&mut self, idx: Option<usize>)
        ensures
            final(self).n_items() == old(self).n_items(),
            final(self).counts() == old(self).counts(),
            final(self).kinds() == old(self).kinds(),
            final(self).sentinels() == old(self).sentinels(),
            final(self).field_rows() == old(self).field_rows(),
            final(self).paths() == old(self).paths(),
            (old(self).n_items() == 0 || idx is None) ==> {
                &&& final(self).sel() == 0
                &&& final(self).sub() == 0
                &&& final(self).list().selected_spec() is None
                &&& final(self).list().offset_spec() == 0
            },
            (old(self).n_items() > 0 && idx is Some) ==> {
                let target: int = if idx.unwrap() < old(self).n_items() {
                    idx.unwrap() as int
                } else {
                    old(self).n_items() - 1
                };
                let sub0: int = if target == old(self).sel() {
                    old(self).sub() as int
                } else {
                    0
                };
                &&& final(self).sel() == target
                &&& final(self).sub() == (if sub0 <= last_sub_row(old(self).counts(), target) {
                    sub0
                } else {
                    last_sub_row(old(self).counts(), target)
                })
                &&& final(self).list() == old(self).list()
            },
    {
        if self.items_len == 0 {
            self.selected_item = 0;
            self.sub_row = 0;
            self.list_state.select(None);
            return;
        }
        match idx {
            Some(i) => {
                let clamped = if i < self.items_len {
                    i
                } else {
                    self.items_len - 1
                };
                if clamped != self.selected_item {
                    self.selected_item = clamped;
                    self.sub_row = 0;
                }
                self.clamp_sub_row();
            },
            None => {
                self.selected_item = 0;
                self.sub_row = 0;
                self.list_state.select(None);
            },
        }
    }

    /// Replaces the row bookkeeping of all items (one entry per item) and
    /// clamps the sub-row to the selected item's rows.
    pub fn update_row_metadata(
        &mut self,
        row_counts: Vec<usize>,
        row_kind_maps: Vec<RowKindMap>,
        chunk_sentinel_maps: Vec<ChunkSentinelMap>,
        field_row_maps: Vec<FieldRowMap>,
        path_maps: Vec<PathMap>,
    )
        requires
            row_counts@.len() == old(self).n_items(),
            row_kind_maps@.len() == old(self).n_items(),
            chunk_sentinel_maps@.len() == old(self).n_items(),
            field_row_maps@.len() == old(self).n_items(),
            path_maps@.len() == old(self).n_items(),
        ensures
            final(self).n_items() == old(self).n_items(),
            final(self).sel() == old(self).sel(),
            final(self).counts() == row_counts@,
            final(self).kinds() == maps_view(row_kind_maps@),
            final(self).sentinels() == maps_view(chunk_sentinel_maps@),
            final(self).field_rows() == maps_view(field_row_maps@),
            final(self).paths() == path_maps_view(path_maps@),
            final(self).sub() == (if old(self).sub() <= last_sub_row(row_counts@, old(self).sel() as int) {
                old(self).sub() as int
            } else {
                last_sub_row(row_counts@, old(self).sel() as int)
            }),
            final(self).list() == old(self).list(),
    {
        self.row_counts = row_counts;
        self.row_kind_maps = row_kind_maps;
        self.chunk_sentinel_maps = chunk_sentinel_maps;
        self.field_row_maps = field_row_maps;
        self.path_maps = path_maps;
        self.clamp_sub_row();
    }

    /// Moves one row up: inside the item, or to the last row of the
    /// previous item.
    pub fn move_up(&mut self)
        ensures
            final(self).n_items() == old(self).n_items(),
            final(self).counts() == old(self).counts(),
            final(self).kinds() == old(self).kinds(),
            final(self).sentinels() == old(self).sentinels(),
            final(self).field_rows() == old(self).field_rows(),
            final(self).paths() == old(self).paths(),
            final(self).list() == old(self).list(),
            (final(self).sel() as int, final(self).sub() as int) == row_up(
                old(self).counts(),
                old(self).n_items() as int,
                old(self).sel() as int,
                old(self).sub() as int,
            ),
    {
        if self.items_len == 0 {
            return;
        }
        if self.sub_row > 0 {
            self.sub_row = self.sub_row - 1;
            return;
        }
        if self.selected_item > 0 {
            self.selected_item = self.selected_item - 1;
            let rows = if self.selected_item < self.row_counts.len() {
                self.row_counts[self.selected_item]
            } else {
                1
            };
            self.sub_row = if rows >= 1 {
                rows - 1
            } else {
                0
            };
        }
    }

    /// Moves one row down: inside the item, or to the header of the next
    /// item.
    pub fn move_down(&mut self)
        ensures
            final(self).n_items() == old(self).n_items(),
            final(self).counts() == old(self).counts(),
            final(self).kinds() == old(self).kinds(),
            final(self).sentinels() == old(self).sentinels(),
            final(self).field_rows() == old(self).field_rows(),
            final(self).paths() == old(self).paths(),
            final(self).list() == old(self).list(),
            (final(self).sel() as int, final(self).sub() as int) == row_down(
                old(self).counts(),
                old(self).n_items() as int,
                old(self).sel() as int,
                old(self).sub() as int,
            ),
    {
        if self.items_len == 0 {
            return;
        }
        let rows = if self.selected_item < self.row_counts.len() {
            self.row_counts[self.selected_item]
        } else {
            1
        };
        if rows >= 1 && self.sub_row < rows - 1 {
            self.sub_row = self.sub_row + 1;
            return;
        }
        if self.selected_item < self.items_len - 1 {
            self.selected_item = self.selected_item + 1;
            self.sub_row = 0;
        }
    }

    /// Mutable access to the list state for rendering.
    pub fn list_state_mut(&mut self) -> (r: &mut ListState)
        ensures
            *r == old(self).list(),
            final(self).list() == *final(r),
            final(self).sel() == old(self).sel(),
            final(self).sub() == old(self).sub(),
            final(self).n_items() == old(self).n_items(),
            final(self).counts() == old(self).counts(),
            final(self).kinds() == old(self).kinds(),
            final(self).sentinels() == old(self).sentinels(),
            final(self).field_rows() == old(self).field_rows(),
            final(self).paths() == old(self).paths(),
    {
        &mut self.list_state
    }

    /// Absolute row of the cursor in the panel's list: the rows of the
    /// items above plus the sub-row.
    pub fn abs_row(&self) -> (r: usize)
        requires
            self.sel() < self.counts().len() ==> rows_before(self.counts(), self.sel() as int)
                + self.sub() <= usize::MAX,
        ensures
            r == (if self.n_items() == 0 || self.sel() >= self.counts().len() {
                0
            } else {
                rows_before(self.counts(), self.sel() as int) + self.sub()
            }),
    {
        if self.items_len == 0 || self.selected_item >= self.row_counts.len() {
            return 0;
        }
        let ghost cs = self.row_counts@;
        let ghost bound = rows_before(cs, self.selected_item as int);
        let mut sum: usize = 0;
        let mut i: usize = 0;
        while i < self.selected_item
            invariant
                cs == self.row_counts@,
                self.selected_item < cs.len(),
                bound == rows_before(cs, self.selected_item as int),
                bound + self.sub_row <= usize::MAX,
                i <= self.selected_item,
                sum == rows_before(cs, i as int),
            decreases self.selected_item - i,
        {
            proof {
                lemma_rows_before_monotone(cs, (i + 1) as int, self.selected_item as int);
            }
            sum = sum + self.row_counts[i];
            i = i + 1;
        }
        sum + self.sub_row
    }

    /// The toggleable object under the cursor and whether it shows
    /// collapsed.
    pub fn current_toggleable_object(&self) -> (r: Option<(u64, bool)>)
        ensures
            r == (if self.sel() < self.kinds().len() && self.kinds()[self.sel() as int].contains_key(self.sub()) {
                Some(self.kinds()[self.sel() as int][self.sub()])
            } else {
                None
            }),
    {
        if self.selected_item >= self.row_kind_maps.len() {
            return None;
        }
        match self.row_kind_maps[self.selected_item].get(&self.sub_row) {
            Some(v) => Some(*v),
            None => None,
        }
    }

    /// The toggle path of the row under the cursor; `None` on headers,
    /// separators and rows that do not toggle.
    pub fn current_toggleable_path(&self) -> (r: Option<&NavigationPath>)
        ensures
            match r {
                Some(p) => self.sel() < self.paths().len() && self.sub() < self.paths()[self.sel() as int].len()
                    && self.paths()[self.sel() as int][self.sub() as int] == Some(p@),
                None => !(self.sel() < self.paths().len() && self.sub() < self.paths()[self.sel() as int].len())
                    || self.paths()[self.sel() as int][self.sub() as int] is None,
            },
    {
        if self.selected_item >= self.path_maps.len() {
            return None;
        }
        let pm = &self.path_maps[self.selected_item];
        if self.sub_row >= pm.len() {
            return None;
        }
        match &pm[self.sub_row] {
            Some(p) => Some(p),
            None => None,
        }
    }

    /// The chunk sentinel under the cursor.
    pub fn current_chunk_sentinel(&self) -> (r: Option<(u64, usize)>)
        ensures
            r == (if self.sel() < self.sentinels().len() && self.sentinels()[self.sel() as int].contains_key(self.sub()) {
                Some(self.sentinels()[self.sel() as int][self.sub()])
            } else {
                None
            }),
    {
        if self.selected_item >= self.chunk_sentinel_maps.len() {
            return None;
        }
        match self.chunk_sentinel_maps[self.selected_item].get(&self.sub_row) {
            Some(v) => Some(*v),
            None => None,
        }
    }

    /// The hide key and hidden status of the row under the cursor; `None`
    /// on the header and on rows that cannot be hidden.
    pub fn field_key_at_cursor(&self) -> (r: Option<(HideKey, bool)>)
        ensures
            r == (if self.sel() < self.field_rows().len() && self.field_rows()[self.sel() as int].contains_key(self.sub()) {
                Some(self.field_rows()[self.sel() as int][self.sub()])
            } else {
                None
            }),
    {
        if self.selected_item >= self.field_row_maps.len() {
            return None;
        }
        match self.field_row_maps[self.selected_item].get(&self.sub_row) {
            Some(v) => Some(*v),
            None => None,
        }
    }
}

impl Default for FavoritesPanelState {
    fn default() -> (r: Self)
        ensures
            r.sel() == 0,
            r.n_items() == 0,
            r.sub() == 0,
            r.counts().len() == 0,
            r.kinds().len() == 0,
            r.sentinels().len() == 0,
            r.field_rows().len() == 0,
            r.paths().len() == 0,
            r.list().selected_spec() is None,
            r.list().offset_spec() == 0,
    {
        FavoritesPanelState::new()
    }
}

/// Prefix sums of row counts grow with the prefix.
pub proof fn lemma_rows_before_monotone(counts: Seq<usize>, a: int, b: int)
    requires
        0 <= a <= b <= counts.len(),
    ensures
        rows_before(counts, a) <= rows_before(counts, b),
    decreases b - a,
{
    if a < b {
        lemma_rows_before_monotone(counts, a, b - 1);
    }
}

fn resize_counts(v: &mut Vec<usize>, n: usize)
    ensures
        final(v)@ == resized(old(v)@, n as int, 1usize),
{
    if v.len() > n {
        v.truncate(n);
    }
    while v.len() < n
        invariant
            old(v)@.len() <= n ==> v@ == old(v)@ + Seq::new((v@.len() - old(v)@.len()) as nat, |i: int| 1usize),
            old(v)@.len() > n ==> v@ == old(v)@.take(n as int),
            v@.len() <= n,
        decreases n - v@.len(),
    {
        let ghost before = v@;
        v.push(1);
        proof {
            if old(v)@.len() <= n {
                assert(v@ =~= old(v)@ + Seq::new((v@.len() - old(v)@.len()) as nat, |i: int| 1usize));
            }
        }
    }
    assert(v@ =~= resized(old(v)@, n as int, 1usize));
}

fn resize_maps<V>(v: &mut Vec<HashMap<usize, V>>, n: usize)
    ensures
        maps_view(final(v)@) == resized(maps_view(old(v)@), n as int, Map::empty()),
{
    if v.len() > n {
        v.truncate(n);
    }
    let ghost ov = maps_view(old(v)@);
    while v.len() < n
        invariant
            ov == maps_view(old(v)@),
            v@.len() <= n,
            v@.len() < n ==> v@.len() >= ov.len(),
            forall|i: int| 0 <= i < v@.len() ==> (#[trigger] maps_view(v@)[i]) == (if i < ov.len() {
                ov[i]
            } else {
                Map::empty()
            }),
        decreases n - v@.len(),
    {
        let ghost before = maps_view(v@);
        v.push(HashMap::new());
        assert(maps_view(v@) =~= before.push(Map::empty()));
    }
    assert(maps_view(v@) =~= resized(ov, n as int, Map::empty()));
}

fn resize_paths(v: &mut Vec<PathMap>, n: usize)
    ensures
        path_maps_view(final(v)@) == resized(path_maps_view(old(v)@), n as int, Seq::empty()),
{
    if v.len() > n {
        v.truncate(n);
    }
    let ghost ov = path_maps_view(old(v)@);
    while v.len() < n
        invariant
            ov == path_maps_view(old(v)@),
            v@.len() <= n,
            v@.len() < n ==> v@.len() >= ov.len(),
            forall|i: int| 0 <= i < v@.len() ==> (#[trigger] path_maps_view(v@)[i]) == (if i < ov.len() {
                ov[i]
            } else {
                Seq::empty()
            }),
        decreases n - v@.len(),
    {
        let ghost before = path_maps_view(v@);
        let e: PathMap = Vec::new();
        assert(paths_view(e@) =~= Seq::<Option<Seq<PathSegment>>>::empty());
        v.push(e);
        assert(path_maps_view(v@) =~= before.push(Seq::empty()));
    }
    assert(path_maps_view(v@) =~= resized(ov, n as int, Seq::empty()));
}

/// The phase of an object id, `Collapsed` when none is recorded.
pub fn get_phase(object_id: u64, object_phases: &HashMap<u64, ExpansionPhase>) -> (r: ExpansionPhase)
    ensures
        r == (if object_phases@.contains_key(object_id) {
            object_phases@[object_id]
        } else {
            ExpansionPhase::Collapsed
        }),
{
    match object_phases.get(&object_id) {
        Some(p) => *p,
        None => ExpansionPhase::Collapsed,
    }
}

/// Phases of a frozen snapshot: every object the snapshot holds data of
/// (instance fields, static fields or collection pages) is expanded.
pub open spec fn snapshot_phases(a: Set<u64>, b: Set<u64>, c: Set<u64>) -> Map<u64, ExpansionPhase> {
    Map::new(|k: u64| a.contains(k) || b.contains(k) || c.contains(k), |k: u64| ExpansionPhase::Expanded)
}

fn mark_expanded<V>(out: &mut HashMap<u64, ExpansionPhase>, m: &HashMap<u64, V>)
    ensures
        final(out)@.dom() == old(out)@.dom() + m@.dom(),
        forall|k: u64| #[trigger] final(out)@.contains_key(k) ==> (old(out)@.contains_key(k) && !m@.dom().contains(k)
            ==> final(out)@[k] == old(out)@[k]),
        forall|k: u64| #[trigger] m@.dom().contains(k) ==> final(out)@[k] == ExpansionPhase::Expanded,
{
    broadcast use vstd::std_specs::hash::group_hash_axioms;
    let ghost o = out@;
    let ghost mut seen: Set<u64> = Set::empty();
    for k in it: m.keys()
        invariant
            it.seq().unref().to_set() == m@.dom(),
            seen == it.seq().take(it.index()).unref().to_set(),
            it.index() == it.seq().len() ==> seen == m@.dom(),
            out@.dom() == o.dom() + seen,
            forall|x: u64| #[trigger] out@.contains_key(x) ==> (o.contains_key(x) && !seen.contains(x)
                ==> out@[x] == o[x]),
            forall|x: u64| #[trigger] seen.contains(x) ==> out@[x] == ExpansionPhase::Expanded,
    {
        let ghost i = it.index();
        out.insert(*k, ExpansionPhase::Expanded);
        proof {
            seen = seen.insert(*k);
        }
        assert(it.seq().take(i + 1).unref() =~= it.seq().take(i).unref().push(*k));
        proof {
            it.seq().take(i).unref().lemma_push_to_set_commute(*k);
        }
        assert(i + 1 == it.seq().len() ==> it.seq().take(i + 1) =~= it.seq());
    }
    assert(out@.dom() =~= o.dom() + m@.dom());
}

/// Phases for a pinned snapshot: every object the snapshot holds data of is
/// expanded.
pub fn object_phases_for_item(
    object_fields: &HashMap<u64, Vec<FieldInfo>>,
    object_static_fields: &HashMap<u64, Vec<FieldInfo>>,
    collection_chunks: &HashMap<u64, CollectionChunks>,
) -> (r: HashMap<u64, ExpansionPhase>)
    ensures
        r@ == snapshot_phases(object_fields@.dom(), object_static_fields@.dom(), collection_chunks@.dom()),
{
    let mut out: HashMap<u64, ExpansionPhase> = HashMap::new();
    mark_expanded(&mut out, object_fields);
    mark_expanded(&mut out, object_static_fields);
    mark_expanded(&mut out, collection_chunks);
    assert(out@ =~= snapshot_phases(object_fields@.dom(), object_static_fields@.dom(), collection_chunks@.dom()));
    out
}

/// The walk context of a pinned snapshot's tree.
pub open spec fn item_ctx(
    of: Map<u64, Vec<FieldInfo>>,
    osf: Map<u64, Vec<FieldInfo>>,
    cc: Map<u64, CollectionChunks>,
    item: PinnedItem,
    show_ids: bool,
) -> TreeCtx {
    source_ctx(
        of,
        osf,
        cc,
        snapshot_phases(of.dom(), osf.dom(), cc.dom()),
        Map::empty(),
        RenderOptions { show_object_ids: show_ids, snapshot_mode: true, show_hidden: item.show_hidden },
        item.hidden_fields.set(),
        item.local_collapsed.set(),
    )
}

/// The tree of a pinned frame or subtree: its walk context and root.
pub open spec fn item_tree(item: PinnedItem, show_ids: bool) -> Option<(TreeCtx, RootView)> {
    match item.snapshot {
        PinnedSnapshot::Frame { variables, object_fields, object_static_fields, collection_chunks, .. } => Some(
            (
                item_ctx(object_fields@, object_static_fields@, collection_chunks@, item, show_ids),
                RootView::Frame { vars: variables@, frame_id: 0 },
            ),
        ),
        PinnedSnapshot::Subtree { root_id, object_fields, object_static_fields, collection_chunks, .. } => Some(
            (
                item_ctx(object_fields@, object_static_fields@, collection_chunks@, item, show_ids),
                RootView::Subtree { root_id },
            ),
        ),
        _ => None,
    }
}

/// Whether the item's tree (if any) can be walked.
pub open spec fn item_renderable(item: PinnedItem, show_ids: bool) -> bool {
    match item_tree(item, show_ids) {
        Some(t) => renderable(t.0, t.1),
        None => true,
    }
}

/// Whether the snapshot was cut short.
pub open spec fn item_truncated(item: PinnedItem) -> bool {
    match item.snapshot {
        PinnedSnapshot::Frame { truncated, .. } => truncated,
        PinnedSnapshot::Subtree { truncated, .. } => truncated,
        _ => false,
    }
}

/// Rows of the item's tree.
pub open spec fn item_tree_rows(item: PinnedItem, show_ids: bool) -> Seq<RowInfo> {
    match item_tree(item, show_ids) {
        Some(t) => tree_of(t.0, t.1),
        None => Seq::empty(),
    }
}

/// Sub-row of the first tree row: after the header and the truncation
/// warning; for values, the sub-row after the header and the value row.
pub open spec fn item_start(item: PinnedItem) -> int {
    match item_tree(item, false) {
        Some(_) => if item_truncated(item) {
            2
        } else {
            1
        },
        None => 2,
    }
}

/// Row count of an item: header, warning, tree rows (or value row) and
/// separator.
pub open spec fn meta_count(item: PinnedItem) -> int {
    item_start(item) + item_tree_rows(item, false).len() + 1
}

/// Row kinds of an item by sub-row.
pub open spec fn meta_kinds(item: PinnedItem) -> Map<usize, (u64, bool)> {
    let rows = item_tree_rows(item, false);
    let st = item_start(item);
    Map::new(
        |r: usize| st <= r < st + rows.len() && rows[r - st].kind is Some,
        |r: usize| rows[r - st].kind.unwrap(),
    )
}

/// Hideable rows of an item by sub-row.
pub open spec fn meta_fields(item: PinnedItem) -> Map<usize, (HideKey, bool)> {
    let rows = item_tree_rows(item, false);
    let st = item_start(item);
    Map::new(
        |r: usize| st <= r < st + rows.len() && rows[r - st].field is Some,
        |r: usize| rows[r - st].field.unwrap(),
    )
}

/// Toggle paths of an item by sub-row.
pub open spec fn meta_paths(item: PinnedItem) -> Seq<Option<Seq<PathSegment>>> {
    Seq::new(item_start(item) as nat, |i: int| None) + item_tree_rows(item, false).map_values(
        |r: RowInfo| r.path,
    ) + seq![None]
}

fn collect_tree_metadata(rows: Vec<TreeRow>, start: usize) -> (r: RowMetadata)
    requires
        start + rows@.len() + 1 <= usize::MAX,
    ensures
        r.0 == start + rows@.len() + 1,
        r.1@ == Map::new(
            |k: usize| start <= k < start + rows@.len() && rows_info(rows@)[k - start].kind is Some,
            |k: usize| rows_info(rows@)[k - start].kind.unwrap(),
        ),
        r.2@ == Map::<usize, (u64, usize)>::empty(),
        r.3@ == Map::new(
            |k: usize| start <= k < start + rows@.len() && rows_info(rows@)[k - start].field is Some,
            |k: usize| rows_info(rows@)[k - start].field.unwrap(),
        ),
        paths_view(r.4@) == Seq::new(start as nat, |i: int| None) + rows_info(rows@).map_values(
            |x: RowInfo| x.path,
        ) + seq![None],
{
    broadcast use vstd::std_specs::hash::group_hash_axioms;
    let ghost ri = rows_info(rows@);
    let ghost n = rows@.len();
    let mut kind_map: RowKindMap = HashMap::new();
    let mut field_map: FieldRowMap = HashMap::new();
    let mut path_map: PathMap = Vec::new();
    let mut k: usize = 0;
    while k < start
        invariant
            k <= start,
            paths_view(path_map@) == Seq::new(k as nat, |i: int| None::<Seq<PathSegment>>),
        decreases start - k,
    {
        let ghost pv = paths_view(path_map@);
        path_map.push(None);
        assert(paths_view(path_map@) =~= pv.push(None));
        assert(paths_view(path_map@) =~= Seq::new((k + 1) as nat, |i: int| None::<Seq<PathSegment>>));
        k = k + 1;
    }
    let ghost iv = rows@;
    let mut row_no: usize = start;
    for row in it: rows
        invariant
            it.seq() == iv,
            ri == rows_info(iv),
            n == iv.len(),
            start + n + 1 <= usize::MAX,
            row_no == start + it.index(),
            kind_map@ == Map::new(
                |x: usize| start <= x < row_no && ri[x - start].kind is Some,
                |x: usize| ri[x - start].kind.unwrap(),
            ),
            field_map@ == Map::new(
                |x: usize| start <= x < row_no && ri[x - start].field is Some,
                |x: usize| ri[x - start].field.unwrap(),
            ),
            paths_view(path_map@) == Seq::new(start as nat, |i: int| None) + ri.take(it.index() as int).map_values(
                |x: RowInfo| x.path,
            ),
    {
        let ghost j = it.index();
        assert(row == iv[j as int]);
        assert(ri[j as int] == row_info(row));
        match row.kind {
            Some(kv) => {
                kind_map.insert(row_no, kv);
            },
            None => {},
        }
        match row.field {
            Some(fv) => {
                field_map.insert(row_no, fv);
            },
            None => {},
        }
        let ghost pv = paths_view(path_map@);
        path_map.push(row.path);
        assert(paths_view(path_map@) =~= pv.push(ri[j as int].path));
        assert(ri.take(j + 1).map_values(|x: RowInfo| x.path) =~= ri.take(j as int).map_values(
            |x: RowInfo| x.path,
        ).push(ri[j as int].path));
        row_no = row_no + 1;
        assert(kind_map@ =~= Map::new(
            |x: usize| start <= x < row_no && ri[x - start].kind is Some,
            |x: usize| ri[x - start].kind.unwrap(),
        ));
        assert(field_map@ =~= Map::new(
            |x: usize| start <= x < row_no && ri[x - start].field is Some,
            |x: usize| ri[x - start].field.unwrap(),
        ));
    }
    let ghost pv = paths_view(path_map@);
    path_map.push(None);
    assert(ri.take(n as int) =~= ri);
    assert(paths_view(path_map@) =~= pv.push(None));
    (row_no + 1, kind_map, HashMap::new(), field_map, path_map)
}

/// Walks the tree of a pinned frame or subtree (nothing for values);
/// `None` when the walk exceeds its nesting budget.
pub fn walk_item(item: &PinnedItem, show_object_ids: bool) -> (r: Option<Vec<TreeRow>>)
    ensures
        r is Some == item_renderable(*item, show_object_ids),
        r matches Some(rows) ==> rows_info(rows@) == item_tree_rows(*item, show_object_ids),
{
    let options = RenderOptions { show_object_ids, snapshot_mode: true, show_hidden: item.show_hidden };
    let errors: HashMap<u64, String> = HashMap::new();
    match &item.snapshot {
        PinnedSnapshot::Frame { variables, object_fields, object_static_fields, collection_chunks, .. } => {
            let phases = object_phases_for_item(object_fields, object_static_fields, collection_chunks);
            let src = TreeSource {
                object_fields,
                object_static_fields,
                collection_chunks,
                object_phases: &phases,
                object_errors: &errors,
                hidden_fields: &item.hidden_fields,
                local_collapsed: &item.local_collapsed,
                options,
                path_phases: None,
            };
            assert(src.ctx() == item_ctx(object_fields@, object_static_fields@, collection_chunks@, *item, show_object_ids));
            walk_tree(&src, TreeRoot::Frame { vars: variables.as_slice(), frame_id: 0 })
        },
        PinnedSnapshot::Subtree { root_id, object_fields, object_static_fields, collection_chunks, .. } => {
            let phases = object_phases_for_item(object_fields, object_static_fields, collection_chunks);
            let src = TreeSource {
                object_fields,
                object_static_fields,
                collection_chunks,
                object_phases: &phases,
                object_errors: &errors,
                hidden_fields: &item.hidden_fields,
                local_collapsed: &item.local_collapsed,
                options,
                path_phases: None,
            };
            assert(src.ctx() == item_ctx(object_fields@, object_static_fields@, collection_chunks@, *item, show_object_ids));
            walk_tree(&src, TreeRoot::Subtree { root_id: *root_id })
        },
        _ => {
            let r: Vec<TreeRow> = Vec::new();
            assert(rows_info(r@) =~= Seq::<RowInfo>::empty());
            Some(r)
        },
    }
}

/// Row bookkeeping of one pinned item: its row count (header, truncation
/// warning, tree rows or value row, separator), the toggleable object and
/// the hideable key of each tree row by sub-row, no chunk sentinels, and
/// the toggle path of each sub-row.
pub fn collect_row_metadata(item: &PinnedItem) -> (r: RowMetadata)
    requires
        item_renderable(*item, false),
        meta_count(*item) <= usize::MAX,
    ensures
        r.0 == meta_count(*item),
        r.1@ == meta_kinds(*item),
        r.2@ == Map::<usize, (u64, usize)>::empty(),
        r.3@ == meta_fields(*item),
        paths_view(r.4@) == meta_paths(*item),
{
    let rows = match walk_item(item, false) {
        Some(rows) => rows,
        None => {
            return (0, HashMap::new(), HashMap::new(), HashMap::new(), Vec::new());
        },
    };
    let start: usize = match &item.snapshot {
        PinnedSnapshot::Frame { truncated, .. } => if *truncated {
            2
        } else {
            1
        },
        PinnedSnapshot::Subtree { truncated, .. } => if *truncated {
            2
        } else {
            1
        },
        _ => 2,
    };
    let r = collect_tree_metadata(rows, start);
    assert(r.1@ =~= meta_kinds(*item));
    assert(r.3@ =~= meta_fields(*item));
    r
}

/// Row count of an item when it can be rendered and counted in a `usize`:
/// its tree walk stays within its budget.
pub fn item_row_count(item: &PinnedItem) -> (r: Option<usize>)
    ensures
        r is Some == (item_renderable(*item, false) && meta_count(*item) <= usize::MAX),
        r matches Some(n) ==> n == meta_count(*item),
{
    let rows = match walk_item(item, false) {
        Some(rows) => rows,
        None => {
            return None;
        },
    };
    let start: usize = match &item.snapshot {
        PinnedSnapshot::Frame { truncated, .. } => if *truncated {
            2
        } else {
            1
        },
        PinnedSnapshot::Subtree { truncated, .. } => if *truncated {
            2
        } else {
            1
        },
        _ => 2,
    };
    let n = rows.len();
    assert(n == item_tree_rows(*item, false).len());
    if n > usize::MAX - start - 1 {
        return None;
    }
    Some(start + n + 1)
}

/// Warning row of a snapshot that was cut short.
pub const TRUNCATED_WARNING: &'static str = "  [!] snapshot partiel \u{2014} trop d'objets";

/// Header text of a pinned item: `[F] thread · frame` for frames,
/// `[V] thread · frame › item` otherwise.
pub open spec fn header_text(item: PinnedItem) -> Seq<char> {
    match item.snapshot {
        PinnedSnapshot::Frame { .. } => "[F] "@ + item.thread_name@ + " \u{b7} "@ + item.frame_label@,
        _ => "[V] "@ + item.thread_name@ + " \u{b7} "@ + item.frame_label@ + " \u{203a} "@ + item.item_label@,
    }
}

/// Text of a pinned reference that was never expanded.
pub open spec fn unexpanded_label(class_name: Seq<char>, object_id: u64) -> Seq<char> {
    if object_id == 0 {
        "  "@ + short_name(class_name) + " [not expanded]"@
    } else {
        "  "@ + short_name(class_name) + " @ 0x"@ + hex_upper(object_id as nat) + " [not expanded]"@
    }
}

/// Law: a pinned reference that was never expanded shows as one row: two
/// spaces, the short class name, then, for a nonzero object id, ` @ 0x`
/// and the canonical upper-case hexadecimal text of the id, and last
/// ` [not expanded]`.
pub proof fn lemma_unexpanded_ref_row(item: PinnedItem, show_ids: bool)
    requires
        item.snapshot is UnexpandedRef,
    ensures
        item_body(item, show_ids).len() == 1,
        item_body(item, show_ids)[0].len() == 1,
        ({
            let t = item_body(item, show_ids)[0][0].0;
            let cn = item.snapshot->UnexpandedRef_class_name@;
            let id = item.snapshot->UnexpandedRef_object_id;
            if id == 0 {
                t == "  "@ + short_name(cn) + " [not expanded]"@
            } else {
                exists|h: Seq<char>|
                    #[trigger] crate::text::reads_as_hex(h, id as int) && t == "  "@ + short_name(cn) + " @ 0x"@ + h
                        + " [not expanded]"@
            }
        }),
{
    let id = item.snapshot->UnexpandedRef_object_id;
    crate::text::lemma_hex_reads_back(id as nat);
}

/// Rows of one pinned item: header, truncation warning, tree (or value)
/// and an empty separator row.
pub open spec fn item_panel_rows(item: PinnedItem, show_ids: bool) -> Seq<Seq<SpanView>> {
    seq![seq![(header_text(item), Tone::StatusBar)]] + item_warn(item) + item_body(item, show_ids) + seq![
        seq![(Seq::<char>::empty(), Tone::Plain)],
    ]
}

/// The truncation warning row of an item, if any.
pub open spec fn item_warn(item: PinnedItem) -> Seq<Seq<SpanView>> {
    if item_truncated(item) {
        seq![seq![(TRUNCATED_WARNING@, Tone::Error)]]
    } else {
        Seq::empty()
    }
}

/// The content rows of an item: its tree, or its value row.
pub open spec fn item_body(item: PinnedItem, show_ids: bool) -> Seq<Seq<SpanView>> {
    match item.snapshot {
        PinnedSnapshot::UnexpandedRef { class_name, object_id } => seq![seq![(unexpanded_label(class_name@, object_id), Tone::Plain)]],
        PinnedSnapshot::Primitive { value_label } => seq![seq![("  "@ + value_label@, Tone::Plain)]],
        _ => item_tree_rows(item, show_ids).map_values(|r: RowInfo| r.spans),
    }
}

/// Rows of the items `items[i..]`.
pub open spec fn panel_rows_from(items: Seq<PinnedItem>, i: int, show_ids: bool) -> Seq<Seq<SpanView>>
    decreases items.len() - i,
{
    if i < 0 || i >= items.len() {
        Seq::empty()
    } else {
        item_panel_rows(items[i], show_ids) + panel_rows_from(items, i + 1, show_ids)
    }
}

/// Rows of the panel: the rows of each item, or `(no favorites)`.
pub open spec fn panel_rows(items: Seq<PinnedItem>, show_ids: bool) -> Seq<Seq<SpanView>> {
    if items.len() == 0 {
        seq![seq![("(no favorites)"@, Tone::Null)]]
    } else {
        panel_rows_from(items, 0, show_ids)
    }
}

/// Row counts of the items.
pub open spec fn meta_counts(items: Seq<PinnedItem>) -> Seq<usize> {
    items.map_values(|it: PinnedItem| meta_count(it) as usize)
}

/// `x` clamped to at most `m`.
pub open spec fn clamp_to(x: int, m: int) -> int {
    if x <= m {
        x
    } else {
        m
    }
}

/// Render-time data for the favorites panel.
pub struct FavoritesPanel<'a> {
    /// Whether this panel has keyboard focus.
    pub focused: bool,
    /// Whether object ids are shown in rendered rows.
    pub show_object_ids: bool,
    /// Pinned items to display.
    pub pinned: &'a [PinnedItem],
}

fn push_span_row(out: &mut Vec<Vec<Span>>, text: String, tone: Tone)
    ensures
        rows_view(final(out)@) == rows_view(old(out)@).push(seq![(text@, tone)]),
{
    let ghost t = text@;
    let mut row: Vec<Span> = Vec::new();
    row.push(Span { text, tone });
    assert(row_view(row@) =~= seq![(t, tone)]);
    let ghost rv = row_view(row@);
    out.push(row);
    assert(rows_view(out@) =~= rows_view(old(out)@).push(rv));
}

impl<'a> FavoritesPanel<'a> {
    /// Whether the rows of the panel can be built: every item's tree walk
    /// ends and all rows can be counted in a `usize`.
    pub fn can_build_rows(&self) -> (r: bool)
        ensures
            r == ((forall|i: int|
                0 <= i < self.pinned@.len() ==> item_renderable(#[trigger] self.pinned@[i], false)
                    && meta_count(self.pinned@[i]) <= usize::MAX)
                && rows_before(meta_counts(self.pinned@), self.pinned@.len() as int) <= usize::MAX),
    {
        let ghost items = self.pinned@;
        let ghost counts = meta_counts(items);
        let mut total: usize = 0;
        let mut i: usize = 0;
        while i < self.pinned.len()
            invariant
                items == self.pinned@,
                counts == meta_counts(items),
                i <= items.len(),
                forall|j: int|
                    0 <= j < i ==> item_renderable(#[trigger] items[j], false)
                        && meta_count(items[j]) <= usize::MAX,
                total == rows_before(counts, i as int),
            decreases items.len() - i,
        {
            match item_row_count(&self.pinned[i]) {
                None => {
                    return false;
                },
                Some(n) => {
                    assert(counts[i as int] == n);
                    if n > usize::MAX - total {
                        proof {
                            lemma_rows_before_monotone(counts, i + 1, items.len() as int);
                        }
                        return false;
                    }
                    total = total + n;
                },
            }
            i = i + 1;
        }
        true
    }

    /// Title of the panel block: `Favorites [N]`.
    pub fn title(&self) -> (r: String)
        ensures
            r@ == "Favorites ["@ + decimal(self.pinned@.len()) + "]"@,
    {
        let mut t = string_of("Favorites [");
        push_decimal(&mut t, self.pinned.len() as u64);
        push_str(&mut t, "]");
        t
    }

    fn push_header(item: &PinnedItem, out: &mut Vec<Vec<Span>>)
        ensures
            rows_view(final(out)@) == rows_view(old(out)@) + seq![seq![(header_text(*item), Tone::StatusBar)]] + item_warn(*item),
    {
        let mut head = String::new();
        match &item.snapshot {
            PinnedSnapshot::Frame { .. } => {
                push_str(&mut head, "[F] ");
                push_str(&mut head, item.thread_name.as_str());
                push_str(&mut head, " \u{b7} ");
                push_str(&mut head, item.frame_label.as_str());
            },
            _ => {
                push_str(&mut head, "[V] ");
                push_str(&mut head, item.thread_name.as_str());
                push_str(&mut head, " \u{b7} ");
                push_str(&mut head, item.frame_label.as_str());
                push_str(&mut head, " \u{203a} ");
                push_str(&mut head, item.item_label.as_str());
            },
        }
        assert(head@ =~= header_text(*item));
        push_span_row(out, head, Tone::StatusBar);
        let truncated = match &item.snapshot {
            PinnedSnapshot::Frame { truncated, .. } => *truncated,
            PinnedSnapshot::Subtree { truncated, .. } => *truncated,
            _ => false,
        };
        if truncated {
            push_span_row(out, string_of(TRUNCATED_WARNING), Tone::Error);
        }
        assert(rows_view(out@) =~= rows_view(old(out)@) + seq![seq![(header_text(*item), Tone::StatusBar)]] + item_warn(*item));
    }

    fn push_tree_rows(rows: Vec<TreeRow>, out: &mut Vec<Vec<Span>>)
        ensures
            rows_view(final(out)@) == rows_view(old(out)@) + rows_info(rows@).map_values(|r: RowInfo| r.spans),
    {
        let ghost before_body = rows_view(out@);
        let ghost iv = rows@;
        let ghost ri = rows_info(iv);
        for row in it: rows
            invariant
                it.seq() == iv,
                ri == rows_info(iv),
                rows_view(out@) == before_body + ri.take(it.index() as int).map_values(|r: RowInfo| r.spans),
        {
            let ghost k = it.index();
            assert(row == iv[k as int]);
            let ghost before = rows_view(out@);
            out.push(row.spans);
            assert(rows_view(out@) =~= before.push(ri[k as int].spans));
            assert(ri.take(k + 1).map_values(|r: RowInfo| r.spans) =~= ri.take(k as int).map_values(
                |r: RowInfo| r.spans,
            ).push(ri[k as int].spans));
        }
        assert(ri.take(iv.len() as int) =~= ri);
    }

    fn push_body(&self, item: &PinnedItem, out: &mut Vec<Vec<Span>>)
        requires
            item_renderable(*item, self.show_object_ids),
        ensures
            rows_view(final(out)@) == rows_view(old(out)@) + item_body(*item, self.show_object_ids),
    {
        match &item.snapshot {
            PinnedSnapshot::UnexpandedRef { class_name, object_id } => {
                let mut t = string_of("  ");
                push_short_name(&mut t, class_name.as_str());
                if *object_id != 0 {
                    push_str(&mut t, " @ 0x");
                    push_hex(&mut t, *object_id);
                }
                push_str(&mut t, " [not expanded]");
                assert(t@ =~= unexpanded_label(class_name@, *object_id));
                push_span_row(out, t, Tone::Plain);
                assert(rows_view(out@) =~= rows_view(old(out)@) + item_body(*item, self.show_object_ids));
            },
            PinnedSnapshot::Primitive { value_label } => {
                let mut t = string_of("  ");
                push_str(&mut t, value_label.as_str());
                push_span_row(out, t, Tone::Plain);
                assert(rows_view(out@) =~= rows_view(old(out)@) + item_body(*item, self.show_object_ids));
            },
            _ => {
                if let Some(rows) = walk_item(item, self.show_object_ids) {
                    Self::push_tree_rows(rows, out);
                }
            },
        }
    }

    fn push_item_rows(&self, item: &PinnedItem, out: &mut Vec<Vec<Span>>)
        requires
            item_renderable(*item, self.show_object_ids),
        ensures
            rows_view(final(out)@) == rows_view(old(out)@) + item_panel_rows(*item, self.show_object_ids),
    {
        Self::push_header(item, out);
        self.push_body(item, out);
        push_span_row(out, String::new(), Tone::Plain);
        assert(rows_view(out@) =~= rows_view(old(out)@) + item_panel_rows(*item, self.show_object_ids));
    }

    /// Builds the rows of the panel and refreshes the scroll state: the
    /// item count, the row bookkeeping of every item, and the list
    /// selection (the cursor's absolute row, or none without items).
    pub fn build_rows(&self, state: &mut FavoritesPanelState) -> (r: Vec<Vec<Span>>)
        requires
            forall|i: int|
                0 <= i < self.pinned@.len() ==> item_renderable(#[trigger] self.pinned@[i], false)
                    && meta_count(self.pinned@[i]) <= usize::MAX,
            rows_before(meta_counts(self.pinned@), self.pinned@.len() as int) <= usize::MAX,
        ensures
            rows_view(r@) == panel_rows(self.pinned@, self.show_object_ids),
            final(state).n_items() == self.pinned@.len(),
            final(state).counts() == meta_counts(self.pinned@),
            final(state).kinds() == self.pinned@.map_values(|it: PinnedItem| meta_kinds(it)),
            final(state).sentinels() == self.pinned@.map_values(|it: PinnedItem| Map::<usize, (u64, usize)>::empty()),
            final(state).field_rows() == self.pinned@.map_values(|it: PinnedItem| meta_fields(it)),
            final(state).paths() == self.pinned@.map_values(|it: PinnedItem| meta_paths(it)),
            self.pinned@.len() == 0 ==> final(state).sel() == 0 && final(state).sub() == 0
                && final(state).list().selected_spec() is None && final(state).list().offset_spec() == 0,
            self.pinned@.len() > 0 ==> {
                let n = self.pinned@.len() as int;
                let sel: int = if old(state).sel() < n {
                    old(state).sel() as int
                } else {
                    n - 1
                };
                let sub1 = clamp_to(old(state).sub() as int, last_sub_row(resized(old(state).counts(), n, 1usize), sel));
                let sub2 = clamp_to(sub1, last_sub_row(meta_counts(self.pinned@), sel));
                &&& final(state).sel() == sel
                &&& final(state).sub() == sub2
                &&& final(state).list().selected_spec() == Some((rows_before(meta_counts(self.pinned@), sel) + sub2) as usize)
                &&& final(state).list().offset_spec() == old(state).list().offset_spec()
            },
    {
        let n = self.pinned.len();
        state.set_items_len(n);
        let mut counts: Vec<usize> = Vec::new();
        let mut kinds: Vec<RowKindMap> = Vec::new();
        let mut sents: Vec<ChunkSentinelMap> = Vec::new();
        let mut fields: Vec<FieldRowMap> = Vec::new();
        let mut paths: Vec<PathMap> = Vec::new();
        let ghost items = self.pinned@;
        let mut i: usize = 0;
        while i < n
            invariant
                n == items.len(),
                items == self.pinned@,
                i <= n,
                forall|j: int|
                    0 <= j < items.len() ==> item_renderable(#[trigger] items[j], false) && meta_count(items[j]) <= usize::MAX,
                counts@ == meta_counts(items).take(i as int),
                maps_view(kinds@) == items.map_values(|it: PinnedItem| meta_kinds(it)).take(i as int),
                maps_view(sents@) == items.map_values(|it: PinnedItem| Map::<usize, (u64, usize)>::empty()).take(i as int),
                maps_view(fields@) == items.map_values(|it: PinnedItem| meta_fields(it)).take(i as int),
                path_maps_view(paths@) == items.map_values(|it: PinnedItem| meta_paths(it)).take(i as int),
            decreases n - i,
        {
            let item = &self.pinned[i];
            assert(items[i as int] == *item);
            let md = collect_row_metadata(item);
            let (rc, km, sm, fm, pm) = md;
            let ghost k0 = maps_view(kinds@);
            let ghost s0 = maps_view(sents@);
            let ghost f0 = maps_view(fields@);
            let ghost p0 = path_maps_view(paths@);
            let ghost (kmv, smv, fmv, pmv) = (km@, sm@, fm@, paths_view(pm@));
            counts.push(rc);
            kinds.push(km);
            sents.push(sm);
            fields.push(fm);
            paths.push(pm);
            assert(maps_view(kinds@) =~= k0.push(kmv));
            assert(maps_view(sents@) =~= s0.push(smv));
            assert(maps_view(fields@) =~= f0.push(fmv));
            assert(path_maps_view(paths@) =~= p0.push(pmv));
            assert(counts@ =~= meta_counts(items).take(i + 1));
            assert(maps_view(kinds@) =~= items.map_values(|it: PinnedItem| meta_kinds(it)).take(i + 1));
            assert(maps_view(sents@) =~= items.map_values(|it: PinnedItem| Map::<usize, (u64, usize)>::empty()).take(i + 1));
            assert(maps_view(fields@) =~= items.map_values(|it: PinnedItem| meta_fields(it)).take(i + 1));
            assert(path_maps_view(paths@) =~= items.map_values(|it: PinnedItem| meta_paths(it)).take(i + 1));
            i = i + 1;
        }
        assert(meta_counts(items).take(n as int) =~= meta_counts(items));
        assert(items.map_values(|it: PinnedItem| meta_kinds(it)).take(n as int) =~= items.map_values(|it: PinnedItem| meta_kinds(it)));
        assert(items.map_values(|it: PinnedItem| Map::<usize, (u64, usize)>::empty()).take(n as int) =~= items.map_values(|it: PinnedItem| Map::<usize, (u64, usize)>::empty()));
        assert(items.map_values(|it: PinnedItem| meta_fields(it)).take(n as int) =~= items.map_values(|it: PinnedItem| meta_fields(it)));
        assert(items.map_values(|it: PinnedItem| meta_paths(it)).take(n as int) =~= items.map_values(|it: PinnedItem| meta_paths(it)));
        state.update_row_metadata(counts, kinds, sents, fields, paths);
        proof {
            assert forall|k: int| 0 <= k < items.len() implies item_renderable(#[trigger] items[k], self.show_object_ids) by {
                lemma_metadata_ignores_ids(items[k], self.show_object_ids);
            }
        }
        let mut out: Vec<Vec<Span>> = Vec::new();
        let mut j: usize = 0;
        while j < n
            invariant
                n == items.len(),
                items == self.pinned@,
                j <= n,
                forall|k: int| 0 <= k < items.len() ==> item_renderable(#[trigger] items[k], self.show_object_ids),
                rows_view(out@) + panel_rows_from(items, j as int, self.show_object_ids) == panel_rows_from(
                    items,
                    0,
                    self.show_object_ids,
                ),
            decreases n - j,
        {
            let ghost before = rows_view(out@);
            assert(items[j as int] == self.pinned@[j as int]);
            self.push_item_rows(&self.pinned[j], &mut out);
            assert(rows_view(out@) + panel_rows_from(items, j + 1, self.show_object_ids) =~= before
                + panel_rows_from(items, j as int, self.show_object_ids));
            j = j + 1;
        }
        assert(rows_view(out@) =~= panel_rows_from(items, 0, self.show_object_ids));
        if n == 0 {
            push_span_row(&mut out, string_of("(no favorites)"), Tone::Null);
            assert(rows_view(out@) =~= panel_rows(items, self.show_object_ids));
            state.list_state_mut().select(None);
        } else {
            proof {
                let c = meta_counts(items);
                let sel = state.sel() as int;
                lemma_rows_before_monotone(c, sel + 1, n as int);
                assert(rows_before(c, sel + 1) == rows_before(c, sel) + c[sel]);
            }
            let a = state.abs_row();
            state.list_state_mut().select(Some(a));
        }
        out
    }
}

/// The bookkeeping of an item counts exactly the rows the panel renders
/// for it when object ids are hidden.
pub proof fn lemma_metadata_matches_rows(item: PinnedItem)
    ensures
        meta_count(item) == item_panel_rows(item, false).len(),
        meta_paths(item).len() == meta_count(item),
{
}

/// Law: the row bookkeeping of an item frames its tree rows: at least two
/// sub-rows, no toggle path on the first (the header) or the last (the
/// closing separator), and hideable rows only in between.
pub proof fn lemma_metadata_layout(item: PinnedItem)
    ensures
        meta_count(item) >= 2,
        meta_paths(item).len() == meta_count(item),
        meta_paths(item)[0] is None,
        meta_paths(item)[meta_count(item) - 1] is None,
        forall|r: usize| #[trigger] meta_fields(item).contains_key(r) ==> 1 <= r < meta_count(item) - 1,
{
    let rows = item_tree_rows(item, false);
    let st = item_start(item);
    assert(st >= 1);
    assert(meta_paths(item)[0] is None);
    assert(meta_paths(item)[meta_count(item) - 1] is None);
}

/// Law: in the row bookkeeping of an item that renders, a sub-row has a
/// toggleable object exactly when it has a toggle path.
pub proof fn lemma_metadata_toggles_have_paths(item: PinnedItem)
    requires
        item_renderable(item, false),
    ensures
        forall|r: usize|
            #[trigger] meta_kinds(item).contains_key(r) <==> (r < meta_count(item) && meta_paths(item)[r as int] is Some),
{
    let rows = item_tree_rows(item, false);
    let st = item_start(item);
    match item_tree(item, false) {
        Some(t) => {
            crate::tree_shape::lemma_toggle_rows_have_paths(t.0, t.1);
        },
        None => {},
    }
    assert forall|r: usize|
        #[trigger] meta_kinds(item).contains_key(r) <==> (r < meta_count(item) && meta_paths(item)[r as int] is Some) by {
        if st <= r < st + rows.len() {
            assert(meta_paths(item)[r as int] == rows[r - st].path);
        } else if r < st {
            assert(meta_paths(item)[r as int] is None);
        } else if r == st + rows.len() {
            assert(meta_paths(item)[r as int] is None);
        }
    }
}

/// Law: the row bookkeeping of an item, collected with object ids hidden,
/// indexes the item's rows whether object ids are shown or not: both
/// renderings exist together, have as many rows, and give every row the
/// same toggle path, toggleable object and hideable key.
pub proof fn lemma_metadata_ignores_ids(item: PinnedItem, show_ids: bool)
    ensures
        item_renderable(item, show_ids) == item_renderable(item, false),
        item_renderable(item, false) ==> {
            &&& meta_count(item) == item_panel_rows(item, show_ids).len()
            &&& shapes(item_tree_rows(item, show_ids)) == shapes(item_tree_rows(item, false))
        },
{
    match item_tree(item, show_ids) {
        Some(t) => {
            let u = item_tree(item, false).unwrap();
            assert(same_but_ids(t.0, u.0));
            assert(t.1 == u.1);
            lemma_shape_ignores_ids(t.0, u.0, t.1);
            if item_renderable(item, false) {
                assert(shapes(item_tree_rows(item, show_ids)).len() == item_tree_rows(item, show_ids).len());
                assert(shapes(item_tree_rows(item, false)).len() == item_tree_rows(item, false).len());
            }
        },
        None => {},
    }
}

/// Law: collapsing a path of a pinned item and expanding it again gives
/// back the same rows and the same row bookkeeping.
pub proof fn lemma_collapse_round_trip(a: PinnedItem, b: PinnedItem, p: Seq<PathSegment>, show_ids: bool)
    requires
        !a.local_collapsed.set().contains(p),
        b.local_collapsed.set() == a.local_collapsed.set().insert(p).remove(p),
        b.snapshot == a.snapshot,
        b.hidden_fields.set() == a.hidden_fields.set(),
        b.show_hidden == a.show_hidden,
        b.thread_name@ == a.thread_name@,
        b.frame_label@ == a.frame_label@,
        b.item_label@ == a.item_label@,
    ensures
        item_panel_rows(b, show_ids) == item_panel_rows(a, show_ids),
        meta_count(b) == meta_count(a),
        meta_kinds(b) == meta_kinds(a),
        meta_fields(b) == meta_fields(a),
        meta_paths(b) == meta_paths(a),
{
    assert(b.local_collapsed.set() =~= a.local_collapsed.set());
    assert(item_tree(b, show_ids) == item_tree(a, show_ids));
    assert(item_tree(b, false) == item_tree(a, false));
    assert(header_text(b) == header_text(a));
}

/// The row counts of all items add up to the rows of the panel, with object
/// ids hidden, or shown when every item's tree can be rendered; so the
/// cursor's absolute row indexes the rendered list.
pub proof fn lemma_panel_row_total(items: Seq<PinnedItem>, show_ids: bool)
    requires
        forall|i: int| 0 <= i < items.len() ==> meta_count(#[trigger] items[i]) <= usize::MAX,
        show_ids ==> forall|i: int| 0 <= i < items.len() ==> item_renderable(#[trigger] items[i], false),
    ensures
        items.len() > 0 ==> rows_before(meta_counts(items), items.len() as int) == panel_rows(items, show_ids).len(),
{
    lemma_rows_from(items, 0, show_ids);
}

proof fn lemma_rows_from(items: Seq<PinnedItem>, i: int, show_ids: bool)
    requires
        0 <= i <= items.len(),
        forall|k: int| 0 <= k < items.len() ==> meta_count(#[trigger] items[k]) <= usize::MAX,
        show_ids ==> forall|k: int| 0 <= k < items.len() ==> item_renderable(#[trigger] items[k], false),
    ensures
        panel_rows_from(items, i, show_ids).len() == rows_before(meta_counts(items), items.len() as int)
            - rows_before(meta_counts(items), i),
    decreases items.len() - i,
{
    if i < items.len() {
        lemma_rows_from(items, i + 1, show_ids);
        lemma_metadata_matches_rows(items[i]);
        if show_ids {
            lemma_metadata_ignores_ids(items[i], show_ids);
        }
        let c = meta_counts(items);
        assert(rows_before(c, i + 1) == rows_before(c, i) + c[i]);
    }
}

} // verus!
