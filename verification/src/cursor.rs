//! Generic cursor/navigation state shared by list-based views.
//!
//! [`ListState`] is the selection and scroll position of a rendered list;
//! [`CursorState`] keeps a cursor on a stable item identity and moves it over
//! the current list of items.

use vstd::prelude::*;

use crate::stack_view::types::{NavigationPath, RenderCursor};

verus! {

/// Selection and scroll offset of a rendered list.
#[derive(Debug, Clone, Copy, PartialEq, Eq, Structural)]
pub struct ListState {
    offset: usize,
    selected: Option<usize>,
}

impl ListState {
    /// Index of the first displayed row.
    pub closed spec fn offset_spec(&self) -> usize {
        self.offset
    }

    /// Index of the selected row, if any.
    pub closed spec fn selected_spec(&self) -> Option<usize> {
        self.selected
    }

    /// No selection, scrolled to the top.
    pub fn new() -> (r: ListState)
        ensures
            r.offset_spec() == 0,
            r.selected_spec() is None,
    {
        ListState { offset: 0, selected: None }
    }

    /// The index of the selected row.
    pub fn selected(&self) -> (r: Option<usize>)
        ensures
            r == self.selected_spec(),
    {
        self.selected
    }

    /// The index of the first displayed row.
    pub fn offset(&self) -> (r: usize)
        ensures
            r == self.offset_spec(),
    {
        self.offset
    }

    /// Sets the index of the first displayed row.
    pub fn set_offset(&mut self, offset: usize)
        ensures
            final(self).offset_spec() == offset,
            final(self).selected_spec() == old(self).selected_spec(),
    {
        self.offset = offset;
    }

    /// Selects a row, or deselects; deselecting also scrolls to the top.
    pub fn select(&mut self, index: Option<usize>)
        ensures
            final(self).selected_spec() == index,
            final(self).offset_spec() == (if index is None {
                0
            } else {
                old(self).offset_spec()
            }),
    {
        self.selected = index;
        if index.is_none() {
            self.offset = 0;
        }
    }
}

impl Default for ListState {
    fn default() -> (r: ListState)
        ensures
            r.offset_spec() == 0,
            r.selected_spec() is None,
    {
        ListState::new()
    }
}

/// Identity of a list item that a cursor can stand on, compared by view.
pub trait CursorKey: View + Sized {
    /// Whether two keys denote the same item.
    fn key_eq(&self, other: &Self) -> (r: bool)
        ensures
            r == (self@ == other@);

    /// A copy of the key.
    fn key_copy(&self) -> (r: Self)
        ensures
            r@ == self@;
}

impl CursorKey for u32 {
    fn key_eq(&self, other: &Self) -> (r: bool) {
        *self == *other
    }

    fn key_copy(&self) -> (r: Self) {
        *self
    }
}

impl CursorKey for RenderCursor {
    fn key_eq(&self, other: &Self) -> (r: bool) {
        self.same(other)
    }

    fn key_copy(&self) -> (r: Self) {
        self.duplicate()
    }
}

impl CursorKey for NavigationPath {
    fn key_eq(&self, other: &Self) -> (r: bool) {
        self.same(other)
    }

    fn key_copy(&self) -> (r: Self) {
        self.duplicate()
    }
}

/// The views of a sequence of keys.
pub open spec fn key_views<K: View>(items: Seq<K>) -> Seq<K::V> {
    items.map_values(|k: K| k@)
}

/// Index of the first occurrence of `x` in `s`.
pub open spec fn index_of_first<V>(s: Seq<V>, x: V) -> Option<int> {
    if exists|i: int| 0 <= i < s.len() && s[i] == x {
        Some(
            choose|i: int|
                0 <= i < s.len() && s[i] == x && forall|j: int| 0 <= j < i ==> s[j] != x,
        )
    } else {
        None
    }
}

/// Row reached by moving one row down from `x` in `s`: the next row,
/// clamped to the last; the first row when `x` is not shown.
pub open spec fn step_down_index<V>(s: Seq<V>, x: V) -> int {
    match index_of_first(s, x) {
        Some(i) => if i + 1 < s.len() {
            i + 1
        } else {
            s.len() - 1
        },
        None => 0,
    }
}

/// Row reached by moving one row up from `x` in `s`: the previous row,
/// clamped to the first; the first row when `x` is not shown.
pub open spec fn step_up_index<V>(s: Seq<V>, x: V) -> int {
    match index_of_first(s, x) {
        Some(i) => if i == 0 {
            0
        } else {
            i - 1
        },
        None => 0,
    }
}

/// No item occurs twice.
pub open spec fn distinct<V>(s: Seq<V>) -> bool {
    forall|i: int, j: int| 0 <= i < j < s.len() ==> s[i] != s[j]
}

/// Law: on a list without repeated items, moving down from a row that is
/// not the last and then moving up comes back to that row.
pub proof fn lemma_step_down_then_up<V>(s: Seq<V>, x: V)
    requires
        distinct(s),
        index_of_first(s, x) matches Some(i) && i + 1 < s.len(),
    ensures
        step_up_index(s, s[step_down_index(s, x)]) == index_of_first(s, x).unwrap(),
{
    lemma_index_of_first_some(s, x);
    let i = index_of_first(s, x).unwrap();
    let t = i + 1;
    assert(step_down_index(s, x) == t);
    assert forall|j: int| 0 <= j < t implies s[j] != s[t] by {
        assert(j < t);
    }
    lemma_index_of_first(s, s[t], t);
}

/// Law: on a list without repeated items, moving up from a row that is
/// not the first and then moving down comes back to that row.
pub proof fn lemma_step_up_then_down<V>(s: Seq<V>, x: V)
    requires
        distinct(s),
        index_of_first(s, x) matches Some(i) && i > 0,
    ensures
        step_down_index(s, s[step_up_index(s, x)]) == index_of_first(s, x).unwrap(),
{
    lemma_index_of_first_some(s, x);
    let i = index_of_first(s, x).unwrap();
    let t = i - 1;
    assert(step_up_index(s, x) == t);
    assert forall|j: int| 0 <= j < t implies s[j] != s[t] by {
        assert(j < t);
    }
    lemma_index_of_first(s, s[t], t);
}

/// `index_of_first` is characterised by the first matching position.
pub proof fn lemma_index_of_first<V>(s: Seq<V>, x: V, i: int)
    requires
        0 <= i < s.len(),
        s[i] == x,
        forall|j: int| 0 <= j < i ==> s[j] != x,
    ensures
        index_of_first(s, x) == Some(i),
{
    let c = choose|k: int| 0 <= k < s.len() && s[k] == x && forall|j: int| 0 <= j < k ==> s[j] != x;
    assert(0 <= c < s.len() && s[c] == x && forall|j: int| 0 <= j < c ==> s[j] != x);
    if c < i {
        assert(s[c] != x);
    }
    if i < c {
        assert(s[i] != x);
    }
}

/// `index_of_first` is `None` exactly when `x` does not occur.
pub proof fn lemma_index_of_first_none<V>(s: Seq<V>, x: V)
    requires
        forall|j: int| 0 <= j < s.len() ==> s[j] != x,
    ensures
        index_of_first(s, x) is None,
{
}

/// A found first index is in range and points at `x`.
pub proof fn lemma_index_of_first_some<V>(s: Seq<V>, x: V)
    requires
        index_of_first(s, x) is Some,
    ensures
        0 <= index_of_first(s, x).unwrap() < s.len(),
        s[index_of_first(s, x).unwrap()] == x,
        forall|j: int| 0 <= j < index_of_first(s, x).unwrap() ==> s[j] != x,
{
    let w = choose|i: int| 0 <= i < s.len() && s[i] == x;
    assert(0 <= w < s.len() && s[w] == x);
    // the minimal witness exists below w
    lemma_min_witness(s, x, w);
}

proof fn lemma_min_witness<V>(s: Seq<V>, x: V, w: int)
    requires
        0 <= w < s.len(),
        s[w] == x,
    ensures
        exists|i: int| 0 <= i < s.len() && s[i] == x && forall|j: int| 0 <= j < i ==> s[j] != x,
    decreases w,
{
    if exists|j: int| 0 <= j < w && s[j] == x {
        let j = choose|j: int| 0 <= j < w && s[j] == x;
        lemma_min_witness(s, x, j);
    } else {
        assert(0 <= w < s.len() && s[w] == x && forall|j: int| 0 <= j < w ==> s[j] != x);
    }
}

/// Position of `key` in `items`, comparing by view.
pub fn position_of<K: CursorKey>(items: &[K], key: &K) -> (r: Option<usize>)
    ensures
        match r {
            Some(i) => index_of_first(key_views(items@), key@) == Some(i as int),
            None => index_of_first(key_views(items@), key@) is None,
        },
{
    let ghost vs = key_views(items@);
    let mut i: usize = 0;
    while i < items.len()
        invariant
            i <= items@.len(),
            vs == key_views(items@),
            vs.len() == items@.len(),
            forall|j: int| 0 <= j < i ==> vs[j] != key@,
        decreases items@.len() - i,
    {
        if items[i].key_eq(key) {
            proof {
                lemma_index_of_first(vs, key@, i as int);
            }
            return Some(i);
        }
        i = i + 1;
    }
    proof {
        lemma_index_of_first_none(vs, key@);
    }
    None
}

/// Cursor + list scroll state for a flat list of stable IDs.
pub struct CursorState<Id: CursorKey> {
    cursor: Id,
    list_state: ListState,
    visible_height: usize,
}

impl<Id: CursorKey> CursorState<Id> {
    /// The cursor's item.
    pub closed spec fn cur(&self) -> Id::V {
        self.cursor@
    }

    /// The list state.
    pub closed spec fn list(&self) -> ListState {
        self.list_state
    }

    /// The page size used by page navigation.
    pub closed spec fn height(&self) -> usize {
        self.visible_height
    }

    /// Creates a new cursor state with default page size = 1.
    pub fn new(initial: Id) -> (r: Self)
        ensures
            r.cur() == initial@,
            r.list().selected_spec() is None,
            r.list().offset_spec() == 0,
            r.height() == 1,
    {
        CursorState { cursor: initial, list_state: ListState::new(), visible_height: 1 }
    }

    /// Returns the current cursor ID.
    pub fn cursor(&self) -> (r: &Id)
        ensures
            r@ == self.cur(),
    {
        &self.cursor
    }

    /// Returns the list state.
    pub fn list_state(&self) -> (r: &ListState)
        ensures
            *r == self.list(),
    {
        &self.list_state
    }

    /// Returns mutable access to the list state for rendering.
    pub fn list_state_mut(&mut self) -> (r: &mut ListState)
        ensures
            *r == old(self).list(),
            final(self).list() == *final(r),
            final(self).cur() == old(self).cur(),
            final(self).height() == old(self).height(),
    {
        &mut self.list_state
    }

    /// Returns the visible list height.
    pub fn visible_height(&self) -> (r: usize)
        ensures
            r == self.height(),
    {
        self.visible_height
    }

    /// Sets the visible list height used by page navigation.
    pub fn set_visible_height(&mut self, h: usize)
        ensures
            final(self).height() == h,
            final(self).cur() == old(self).cur(),
            final(self).list() == old(self).list(),
    {
        self.visible_height = h;
    }

    fn cursor_index(&self, items: &[Id]) -> (r: Option<usize>)
        ensures
            match r {
                Some(i) => index_of_first(key_views(items@), self.cur()) == Some(i as int),
                None => index_of_first(key_views(items@), self.cur()) is None,
            },
    {
        position_of(items, &self.cursor)
    }

    fn place(&mut self, items: &[Id], target: usize)
        requires
            target < items@.len(),
        ensures
            final(self).cur() == items@[target as int]@,
            final(self).list().selected_spec() == Some(target),
            final(self).list().offset_spec() == old(self).list().offset_spec(),
            final(self).height() == old(self).height(),
    {
        self.cursor = items[target].key_copy();
        self.list_state.select(Some(target));
    }

    /// Syncs list selection with current cursor: selects the cursor's first
    /// position in `items`, or nothing when the cursor is not there.
    pub fn sync(&mut self, items: &[Id])
        ensures
            final(self).cur() == old(self).cur(),
            final(self).height() == old(self).height(),
            final(self).list().selected_spec() == (match index_of_first(
                key_views(items@),
                old(self).cur(),
            ) {
                Some(i) => Some(i as usize),
                None => None,
            }),
            final(self).list().offset_spec() == (if index_of_first(
                key_views(items@),
                old(self).cur(),
            ) is None {
                0
            } else {
                old(self).list().offset_spec()
            }),
    {
        let idx = self.cursor_index(items);
        self.list_state.select(idx);
    }

    /// Syncs selection and re-anchors cursor to first item when orphaned.
    pub fn sync_or_select_first(&mut self, items: &[Id])
        ensures
            final(self).height() == old(self).height(),
            items@.len() == 0 ==> final(self).cur() == old(self).cur()
                && final(self).list().selected_spec() is None && final(self).list().offset_spec()
                == 0,
            items@.len() > 0 ==> match index_of_first(key_views(items@), old(self).cur()) {
                Some(i) => final(self).cur() == old(self).cur()
                    && final(self).list().selected_spec() == Some(i as usize),
                None => final(self).cur() == items@[0]@ && final(self).list().selected_spec()
                    == Some(0usize),
            },
            items@.len() > 0 ==> final(self).list().offset_spec() == old(self).list().offset_spec(),
    {
        if items.len() == 0 {
            self.list_state.select(None);
            return;
        }
        if let Some(selected) = self.cursor_index(items) {
            self.list_state.select(Some(selected));
        } else {
            self.place(items, 0);
        }
    }

    /// Replaces cursor and immediately syncs list selection against `items`.
    pub fn set_cursor_and_sync(&mut self, cursor: Id, items: &[Id])
        ensures
            final(self).cur() == cursor@,
            final(self).height() == old(self).height(),
            final(self).list().selected_spec() == (match index_of_first(
                key_views(items@),
                cursor@,
            ) {
                Some(i) => Some(i as usize),
                None => None,
            }),
            final(self).list().offset_spec() == (if index_of_first(key_views(items@), cursor@) is None {
                0
            } else {
                old(self).list().offset_spec()
            }),
    {
        self.cursor = cursor;
        self.sync(items);
    }

    /// Moves cursor one item up (clamped).
    pub fn move_up(&mut self, items: &[Id])
        ensures
            final(self).height() == old(self).height(),
            final(self).list().offset_spec() == old(self).list().offset_spec(),
            items@.len() == 0 ==> *final(self) == *old(self),
            items@.len() > 0 ==> ({
                let t: int = step_up_index(key_views(items@), old(self).cur());
                final(self).cur() == items@[t]@ && final(self).list().selected_spec() == Some(
                    t as usize,
                )
            }),
    {
        if items.len() == 0 {
            return;
        }
        let current = match self.cursor_index(items) {
            Some(c) => c,
            None => {
                self.move_home(items);
                return;
            },
        };
        proof {
            lemma_index_of_first_some(key_views(items@), self.cur());
        }
        let target = if current == 0 { 0 } else { current - 1 };
        self.place(items, target);
    }

    /// Moves cursor one item down (clamped).
    pub fn move_down(&mut self, items: &[Id])
        ensures
            final(self).height() == old(self).height(),
            final(self).list().offset_spec() == old(self).list().offset_spec(),
            items@.len() == 0 ==> *final(self) == *old(self),
            items@.len() > 0 ==> ({
                let t: int = step_down_index(key_views(items@), old(self).cur());
                final(self).cur() == items@[t]@ && final(self).list().selected_spec() == Some(
                    t as usize,
                )
            }),
    {
        if items.len() == 0 {
            return;
        }
        let current = match self.cursor_index(items) {
            Some(c) => c,
            None => {
                self.move_home(items);
                return;
            },
        };
        proof {
            lemma_index_of_first_some(key_views(items@), self.cur());
        }
        let last = items.len() - 1;
        let target = if current + 1 < last { current + 1 } else { last };
        self.place(items, target);
    }

    /// Moves cursor to first item.
    pub fn move_home(&mut self, items: &[Id])
        ensures
            final(self).height() == old(self).height(),
            final(self).list().offset_spec() == old(self).list().offset_spec(),
            items@.len() == 0 ==> *final(self) == *old(self),
            items@.len() > 0 ==> final(self).cur() == items@[0]@
                && final(self).list().selected_spec() == Some(0usize),
    {
        if items.len() == 0 {
            return;
        }
        self.place(items, 0);
    }

    /// Moves cursor to last item.
    pub fn move_end(&mut self, items: &[Id])
        ensures
            final(self).height() == old(self).height(),
            final(self).list().offset_spec() == old(self).list().offset_spec(),
            items@.len() == 0 ==> *final(self) == *old(self),
            items@.len() > 0 ==> final(self).cur() == items@[items@.len() - 1]@
                && final(self).list().selected_spec() == Some((items@.len() - 1) as usize),
    {
        if items.len() == 0 {
            return;
        }
        let last = items.len() - 1;
        self.place(items, last);
    }

    /// Moves cursor one page up (clamped).
    pub fn move_page_up(&mut self, items: &[Id])
        ensures
            final(self).height() == old(self).height(),
            final(self).list().offset_spec() == old(self).list().offset_spec(),
            items@.len() == 0 ==> *final(self) == *old(self),
            items@.len() > 0 ==> ({
                let t: int = match index_of_first(key_views(items@), old(self).cur()) {
                    Some(i) => if i >= old(self).height() {
                        i - old(self).height()
                    } else {
                        0
                    },
                    None => 0,
                };
                final(self).cur() == items@[t]@ && final(self).list().selected_spec() == Some(
                    t as usize,
                )
            }),
    {
        if items.len() == 0 {
            return;
        }
        let current = match self.cursor_index(items) {
            Some(c) => c,
            None => {
                self.move_home(items);
                return;
            },
        };
        proof {
            lemma_index_of_first_some(key_views(items@), self.cur());
        }
        let target = if current >= self.visible_height {
            current - self.visible_height
        } else {
            0
        };
        self.place(items, target);
    }

    /// Moves cursor one page down (clamped).
    pub fn move_page_down(&mut self, items: &[Id])
        ensures
            final(self).height() == old(self).height(),
            final(self).list().offset_spec() == old(self).list().offset_spec(),
            items@.len() == 0 ==> *final(self) == *old(self),
            items@.len() > 0 ==> ({
                let t: int = match index_of_first(key_views(items@), old(self).cur()) {
                    Some(i) => if i + old(self).height() < items@.len() - 1 {
                        i + old(self).height()
                    } else {
                        items@.len() - 1
                    },
                    None => 0,
                };
                final(self).cur() == items@[t]@ && final(self).list().selected_spec() == Some(
                    t as usize,
                )
            }),
    {
        if items.len() == 0 {
            return;
        }
        let current = match self.cursor_index(items) {
            Some(c) => c,
            None => {
                self.move_home(items);
                return;
            },
        };
        proof {
            lemma_index_of_first_some(key_views(items@), self.cur());
        }
        let last = items.len() - 1;
        let target = if current < last && self.visible_height < last - current {
            current + self.visible_height
        } else {
            last
        };
        self.place(items, target);
    }
}

} // verus!
