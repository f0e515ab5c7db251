//! Thread list view state: filterable, searchable list of Java threads.
//!
//! `ThreadListState` owns the full thread list and the filtered view.
//! Selection tracks the thread serial (not the list index), so filtered
//! views keep the highlighted thread across filter changes.

use vstd::prelude::*;

use crate::cursor::{index_of_first, key_views, CursorState, ListState};
use crate::engine::ThreadInfo;
use crate::engine::ThreadState;
use crate::rows::{push_owned_span, push_span, repeat_char, repeated, row_view, rows_view, Span, SpanView, Tone};
use crate::text::{chars_of, contains_sub, copy_string, decimal, find_sub, lowercase, push_decimal, push_str, string_of, to_lowercase};

verus! {

/// Whether a thread's lowercased name contains the lowercased query `q`.
pub open spec fn thread_matches(t: ThreadInfo, q: Seq<char>) -> bool {
    contains_sub(lowercase(t.name@), q)
}

/// Serials of the threads matching `q`, in list order.
pub open spec fn matching_serials(ts: Seq<ThreadInfo>, q: Seq<char>) -> Seq<u32>
    decreases ts.len(),
{
    if ts.len() == 0 {
        Seq::empty()
    } else {
        let rest = matching_serials(ts.drop_last(), q);
        if thread_matches(ts.last(), q) {
            rest.push(ts.last().thread_serial)
        } else {
            rest
        }
    }
}

/// Serials of the threads `ts[i]` whose lowered name `names[i]` contains
/// the lowered query `q`, in list order.
pub open spec fn matching_lowered(ts: Seq<ThreadInfo>, names: Seq<Seq<char>>, q: Seq<char>) -> Seq<u32>
    decreases ts.len(),
{
    if ts.len() == 0 {
        Seq::empty()
    } else {
        let rest = matching_lowered(ts.drop_last(), names.subrange(0, ts.len() - 1), q);
        if contains_sub(names[ts.len() - 1], q) {
            rest.push(ts.last().thread_serial)
        } else {
            rest
        }
    }
}

/// The lowered names of the threads.
pub open spec fn lowered_names(ts: Seq<ThreadInfo>) -> Seq<Seq<char>> {
    ts.map_values(|t: ThreadInfo| lowercase(t.name@))
}

/// Matching on the lowered names of the threads is matching the threads.
pub proof fn lemma_matching_lowered(ts: Seq<ThreadInfo>, q: Seq<char>)
    ensures
        matching_lowered(ts, lowered_names(ts), q) == matching_serials(ts, q),
    decreases ts.len(),
{
    if ts.len() > 0 {
        assert(lowered_names(ts).subrange(0, ts.len() - 1) =~= lowered_names(ts.drop_last()));
        lemma_matching_lowered(ts.drop_last(), q);
    }
}

/// The serials of the threads whose lowered name contains the lowered
/// query, in list order; `lowered_names[i]` is the lowered name of
/// `threads[i]`.
pub fn matching_serials_of(threads: &[ThreadInfo], lowered_names: &[String], lowered_query: &str) -> (r: Vec<u32>)
    requires
        lowered_names@.len() == threads@.len(),
    ensures
        r@ == matching_lowered(threads@, lowered_names@.map_values(|s: String| s@), lowered_query@),
{
    let ghost names = lowered_names@.map_values(|s: String| s@);
    let qc = chars_of(lowered_query);
    let mut serials: Vec<u32> = Vec::new();
    let mut i: usize = 0;
    while i < threads.len()
        invariant
            i <= threads@.len(),
            lowered_names@.len() == threads@.len(),
            names == lowered_names@.map_values(|s: String| s@),
            qc@ == lowered_query@,
            serials@ == matching_lowered(threads@.subrange(0, i as int), names.subrange(0, i as int), qc@),
        decreases threads@.len() - i,
    {
        let nc = chars_of(lowered_names[i].as_str());
        let ghost pre = threads@.subrange(0, i as int);
        let ghost pn = names.subrange(0, i as int);
        assert(nc@ == names[i as int]);
        if find_sub(nc.as_slice(), qc.as_slice()) {
            serials.push(threads[i].thread_serial);
        }
        i = i + 1;
        assert(threads@.subrange(0, i as int).drop_last() =~= pre);
        assert(names.subrange(0, i as int).subrange(0, i - 1) =~= pn);
    }
    assert(threads@.subrange(0, threads@.len() as int) =~= threads@);
    assert(names.subrange(0, threads@.len() as int) =~= names);
    serials
}

/// Serials of all threads, in list order.
pub open spec fn all_serials(ts: Seq<ThreadInfo>) -> Seq<u32> {
    ts.map_values(|t: ThreadInfo| t.thread_serial)
}

/// Owns all thread list state: full data, active filter, and selection.
pub struct ThreadListState {
    threads: Vec<ThreadInfo>,
    filter: String,
    filtered_serials: Vec<u32>,
    nav: CursorState<u32>,
    search_active: bool,
}

impl ThreadListState {
    /// The full thread list.
    pub closed spec fn threads_view(&self) -> Seq<ThreadInfo> {
        self.threads@
    }

    /// The active filter text.
    pub closed spec fn filter_view(&self) -> Seq<char> {
        self.filter@
    }

    /// Serials shown, in display order.
    pub closed spec fn filtered(&self) -> Seq<u32> {
        self.filtered_serials@
    }

    /// The cursor over the shown serials.
    pub closed spec fn nav(&self) -> CursorState<u32> {
        self.nav
    }

    /// Whether the search box is focused.
    pub closed spec fn searching(&self) -> bool {
        self.search_active
    }

    /// The serial reported as selected.
    pub open spec fn selected_view(&self) -> Option<u32> {
        if self.filtered().len() == 0 {
            None
        } else {
            Some(self.nav().cur())
        }
    }

    /// Builds state from a sorted thread list. Selects first thread if any.
    pub fn new(threads: Vec<ThreadInfo>) -> (r: Self)
        ensures
            r.threads_view() == threads@,
            r.filter_view().len() == 0,
            r.filtered() == all_serials(threads@),
            !r.searching(),
            threads@.len() > 0 ==> r.nav().cur() == threads@[0].thread_serial
                && r.nav().list().selected_spec() == Some(0usize),
            threads@.len() == 0 ==> r.nav().list().selected_spec() is None,
            r.nav().height() == 1,
    {
        let mut serials: Vec<u32> = Vec::new();
        let mut i: usize = 0;
        while i < threads.len()
            invariant
                i <= threads@.len(),
                serials@ == all_serials(threads@).subrange(0, i as int),
            decreases threads@.len() - i,
        {
            serials.push(threads[i].thread_serial);
            i = i + 1;
            assert(serials@ =~= all_serials(threads@).subrange(0, i as int));
        }
        assert(serials@ =~= all_serials(threads@));
        let first: u32 = if serials.len() > 0 { serials[0] } else { 0 };
        let mut nav = CursorState::new(first);
        nav.sync(serials.as_slice());
        if serials.len() > 0 {
            proof {
                crate::cursor::lemma_index_of_first(key_views(serials@), first, 0);
            }
        } else {
            proof {
                crate::cursor::lemma_index_of_first_none(key_views(serials@), first);
            }
        }
        ThreadListState {
            threads,
            filter: String::new(),
            filtered_serials: serials,
            nav,
            search_active: false,
        }
    }

    /// Rebuilds the shown serials from threads whose name contains `query`
    /// case-insensitively. Keeps the selected serial if still visible,
    /// otherwise selects the first shown thread.
    pub fn apply_filter(&mut self, query: &str)
        ensures
            final(self).threads_view() == old(self).threads_view(),
            final(self).filter_view() == query@,
            final(self).searching() == old(self).searching(),
            final(self).filtered() == matching_serials(old(self).threads_view(), lowercase(query@)),
            query@.len() == 0 ==> lowercase(query@).len() == 0,
            final(self).nav().height() == old(self).nav().height(),
            final(self).filtered().len() == 0 ==> final(self).nav().cur() == old(self).nav().cur()
                && final(self).nav().list().selected_spec() is None,
            final(self).filtered().len() > 0 ==> match index_of_first(
                key_views(final(self).filtered()),
                old(self).nav().cur(),
            ) {
                Some(i) => final(self).nav().cur() == old(self).nav().cur()
                    && final(self).nav().list().selected_spec() == Some(i as usize),
                None => final(self).nav().cur() == final(self).filtered()[0]
                    && final(self).nav().list().selected_spec() == Some(0usize),
            },
    {
        self.filter = crate::text::string_of(query);
        let q = to_lowercase(query);
        let mut names: Vec<String> = Vec::new();
        let mut i: usize = 0;
        while i < self.threads.len()
            invariant
                i <= self.threads@.len(),
                names@.map_values(|s: String| s@) == lowered_names(self.threads@.subrange(0, i as int)),
            decreases self.threads@.len() - i,
        {
            let ghost before = names@.map_values(|s: String| s@);
            let name = to_lowercase(self.threads[i].name.as_str());
            assert(name@ == lowercase(self.threads@[i as int].name@));
            names.push(name);
            i = i + 1;
            assert(names@.map_values(|s: String| s@) =~= before.push(lowercase(self.threads@[i - 1].name@)));
            assert(names@.map_values(|s: String| s@) =~= lowered_names(self.threads@.subrange(0, i as int)));
        }
        assert(self.threads@.subrange(0, self.threads@.len() as int) =~= self.threads@);
        let serials = matching_serials_of(self.threads.as_slice(), names.as_slice(), q.as_str());
        proof {
            lemma_matching_lowered(self.threads@, q@);
        }
        self.filtered_serials = serials;
        if self.filtered_serials.len() == 0 {
            self.nav.sync(self.filtered_serials.as_slice());
            proof {
                crate::cursor::lemma_index_of_first_none(key_views(self.filtered_serials@), self.nav.cur());
            }
        } else {
            self.nav.sync_or_select_first(self.filtered_serials.as_slice());
        }
    }

    /// Moves selection down one item (clamps at end).
    pub fn move_down(&mut self)
        ensures
            final(self).threads_view() == old(self).threads_view(),
            final(self).filtered() == old(self).filtered(),
            final(self).filter_view() == old(self).filter_view(),
            final(self).searching() == old(self).searching(),
            old(self).filtered().len() > 0 ==> ({
                let t: int = match index_of_first(key_views(old(self).filtered()), old(self).nav().cur()) {
                    Some(i) => if i + 1 < old(self).filtered().len() {
                        i + 1
                    } else {
                        old(self).filtered().len() - 1
                    },
                    None => 0,
                };
                final(self).nav().cur() == old(self).filtered()[t]
                    && final(self).nav().list().selected_spec() == Some(t as usize)
            }),
            old(self).filtered().len() == 0 ==> final(self).nav() == old(self).nav(),
    {
        self.nav.move_down(self.filtered_serials.as_slice());
    }

    /// Moves selection up one item (clamps at start).
    pub fn move_up(&mut self)
        ensures
            final(self).threads_view() == old(self).threads_view(),
            final(self).filtered() == old(self).filtered(),
            final(self).filter_view() == old(self).filter_view(),
            final(self).searching() == old(self).searching(),
            old(self).filtered().len() > 0 ==> ({
                let t: int = match index_of_first(key_views(old(self).filtered()), old(self).nav().cur()) {
                    Some(i) => if i == 0 {
                        0
                    } else {
                        i - 1
                    },
                    None => 0,
                };
                final(self).nav().cur() == old(self).filtered()[t]
                    && final(self).nav().list().selected_spec() == Some(t as usize)
            }),
            old(self).filtered().len() == 0 ==> final(self).nav() == old(self).nav(),
    {
        self.nav.move_up(self.filtered_serials.as_slice());
    }

    /// Moves selection to the first item.
    pub fn move_home(&mut self)
        ensures
            final(self).threads_view() == old(self).threads_view(),
            final(self).filtered() == old(self).filtered(),
            final(self).filter_view() == old(self).filter_view(),
            final(self).searching() == old(self).searching(),
            old(self).filtered().len() > 0 ==> final(self).nav().cur() == old(self).filtered()[0]
                && final(self).nav().list().selected_spec() == Some(0usize),
            old(self).filtered().len() == 0 ==> final(self).nav() == old(self).nav(),
    {
        self.nav.move_home(self.filtered_serials.as_slice());
    }

    /// Moves selection to the last item.
    pub fn move_end(&mut self)
        ensures
            final(self).threads_view() == old(self).threads_view(),
            final(self).filtered() == old(self).filtered(),
            final(self).filter_view() == old(self).filter_view(),
            final(self).searching() == old(self).searching(),
            old(self).filtered().len() > 0 ==> final(self).nav().cur() == old(self).filtered()[old(
                self,
            ).filtered().len() - 1] && final(self).nav().list().selected_spec() == Some(
                (old(self).filtered().len() - 1) as usize,
            ),
            old(self).filtered().len() == 0 ==> final(self).nav() == old(self).nav(),
    {
        self.nav.move_end(self.filtered_serials.as_slice());
    }

    /// Moves selection down by one visible page (clamps at end).
    pub fn page_down(&mut self)
        ensures
            final(self).threads_view() == old(self).threads_view(),
            final(self).filtered() == old(self).filtered(),
            final(self).filter_view() == old(self).filter_view(),
            final(self).searching() == old(self).searching(),
            old(self).filtered().len() > 0 ==> ({
                let t: int = match index_of_first(key_views(old(self).filtered()), old(self).nav().cur()) {
                    Some(i) => if i + old(self).nav().height() < old(self).filtered().len() - 1 {
                        i + old(self).nav().height()
                    } else {
                        old(self).filtered().len() - 1
                    },
                    None => 0,
                };
                final(self).nav().cur() == old(self).filtered()[t]
                    && final(self).nav().list().selected_spec() == Some(t as usize)
            }),
            old(self).filtered().len() == 0 ==> final(self).nav() == old(self).nav(),
    {
        self.nav.move_page_down(self.filtered_serials.as_slice());
    }

    /// Moves selection up by one visible page (clamps at start).
    pub fn page_up(&mut self)
        ensures
            final(self).threads_view() == old(self).threads_view(),
            final(self).filtered() == old(self).filtered(),
            final(self).filter_view() == old(self).filter_view(),
            final(self).searching() == old(self).searching(),
            old(self).filtered().len() > 0 ==> ({
                let t: int = match index_of_first(key_views(old(self).filtered()), old(self).nav().cur()) {
                    Some(i) => if i >= old(self).nav().height() {
                        i - old(self).nav().height()
                    } else {
                        0
                    },
                    None => 0,
                };
                final(self).nav().cur() == old(self).filtered()[t]
                    && final(self).nav().list().selected_spec() == Some(t as usize)
            }),
            old(self).filtered().len() == 0 ==> final(self).nav() == old(self).nav(),
    {
        self.nav.move_page_up(self.filtered_serials.as_slice());
    }

    /// Sets visible list height used by page navigation.
    pub fn set_visible_height(&mut self, h: usize)
        ensures
            final(self).threads_view() == old(self).threads_view(),
            final(self).filtered() == old(self).filtered(),
            final(self).filter_view() == old(self).filter_view(),
            final(self).searching() == old(self).searching(),
            final(self).nav().height() == h,
            final(self).nav().cur() == old(self).nav().cur(),
            final(self).nav().list() == old(self).nav().list(),
    {
        self.nav.set_visible_height(h);
    }

    /// Returns the serial of the currently highlighted thread, or `None`
    /// when the filtered list is empty.
    pub fn selected_serial(&self) -> (r: Option<u32>)
        ensures
            r == self.selected_view(),
    {
        if self.filtered_serials.len() == 0 {
            None
        } else {
            Some(*self.nav.cursor())
        }
    }

    /// Current filter string.
    pub fn filter(&self) -> (r: &str)
        ensures
            r@ == self.filter_view(),
    {
        self.filter.as_str()
    }

    /// The shown serials, in display order.
    pub fn filtered_serials(&self) -> (r: &[u32])
        ensures
            r@ == self.filtered(),
    {
        self.filtered_serials.as_slice()
    }

    /// The list state of the shown rows.
    pub fn list_state(&self) -> (r: &ListState)
        ensures
            *r == self.nav().list(),
    {
        self.nav.list_state()
    }

    /// Returns mutable access to the list state for rendering.
    pub fn list_state_mut(&mut self) -> (r: &mut ListState)
        ensures
            *r == old(self).nav().list(),
            final(self).nav().list() == *final(r),
            final(self).nav().cur() == old(self).nav().cur(),
            final(self).nav().height() == old(self).nav().height(),
            final(self).threads_view() == old(self).threads_view(),
            final(self).filter_view() == old(self).filter_view(),
            final(self).filtered() == old(self).filtered(),
            final(self).searching() == old(self).searching(),
    {
        self.nav.list_state_mut()
    }

    /// Selects a thread by serial when it is visible in the current filtered list.
    pub fn select_serial(&mut self, serial: u32)
        ensures
            final(self).threads_view() == old(self).threads_view(),
            final(self).filtered() == old(self).filtered(),
            final(self).filter_view() == old(self).filter_view(),
            final(self).searching() == old(self).searching(),
            old(self).filtered().contains(serial) ==> final(self).nav().cur() == serial
                && final(self).nav().list().selected_spec() == Some(
                index_of_first(key_views(old(self).filtered()), serial).unwrap() as usize,
            ),
            !old(self).filtered().contains(serial) ==> final(self).nav() == old(self).nav(),
    {
        let pos = crate::cursor::position_of(self.filtered_serials.as_slice(), &serial);
        proof {
            assert(key_views(self.filtered_serials@) =~= self.filtered_serials@);
            if self.filtered_serials@.contains(serial) {
                let k = choose|k: int| 0 <= k < self.filtered_serials@.len() && self.filtered_serials@[k] == serial;
                assert(key_views(self.filtered_serials@)[k] == serial);
            }
        }
        if pos.is_some() {
            proof {
                crate::cursor::lemma_index_of_first_some(key_views(self.filtered_serials@), serial);
            }
            self.nav.set_cursor_and_sync(serial, self.filtered_serials.as_slice());
        }
    }

    /// Number of threads in the filtered view.
    pub fn filtered_count(&self) -> (r: usize)
        ensures
            r == self.filtered().len(),
    {
        self.filtered_serials.len()
    }

    /// Returns `true` if the search input is active.
    pub fn is_search_active(&self) -> (r: bool)
        ensures
            r == self.searching(),
    {
        self.search_active
    }

    /// Activates the search input box.
    pub fn activate_search(&mut self)
        ensures
            final(self).searching(),
            final(self).threads_view() == old(self).threads_view(),
            final(self).filtered() == old(self).filtered(),
            final(self).filter_view() == old(self).filter_view(),
            final(self).nav() == old(self).nav(),
    {
        if self.search_active {
            return;
        }
        self.search_active = true;
    }

    /// Deactivates the search input box.
    pub fn deactivate_search(&mut self)
        ensures
            !final(self).searching(),
            final(self).threads_view() == old(self).threads_view(),
            final(self).filtered() == old(self).filtered(),
            final(self).filter_view() == old(self).filter_view(),
            final(self).nav() == old(self).nav(),
    {
        self.search_active = false;
    }

    /// Clears the active filter and restores the full list.
    pub fn clear_filter(&mut self)
        ensures
            final(self).threads_view() == old(self).threads_view(),
            final(self).filter_view().len() == 0,
            final(self).searching() == old(self).searching(),
            final(self).filtered() == all_serials(old(self).threads_view()),
            final(self).filtered().len() > 0 ==> match index_of_first(
                key_views(final(self).filtered()),
                old(self).nav().cur(),
            ) {
                Some(i) => final(self).nav().cur() == old(self).nav().cur()
                    && final(self).nav().list().selected_spec() == Some(i as usize),
                None => final(self).nav().cur() == final(self).filtered()[0]
                    && final(self).nav().list().selected_spec() == Some(0usize),
            },
    {
        self.apply_filter("");
        proof {
            reveal_strlit("");
            lemma_everything_matches_empty(old(self).threads_view(), lowercase(""@));
        }
    }

    /// Returns the [`ThreadInfo`] for the currently selected thread, or `None`.
    pub fn selected_thread(&self) -> (r: Option<&ThreadInfo>)
        ensures
            match self.selected_view() {
                None => r is None,
                Some(s) => match first_with_serial(self.threads_view(), s) {
                    Some(k) => r == Some(&self.threads_view()[k]),
                    None => r is None,
                },
            },
    {
        match self.selected_serial() {
            Some(s) => self.thread_by_serial(s),
            None => None,
        }
    }

    fn thread_by_serial(&self, serial: u32) -> (r: Option<&ThreadInfo>)
        ensures
            match first_with_serial(self.threads_view(), serial) {
                Some(k) => r == Some(&self.threads_view()[k]),
                None => r is None,
            },
    {
        let mut i: usize = 0;
        while i < self.threads.len()
            invariant
                i <= self.threads@.len(),
                forall|j: int| 0 <= j < i ==> self.threads@[j].thread_serial != serial,
            decreases self.threads@.len() - i,
        {
            if self.threads[i].thread_serial == serial {
                proof {
                    lemma_first_with_serial(self.threads@, serial, i as int);
                }
                return Some(&self.threads[i]);
            }
            i = i + 1;
        }
        None
    }

    /// A copy of the thread with the given serial, if listed.
    pub fn thread_name_of(&self, serial: u32) -> (r: Option<String>)
        ensures
            match first_with_serial(self.threads_view(), serial) {
                Some(k) => r matches Some(n) && n@ == self.threads_view()[k].name@,
                None => r is None,
            },
    {
        match self.thread_by_serial(serial) {
            Some(t) => Some(copy_string(&t.name)),
            None => None,
        }
    }
}

/// Position of the first thread with the given serial.
pub open spec fn first_with_serial(ts: Seq<ThreadInfo>, serial: u32) -> Option<int> {
    if exists|i: int| 0 <= i < ts.len() && ts[i].thread_serial == serial {
        Some(
            choose|i: int|
                0 <= i < ts.len() && ts[i].thread_serial == serial && forall|j: int|
                    0 <= j < i ==> ts[j].thread_serial != serial,
        )
    } else {
        None
    }
}

proof fn lemma_first_with_serial(ts: Seq<ThreadInfo>, serial: u32, i: int)
    requires
        0 <= i < ts.len(),
        ts[i].thread_serial == serial,
        forall|j: int| 0 <= j < i ==> ts[j].thread_serial != serial,
    ensures
        first_with_serial(ts, serial) == Some(i),
{
    let c = choose|k: int|
        0 <= k < ts.len() && ts[k].thread_serial == serial && forall|j: int|
            0 <= j < k ==> ts[j].thread_serial != serial;
    assert(0 <= c < ts.len() && ts[c].thread_serial == serial);
    if c < i {
        assert(ts[c].thread_serial != serial);
    }
    if i < c {
        assert(ts[i].thread_serial != serial);
    }
}

/// Law: an empty query matches every thread, so the filtered list is the
/// whole list.
pub proof fn lemma_everything_matches_empty(ts: Seq<ThreadInfo>, q: Seq<char>)
    requires
        q.len() == 0,
    ensures
        matching_serials(ts, q) == all_serials(ts),
    decreases ts.len(),
{
    if ts.len() > 0 {
        lemma_everything_matches_empty(ts.drop_last(), q);
        assert(q =~= Seq::<char>::empty());
        crate::text::lemma_contains_empty(lowercase(ts.last().name@));
        assert(all_serials(ts) =~= all_serials(ts.drop_last()).push(ts.last().thread_serial));
    } else {
        assert(all_serials(ts) =~= Seq::<u32>::empty());
    }
}

/// Law: the filtered list only holds serials of listed threads, in the order
/// of the list, and never more than the list.
pub proof fn lemma_matching_is_sublist(ts: Seq<ThreadInfo>, q: Seq<char>)
    ensures
        matching_serials(ts, q).len() <= ts.len(),
        forall|s: u32| #[trigger] matching_serials(ts, q).contains(s) ==> all_serials(ts).contains(s),
    decreases ts.len(),
{
    if ts.len() > 0 {
        lemma_matching_is_sublist(ts.drop_last(), q);
        let rest = matching_serials(ts.drop_last(), q);
        assert forall|s: u32| #[trigger] matching_serials(ts, q).contains(s) implies all_serials(
            ts,
        ).contains(s) by {
            let n = ts.len() - 1;
            if rest.contains(s) {
                assert(all_serials(ts.drop_last()).contains(s));
                let k = choose|k: int| 0 <= k < all_serials(ts.drop_last()).len() && all_serials(ts.drop_last())[k] == s;
                assert(all_serials(ts)[k] == s);
            } else {
                assert(s == ts.last().thread_serial);
                assert(all_serials(ts)[n] == s);
            }
        }
    }
}

/// Tone of the marker of a thread in a given state.
pub open spec fn state_tone_spec(st: ThreadState) -> Tone {
    match st {
        ThreadState::Runnable => Tone::ThreadRunnable,
        ThreadState::Waiting => Tone::ThreadWaiting,
        ThreadState::Blocked => Tone::ThreadBlocked,
        ThreadState::Unknown => Tone::ThreadUnknown,
    }
}

fn state_tone(st: ThreadState) -> (r: Tone)
    ensures
        r == state_tone_spec(st),
{
    match st {
        ThreadState::Runnable => Tone::ThreadRunnable,
        ThreadState::Waiting => Tone::ThreadWaiting,
        ThreadState::Blocked => Tone::ThreadBlocked,
        ThreadState::Unknown => Tone::ThreadUnknown,
    }
}

/// The search row: the prompt with the filter and a caret while searching,
/// the prompt with the filter when a filter is set, else a hint.
pub open spec fn search_line_spec(searching: bool, filter: Seq<char>) -> Seq<SpanView> {
    if searching {
        seq![("/ "@, Tone::Search), (filter, Tone::Search), ("_"@, Tone::Search)]
    } else if filter.len() > 0 {
        seq![("/ "@, Tone::Search), (filter, Tone::Search)]
    } else {
        seq![("Press / to search"@, Tone::Null)]
    }
}

/// The row of one thread: a state marker and the thread name.
pub open spec fn thread_row(t: ThreadInfo) -> Seq<SpanView> {
    seq![("o "@, state_tone_spec(t.state)), (t.name@, Tone::Plain)]
}

/// Rows of the shown serials, skipping serials of no listed thread.
pub open spec fn thread_rows_spec(ts: Seq<ThreadInfo>, serials: Seq<u32>) -> Seq<Seq<SpanView>>
    decreases serials.len(),
{
    if serials.len() == 0 {
        Seq::empty()
    } else {
        let rest = thread_rows_spec(ts, serials.drop_last());
        match first_with_serial(ts, serials.last()) {
            Some(k) => rest.push(thread_row(ts[k])),
            None => rest,
        }
    }
}

/// The list area: the shown threads, or a message when none is shown.
pub open spec fn list_rows_spec(
    ts: Seq<ThreadInfo>,
    serials: Seq<u32>,
    filter: Seq<char>,
) -> Seq<Seq<SpanView>> {
    if serials.len() == 0 {
        if filter.len() == 0 {
            seq![seq![("No threads"@, Tone::Null)]]
        } else {
            seq![seq![("No threads match \""@ + filter + "\""@, Tone::Null)]]
        }
    } else {
        thread_rows_spec(ts, serials)
    }
}

/// The legend row: one marker per thread state.
pub open spec fn legend_spec() -> Seq<SpanView> {
    seq![
        ("o"@, Tone::ThreadRunnable),
        (" Run  "@, Tone::Plain),
        ("o"@, Tone::ThreadWaiting),
        (" Wt  "@, Tone::Plain),
        ("o"@, Tone::ThreadBlocked),
        (" Blk  "@, Tone::Plain),
        ("o"@, Tone::ThreadUnknown),
        (" Unknown"@, Tone::Null),
    ]
}

fn push_thread_row(out: &mut Vec<Vec<Span>>, t: Option<&ThreadInfo>)
    ensures
        rows_view(final(out)@) == match t {
            Some(t) => rows_view(old(out)@).push(thread_row(*t)),
            None => rows_view(old(out)@),
        },
{
    match t {
        Some(t) => {
            let mut row: Vec<Span> = Vec::new();
            push_span(&mut row, "o ", state_tone(t.state));
            push_span(&mut row, t.name.as_str(), Tone::Plain);
            let ghost rv = row_view(row@);
            assert(rv =~= thread_row(*t));
            out.push(row);
            assert(rows_view(out@) =~= rows_view(old(out)@).push(rv));
        },
        None => {},
    }
}

/// Thread list panel with a search row, the threads, and a legend.
pub struct SearchableList {
    /// Whether this panel has keyboard focus.
    pub focused: bool,
}

impl SearchableList {
    /// Title of the panel block: `Threads (N)` with the shown count.
    pub fn title(&self, state: &ThreadListState) -> (r: String)
        ensures
            r@ == "Threads ("@ + decimal(state.filtered().len()) + ")"@,
    {
        let mut t = string_of("Threads (");
        push_decimal(&mut t, state.filtered_count() as u64);
        push_str(&mut t, ")");
        t
    }

    /// The search row.
    pub fn search_line(&self, state: &ThreadListState) -> (r: Vec<Span>)
        ensures
            row_view(r@) == search_line_spec(state.searching(), state.filter_view()),
    {
        let mut row: Vec<Span> = Vec::new();
        if state.is_search_active() {
            push_span(&mut row, "/ ", Tone::Search);
            push_span(&mut row, state.filter(), Tone::Search);
            push_span(&mut row, "_", Tone::Search);
        } else if state.filter().unicode_len() > 0 {
            proof {
                assert(state.filter_view().len() > 0);
            }
            push_span(&mut row, "/ ", Tone::Search);
            push_span(&mut row, state.filter(), Tone::Search);
        } else {
            push_span(&mut row, "Press / to search", Tone::Null);
        }
        assert(row_view(row@) =~= search_line_spec(state.searching(), state.filter_view()));
        row
    }

    /// Rows of the list area: one per shown thread, or the empty message.
    pub fn list_rows(&self, state: &ThreadListState) -> (r: Vec<Vec<Span>>)
        ensures
            rows_view(r@) == list_rows_spec(state.threads_view(), state.filtered(), state.filter_view()),
    {
        let mut out: Vec<Vec<Span>> = Vec::new();
        if state.filtered_serials.len() == 0 {
            let mut row: Vec<Span> = Vec::new();
            if state.filter().unicode_len() == 0 {
                push_span(&mut row, "No threads", Tone::Null);
            } else {
                let mut msg = string_of("No threads match \"");
                push_str(&mut msg, state.filter());
                push_str(&mut msg, "\"");
                push_owned_span(&mut row, msg, Tone::Null);
            }
            let ghost rv = row_view(row@);
            proof {
                if state.filter_view().len() == 0 {
                    assert(rv =~= seq![("No threads"@, Tone::Null)]);
                } else {
                    assert(rv =~= seq![("No threads match \""@ + state.filter_view() + "\""@, Tone::Null)]);
                }
            }
            out.push(row);
            assert(rows_view(out@) =~= seq![rv]);
            assert(state.filtered().len() == 0);
            return out;
        }
        let n = state.filtered_serials.len();
        let mut i: usize = 0;
        while i < n
            invariant
                n == state.filtered().len(),
                i <= n,
                rows_view(out@) == thread_rows_spec(state.threads_view(), state.filtered().take(i as int)),
            decreases n - i,
        {
            let serial = state.filtered_serials[i];
            proof {
                assert(state.filtered().take(i + 1).drop_last() =~= state.filtered().take(i as int));
            }
            push_thread_row(&mut out, state.thread_by_serial(serial));
            i = i + 1;
        }
        assert(state.filtered().take(n as int) =~= state.filtered());
        out
    }

    /// The legend row.
    pub fn legend(&self) -> (r: Vec<Span>)
        ensures
            row_view(r@) == legend_spec(),
    {
        let mut row: Vec<Span> = Vec::new();
        push_span(&mut row, "o", Tone::ThreadRunnable);
        push_span(&mut row, " Run  ", Tone::Plain);
        push_span(&mut row, "o", Tone::ThreadWaiting);
        push_span(&mut row, " Wt  ", Tone::Plain);
        push_span(&mut row, "o", Tone::ThreadBlocked);
        push_span(&mut row, " Blk  ", Tone::Plain);
        push_span(&mut row, "o", Tone::ThreadUnknown);
        push_span(&mut row, " Unknown", Tone::Null);
        assert(row_view(row@) =~= legend_spec());
        row
    }

    /// A horizontal separator of the given width.
    pub fn separator(&self, width: usize) -> (r: Span)
        ensures
            r.text@ == repeat_char('─', width as int),
            r.tone == Tone::Border,
    {
        Span { text: repeated('─', width), tone: Tone::Border }
    }
}

} // verus!
