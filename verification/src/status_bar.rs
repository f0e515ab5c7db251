//! Status bar at the bottom of the layout.
//!
//! Displays: `<filename>  |  <N> threads  |  <thread-name>  <STATE>`, with
//! an incomplete-file prefix, a hidden-favorites count and the latest
//! warning when there are any.

use vstd::prelude::*;

use crate::engine::{ThreadInfo, ThreadState};
use crate::rows::{Span, Tone};
use crate::text::{chars_of, decimal, push_char, push_decimal, push_str};

verus! {

broadcast use vstd::string::group_string_axioms;

/// Longest warning text shown before it is cut with an ellipsis.
pub const WARNING_SHOWN_CHARS: usize = 40;

/// Share of an incomplete heap dump that was indexed.
#[derive(Debug, Clone)]
pub enum IndexedPercent {
    /// Below 100%: the percentage rounded to a whole number, as decimal text.
    Below(String),
    /// 100% or more (or not a number).
    NotBelow,
}

/// One-line status bar for the bottom of the layout.
pub struct StatusBar<'a> {
    /// Filename of the open heap dump.
    pub filename: &'a str,
    /// Total thread count (filtered or full, as appropriate for context).
    pub thread_count: usize,
    /// Currently selected thread, if any.
    pub selected: Option<&'a ThreadInfo>,
    /// Number of non-fatal parse warnings collected during indexing.
    pub warning_count: usize,
    /// Indexing completeness of an incomplete file; `None` = fully indexed.
    pub file_indexed_pct: Option<IndexedPercent>,
    /// Most recent session warning text, if any.
    pub last_warning: Option<&'a str>,
    /// Number of pinned items hidden because terminal is too narrow.
    pub pinned_hidden_count: usize,
}

/// Upper-case label of a thread state.
pub open spec fn state_label_spec(state: ThreadState) -> Seq<char> {
    match state {
        ThreadState::Unknown => "UNKNOWN"@,
        ThreadState::Runnable => "RUNNABLE"@,
        ThreadState::Waiting => "WAITING"@,
        ThreadState::Blocked => "BLOCKED"@,
    }
}

/// Upper-case label of a thread state.
pub fn state_label(state: ThreadState) -> (r: &'static str)
    ensures
        r@ == state_label_spec(state),
{
    match state {
        ThreadState::Unknown => "UNKNOWN",
        ThreadState::Runnable => "RUNNABLE",
        ThreadState::Waiting => "WAITING",
        ThreadState::Blocked => "BLOCKED",
    }
}

/// The warning text as shown: its first 40 characters, followed by `…`
/// when it is longer.
pub open spec fn shown_warning(w: Seq<char>) -> Seq<char> {
    if w.len() > WARNING_SHOWN_CHARS {
        w.take(WARNING_SHOWN_CHARS as int).push('…')
    } else {
        w
    }
}

/// Incomplete-file prefix.
pub open spec fn incomplete_part(p: Option<IndexedPercent>) -> Seq<char> {
    match p {
        Some(IndexedPercent::Below(t)) => "[!] Incomplete file — "@ + t@ + "% indexed  |  "@,
        Some(IndexedPercent::NotBelow) => "[!] Incomplete file  |  "@,
        None => Seq::empty(),
    }
}

/// Selected-thread part: name and state, or a dash.
pub open spec fn selected_part(sel: Option<&ThreadInfo>) -> Seq<char> {
    match sel {
        Some(t) => t.name@ + "  "@ + state_label_spec(t.state),
        None => "—"@,
    }
}

/// Hidden-favorites part.
pub open spec fn pinned_part(n: usize) -> Seq<char> {
    if n > 0 {
        "  [★ "@ + decimal(n as nat) + "]"@
    } else {
        Seq::empty()
    }
}

/// Warning part.
pub open spec fn warn_part(count: usize, last: Option<&str>) -> Seq<char> {
    if count > 0 {
        match last {
            Some(w) => "  |  [!] "@ + decimal(count as nat) + " warnings ("@ + shown_warning(w@)
                + ") — see stderr"@,
            None => "  |  [!] "@ + decimal(count as nat) + " warnings — see stderr"@,
        }
    } else {
        Seq::empty()
    }
}

/// The full status line.
pub open spec fn status_text(b: StatusBar) -> Seq<char> {
    " "@ + incomplete_part(b.file_indexed_pct) + b.filename@ + "  |  "@ + decimal(
        b.thread_count as nat,
    ) + "  threads"@ + "  |  "@ + selected_part(b.selected) + pinned_part(b.pinned_hidden_count)
        + warn_part(b.warning_count, b.last_warning) + "  |  [?]help"@
}

fn push_shown_warning(s: &mut String, w: &str)
    ensures
        final(s)@ == old(s)@ + shown_warning(w@),
{
    let cs = chars_of(w);
    let n: usize = if cs.len() > WARNING_SHOWN_CHARS { WARNING_SHOWN_CHARS } else { cs.len() };
    let mut i: usize = 0;
    while i < n
        invariant
            cs@ == w@,
            n <= cs@.len(),
            n == (if cs@.len() > WARNING_SHOWN_CHARS { WARNING_SHOWN_CHARS as int } else { cs@.len() as int }),
            i <= n,
            s@ == old(s)@ + w@.take(i as int),
        decreases n - i,
    {
        push_char(s, cs[i]);
        i = i + 1;
        assert(s@ =~= old(s)@ + w@.take(i as int));
    }
    if cs.len() > WARNING_SHOWN_CHARS {
        push_char(s, '…');
        assert(s@ =~= old(s)@ + shown_warning(w@));
    } else {
        assert(w@.take(i as int) =~= w@);
    }
}

fn push_incomplete_part(s: &mut String, p: &Option<IndexedPercent>)
    ensures
        final(s)@ == old(s)@ + incomplete_part(*p),
{
    match p {
        Some(IndexedPercent::Below(t)) => {
            push_str(s, "[!] Incomplete file — ");
            push_str(s, t.as_str());
            push_str(s, "% indexed  |  ");
        },
        Some(IndexedPercent::NotBelow) => {
            push_str(s, "[!] Incomplete file  |  ");
        },
        None => {},
    }
    assert(final(s)@ =~= old(s)@ + incomplete_part(*p));
}

fn push_selected_part(s: &mut String, sel: Option<&ThreadInfo>)
    ensures
        final(s)@ == old(s)@ + selected_part(sel),
{
    match sel {
        Some(t) => {
            push_str(s, t.name.as_str());
            push_str(s, "  ");
            push_str(s, state_label(t.state));
        },
        None => {
            push_str(s, "—");
        },
    }
    assert(final(s)@ =~= old(s)@ + selected_part(sel));
}

fn push_pinned_part(s: &mut String, n: usize)
    ensures
        final(s)@ == old(s)@ + pinned_part(n),
{
    if n > 0 {
        push_str(s, "  [★ ");
        push_decimal(s, n as u64);
        push_str(s, "]");
    }
    assert(final(s)@ =~= old(s)@ + pinned_part(n));
}

fn push_warn_part(s: &mut String, count: usize, last: Option<&str>)
    ensures
        final(s)@ == old(s)@ + warn_part(count, last),
{
    if count > 0 {
        push_str(s, "  |  [!] ");
        push_decimal(s, count as u64);
        match last {
            Some(w) => {
                push_str(s, " warnings (");
                push_shown_warning(s, w);
                push_str(s, ") — see stderr");
            },
            None => {
                push_str(s, " warnings — see stderr");
            },
        }
    }
    assert(final(s)@ =~= old(s)@ + warn_part(count, last));
}

impl<'a> StatusBar<'a> {
    /// The status line as one span in the status bar tone.
    pub fn line(&self) -> (r: Span)
        ensures
            r.text@ == status_text(*self),
            r.tone == Tone::StatusBar,
    {
        let mut s = String::new();
        push_str(&mut s, " ");
        push_incomplete_part(&mut s, &self.file_indexed_pct);
        push_str(&mut s, self.filename);
        push_str(&mut s, "  |  ");
        push_decimal(&mut s, self.thread_count as u64);
        push_str(&mut s, "  threads");
        push_str(&mut s, "  |  ");
        push_selected_part(&mut s, self.selected);
        push_pinned_part(&mut s, self.pinned_hidden_count);
        push_warn_part(&mut s, self.warning_count, self.last_warning);
        push_str(&mut s, "  |  [?]help");
        assert(s@ =~= status_text(*self));
        Span { text: s, tone: Tone::StatusBar }
    }
}

} // verus!
