//! Styled text rows: the output model of the views. A row is a list of
//! spans, each a piece of text with a [`Tone`] that the renderer maps to a
//! theme style.

use vstd::prelude::*;

use crate::text::push_char;

verus! {

/// Visual role of a piece of text.
#[derive(Debug, Clone, Copy, PartialEq, Eq, Structural)]
pub enum Tone {
    /// Unstyled text.
    Plain,
    /// Dimmed text (nulls, placeholders, hints).
    Null,
    /// Primitive values.
    Primitive,
    /// Strings and characters.
    Str,
    /// Error indicators.
    Error,
    /// Loading indicators.
    Loading,
    /// Expand/collapse toggles.
    Expand,
    /// Cyclic reference markers.
    Cyclic,
    /// Dimmed object ids.
    ObjectId,
    /// Status bar text.
    StatusBar,
    /// Search prompt and filter text.
    Search,
    /// Marker of a runnable thread.
    ThreadRunnable,
    /// Marker of a waiting thread.
    ThreadWaiting,
    /// Marker of a blocked thread.
    ThreadBlocked,
    /// Marker of a thread in an unknown state.
    ThreadUnknown,
    /// Border of a focused panel.
    BorderFocused,
    /// Border of an unfocused panel, and separators.
    Border,
}

/// Border tone of a panel.
pub fn border_tone(focused: bool) -> (r: Tone)
    ensures
        r == (if focused { Tone::BorderFocused } else { Tone::Border }),
{
    if focused {
        Tone::BorderFocused
    } else {
        Tone::Border
    }
}

/// A piece of text with a tone.
#[derive(Debug)]
pub struct Span {
    pub text: String,
    pub tone: Tone,
}

/// Ghost image of a span.
pub type SpanView = (Seq<char>, Tone);

/// The ghost image of a row of spans.
pub open spec fn row_view(r: Seq<Span>) -> Seq<SpanView> {
    r.map_values(|s: Span| (s.text@, s.tone))
}

/// The ghost image of a list of rows.
pub open spec fn rows_view(rs: Seq<Vec<Span>>) -> Seq<Seq<SpanView>> {
    rs.map_values(|r: Vec<Span>| row_view(r@))
}

/// Appends a span holding a copy of `text` to a row.
pub fn push_span(row: &mut Vec<Span>, text: &str, tone: Tone)
    ensures
        row_view(final(row)@) == row_view(old(row)@).push((text@, tone)),
{
    let t = crate::text::string_of(text);
    row.push(Span { text: t, tone });
    assert(row_view(row@) =~= row_view(old(row)@).push((text@, tone)));
}

/// Appends a span holding `text` to a row.
pub fn push_owned_span(row: &mut Vec<Span>, text: String, tone: Tone)
    ensures
        row_view(final(row)@) == row_view(old(row)@).push((text@, tone)),
{
    let ghost t = text@;
    row.push(Span { text, tone });
    assert(row_view(row@) =~= row_view(old(row)@).push((t, tone)));
}

/// `n` copies of a character.
pub open spec fn repeat_char(c: char, n: int) -> Seq<char>
    decreases n,
{
    if n <= 0 {
        Seq::empty()
    } else {
        repeat_char(c, n - 1).push(c)
    }
}

/// A string of `n` copies of `c`.
pub fn repeated(c: char, n: usize) -> (r: String)
    ensures
        r@ == repeat_char(c, n as int),
{
    let mut s = String::new();
    let mut k: usize = 0;
    while k < n
        invariant
            k <= n,
            s@ == repeat_char(c, k as int),
        decreases n - k,
    {
        push_char(&mut s, c);
        k = k + 1;
    }
    s
}

/// `n` spaces.
pub open spec fn spaces(n: int) -> Seq<char>
    decreases n,
{
    if n <= 0 {
        Seq::empty()
    } else {
        spaces(n - 1).push(' ')
    }
}

/// `s` padded on the right with spaces to at least `width` characters.
pub open spec fn pad_right(s: Seq<char>, width: int) -> Seq<char> {
    s + spaces(width - s.len())
}

/// Appends `t` padded on the right with spaces to `width` characters.
pub fn push_padded(s: &mut String, t: &str, width: usize)
    ensures
        final(s)@ == old(s)@ + pad_right(t@, width as int),
{
    crate::text::push_str(s, t);
    let n = crate::text::chars_of(t).len();
    let mut k: usize = n;
    while k < width
        invariant
            n == t@.len(),
            n <= k,
            k <= width || k == n,
            s@ == old(s)@ + t@ + spaces(k - n),
        decreases width - k,
    {
        push_char(s, ' ');
        k = k + 1;
    }
    assert(s@ =~= old(s)@ + pad_right(t@, width as int));
}

} // verus!
