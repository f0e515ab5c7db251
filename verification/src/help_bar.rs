//! Keyboard shortcut help panel: the keymap entries with the panels they
//! apply to, and the rows of the two-column table.

use vstd::prelude::*;

use crate::keymap::Keymap;
use crate::rows::{pad_right, row_view, rows_view, Span, SpanView, Tone, push_padded};
use crate::text::{push_char, push_str, string_of};

verus! {

broadcast use vstd::string::group_string_axioms;

/// Number of keymap entries documented in the help panel.
pub const ENTRY_COUNT: u16 = 23;

/// Applicable in the thread list.
pub const THREAD: u8 = 1;

/// Applicable in the stack frames panel.
pub const STACK: u8 = 2;

/// Applicable in the favorites panel.
pub const FAV: u8 = 4;

/// Applicable everywhere.
pub const ALL: u8 = 7;

/// Ghost image of one help entry: key label, action label, context mask.
pub type EntryView = (Seq<char>, Seq<char>, u8);

/// The help entries for a keymap, in display order.
pub open spec fn help_entries_spec(km: Keymap) -> Seq<EntryView> {
    seq![
        (seq![km.quit] + " / Ctrl+C"@, "Quit"@, ALL),
        ("Esc"@, "Search off -> clear filter -> back"@, ALL),
        ("Tab"@, "Cycle panel focus"@, ALL),
        ("\u{2191} / \u{2193}"@, "Move selection"@, ALL),
        ("PgUp / PgDn"@, "Scroll one page"@, ALL),
        ("Ctrl/Shift+\u{2191}"@, "Scroll view up"@, STACK),
        ("Ctrl/Shift+\u{2193}"@, "Scroll view down"@, STACK),
        ("Ctrl/Shift+PgUp/PgDn"@, "Scroll view one page"@, STACK),
        ("Ctrl+L"@, "Center selection"@, STACK),
        ("Home / End"@, "Jump to first / last"@, ALL),
        ("Enter"@, "Expand / confirm"@, (THREAD | STACK) as u8),
        ("\u{2192}"@, "Expand node"@, STACK),
        ("\u{2190}"@, "Unexpand / go to parent"@, STACK),
        (seq![km.batch_expand], "Re-expand collapsed"@, (STACK | FAV) as u8),
        (seq![km.prev_pin] + " / "@ + seq![km.next_pin], "Favorites: prev/next pin"@, FAV),
        (seq![km.toggle_favorite], "Pin / unpin favorite"@, (STACK | FAV) as u8),
        (seq![km.focus_favorites], "Focus favorites panel"@, ALL),
        (seq![km.navigate_to_source], "Favorites: go to source"@, FAV),
        (seq![km.hide_field], "Favorites: hide / show field"@, FAV),
        (seq![km.reveal_hidden], "Favorites: reveal / hide hidden"@, FAV),
        (seq![km.toggle_object_ids], "Toggle object IDs (stack)"@, STACK),
        (seq![km.search_activate] + " or /"@, "Open search (thread list only)"@, THREAD),
        ("?"@, "Toggle help panel"@, ALL),
    ]
}

/// The ghost image of a list of entries.
pub open spec fn entries_view(v: Seq<(String, &'static str, u8)>) -> Seq<EntryView> {
    v.map_values(|e: (String, &'static str, u8)| (e.0@, e.1@, e.2))
}

fn char_label(c: char) -> (r: String)
    ensures
        r@ == seq![c],
{
    let mut s = String::new();
    push_char(&mut s, c);
    assert(s@ =~= seq![c]);
    s
}

fn fixed(e: &mut Vec<(String, &'static str, u8)>, k: &'static str, a: &'static str, m: u8)
    ensures
        entries_view(final(e)@) == entries_view(old(e)@).push((k@, a@, m)),
{
    e.push((string_of(k), a, m));
    assert(entries_view(final(e)@) =~= entries_view(old(e)@).push((k@, a@, m)));
}

fn keyed(e: &mut Vec<(String, &'static str, u8)>, k: String, a: &'static str, m: u8)
    ensures
        entries_view(final(e)@) == entries_view(old(e)@).push((k@, a@, m)),
{
    let ghost kv = k@;
    e.push((k, a, m));
    assert(entries_view(final(e)@) =~= entries_view(old(e)@).push((kv, a@, m)));
}

/// Build the keymap entries for the help panel: `(key_label, action_label,
/// context_mask)` tuples. Key labels of configurable bindings come from
/// `keymap`; all other labels are fixed.
pub fn help_entries(keymap: &Keymap) -> (r: Vec<(String, &'static str, u8)>)
    ensures
        entries_view(r@) == help_entries_spec(*keymap),
        r@.len() == ENTRY_COUNT,
{
    let mut e: Vec<(String, &'static str, u8)> = Vec::new();
    let mut q = char_label(keymap.quit);
    push_str(&mut q, " / Ctrl+C");
    keyed(&mut e, q, "Quit", ALL);
    fixed(&mut e, "Esc", "Search off -> clear filter -> back", ALL);
    fixed(&mut e, "Tab", "Cycle panel focus", ALL);
    fixed(&mut e, "\u{2191} / \u{2193}", "Move selection", ALL);
    fixed(&mut e, "PgUp / PgDn", "Scroll one page", ALL);
    fixed(&mut e, "Ctrl/Shift+\u{2191}", "Scroll view up", STACK);
    fixed(&mut e, "Ctrl/Shift+\u{2193}", "Scroll view down", STACK);
    fixed(&mut e, "Ctrl/Shift+PgUp/PgDn", "Scroll view one page", STACK);
    fixed(&mut e, "Ctrl+L", "Center selection", STACK);
    fixed(&mut e, "Home / End", "Jump to first / last", ALL);
    fixed(&mut e, "Enter", "Expand / confirm", THREAD | STACK);
    fixed(&mut e, "\u{2192}", "Expand node", STACK);
    fixed(&mut e, "\u{2190}", "Unexpand / go to parent", STACK);
    keyed(&mut e, char_label(keymap.batch_expand), "Re-expand collapsed", STACK | FAV);
    let mut bn = char_label(keymap.prev_pin);
    push_str(&mut bn, " / ");
    push_char(&mut bn, keymap.next_pin);
    assert(bn@ =~= seq![keymap.prev_pin] + " / "@ + seq![keymap.next_pin]);
    keyed(&mut e, bn, "Favorites: prev/next pin", FAV);
    keyed(&mut e, char_label(keymap.toggle_favorite), "Pin / unpin favorite", STACK | FAV);
    keyed(&mut e, char_label(keymap.focus_favorites), "Focus favorites panel", ALL);
    keyed(&mut e, char_label(keymap.navigate_to_source), "Favorites: go to source", FAV);
    keyed(&mut e, char_label(keymap.hide_field), "Favorites: hide / show field", FAV);
    keyed(&mut e, char_label(keymap.reveal_hidden), "Favorites: reveal / hide hidden", FAV);
    keyed(&mut e, char_label(keymap.toggle_object_ids), "Toggle object IDs (stack)", STACK);
    let mut s = char_label(keymap.search_activate);
    push_str(&mut s, " or /");
    keyed(&mut e, s, "Open search (thread list only)", THREAD);
    fixed(&mut e, "?", "Toggle help panel", ALL);
    assert(entries_view(e@) =~~= help_entries_spec(*keymap));
    e
}

/// Panel focus context passed to the help panel for context-aware dimming.
#[derive(Debug, Clone, Copy, PartialEq, Eq, Hash, Structural)]
pub enum HelpContext {
    ThreadList,
    StackFrames,
    Favorites,
    /// Go-to-pin navigation in progress: the shortcuts of `StackFrames`, but
    /// Esc reads "Cancel navigation".
    Navigating,
}

/// Keyboard shortcut help panel data: the focus context and the bindings.
pub struct HelpBar {
    pub context: HelpContext,
    pub keymap: Keymap,
}

/// The context bit of a help context.
pub open spec fn context_bit_spec(ctx: HelpContext) -> u8 {
    match ctx {
        HelpContext::ThreadList => THREAD,
        HelpContext::StackFrames | HelpContext::Navigating => STACK,
        HelpContext::Favorites => FAV,
    }
}

/// Returns the context bitmask bit for a given [`HelpContext`].
pub fn context_bit(ctx: &HelpContext) -> (r: u8)
    ensures
        r == context_bit_spec(*ctx),
{
    match ctx {
        HelpContext::ThreadList => THREAD,
        HelpContext::StackFrames | HelpContext::Navigating => STACK,
        HelpContext::Favorites => FAV,
    }
}

/// Returns the total height (in terminal rows) required to render the help
/// panel: `2 (borders) + 1 (padding) + ceil(ENTRY_COUNT / 2) + 1 (separator)`.
pub fn required_height() -> (r: u16)
    ensures
        r == 2 + 1 + (ENTRY_COUNT + 1) / 2 + 1,
        r == 16,
{
    2 + 1 + (ENTRY_COUNT + 1) / 2 + 1
}

/// Law: every entry of the help panel applies to at least one panel and
/// only to known panels, for every keymap.
pub proof fn lemma_entry_masks_valid(km: Keymap)
    ensures
        help_entries_spec(km).len() == ENTRY_COUNT,
        forall|i: int|
            0 <= i < help_entries_spec(km).len() ==> (#[trigger] help_entries_spec(km)[i]).2 != 0
                && help_entries_spec(km)[i].2 <= ALL && help_entries_spec(km)[i].2 & ALL
                == help_entries_spec(km)[i].2,
{
    assert((THREAD | STACK) as u8 == 3u8) by (bit_vector);
    assert((STACK | FAV) as u8 == 6u8) by (bit_vector);
    assert(1u8 & 7u8 == 1u8) by (bit_vector);
    assert(2u8 & 7u8 == 2u8) by (bit_vector);
    assert(3u8 & 7u8 == 3u8) by (bit_vector);
    assert(4u8 & 7u8 == 4u8) by (bit_vector);
    assert(6u8 & 7u8 == 6u8) by (bit_vector);
    assert(7u8 & 7u8 == 7u8) by (bit_vector);
}

/// The action label shown for an entry in a context: Esc reads "Cancel
/// navigation" while navigating.
pub open spec fn shown_action(ctx: HelpContext, key: Seq<char>, action: Seq<char>) -> Seq<char> {
    if ctx == HelpContext::Navigating && key == "Esc"@ {
        "Cancel navigation"@
    } else {
        action
    }
}

/// The tone of an action: plain when the entry applies in the context,
/// dimmed otherwise.
pub open spec fn action_tone(ctx: HelpContext, mask: u8) -> Tone {
    if context_bit_spec(ctx) & mask != 0 {
        Tone::Plain
    } else {
        Tone::Null
    }
}

/// The table row showing entries `i` and `i + 1` (when present).
pub open spec fn help_row(ctx: HelpContext, es: Seq<EntryView>, i: int) -> Seq<SpanView> {
    let (ka, aa, ma) = es[i];
    let left = seq![
        ("  "@ + pad_right(ka, 18), Tone::Null),
        (pad_right(shown_action(ctx, ka, aa), 36), action_tone(ctx, ma)),
    ];
    if i + 1 < es.len() {
        let (kb, ab, mb) = es[i + 1];
        left + seq![
            (pad_right(kb, 18), Tone::Null),
            (shown_action(ctx, kb, ab), action_tone(ctx, mb)),
        ]
    } else {
        left
    }
}

/// The table rows for entries from `i` on, two entries per row.
pub open spec fn help_rows_from(ctx: HelpContext, es: Seq<EntryView>, i: int) -> Seq<
    Seq<SpanView>,
>
    decreases es.len() + 2 - i,
{
    if i >= es.len() || i < 0 {
        Seq::empty()
    } else {
        seq![help_row(ctx, es, i)] + help_rows_from(ctx, es, i + 2)
    }
}

/// The rows of the help panel: a blank padding row, one row per pair of
/// entries, and a blank separator row.
pub open spec fn help_rows_spec(ctx: HelpContext, km: Keymap) -> Seq<Seq<SpanView>> {
    seq![seq![("".view(), Tone::Plain)]] + help_rows_from(ctx, help_entries_spec(km), 0) + seq![
        seq![("".view(), Tone::Plain)],
    ]
}

fn blank_row() -> (r: Vec<Span>)
    ensures
        row_view(r@) == seq![("".view(), Tone::Plain)],
{
    let mut v: Vec<Span> = Vec::new();
    v.push(Span { text: string_of(""), tone: Tone::Plain });
    assert(row_view(v@) =~= seq![("".view(), Tone::Plain)]);
    v
}

fn action_label(ctx: HelpContext, key: &String, action: &'static str) -> (r: &'static str)
    ensures
        r@ == shown_action(ctx, key@, action@),
{
    if ctx == HelpContext::Navigating && crate::text::find_sub(
        crate::text::chars_of(key.as_str()).as_slice(),
        crate::text::chars_of("Esc").as_slice(),
    ) && key.as_str().unicode_len() == 3 {
        proof {
            reveal_strlit("Esc");
            let kc = key@;
            let w = choose|j: int| crate::text::occurs_at(kc, "Esc"@, j);
            assert(w == 0);
            assert(kc =~= kc.subrange(0, 3));
        }
        "Cancel navigation"
    } else {
        proof {
            reveal_strlit("Esc");
            if key@ == "Esc"@ {
                assert(crate::text::occurs_at(key@, "Esc"@, 0)) by {
                    assert(key@.subrange(0, 3) =~= key@);
                }
            }
        }
        action
    }
}

fn tone_for(ctx_bit: u8, mask: u8) -> (r: Tone)
    ensures
        r == (if ctx_bit & mask != 0 {
            Tone::Plain
        } else {
            Tone::Null
        }),
{
    if ctx_bit & mask != 0 {
        Tone::Plain
    } else {
        Tone::Null
    }
}

/// Builds the display rows for the help panel: one row per pair of entries
/// (two entries per row) between a blank padding row and a blank separator
/// row. Entries inapplicable in `ctx` have their action dimmed; the row count
/// is the same in every context.
pub fn build_rows(ctx: HelpContext, keymap: &Keymap) -> (r: Vec<Vec<Span>>)
    ensures
        rows_view(r@) == help_rows_spec(ctx, *keymap),
{
    let ctx_bit = context_bit(&ctx);
    let entries = help_entries(keymap);
    let ghost es = entries_view(entries@);
    let mut lines: Vec<Vec<Span>> = Vec::new();
    lines.push(blank_row());
    let mut i: usize = 0;
    while i < entries.len()
        invariant
            es == entries_view(entries@),
            es == help_entries_spec(*keymap),
            entries@.len() == 23,
            ctx_bit == context_bit_spec(ctx),
            i % 2 == 0,
            i <= entries@.len() + 1,
            rows_view(lines@) == seq![seq![("".view(), Tone::Plain)]] + help_rows_from(ctx, es, 0).take(
                (i / 2) as int,
            ),
        decreases entries@.len() + 2 - i,
    {
        let ka = &entries[i].0;
        let aa = action_label(ctx, ka, entries[i].1);
        let mut left_key = string_of("  ");
        push_padded(&mut left_key, ka.as_str(), 18);
        let mut left_action = String::new();
        push_padded(&mut left_action, aa, 36);
        let mut spans: Vec<Span> = Vec::new();
        spans.push(Span { text: left_key, tone: Tone::Null });
        spans.push(Span { text: left_action, tone: tone_for(ctx_bit, entries[i].2) });
        if i + 1 < entries.len() {
            let kb = &entries[i + 1].0;
            let ab = action_label(ctx, kb, entries[i + 1].1);
            let mut right_key = String::new();
            push_padded(&mut right_key, kb.as_str(), 18);
            spans.push(Span { text: right_key, tone: Tone::Null });
            spans.push(Span { text: string_of(ab), tone: tone_for(ctx_bit, entries[i + 1].2) });
        }
        proof {
            assert(row_view(spans@) =~= help_row(ctx, es, i as int));
            lemma_help_rows_take(ctx, es, i as int);
        }
        let ghost old_lines = lines@;
        let ghost sv = spans@;
        lines.push(spans);
        proof {
            assert(rows_view(lines@) =~= rows_view(old_lines).push(row_view(sv)));
        }
        i = i + 2;
        proof {
            assert(rows_view(lines@) =~= seq![seq![("".view(), Tone::Plain)]] + help_rows_from(
                ctx,
                es,
                0,
            ).take((i / 2) as int));
        }
    }
    proof {
        lemma_help_rows_len(ctx, es, 0);
        assert(help_rows_from(ctx, es, 0).take(12) =~= help_rows_from(ctx, es, 0));
    }
    lines.push(blank_row());
    assert(rows_view(lines@) =~= help_rows_spec(ctx, *keymap));
    lines
}

proof fn lemma_help_rows_len(ctx: HelpContext, es: Seq<EntryView>, i: int)
    requires
        0 <= i,
        i % 2 == 0,
    ensures
        help_rows_from(ctx, es, i).len() == (if i >= es.len() {
            0
        } else {
            (es.len() - i + 1) / 2
        }),
    decreases es.len() + 2 - i,
{
    if i < es.len() {
        lemma_help_rows_len(ctx, es, i + 2);
    }
}

proof fn lemma_help_rows_index(ctx: HelpContext, es: Seq<EntryView>, i: int, k: int)
    requires
        0 <= i,
        i % 2 == 0,
        0 <= k,
        i + 2 * k < es.len(),
    ensures
        help_rows_from(ctx, es, i)[k] == help_row(ctx, es, i + 2 * k),
    decreases k,
{
    lemma_help_rows_len(ctx, es, i + 2);
    if k > 0 {
        lemma_help_rows_index(ctx, es, i + 2, k - 1);
    }
}

proof fn lemma_help_rows_take(ctx: HelpContext, es: Seq<EntryView>, i: int)
    requires
        0 <= i < es.len(),
        i % 2 == 0,
    ensures
        help_rows_from(ctx, es, 0).take(i / 2 + 1) == help_rows_from(ctx, es, 0).take(i / 2).push(
            help_row(ctx, es, i),
        ),
{
    lemma_help_rows_len(ctx, es, 0);
    lemma_help_rows_index(ctx, es, 0, i / 2);
    assert(help_rows_from(ctx, es, 0).take(i / 2 + 1) =~= help_rows_from(ctx, es, 0).take(
        i / 2,
    ).push(help_row(ctx, es, i)));
}

/// Law: the help panel has the same number of rows in every context.
pub proof fn lemma_row_count_stable(ctx: HelpContext, km: Keymap)
    ensures
        help_rows_spec(ctx, km).len() == 14,
{
    lemma_help_rows_len(ctx, help_entries_spec(km), 0);
}

/// Law: the help entries of any two keymaps have the same actions and
/// context masks in the same order; only the key labels depend on the
/// keymap, and the first entry is the quit key with Ctrl+C.
pub proof fn lemma_entries_shape_ignores_keymap(k1: Keymap, k2: Keymap)
    ensures
        help_entries_spec(k1).len() == help_entries_spec(k2).len(),
        forall|i: int|
            0 <= i < help_entries_spec(k1).len() ==> (#[trigger] help_entries_spec(k1)[i]).1 == help_entries_spec(
                k2,
            )[i].1 && help_entries_spec(k1)[i].2 == help_entries_spec(k2)[i].2,
        help_entries_spec(k1)[0] == (seq![k1.quit] + " / Ctrl+C"@, "Quit"@, ALL),
{
    assert forall|i: int|
        0 <= i < help_entries_spec(k1).len() implies (#[trigger] help_entries_spec(k1)[i]).1 == help_entries_spec(
            k2,
        )[i].1 && help_entries_spec(k1)[i].2 == help_entries_spec(k2)[i].2 by {
        assert(0 <= i < 23);
    }
}

/// Law: for every keymap, Enter applies both in the thread list and in the
/// stack frames panel: the help entry labelled "Enter" has both bits in its
/// context mask.
pub proof fn lemma_enter_applies_to_threads_and_stack(km: Keymap)
    ensures
        forall|i: int|
            0 <= i < help_entries_spec(km).len() && (#[trigger] help_entries_spec(km)[i]).0 == "Enter"@ ==> (
            help_entries_spec(km)[i].2 & THREAD) != 0 && (help_entries_spec(km)[i].2 & STACK) != 0,
        exists|i: int| 0 <= i < help_entries_spec(km).len() && (#[trigger] help_entries_spec(km)[i]).0 == "Enter"@,
{
    reveal_strlit("Enter");
    reveal_strlit(" / Ctrl+C");
    reveal_strlit("Esc");
    reveal_strlit("Tab");
    reveal_strlit("\u{2191} / \u{2193}");
    reveal_strlit("PgUp / PgDn");
    reveal_strlit("Ctrl/Shift+\u{2191}");
    reveal_strlit("Ctrl/Shift+\u{2193}");
    reveal_strlit("Ctrl/Shift+PgUp/PgDn");
    reveal_strlit("Ctrl+L");
    reveal_strlit("Home / End");
    reveal_strlit("\u{2192}");
    reveal_strlit("\u{2190}");
    reveal_strlit(" / ");
    reveal_strlit(" or /");
    reveal_strlit("?");
    let es = help_entries_spec(km);
    assert(es[10].0 == "Enter"@);
    let m: u8 = es[10].2;
    assert((1u8 | 2u8) == 3u8) by (bit_vector);
    assert(m == 3u8);
    assert((m & 1u8) != 0 && (m & 2u8) != 0) by (bit_vector)
        requires
            m == 3u8,
    ;
    assert(es[0].0 != "Enter"@) by { assert(es[0].0.len() != 5); }
    assert(es[1].0 != "Enter"@) by { assert(es[1].0.len() != 5); }
    assert(es[2].0 != "Enter"@) by { assert(es[2].0.len() != 5); }
    assert(es[3].0 != "Enter"@) by { assert(es[3].0[1] == ' '); }
    assert(es[4].0 != "Enter"@) by { assert(es[4].0.len() != 5); }
    assert(es[5].0 != "Enter"@) by { assert(es[5].0.len() != 5); }
    assert(es[6].0 != "Enter"@) by { assert(es[6].0.len() != 5); }
    assert(es[7].0 != "Enter"@) by { assert(es[7].0.len() != 5); }
    assert(es[8].0 != "Enter"@) by { assert(es[8].0.len() != 5); }
    assert(es[9].0 != "Enter"@) by { assert(es[9].0.len() != 5); }
    assert(es[11].0 != "Enter"@) by { assert(es[11].0.len() != 5); }
    assert(es[12].0 != "Enter"@) by { assert(es[12].0.len() != 5); }
    assert(es[13].0 != "Enter"@) by { assert(es[13].0.len() != 5); }
    assert(es[14].0 != "Enter"@) by { assert(es[14].0[1] == ' '); }
    assert(es[15].0 != "Enter"@) by { assert(es[15].0.len() != 5); }
    assert(es[16].0 != "Enter"@) by { assert(es[16].0.len() != 5); }
    assert(es[17].0 != "Enter"@) by { assert(es[17].0.len() != 5); }
    assert(es[18].0 != "Enter"@) by { assert(es[18].0.len() != 5); }
    assert(es[19].0 != "Enter"@) by { assert(es[19].0.len() != 5); }
    assert(es[20].0 != "Enter"@) by { assert(es[20].0.len() != 5); }
    assert(es[21].0 != "Enter"@) by { assert(es[21].0.len() != 5); }
    assert(es[22].0 != "Enter"@) by { assert(es[22].0.len() != 5); }
    assert forall|i: int|
        0 <= i < es.len() && (#[trigger] es[i]).0 == "Enter"@ implies (es[i].2 & THREAD) != 0 && (es[i].2 & STACK)
        != 0 by {
        assert(i == 10);
    }
}

} // verus!
