//! Display text of the stack tree: class short names, object labels, field
//! and entry values, frame labels and failure labels, and the tone of a
//! value row.

use vstd::prelude::*;

use crate::engine::{EntryInfo, FieldValue, FrameInfo, LineNumber};
use crate::rows::Tone;
use crate::stack_view::types::ExpansionPhase;
use crate::text::{
    chars_of, decimal, hex_upper, push_char, push_decimal, push_hex, push_signed_decimal, push_str,
    signed_decimal,
};

verus! {

broadcast use vstd::string::group_string_axioms;

/// Separator between the class name and the error of a failed expansion.
pub const FAILED_LABEL_SEP: &'static str = " \u{2014} ";

/// The part of a dotted name after its last `.` (the whole name when it
/// holds no `.`).
pub open spec fn short_name(s: Seq<char>) -> Seq<char>
    decreases s.len(),
{
    if s.len() == 0 {
        s
    } else if s.last() == '.' {
        Seq::empty()
    } else {
        short_name(s.drop_last()).push(s.last())
    }
}

/// A class name as displayed: `Object` when the name is empty.
pub open spec fn display_class(c: Seq<char>) -> Seq<char> {
    if c.len() == 0 {
        "Object"@
    } else {
        c
    }
}

/// Short display name of a class.
pub open spec fn short_class(c: Seq<char>) -> Seq<char> {
    short_name(display_class(c))
}

/// ` @ 0x<ID>` when object ids are shown, nothing otherwise.
pub open spec fn id_suffix(show: bool, id: u64) -> Seq<char> {
    if show {
        " @ 0x"@ + hex_upper(id as nat)
    } else {
        Seq::empty()
    }
}

/// ` (<N> entries)` for collections, nothing otherwise.
pub open spec fn count_suffix(ec: Option<u64>) -> Seq<char> {
    match ec {
        Some(n) => " ("@ + decimal(n as nat) + " entries)"@,
        None => Seq::empty(),
    }
}

/// Label of a collapsed object reference: short class name, entry count of
/// collections, and the object id when shown.
pub open spec fn collapsed_label(c: Seq<char>, ec: Option<u64>, show: bool, id: u64) -> Seq<char> {
    short_class(c) + count_suffix(ec) + id_suffix(show, id)
}

/// ` = <value>` for references with an inline value.
pub open spec fn inline_suffix(iv: Option<String>) -> Seq<char> {
    match iv {
        Some(v) => " = "@ + v@,
        None => Seq::empty(),
    }
}

/// Whether a phase shows the object open (`Expanded` or `Loading`).
pub open spec fn is_open(phase: Option<ExpansionPhase>) -> bool {
    phase == Some(ExpansionPhase::Expanded) || phase == Some(ExpansionPhase::Loading)
}

/// Display text of a value; `phase` is the expansion phase of the referenced
/// object, which drops the entry count from open references.
pub open spec fn value_text(v: FieldValue, phase: Option<ExpansionPhase>, show: bool) -> Seq<char> {
    match v {
        FieldValue::Null => "null"@,
        FieldValue::ObjectRef { id, class_name, entry_count, inline_value } => {
            let base = if is_open(phase) {
                short_class(class_name@) + id_suffix(show, id)
            } else {
                collapsed_label(class_name@, entry_count, show, id)
            };
            base + inline_suffix(inline_value)
        },
        FieldValue::Bool(b) => if b {
            "true"@
        } else {
            "false"@
        },
        FieldValue::Char(c) => seq!['\'', c, '\''],
        FieldValue::Byte(n) => signed_decimal(n as int),
        FieldValue::Short(n) => signed_decimal(n as int),
        FieldValue::Int(n) => signed_decimal(n as int),
        FieldValue::Long(n) => signed_decimal(n as int),
        FieldValue::Float(t) => t@,
        FieldValue::Double(t) => t@,
    }
}

/// The integer held by a `byte`, `short`, `int` or `long` value.
pub open spec fn integer_of(v: FieldValue) -> Option<int> {
    match v {
        FieldValue::Byte(n) => Some(n as int),
        FieldValue::Short(n) => Some(n as int),
        FieldValue::Int(n) => Some(n as int),
        FieldValue::Long(n) => Some(n as int),
        _ => None,
    }
}

/// Law: the display text of an integer value is its canonical signed
/// decimal text: it reads back as the value, with a `-` exactly when the
/// value is negative.
pub proof fn lemma_integer_text_reads_back(v: FieldValue, phase: Option<ExpansionPhase>, show: bool)
    requires
        integer_of(v) is Some,
    ensures
        crate::text::reads_as_signed(value_text(v, phase, show), integer_of(v).unwrap()),
{
    crate::text::lemma_signed_decimal_reads_back(integer_of(v).unwrap());
}

/// Tone of a value row.
pub open spec fn value_tone(v: FieldValue) -> Tone {
    match v {
        FieldValue::Null => Tone::Null,
        FieldValue::Char(_) => Tone::Str,
        FieldValue::ObjectRef { inline_value, .. } => if inline_value is Some {
            Tone::Str
        } else {
            Tone::Plain
        },
        _ => Tone::Primitive,
    }
}

/// Toggle marker for a phase: `- ` open, `! ` failed, `+ ` collapsed,
/// blank without a phase.
pub open spec fn phase_toggle(phase: Option<ExpansionPhase>) -> Seq<char> {
    match phase {
        Some(ExpansionPhase::Expanded) => "- "@,
        Some(ExpansionPhase::Loading) => "- "@,
        Some(ExpansionPhase::Failed) => "! "@,
        Some(ExpansionPhase::Collapsed) => "+ "@,
        None => "  "@,
    }
}

/// Text of one collection entry line.
pub open spec fn entry_line(e: EntryInfo, indent: Seq<char>, phase: Option<ExpansionPhase>, show: bool) -> Seq<char> {
    let head = indent + phase_toggle(phase) + "["@ + decimal(e.index as nat) + "] "@;
    match e.key {
        Some(k) => head + value_text(k, None, false) + " => "@ + value_text(e.value, None, show),
        None => head + value_text(e.value, None, show),
    }
}

/// Location suffix of a frame label for a line number.
pub open spec fn line_label(l: LineNumber) -> Seq<char> {
    match l {
        LineNumber::Line(n) => ":"@ + decimal(n as nat),
        LineNumber::NoInfo => Seq::empty(),
        LineNumber::Unknown => " (?)"@,
        LineNumber::Compiled => " (compiled)"@,
        LineNumber::Native => " (native)"@,
    }
}

/// Label of a stack frame: `Class.method() [File.java:12]`.
pub open spec fn frame_label(f: FrameInfo) -> Seq<char> {
    let loc = if f.source_file@.len() == 0 {
        line_label(f.line)
    } else {
        " ["@ + f.source_file@ + line_label(f.line) + "]"@
    };
    f.class_name@ + "."@ + f.method_name@ + "()"@ + loc
}

/// Label of a failed object: `ShortClass — error`.
pub open spec fn failed_label(c: Seq<char>, err: Seq<char>) -> Seq<char> {
    short_class(c) + FAILED_LABEL_SEP@ + err
}

/// Appends the part of `s` after its last `.`.
pub fn push_short_name(out: &mut String, s: &str)
    ensures
        final(out)@ == old(out)@ + short_name(s@),
{
    let cs = chars_of(s);
    let n = cs.len();
    let mut start: usize = 0;
    let mut i: usize = 0;
    while i < n
        invariant
            n == cs@.len(),
            start <= i <= n,
            short_name(cs@.subrange(0, i as int)) == cs@.subrange(start as int, i as int),
        decreases n - i,
    {
        let ghost pre = cs@.subrange(0, i as int);
        assert(cs@.subrange(0, i + 1).drop_last() =~= pre);
        if cs[i] == '.' {
            start = i + 1;
            assert(cs@.subrange(start as int, i + 1) =~= Seq::<char>::empty());
        } else {
            assert(cs@.subrange(start as int, i + 1) =~= cs@.subrange(start as int, i as int).push(
                cs@[i as int],
            ));
        }
        i = i + 1;
    }
    assert(cs@.subrange(0, n as int) =~= s@);
    let mut k: usize = start;
    while k < n
        invariant
            n == cs@.len(),
            start <= k <= n,
            out@ == old(out)@ + cs@.subrange(start as int, k as int),
        decreases n - k,
    {
        push_char(out, cs[k]);
        assert(cs@.subrange(start as int, k + 1) =~= cs@.subrange(start as int, k as int).push(
            cs@[k as int],
        ));
        k = k + 1;
    }
}

/// Appends the short display name of a class.
pub fn push_short_class(out: &mut String, class_name: &str)
    ensures
        final(out)@ == old(out)@ + short_class(class_name@),
{
    if class_name.is_empty() {
        push_short_name(out, "Object");
    } else {
        push_short_name(out, class_name);
    }
}

fn push_id_suffix(out: &mut String, show: bool, id: u64)
    ensures
        final(out)@ == old(out)@ + id_suffix(show, id),
{
    if show {
        push_str(out, " @ 0x");
        push_hex(out, id);
    }
    assert(final(out)@ =~= old(out)@ + id_suffix(show, id));
}

fn push_count_suffix(out: &mut String, ec: Option<u64>)
    ensures
        final(out)@ == old(out)@ + count_suffix(ec),
{
    if let Some(n) = ec {
        push_str(out, " (");
        push_decimal(out, n);
        push_str(out, " entries)");
    }
    assert(final(out)@ =~= old(out)@ + count_suffix(ec));
}

fn push_inline_suffix(out: &mut String, iv: &Option<String>)
    ensures
        final(out)@ == old(out)@ + inline_suffix(*iv),
{
    if let Some(v) = iv {
        push_str(out, " = ");
        push_str(out, v.as_str());
    }
    assert(final(out)@ =~= old(out)@ + inline_suffix(*iv));
}

/// Appends the label of a collapsed object reference.
pub fn push_collapsed_label(out: &mut String, class_name: &str, entry_count: Option<u64>, show_object_ids: bool, object_id: u64)
    ensures
        final(out)@ == old(out)@ + collapsed_label(class_name@, entry_count, show_object_ids, object_id),
{
    push_short_class(out, class_name);
    push_count_suffix(out, entry_count);
    push_id_suffix(out, show_object_ids, object_id);
    assert(final(out)@ =~= old(out)@ + collapsed_label(class_name@, entry_count, show_object_ids, object_id));
}

/// Formats a collapsed object reference as `ClassName`, or
/// `ClassName (N entries)` for collections, followed by ` @ 0xID` when
/// object ids are shown.
pub fn format_object_ref_collapsed(class_name: &str, entry_count: Option<u64>, show_object_ids: bool, object_id: u64) -> (r: String)
    ensures
        r@ == collapsed_label(class_name@, entry_count, show_object_ids, object_id),
{
    let mut s = String::new();
    push_collapsed_label(&mut s, class_name, entry_count, show_object_ids, object_id);
    s
}

/// Appends the display text of a value.
pub fn push_value_text(out: &mut String, v: &FieldValue, phase: Option<ExpansionPhase>, show_object_ids: bool)
    ensures
        final(out)@ == old(out)@ + value_text(*v, phase, show_object_ids),
{
    match v {
        FieldValue::Null => push_str(out, "null"),
        FieldValue::ObjectRef { id, class_name, entry_count, inline_value } => {
            let open = match phase {
                Some(ExpansionPhase::Expanded) => true,
                Some(ExpansionPhase::Loading) => true,
                _ => false,
            };
            if open {
                push_short_class(out, class_name.as_str());
                push_id_suffix(out, show_object_ids, *id);
            } else {
                push_collapsed_label(out, class_name.as_str(), *entry_count, show_object_ids, *id);
            }
            push_inline_suffix(out, inline_value);
        },
        FieldValue::Bool(b) => if *b {
            push_str(out, "true")
        } else {
            push_str(out, "false")
        },
        FieldValue::Char(c) => {
            push_char(out, '\'');
            push_char(out, *c);
            push_char(out, '\'');
        },
        FieldValue::Byte(n) => push_signed_decimal(out, *n as i64),
        FieldValue::Short(n) => push_signed_decimal(out, *n as i64),
        FieldValue::Int(n) => push_signed_decimal(out, *n as i64),
        FieldValue::Long(n) => push_signed_decimal(out, *n),
        FieldValue::Float(t) => push_str(out, t.as_str()),
        FieldValue::Double(t) => push_str(out, t.as_str()),
    }
    assert(final(out)@ =~= old(out)@ + value_text(*v, phase, show_object_ids));
}

/// Formats a value for field rows; open references (`Expanded` or
/// `Loading`) drop their entry count.
pub fn format_field_value_display(v: &FieldValue, phase: Option<ExpansionPhase>, show_object_ids: bool) -> (r: String)
    ensures
        r@ == value_text(*v, phase, show_object_ids),
{
    let mut s = String::new();
    push_value_text(&mut s, v, phase, show_object_ids);
    s
}

/// Formats a value for inline display in collection entries.
pub fn format_entry_value_text(v: &FieldValue, show_object_ids: bool) -> (r: String)
    ensures
        r@ == value_text(*v, None, show_object_ids),
{
    format_field_value_display(v, None, show_object_ids)
}

/// Returns the tone of a rendered value row.
pub fn field_value_style(v: &FieldValue) -> (r: Tone)
    ensures
        r == value_tone(*v),
{
    match v {
        FieldValue::Null => Tone::Null,
        FieldValue::Char(_) => Tone::Str,
        FieldValue::ObjectRef { inline_value, .. } => match inline_value {
            Some(_) => Tone::Str,
            None => Tone::Plain,
        },
        _ => Tone::Primitive,
    }
}

/// Appends the toggle marker of a phase.
pub fn push_phase_toggle(out: &mut String, phase: Option<ExpansionPhase>)
    ensures
        final(out)@ == old(out)@ + phase_toggle(phase),
{
    match phase {
        Some(ExpansionPhase::Expanded) => push_str(out, "- "),
        Some(ExpansionPhase::Loading) => push_str(out, "- "),
        Some(ExpansionPhase::Failed) => push_str(out, "! "),
        Some(ExpansionPhase::Collapsed) => push_str(out, "+ "),
        None => push_str(out, "  "),
    }
}

/// Formats one collection entry as a display line; `value_phase` is the
/// phase of the entry's value object and picks the toggle marker.
pub fn format_entry_line(entry: &EntryInfo, indent: &str, value_phase: Option<ExpansionPhase>, show_object_ids: bool) -> (r: String)
    ensures
        r@ == entry_line(*entry, indent@, value_phase, show_object_ids),
{
    let mut s = String::new();
    push_str(&mut s, indent);
    push_phase_toggle(&mut s, value_phase);
    push_str(&mut s, "[");
    push_decimal(&mut s, entry.index as u64);
    push_str(&mut s, "] ");
    match &entry.key {
        Some(k) => {
            push_value_text(&mut s, k, None, false);
            push_str(&mut s, " => ");
            push_value_text(&mut s, &entry.value, None, show_object_ids);
        },
        None => {
            push_value_text(&mut s, &entry.value, None, show_object_ids);
        },
    }
    assert(s@ =~= entry_line(*entry, indent@, value_phase, show_object_ids));
    s
}

/// Formats a stack frame as `Class.method()` followed by its source
/// location when known.
pub fn format_frame_label(frame: &FrameInfo) -> (r: String)
    ensures
        r@ == frame_label(*frame),
{
    let mut loc = String::new();
    match frame.line {
        LineNumber::Line(n) => {
            push_str(&mut loc, ":");
            push_decimal(&mut loc, n as u64);
        },
        LineNumber::NoInfo => {},
        LineNumber::Unknown => push_str(&mut loc, " (?)"),
        LineNumber::Compiled => push_str(&mut loc, " (compiled)"),
        LineNumber::Native => push_str(&mut loc, " (native)"),
    }
    assert(loc@ =~= line_label(frame.line));
    let mut s = String::new();
    push_str(&mut s, frame.class_name.as_str());
    push_str(&mut s, ".");
    push_str(&mut s, frame.method_name.as_str());
    push_str(&mut s, "()");
    if frame.source_file.as_str().is_empty() {
        push_str(&mut s, loc.as_str());
    } else {
        push_str(&mut s, " [");
        push_str(&mut s, frame.source_file.as_str());
        push_str(&mut s, loc.as_str());
        push_str(&mut s, "]");
    }
    assert(s@ =~= frame_label(*frame));
    s
}

/// Formats a failed object label as `ShortClass — error message`.
pub fn format_failed_label(class_name: &str, err: &str) -> (r: String)
    ensures
        r@ == failed_label(class_name@, err@),
{
    let mut s = String::new();
    push_short_class(&mut s, class_name);
    push_str(&mut s, FAILED_LABEL_SEP);
    push_str(&mut s, err);
    assert(s@ =~= failed_label(class_name@, err@));
    s
}

} // verus!
