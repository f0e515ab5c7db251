//! Plain data describing a heap dump as the views read it: threads, stack
//! frames, local variables, decoded object fields and collection pages.
//!
//! Floating-point primitives are carried as their decimal text, which is all
//! the views ever do with them.

use vstd::prelude::*;

verus! {

/// Scheduling state of a Java thread.
#[derive(Debug, Clone, Copy, PartialEq, Eq, Structural)]
pub enum ThreadState {
    Unknown,
    Runnable,
    Waiting,
    Blocked,
}

/// One Java thread of the dump.
#[derive(Debug, Clone)]
pub struct ThreadInfo {
    /// HPROF thread serial number.
    pub thread_serial: u32,
    /// Thread name.
    pub name: String,
    /// Scheduling state.
    pub state: ThreadState,
}

/// Source line information of a stack frame.
#[derive(Debug, Clone, Copy, PartialEq, Eq, Structural)]
pub enum LineNumber {
    /// A known source line.
    Line(u32),
    /// No line information recorded.
    NoInfo,
    /// Line unknown.
    Unknown,
    /// Compiled method.
    Compiled,
    /// Native method.
    Native,
}

/// One stack frame of a thread.
#[derive(Debug, Clone)]
pub struct FrameInfo {
    /// HPROF STACK_FRAME serial.
    pub frame_id: u64,
    /// Method name.
    pub method_name: String,
    /// Fully qualified class name.
    pub class_name: String,
    /// Source file name, empty when unknown.
    pub source_file: String,
    /// Line information.
    pub line: LineNumber,
    /// Whether the frame has local variables to show.
    pub has_variables: bool,
}

/// Value of a local variable (GC root) of a frame.
#[derive(Debug, Clone)]
pub enum VariableValue {
    /// No object.
    Null,
    /// A reference to a heap object; `entry_count` is set for collections.
    ObjectRef { id: u64, class_name: String, entry_count: Option<u64> },
}

/// One local variable of a frame.
#[derive(Debug, Clone)]
pub struct VariableInfo {
    /// Position of the variable in the frame.
    pub index: usize,
    /// Its value.
    pub value: VariableValue,
}

/// Decoded value of an object field or collection entry.
#[derive(Debug, Clone)]
pub enum FieldValue {
    Null,
    /// A reference to a heap object; `entry_count` is set for collections,
    /// `inline_value` holds the text of strings and boxed primitives.
    ObjectRef { id: u64, class_name: String, entry_count: Option<u64>, inline_value: Option<String> },
    Bool(bool),
    Char(char),
    Byte(i8),
    Short(i16),
    Int(i32),
    Long(i64),
    /// A `float` value, as its decimal text.
    Float(String),
    /// A `double` value, as its decimal text.
    Double(String),
}

/// One decoded field of an object.
#[derive(Debug, Clone)]
pub struct FieldInfo {
    /// Field name.
    pub name: String,
    /// Field value.
    pub value: FieldValue,
}

/// One entry of a collection (list element or map entry).
#[derive(Debug, Clone)]
pub struct EntryInfo {
    /// Position of the entry in the collection.
    pub index: usize,
    /// Key for map entries.
    pub key: Option<FieldValue>,
    /// Element or mapped value.
    pub value: FieldValue,
}

/// A page of collection entries.
#[derive(Debug, Clone)]
pub struct CollectionPage {
    /// Entries of the page, in order.
    pub entries: Vec<EntryInfo>,
    /// Total entry count of the collection.
    pub total_count: u64,
    /// Index of the first entry of the page.
    pub offset: usize,
    /// Whether entries follow this page.
    pub has_more: bool,
}

/// Object id of a field value when it is a reference.
pub open spec fn field_ref_id(v: FieldValue) -> Option<u64> {
    match v {
        FieldValue::ObjectRef { id, .. } => Some(id),
        _ => None,
    }
}

/// Object id of a variable when it is a reference.
pub open spec fn var_ref_id(v: VariableValue) -> Option<u64> {
    match v {
        VariableValue::ObjectRef { id, .. } => Some(id),
        _ => None,
    }
}

} // verus!
