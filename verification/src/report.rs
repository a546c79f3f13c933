//! What a decoded header shows of itself: a list of labelled values, one for
//! each line of a report. Turning a value into text is left to the caller.

use vstd::prelude::*;

verus! {

/// The value of one line.
#[derive(Debug, PartialEq, Eq)]
pub enum Value {
    /// No value: the line is a heading.
    Heading,
    /// A number to be written in hexadecimal, with at least `digits` digits.
    Hex { value: u64, digits: u8 },
    /// A number to be written in decimal.
    Number(u64),
    /// A count of bytes, to be written in decimal.
    Bytes(u64),
    /// A fixed word.
    Word(&'static str),
    /// Yes or no.
    Truth(bool),
    /// A code together with the name it stands for.
    Coded { name: &'static str, code: u32 },
    /// A flag word: the names of the flags that are set, and the word itself,
    /// to be written in hexadecimal with at least `digits` digits.
    Flagged { names: Vec<&'static str>, bits: u32, digits: u8 },
    /// A protocol version.
    Version { major: u8, minor: u8 },
    /// A string of bytes.
    Text(Vec<u8>),
    /// A list of codes.
    Codes(Vec<u32>),
}

/// The mathematical value of a [`Value`].
pub enum ValueView {
    Heading,
    Hex { value: u64, digits: u8 },
    Number(u64),
    Bytes(u64),
    Word(Seq<char>),
    Truth(bool),
    Coded { name: Seq<char>, code: u32 },
    Flagged { names: Seq<Seq<char>>, bits: u32, digits: u8 },
    Version { major: u8, minor: u8 },
    Text(Seq<u8>),
    Codes(Seq<u32>),
}

/// The characters of each of `words`, in order.
pub open spec fn word_views(words: Seq<&'static str>) -> Seq<Seq<char>> {
    Seq::new(words.len(), |i: int| words[i]@)
}

impl View for Value {
    type V = ValueView;

    open spec fn view(&self) -> ValueView {
        match *self {
            Value::Heading => ValueView::Heading,
            Value::Hex { value, digits } => ValueView::Hex { value, digits },
            Value::Number(value) => ValueView::Number(value),
            Value::Bytes(count) => ValueView::Bytes(count),
            Value::Word(word) => ValueView::Word(word@),
            Value::Truth(truth) => ValueView::Truth(truth),
            Value::Coded { name, code } => ValueView::Coded { name: name@, code },
            Value::Flagged { names, bits, digits } => ValueView::Flagged { names: word_views(names@), bits, digits },
            Value::Version { major, minor } => ValueView::Version { major, minor },
            Value::Text(text) => ValueView::Text(text@),
            Value::Codes(codes) => ValueView::Codes(codes@),
        }
    }
}

/// One line of a report: a label and a value, at a depth of nesting.
#[derive(Debug, PartialEq, Eq)]
pub struct Line {
    pub indent: u8,
    pub label: &'static str,
    pub value: Value,
}

/// The mathematical value of a [`Line`].
pub struct LineView {
    pub indent: u8,
    pub label: Seq<char>,
    pub value: ValueView,
}

impl View for Line {
    type V = LineView;

    open spec fn view(&self) -> LineView {
        LineView { indent: self.indent, label: self.label@, value: self.value@ }
    }
}

/// The values of a sequence of lines, in order.
pub open spec fn line_views(lines: Seq<Line>) -> Seq<LineView> {
    Seq::new(lines.len(), |i: int| lines[i]@)
}

/// The line with label `label` and value `value` at depth `indent`.
pub open spec fn line(indent: u8, label: &'static str, value: ValueView) -> LineView {
    LineView { indent, label: label@, value }
}

/// Appends a line to `lines`.
pub(crate) fn put(lines: &mut Vec<Line>, indent: u8, label: &'static str, value: Value)
    ensures
        line_views(final(lines)@) == line_views(old(lines)@).push(line(indent, label, value@)),
{
    lines.push(Line { indent, label, value });
    assert(line_views(lines@) =~= line_views(old(lines)@).push(line(indent, label, value@)));
}

/// The value of an optional line, where there is one.
pub open spec fn some_view(value: Option<Value>) -> Option<ValueView> {
    match value {
        Some(value) => Some(value@),
        None => None,
    }
}

/// The line with label `label` at depth 1 if there is a value, and no line
/// if there is none.
pub open spec fn optional(label: &'static str, value: Option<ValueView>) -> Seq<LineView> {
    match value {
        Some(value) => seq![line(1, label, value)],
        None => seq![],
    }
}

/// Appends a line to `lines` if there is a value for it.
pub(crate) fn put_optional(lines: &mut Vec<Line>, label: &'static str, value: Option<Value>)
    ensures
        line_views(final(lines)@) == line_views(old(lines)@) + optional(label, some_view(value)),
{
    match value {
        Some(value) => {
            put(lines, 1, label, value);
            assert(line_views(lines@) =~= line_views(old(lines)@) + optional(label, Some(value@)));
        },
        None => {
            assert(line_views(lines@) =~= line_views(old(lines)@) + optional(label, None));
        },
    }
}

/// An optional 32-bit field as a hexadecimal value.
pub open spec fn hex_view(field: Option<u32>) -> Option<ValueView> {
    match field {
        Some(value) => Some(ValueView::Hex { value: value as u64, digits: 1 }),
        None => None,
    }
}

/// An optional 32-bit field as a count of bytes.
pub open spec fn bytes_view(field: Option<u32>) -> Option<ValueView> {
    match field {
        Some(count) => Some(ValueView::Bytes(count as u64)),
        None => None,
    }
}

/// An optional 32-bit field as a hexadecimal value.
pub(crate) fn hex_value(field: Option<u32>) -> (value: Option<Value>)
    ensures
        some_view(value) == hex_view(field),
{
    match field {
        Some(value) => Some(Value::Hex { value: value as u64, digits: 1 }),
        None => None,
    }
}

/// An optional 32-bit field as a count of bytes.
pub(crate) fn byte_count(field: Option<u32>) -> (value: Option<Value>)
    ensures
        some_view(value) == bytes_view(field),
{
    match field {
        Some(count) => Some(Value::Bytes(count as u64)),
        None => None,
    }
}

} // verus!
