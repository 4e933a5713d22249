//! Header tables and arrays of AMQP, as `lapin` holds them.

use lapin::types::{AMQPValue, FieldArray, FieldTable};
use vstd::prelude::*;

verus! {

/// The table type of `lapin`: names with AMQP values.
#[verifier::external_type_specification]
#[verifier::external_body]
pub struct ExFieldTable(FieldTable);

/// The array type of `lapin`: a list of AMQP values.
#[verifier::external_type_specification]
#[verifier::external_body]
pub struct ExFieldArray(FieldArray);

/// The model of an AMQP value. A text is what the value displays as. The kinds of value
/// that no message header has are not told apart.
pub enum FieldView {
    ShortShortInt(i8),
    ShortShortUInt(u8),
    ShortInt(i16),
    ShortUInt(u16),
    LongInt(i32),
    LongUInt(u32),
    LongLongInt(i64),
    ShortString(Seq<char>),
    LongString(Seq<char>),
    FieldArray(Seq<FieldView>),
    Void,
    Other,
}

/// What a table holds.
pub uninterp spec fn table_entries(table: FieldTable) -> Map<Seq<char>, FieldView>;

/// What an array holds.
pub uninterp spec fn array_items(array: FieldArray) -> Seq<FieldView>;

/// A value found in a table or an array.
#[derive(Debug)]
pub enum FieldValue {
    ShortShortInt(i8),
    ShortShortUInt(u8),
    ShortInt(i16),
    ShortUInt(u16),
    LongInt(i32),
    LongUInt(u32),
    LongLongInt(i64),
    ShortString(String),
    LongString(String),
    FieldArray(FieldArray),
    Void,
    Other,
}

impl View for FieldValue {
    type V = FieldView;

    open spec fn view(&self) -> FieldView {
        match self {
            FieldValue::ShortShortInt(n) => FieldView::ShortShortInt(*n),
            FieldValue::ShortShortUInt(n) => FieldView::ShortShortUInt(*n),
            FieldValue::ShortInt(n) => FieldView::ShortInt(*n),
            FieldValue::ShortUInt(n) => FieldView::ShortUInt(*n),
            FieldValue::LongInt(n) => FieldView::LongInt(*n),
            FieldValue::LongUInt(n) => FieldView::LongUInt(*n),
            FieldValue::LongLongInt(n) => FieldView::LongLongInt(*n),
            FieldValue::ShortString(s) => FieldView::ShortString(s@),
            FieldValue::LongString(s) => FieldView::LongString(s@),
            FieldValue::FieldArray(a) => FieldView::FieldArray(array_items(*a)),
            FieldValue::Void => FieldView::Void,
            FieldValue::Other => FieldView::Other,
        }
    }
}

/// A value to put in a table or an array.
#[derive(Debug)]
pub enum NewValue {
    LongUInt(u32),
    LongString(String),
    FieldArray(FieldArray),
    Void,
}

impl View for NewValue {
    type V = FieldView;

    open spec fn view(&self) -> FieldView {
        match self {
            NewValue::LongUInt(n) => FieldView::LongUInt(*n),
            NewValue::LongString(s) => FieldView::LongString(s@),
            NewValue::FieldArray(a) => FieldView::FieldArray(array_items(*a)),
            NewValue::Void => FieldView::Void,
        }
    }
}

/// The model of an optional value.
pub open spec fn opt_field(value: Option<FieldValue>) -> Option<FieldView> {
    match value {
        Some(v) => Some(v@),
        None => None,
    }
}

/// What an empty table holds.
pub open spec fn no_entries() -> Map<Seq<char>, FieldView> {
    Map::empty()
}

/// The entry of a table under a name.
pub open spec fn entry(entries: Map<Seq<char>, FieldView>, name: Seq<char>) -> Option<FieldView> {
    if entries.contains_key(name) {
        Some(entries[name])
    } else {
        None
    }
}

/// Calls `FieldTable::default`.
///
/// Trusted: the table is empty.
#[verifier::external_body]
pub(crate) fn new_table() -> (r: FieldTable)
    ensures
        table_entries(r) == no_entries(),
{
    FieldTable::default()
}

/// Calls `FieldTable::insert`.
///
/// Trusted: the value stands under the name afterwards, in place of an earlier one, and
/// nothing else changes.
#[verifier::external_body]
pub(crate) fn table_insert(table: &mut FieldTable, name: &str, value: NewValue)
    ensures
        table_entries(*final(table)) == table_entries(*old(table)).insert(name@, value@),
{
    let value = match value {
        NewValue::LongUInt(n) => AMQPValue::LongUInt(n),
        NewValue::LongString(s) => AMQPValue::LongString(s.into()),
        NewValue::FieldArray(a) => AMQPValue::FieldArray(a),
        NewValue::Void => AMQPValue::Void,
    };
    table.insert(name.into(), value);
}

/// Looks a name up in the map that `FieldTable::inner` gives.
///
/// Trusted: the value that stands under the name, or nothing where none does.
#[verifier::external_body]
pub(crate) fn table_get(table: &FieldTable, name: &str) -> (r: Option<FieldValue>)
    ensures
        opt_field(r) == entry(table_entries(*table), name@),
{
    table.inner().get(name).map(|value| match value {
        AMQPValue::ShortShortInt(n) => FieldValue::ShortShortInt(*n),
        AMQPValue::ShortShortUInt(n) => FieldValue::ShortShortUInt(*n),
        AMQPValue::ShortInt(n) => FieldValue::ShortInt(*n),
        AMQPValue::ShortUInt(n) => FieldValue::ShortUInt(*n),
        AMQPValue::LongInt(n) => FieldValue::LongInt(*n),
        AMQPValue::LongUInt(n) => FieldValue::LongUInt(*n),
        AMQPValue::LongLongInt(n) => FieldValue::LongLongInt(*n),
        AMQPValue::ShortString(s) => FieldValue::ShortString(s.to_string()),
        AMQPValue::LongString(s) => FieldValue::LongString(s.to_string()),
        AMQPValue::FieldArray(a) => FieldValue::FieldArray(a.clone()),
        AMQPValue::Void => FieldValue::Void,
        _ => FieldValue::Other,
    })
}

/// Calls `FieldArray::default`.
///
/// Trusted: the array is empty.
#[verifier::external_body]
pub(crate) fn new_array() -> (r: FieldArray)
    ensures
        array_items(r) == Seq::<FieldView>::empty(),
{
    FieldArray::default()
}

/// Calls `FieldArray::push`.
///
/// Trusted: the value is the last one afterwards, and nothing else changes.
#[verifier::external_body]
pub(crate) fn array_push(array: &mut FieldArray, value: NewValue)
    ensures
        array_items(*final(array)) == array_items(*old(array)).push(value@),
{
    let value = match value {
        NewValue::LongUInt(n) => AMQPValue::LongUInt(n),
        NewValue::LongString(s) => AMQPValue::LongString(s.into()),
        NewValue::FieldArray(a) => AMQPValue::FieldArray(a),
        NewValue::Void => AMQPValue::Void,
    };
    array.push(value);
}

/// Takes a value of the slice that `FieldArray::as_slice` gives.
///
/// Trusted: the value at the index, or nothing where the array is not that long.
#[verifier::external_body]
pub(crate) fn array_get(array: &FieldArray, index: usize) -> (r: Option<FieldValue>)
    ensures
        opt_field(r) == (if index < array_items(*array).len() {
            Some(array_items(*array)[index as int])
        } else {
            None
        }),
{
    array.as_slice().get(index).map(|value| match value {
        AMQPValue::ShortShortInt(n) => FieldValue::ShortShortInt(*n),
        AMQPValue::ShortShortUInt(n) => FieldValue::ShortShortUInt(*n),
        AMQPValue::ShortInt(n) => FieldValue::ShortInt(*n),
        AMQPValue::ShortUInt(n) => FieldValue::ShortUInt(*n),
        AMQPValue::LongInt(n) => FieldValue::LongInt(*n),
        AMQPValue::LongUInt(n) => FieldValue::LongUInt(*n),
        AMQPValue::LongLongInt(n) => FieldValue::LongLongInt(*n),
        AMQPValue::ShortString(s) => FieldValue::ShortString(s.to_string()),
        AMQPValue::LongString(s) => FieldValue::LongString(s.to_string()),
        AMQPValue::FieldArray(a) => FieldValue::FieldArray(a.clone()),
        AMQPValue::Void => FieldValue::Void,
        _ => FieldValue::Other,
    })
}

} // verus!
