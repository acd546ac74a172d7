//! The generic wire-level value and the stored record.

use vstd::prelude::*;

verus! {

broadcast use vstd::std_specs::vec::group_vec_axioms, vstd::seq::group_seq_axioms;

/// A value of the wire protocol: what the decoder produces and what the
/// encoder serializes back to the client.
#[derive(Debug, PartialEq)]
pub enum DataType {
    Nil,
    SimpleString(String),
    BulkString(String),
    Array(Vec<DataType>),
    Error(String),
}

/// The mathematical shape of a [`DataType`]: strings become sequences of
/// characters, arrays become sequences of values.
pub enum DataV {
    Nil,
    SimpleString(Seq<char>),
    BulkString(Seq<char>),
    Array(Seq<DataV>),
    Error(Seq<char>),
}

pub open spec fn data_view(d: DataType) -> DataV
    decreases d,
{
    match d {
        DataType::Nil => DataV::Nil,
        DataType::SimpleString(s) => DataV::SimpleString(s@),
        DataType::BulkString(s) => DataV::BulkString(s@),
        DataType::Array(items) => DataV::Array(
            Seq::new(
                items@.len(),
                |i: int|
                    if 0 <= i < items@.len() {
                        data_view(items@[i])
                    } else {
                        DataV::Nil
                    },
            ),
        ),
        DataType::Error(s) => DataV::Error(s@),
    }
}

impl View for DataType {
    type V = DataV;

    open spec fn view(&self) -> DataV {
        data_view(*self)
    }
}

/// A value and its shape are built by matching constructors.
pub proof fn lemma_data_view_shape(d: DataType)
    ensures
        (d is Nil <==> data_view(d) is Nil),
        (d is SimpleString <==> data_view(d) is SimpleString),
        (d is BulkString <==> data_view(d) is BulkString),
        (d is Array <==> data_view(d) is Array),
        (d is Error <==> data_view(d) is Error),
{
    match d {
        DataType::Nil => {},
        DataType::SimpleString(_) => {},
        DataType::BulkString(_) => {},
        DataType::Array(_) => {},
        DataType::Error(_) => {},
    }
}

/// The shapes of a sequence of values, element for element.
pub open spec fn views_of(s: Seq<DataType>) -> Seq<DataV> {
    Seq::new(s.len(), |i: int| data_view(s[i]))
}

/// The payload of a stored record.  Only strings are stored today; the
/// enum leaves room for further kinds.
#[derive(Debug, PartialEq)]
pub enum StorageValue {
    String(String),
}

/// Mathematical shape of a [`StorageValue`].
pub enum ValueV {
    String(Seq<char>),
}

/// The text a stored value holds.
pub open spec fn text_of(v: ValueV) -> Seq<char> {
    match v {
        ValueV::String(s) => s,
    }
}

impl View for StorageValue {
    type V = ValueV;

    open spec fn view(&self) -> ValueV {
        match self {
            StorageValue::String(s) => ValueV::String(s@),
        }
    }
}

/// One stored record: a value and an optional absolute expiration time in
/// milliseconds since the epoch.  The expiration is stored but never
/// enforced: no read or write consults it.
#[derive(Debug, PartialEq)]
pub struct StorageRecord {
    pub value: StorageValue,
    pub ttl: Option<u128>,
}

/// Mathematical shape of a [`StorageRecord`].
pub struct RecordV {
    pub value: ValueV,
    pub ttl: Option<u128>,
}

impl View for StorageRecord {
    type V = RecordV;

    open spec fn view(&self) -> RecordV {
        RecordV { value: self.value@, ttl: self.ttl }
    }
}

} // verus!
