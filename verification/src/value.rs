//! Values that can be bound to the markers of a statement.

use vstd::prelude::*;

verus! {

/// A value for a bind marker.
#[derive(Clone, Debug)]
pub enum Value {
    /// No value: the column is set to null.
    Null,
    /// The marker is left unset: the column keeps what it holds.
    Unset,
    Boolean(bool),
    TinyInt(i8),
    SmallInt(i16),
    Int(i32),
    BigInt(i64),
    Text(String),
    Blob(Vec<u8>),
}

/// What a [`Value`] stands for.
pub enum ValueView {
    Null,
    Unset,
    Boolean(bool),
    TinyInt(i8),
    SmallInt(i16),
    Int(i32),
    BigInt(i64),
    Text(Seq<char>),
    Blob(Seq<u8>),
}

impl View for Value {
    type V = ValueView;

    open spec fn view(&self) -> ValueView {
        match self {
            Value::Null => ValueView::Null,
            Value::Unset => ValueView::Unset,
            Value::Boolean(b) => ValueView::Boolean(*b),
            Value::TinyInt(i) => ValueView::TinyInt(*i),
            Value::SmallInt(i) => ValueView::SmallInt(*i),
            Value::Int(i) => ValueView::Int(*i),
            Value::BigInt(i) => ValueView::BigInt(*i),
            Value::Text(s) => ValueView::Text(s@),
            Value::Blob(b) => ValueView::Blob(b@),
        }
    }
}

/// What each value of a row stands for, in order.
pub open spec fn value_views(values: Seq<Value>) -> Seq<ValueView> {
    Seq::new(values.len(), |i: int| values[i]@)
}

} // verus!
