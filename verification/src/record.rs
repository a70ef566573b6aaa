//! Named values: the evidence of an incident and the parameters of an audit entry.

use crate::text::{same_text, texts};
use vstd::prelude::*;

verus! {

/// One value of a record.
#[derive(Debug)]
pub enum Value {
    Text(String),
    Count(u64),
    List(Vec<String>),
}

/// What a [`Value`] holds.
#[verifier::ext_equal]
pub enum ValueView {
    Text(Seq<char>),
    Count(nat),
    List(Seq<Seq<char>>),
}

impl View for Value {
    type V = ValueView;

    open spec fn view(&self) -> ValueView {
        match self {
            Value::Text(s) => ValueView::Text(s@),
            Value::Count(n) => ValueView::Count(*n as nat),
            Value::List(list) => ValueView::List(texts(list@)),
        }
    }
}

/// A value and its name.
#[derive(Debug)]
pub struct Field {
    pub name: String,
    pub value: Value,
}

/// What a [`Field`] holds.
#[verifier::ext_equal]
pub struct FieldView {
    pub name: Seq<char>,
    pub value: ValueView,
}

impl View for Field {
    type V = FieldView;

    open spec fn view(&self) -> FieldView {
        FieldView { name: self.name@, value: self.value@ }
    }
}

/// What a list of fields holds.
pub open spec fn field_views(fields: Seq<Field>) -> Seq<FieldView> {
    fields.map_values(|f: Field| f@)
}

/// A text under a name.
pub open spec fn text_field(name: &str, text: Seq<char>) -> FieldView {
    FieldView { name: name@, value: ValueView::Text(text) }
}

/// A count under a name.
pub open spec fn count_field(name: &str, count: nat) -> FieldView {
    FieldView { name: name@, value: ValueView::Count(count) }
}

/// A list of texts under a name.
pub open spec fn list_field(name: &str, list: Seq<Seq<char>>) -> FieldView {
    FieldView { name: name@, value: ValueView::List(list) }
}

impl Field {
    /// A text under a name.
    pub fn text(name: &str, text: &str) -> (field: Field)
        ensures
            field@ == text_field(name, text@),
    {
        Field { name: name.to_owned(), value: Value::Text(text.to_owned()) }
    }

    /// A count under a name.
    pub fn count(name: &str, count: usize) -> (field: Field)
        ensures
            field@ == count_field(name, count as nat),
    {
        Field { name: name.to_owned(), value: Value::Count(count as u64) }
    }

    /// A list of texts under a name.
    pub fn list(name: &str, list: Vec<String>) -> (field: Field)
        ensures
            field@ == list_field(name, texts(list@)),
    {
        Field { name: name.to_owned(), value: Value::List(list) }
    }
}

/// `value` is the first value of `fields` that stands under `name`.
pub open spec fn first_under(fields: Seq<FieldView>, name: Seq<char>, value: ValueView) -> bool {
    exists|i: int|
        {
            &&& 0 <= i < fields.len()
            &&& #[trigger] fields[i] == (FieldView { name, value })
            &&& forall|j: int| 0 <= j < i ==> fields[j].name != name
        }
}

/// The first value under `name`.
pub fn field<'a>(fields: &'a Vec<Field>, name: &str) -> (value: Option<&'a Value>)
    ensures
        match value {
            Some(v) => first_under(field_views(fields@), name@, v@),
            None => forall|i: int|
                0 <= i < fields.len() ==> (#[trigger] field_views(fields@)[i]).name != name@,
        },
{
    let ghost views = field_views(fields@);
    for i in 0..fields.len()
        invariant
            views == field_views(fields@),
            forall|j: int| 0 <= j < i ==> (#[trigger] views[j]).name != name@,
    {
        if same_text(&fields[i].name, name) {
            assert(views[i as int] == (FieldView { name: name@, value: fields[i as int].value@ }));
            return Some(&fields[i].value);
        }
    }
    None
}

} // verus!
