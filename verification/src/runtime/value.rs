//! The values that cross from one language to another.

use vstd::prelude::*;

verus! {

/// A value in the form that every language bridge understands.
#[derive(Debug, PartialEq)]
pub enum Value {
    Int(i64),
    /// A floating-point number, as the bits of its IEEE 754 double.
    Float(u64),
    Str(String),
    Bool(bool),
    List(Vec<Value>),
    /// The entries of a dictionary in the order they were put in.
    Dict(Vec<(String, Value)>),
    Unit,
}

/// The mathematical value of a [`Value`].
pub enum ValueView {
    Int(int),
    Float(u64),
    Str(Seq<char>),
    Bool(bool),
    List(Seq<ValueView>),
    Dict(Seq<(Seq<char>, ValueView)>),
    Unit,
}

/// The value of a value.
pub open spec fn value_view(value: Value) -> ValueView
    decreases value,
{
    match value {
        Value::Int(n) => ValueView::Int(n as int),
        Value::Float(bits) => ValueView::Float(bits),
        Value::Str(text) => ValueView::Str(text@),
        Value::Bool(b) => ValueView::Bool(b),
        Value::List(items) => ValueView::List(
            Seq::new(
                items@.len(),
                |i: int|
                    if 0 <= i < items@.len() {
                        value_view(items@[i])
                    } else {
                        ValueView::Unit
                    },
            ),
        ),
        Value::Dict(entries) => ValueView::Dict(
            Seq::new(
                entries@.len(),
                |i: int|
                    if 0 <= i < entries@.len() {
                        (entries@[i].0@, value_view(entries@[i].1))
                    } else {
                        (Seq::empty(), ValueView::Unit)
                    },
            ),
        ),
        Value::Unit => ValueView::Unit,
    }
}

impl View for Value {
    type V = ValueView;

    open spec fn view(&self) -> ValueView {
        value_view(*self)
    }
}

/// The values of a run of values, in order.
pub open spec fn value_views(values: Seq<Value>) -> Seq<ValueView> {
    Seq::new(values.len(), |i: int| value_view(values[i]))
}

/// The values of a run of named values, in order.
pub open spec fn named_value_views(entries: Seq<(String, Value)>) -> Seq<(Seq<char>, ValueView)> {
    Seq::new(entries.len(), |i: int| (entries[i].0@, value_view(entries[i].1)))
}

/// The value of a list is the list of the values.
pub proof fn lemma_list_value(items: Vec<Value>)
    ensures
        Value::List(items)@ == ValueView::List(value_views(items@)),
{
    assert(Value::List(items)@ matches ValueView::List(a) && a =~= value_views(items@));
}

/// The value of a dictionary is the dictionary of the values.
pub proof fn lemma_dict_value(entries: Vec<(String, Value)>)
    ensures
        Value::Dict(entries)@ == ValueView::Dict(named_value_views(entries@)),
{
    assert(Value::Dict(entries)@ matches ValueView::Dict(a) && a =~= named_value_views(
        entries@,
    ));
}

impl Value {
    /// A copy that shares nothing with the value: what crosses a language
    /// boundary is always such a copy.
    pub fn deep_copy(&self) -> (copy: Value)
        ensures
            copy@ == self@,
        decreases self,
    {
        match self {
            Value::Int(n) => Value::Int(*n),
            Value::Float(bits) => Value::Float(*bits),
            Value::Str(text) => Value::Str(text.clone()),
            Value::Bool(b) => Value::Bool(*b),
            Value::List(items) => {
                let copies = copy_items(items);
                proof {
                    lemma_list_value(copies);
                    lemma_list_value(*items);
                }
                Value::List(copies)
            },
            Value::Dict(entries) => {
                let copies = copy_entries(entries);
                proof {
                    lemma_dict_value(copies);
                    lemma_dict_value(*entries);
                }
                Value::Dict(copies)
            },
            Value::Unit => Value::Unit,
        }
    }
}

/// Copies of the items of a list, in order.
fn copy_items(items: &Vec<Value>) -> (copies: Vec<Value>)
    ensures
        value_views(copies@) == value_views(items@),
    decreases items,
{
    let mut copies: Vec<Value> = Vec::new();
    let mut i: usize = 0;
    while i < items.len()
        invariant
            i <= items.len(),
            copies@.len() == i,
            forall|j: int| 0 <= j < i ==> value_view(copies@[j]) == value_view(items@[j]),
        decreases items.len() - i,
    {
        copies.push(items[i].deep_copy());
        i += 1;
    }
    assert(value_views(copies@) =~= value_views(items@));
    copies
}

/// Copies of the entries of a dictionary, in order.
fn copy_entries(entries: &Vec<(String, Value)>) -> (copies: Vec<(String, Value)>)
    ensures
        named_value_views(copies@) == named_value_views(entries@),
    decreases entries,
{
    let mut copies: Vec<(String, Value)> = Vec::new();
    let mut i: usize = 0;
    while i < entries.len()
        invariant
            i <= entries.len(),
            copies@.len() == i,
            forall|j: int|
                0 <= j < i ==> copies@[j].0@ == entries@[j].0@ && value_view(copies@[j].1)
                    == value_view(entries@[j].1),
        decreases entries.len() - i,
    {
        copies.push((entries[i].0.clone(), entries[i].1.deep_copy()));
        i += 1;
    }
    assert(named_value_views(copies@) =~= named_value_views(entries@));
    copies
}

/// Copies of a run of values, in order.
pub fn deep_copies(values: &[Value]) -> (copies: Vec<Value>)
    ensures
        value_views(copies@) == value_views(values@),
{
    let mut copies: Vec<Value> = Vec::new();
    let mut i: usize = 0;
    while i < values.len()
        invariant
            i <= values.len(),
            copies@.len() == i,
            forall|j: int| 0 <= j < i ==> value_view(copies@[j]) == value_view(values@[j]),
        decreases values.len() - i,
    {
        copies.push(values[i].deep_copy());
        i += 1;
    }
    assert(value_views(copies@) =~= value_views(values@));
    copies
}

/// Why a call across languages failed.
#[derive(Debug, Clone, PartialEq)]
pub enum BridgeError {
    /// No adapter exists for the language of this tag.
    UnregisteredLanguage(String),
    /// A value or a type has no counterpart on the other side.
    MarshalFailure(String),
    /// The other runtime raised a fault; this is its message.
    RemoteFailure(String),
    /// The call did not answer in time. Whether it took effect is not
    /// known.
    Timeout,
}

} // verus!
