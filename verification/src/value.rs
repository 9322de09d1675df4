//! Runtime values.

use vstd::prelude::*;
use vstd::string::StringExecFns;
use crate::function::{FunctionModel, LoxFunction};
use crate::native::NativeFunction;
use crate::number::{equal, numbers_equal, numeral_of_whole, whole_numeral};

verus! {

/// A value of the language. A number is held as the bit pattern of an
/// IEEE-754 double.
#[derive(Debug)]
pub enum Value {
    Number(u64),
    String(String),
    Boolean(bool),
    Nil,
    Function(LoxFunction),
    NativeFunction(NativeFunction),
}

/// The mathematical value of a [`Value`].
pub enum ValueModel {
    Number(u64),
    String(Seq<char>),
    Boolean(bool),
    Nil,
    Function(FunctionModel),
    NativeFunction(NativeFunction),
}

impl View for Value {
    type V = ValueModel;

    open spec fn view(&self) -> ValueModel {
        match self {
            Value::Number(n) => ValueModel::Number(*n),
            Value::String(s) => ValueModel::String(s@),
            Value::Boolean(b) => ValueModel::Boolean(*b),
            Value::Nil => ValueModel::Nil,
            Value::Function(f) => ValueModel::Function(f@),
            Value::NativeFunction(f) => ValueModel::NativeFunction(*f),
        }
    }
}

/// The views of a sequence of values, in order.
pub open spec fn values_view(values: Seq<Value>) -> Seq<ValueModel> {
    values.map_values(|v: Value| v@)
}

impl ValueModel {
    /// Only `nil` and `false` are falsy.
    pub open spec fn is_truthy(self) -> bool {
        match self {
            ValueModel::Nil => false,
            ValueModel::Boolean(b) => b,
            _ => true,
        }
    }

    /// Equality of the language: values of different kinds are never
    /// equal; numbers are compared as numbers, strings by their
    /// characters, functions by their names.
    pub open spec fn is_equal(self, other: ValueModel) -> bool {
        match (self, other) {
            (ValueModel::Nil, ValueModel::Nil) => true,
            (ValueModel::Number(a), ValueModel::Number(b)) => equal(a, b),
            (ValueModel::String(a), ValueModel::String(b)) => a == b,
            (ValueModel::Boolean(a), ValueModel::Boolean(b)) => a == b,
            (ValueModel::Function(a), ValueModel::Function(b)) => a.declaration.name.lexeme
                == b.declaration.name.lexeme,
            (ValueModel::NativeFunction(a), ValueModel::NativeFunction(b)) => a.spec_name()
                == b.spec_name(),
            _ => false,
        }
    }

    /// How the value is shown: a whole number of a magnitude below 2^63
    /// with its own digits and no decimal point; the characters of a
    /// string; `true`, `false`, `nil`, `<fn NAME>`, `<native fn NAME>`.
    /// `None` for any other number: its numeral is not made here.
    pub open spec fn display(self) -> Option<Seq<char>> {
        match self {
            ValueModel::Number(n) => whole_numeral(n),
            ValueModel::String(s) => Some(s),
            ValueModel::Boolean(b) => Some(
                if b {
                    "true"@
                } else {
                    "false"@
                },
            ),
            ValueModel::Nil => Some("nil"@),
            ValueModel::Function(f) => Some("<fn "@ + f.declaration.name.lexeme + ">"@),
            ValueModel::NativeFunction(f) => Some("<native fn "@ + f.spec_name() + ">"@),
        }
    }
}

impl Value {
    /// Whether the value counts as true.
    pub fn is_truthy(&self) -> (r: bool)
        ensures
            r == self@.is_truthy(),
    {
        match self {
            Value::Nil => false,
            Value::Boolean(b) => *b,
            _ => true,
        }
    }

    /// Whether two values are equal to the language.
    pub fn is_equal(&self, other: &Value) -> (r: bool)
        ensures
            r == self@.is_equal(other@),
    {
        match (self, other) {
            (Value::Nil, Value::Nil) => true,
            (Value::Number(a), Value::Number(b)) => numbers_equal(*a, *b),
            (Value::String(a), Value::String(b)) => *a == *b,
            (Value::Boolean(a), Value::Boolean(b)) => *a == *b,
            (Value::Function(a), Value::Function(b)) => a.same_name(b),
            (Value::NativeFunction(a), Value::NativeFunction(b)) => {
                match (a, b) {
                    (NativeFunction::Clock, NativeFunction::Clock) => true,
                }
            },
            _ => false,
        }
    }

    /// How the value is shown, unless it is a number with a fraction, a
    /// number of a magnitude of 2^63 or more, or a NaN: the numeral of
    /// such a number is not made here.
    pub fn display(&self) -> (r: Option<String>)
        ensures
            match r {
                Some(text) => self@.display() == Some(text@),
                None => self@.display() is None,
            },
    {
        match self {
            Value::Number(n) => numeral_of_whole(*n),
            Value::String(s) => Some(s.clone()),
            Value::Boolean(b) => Some(
                if *b {
                    String::from_str("true")
                } else {
                    String::from_str("false")
                },
            ),
            Value::Nil => Some(String::from_str("nil")),
            Value::Function(f) => {
                let mut text = String::from_str("<fn ");
                text.append(f.name());
                text.append(">");
                Some(text)
            },
            Value::NativeFunction(f) => {
                let mut text = String::from_str("<native fn ");
                text.append(f.name());
                text.append(">");
                Some(text)
            },
        }
    }
}

impl Clone for Value {
    fn clone(&self) -> (r: Self)
        ensures
            r@ == self@,
    {
        match self {
            Value::Number(n) => Value::Number(*n),
            Value::String(s) => Value::String(s.clone()),
            Value::Boolean(b) => Value::Boolean(*b),
            Value::Nil => Value::Nil,
            Value::Function(f) => Value::Function(f.clone()),
            Value::NativeFunction(f) => Value::NativeFunction(*f),
        }
    }
}

/// Appending a value appends its view.
pub proof fn lemma_values_view_push(list: Seq<Value>, last: Value)
    ensures
        values_view(list.push(last)) == values_view(list).push(last@),
{
    assert(values_view(list.push(last)) =~= values_view(list).push(last@));
}

} // verus!
