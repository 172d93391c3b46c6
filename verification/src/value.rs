//! The values that programs compute with.

use core::cmp::Ordering;
use vstd::prelude::*;
use vstd::std_specs::cmp::PartialEqSpecImpl;
use vstd::std_specs::cmp::PartialOrdSpecImpl;
use vstd::string::StringExecFns;
use vstd::string::StringSliceAdditionalSpecFns;
use vstd::utf8::encode_utf8;
use crate::helpers::{bytes_less, lex_less};
use crate::number::{equal_bits, is_nan, less_bits, nan_bits, number_eq, number_lt};

verus! {

/// The kinds of value.
#[derive(Copy, Clone, Debug, Eq, PartialEq, Structural, Ord, PartialOrd)]
pub enum ValueKind {
    Nil,
    Bool,
    Number,
    String,
    Function,
}

/// A value: nil, a truth value, a number held by its IEEE-754 binary64 bit
/// pattern, or a text.
#[derive(Debug)]
pub enum ValueRepr {
    Nil(),
    Boolean(bool),
    Number(u64),
    String(String),
}

#[derive(Debug)]
pub struct Value(pub ValueRepr);

/// What a value is, with a text as its sequence of characters.
pub enum ValueView {
    Nil,
    Boolean(bool),
    Number(u64),
    Text(Seq<char>),
}

impl View for ValueRepr {
    type V = ValueView;

    open spec fn view(&self) -> ValueView {
        match self {
            ValueRepr::Nil() => ValueView::Nil,
            ValueRepr::Boolean(b) => ValueView::Boolean(*b),
            ValueRepr::Number(n) => ValueView::Number(*n),
            ValueRepr::String(s) => ValueView::Text(s@),
        }
    }
}

impl View for Value {
    type V = ValueView;

    open spec fn view(&self) -> ValueView {
        self.0@
    }
}

/// The views of a sequence of values.
pub open spec fn views(values: Seq<Value>) -> Seq<ValueView> {
    values.map_values(|v: Value| v@)
}

/// The kind of a value.
pub open spec fn kind_of(v: ValueView) -> ValueKind {
    match v {
        ValueView::Nil => ValueKind::Nil,
        ValueView::Boolean(_) => ValueKind::Bool,
        ValueView::Number(_) => ValueKind::Number,
        ValueView::Text(_) => ValueKind::String,
    }
}

/// Nil and false are falsey; every other value is truthy.
pub open spec fn falsey(v: ValueView) -> bool {
    match v {
        ValueView::Nil => true,
        ValueView::Boolean(b) => !b,
        _ => false,
    }
}

/// Equality of values: the kinds must match; numbers are compared as
/// IEEE-754 does and texts by their content.
pub open spec fn values_equal(a: ValueView, b: ValueView) -> bool {
    match (a, b) {
        (ValueView::Number(l), ValueView::Number(r)) => number_eq(l, r),
        (ValueView::Boolean(l), ValueView::Boolean(r)) => l == r,
        (ValueView::Nil, ValueView::Nil) => true,
        (ValueView::Text(l), ValueView::Text(r)) => l == r,
        _ => false,
    }
}

/// Whether an order is defined between the two values: between two numbers
/// and between two texts.
pub open spec fn orderable(a: ValueView, b: ValueView) -> bool {
    match (a, b) {
        (ValueView::Number(_), ValueView::Number(_)) => true,
        (ValueView::Text(_), ValueView::Text(_)) => true,
        _ => false,
    }
}

/// Texts are ordered as their UTF-8 encodings are, byte by byte.
pub open spec fn text_less(a: Seq<char>, b: Seq<char>) -> bool {
    lex_less(encode_utf8(a), encode_utf8(b))
}

/// The order of two values: that of IEEE-754 between two numbers (none
/// where one is a NaN), that of the encodings between two texts, and none
/// between values of other kinds.
pub open spec fn values_order(a: ValueView, b: ValueView) -> Option<Ordering> {
    match (a, b) {
        (ValueView::Number(l), ValueView::Number(r)) => {
            if number_lt(l, r) {
                Some(Ordering::Less)
            } else if number_lt(r, l) {
                Some(Ordering::Greater)
            } else if is_nan(l) || is_nan(r) {
                None
            } else {
                Some(Ordering::Equal)
            }
        },
        (ValueView::Text(l), ValueView::Text(r)) => {
            if text_less(l, r) {
                Some(Ordering::Less)
            } else if text_less(r, l) {
                Some(Ordering::Greater)
            } else {
                Some(Ordering::Equal)
            }
        },
        _ => None,
    }
}

/// The text that printing shows for a value that is no number.
pub open spec fn printed(v: ValueView) -> Seq<char> {
    match v {
        ValueView::Nil => "nil"@,
        ValueView::Boolean(b) => if b {
            "true"@
        } else {
            "false"@
        },
        ValueView::Text(s) => s,
        ValueView::Number(_) => Seq::empty(),
    }
}

/// Whether the first value comes before the second.
pub open spec fn value_less(a: ValueView, b: ValueView) -> bool {
    values_order(a, b) == Some(Ordering::Less)
}

/// Whether the first value comes after the second.
pub open spec fn value_greater(a: ValueView, b: ValueView) -> bool {
    values_order(a, b) == Some(Ordering::Greater)
}

impl Clone for ValueRepr {
    fn clone(&self) -> (r: Self)
        ensures
            r == *self,
    {
        match self {
            ValueRepr::Nil() => ValueRepr::Nil(),
            ValueRepr::Boolean(b) => ValueRepr::Boolean(*b),
            ValueRepr::Number(n) => ValueRepr::Number(*n),
            ValueRepr::String(s) => ValueRepr::String(s.clone()),
        }
    }
}

impl Clone for Value {
    fn clone(&self) -> (r: Self)
        ensures
            r == *self,
    {
        Value(self.0.clone())
    }
}

impl PartialEq for Value {
    fn eq(&self, other: &Self) -> (r: bool) {
        match (&self.0, &other.0) {
            (ValueRepr::Number(l), ValueRepr::Number(r)) => equal_bits(*l, *r),
            (ValueRepr::Boolean(l), ValueRepr::Boolean(r)) => *l == *r,
            (ValueRepr::Nil(), ValueRepr::Nil()) => true,
            (ValueRepr::String(l), ValueRepr::String(r)) => *l == *r,
            _ => false,
        }
    }
}

impl PartialEqSpecImpl for Value {
    open spec fn obeys_eq_spec() -> bool {
        true
    }

    open spec fn eq_spec(&self, other: &Value) -> bool {
        values_equal(self@, other@)
    }
}

impl PartialOrd for Value {
    fn partial_cmp(&self, other: &Self) -> (r: Option<Ordering>) {
        match (&self.0, &other.0) {
            (ValueRepr::Number(l), ValueRepr::Number(r)) => {
                if less_bits(*l, *r) {
                    Some(Ordering::Less)
                } else if less_bits(*r, *l) {
                    Some(Ordering::Greater)
                } else if nan_bits(*l) || nan_bits(*r) {
                    None
                } else {
                    Some(Ordering::Equal)
                }
            },
            (ValueRepr::String(l), ValueRepr::String(r)) => {
                let lb = l.as_str().as_bytes();
                let rb = r.as_str().as_bytes();
                if bytes_less(lb, rb) {
                    Some(Ordering::Less)
                } else if bytes_less(rb, lb) {
                    Some(Ordering::Greater)
                } else {
                    Some(Ordering::Equal)
                }
            },
            _ => None,
        }
    }
}

impl PartialOrdSpecImpl for Value {
    open spec fn obeys_partial_cmp_spec() -> bool {
        true
    }

    open spec fn partial_cmp_spec(&self, other: &Value) -> Option<Ordering> {
        values_order(self@, other@)
    }
}

impl ValueRepr {
    pub fn kind(&self) -> (k: ValueKind)
        ensures
            k == kind_of(self@),
    {
        match &self {
            ValueRepr::Boolean(_) => ValueKind::Bool,
            ValueRepr::Number(_) => ValueKind::Number,
            ValueRepr::String(_) => ValueKind::String,
            ValueRepr::Nil() => ValueKind::Nil,
        }
    }
}

impl Default for ValueRepr {
    fn default() -> (r: ValueRepr)
        ensures
            r@ == ValueView::Nil,
    {
        ValueRepr::Nil()
    }
}

impl Value {
    /// The nil value.
    pub fn new() -> (v: Self)
        ensures
            v@ == ValueView::Nil,
    {
        Value(ValueRepr::Nil())
    }

    /// The text that printing shows for the value: `nil`, `true` or
    /// `false`, and a text as it is. A number has none here: its rendering
    /// is left to the host.
    pub fn to_text(&self) -> (r: Option<String>)
        ensures
            r is Some <==> !(self@ is Number),
            r is Some ==> r->0@ == printed(self@),
    {
        match &self.0 {
            ValueRepr::Nil() => Some(String::from_str("nil")),
            ValueRepr::Boolean(b) => Some(
                if *b {
                    String::from_str("true")
                } else {
                    String::from_str("false")
                },
            ),
            ValueRepr::Number(_) => None,
            ValueRepr::String(s) => Some(s.clone()),
        }
    }

    /// Whether the value counts as false in a condition.
    pub fn is_falsey(&self) -> (r: bool)
        ensures
            r == falsey(self@),
    {
        match self.0 {
            ValueRepr::Nil() => true,
            ValueRepr::Boolean(v) => !v,
            _ => false,
        }
    }

    /// Whether this value comes before the other.
    pub fn less(&self, other: &Value) -> (r: bool)
        ensures
            r == value_less(self@, other@),
    {
        *self < *other
    }

    /// Whether this value comes after the other.
    pub fn greater(&self, other: &Value) -> (r: bool)
        ensures
            r == value_greater(self@, other@),
    {
        *self > *other
    }

    /// Whether an order is defined between this value and the other.
    pub fn orderable_with(&self, other: &Value) -> (r: bool)
        ensures
            r == orderable(self@, other@),
    {
        match (&self.0, &other.0) {
            (ValueRepr::Number(_), ValueRepr::Number(_)) => true,
            (ValueRepr::String(_), ValueRepr::String(_)) => true,
            _ => false,
        }
    }
}

} // verus!
