use vstd::prelude::*;

verus! {

/// A VM value. Numbers are held as the IEEE-754 bit pattern of the double,
/// so that the marshaling layer moves them bit for bit.
#[derive(Debug, Clone, PartialEq)]
pub enum Value {
    Num(u64),
    Str(String),
    Bool(bool),
    Sym(String),
    Nil,
}

/// The mathematical content of a [`Value`]: strings as character sequences.
pub enum ValueView {
    Num(u64),
    Str(Seq<char>),
    Bool(bool),
    Sym(Seq<char>),
    Nil,
}

impl View for Value {
    type V = ValueView;

    open spec fn view(&self) -> ValueView {
        match self {
            Value::Num(b) => ValueView::Num(*b),
            Value::Str(s) => ValueView::Str(s@),
            Value::Bool(b) => ValueView::Bool(*b),
            Value::Sym(s) => ValueView::Sym(s@),
            Value::Nil => ValueView::Nil,
        }
    }
}

impl Value {
    /// A copy of this value with the same content.
    pub fn duplicate(&self) -> (r: Value)
        ensures
            r@ == self@,
    {
        match self {
            Value::Num(b) => Value::Num(*b),
            Value::Str(s) => Value::Str(s.clone()),
            Value::Bool(b) => Value::Bool(*b),
            Value::Sym(s) => Value::Sym(s.clone()),
            Value::Nil => Value::Nil,
        }
    }
}

/// Builds a number value from the bit pattern of a double.
pub fn num(bits: u64) -> (r: Value)
    ensures
        r@ == ValueView::Num(bits),
{
    Value::Num(bits)
}

/// The empty value.
pub fn nil() -> (r: Value)
    ensures
        r@ == ValueView::Nil,
{
    Value::Nil
}

} // verus!
