//! The tagged value held by one spreadsheet cell.

use vstd::prelude::*;

verus! {

/// Mathematical model of one cell: text, a number (kept as its decimal
/// rendering), or an empty cell.
pub enum ValueView {
    Text(Seq<char>),
    Number(Seq<char>),
    Empty,
}

impl ValueView {
    /// The printable representation of a cell: text as-is, numbers in their
    /// decimal rendering, empty cells as the empty string.
    pub open spec fn to_text(self) -> Seq<char> {
        match self {
            ValueView::Text(s) => s,
            ValueView::Number(r) => r,
            ValueView::Empty => Seq::empty(),
        }
    }
}

/// One spreadsheet cell. A numeric cell carries the decimal rendering of its
/// number, so that the whole engine works on plain character data; whoever
/// ingests a table renders each numeric cell once, up front.
#[derive(Debug)]
pub enum Value {
    Text(String),
    Number(String),
    Empty,
}

impl View for Value {
    type V = ValueView;

    open spec fn view(&self) -> ValueView {
        match self {
            Value::Text(s) => ValueView::Text(s@),
            Value::Number(r) => ValueView::Number(r@),
            Value::Empty => ValueView::Empty,
        }
    }
}

impl DeepView for Value {
    type V = ValueView;

    open spec fn deep_view(&self) -> ValueView {
        self.view()
    }
}

impl Value {
    /// The printable representation of this cell.
    pub fn to_string(&self) -> (r: String)
        ensures
            r@ == self@.to_text(),
    {
        match self {
            Value::Text(s) => s.clone(),
            Value::Number(r) => r.clone(),
            Value::Empty => String::new(),
        }
    }
}

impl Clone for Value {
    fn clone(&self) -> (r: Self)
        ensures
            r@ == self@,
    {
        match self {
            Value::Text(s) => Value::Text(s.clone()),
            Value::Number(r) => Value::Number(r.clone()),
            Value::Empty => Value::Empty,
        }
    }
}

} // verus!
