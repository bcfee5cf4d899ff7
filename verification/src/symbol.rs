use crate::operator::NativeOp;
use crate::text::str_eq;
use vstd::prelude::*;

verus! {

/// The operator named by an arithmetic symbol, if any.
pub open spec fn spec_symbol_func(s: Seq<char>) -> Option<NativeOp> {
    if s == "+"@ {
        Some(NativeOp::Add)
    } else if s == "-"@ {
        Some(NativeOp::Sub)
    } else if s == "*"@ {
        Some(NativeOp::Mul)
    } else if s == "/"@ {
        Some(NativeOp::Div)
    } else {
        None
    }
}

/// Text that may name one of the four arithmetic operators, resolved to
/// the operator tag and applied through one dispatch point.
pub trait Symbol {
    /// The operator this text names, if any.
    fn get_symbol_func(&self) -> (r: Option<NativeOp>)
        ensures
            r == spec_symbol_func(self.sym_text()),
    ;

    /// The text to resolve.
    spec fn sym_text(&self) -> Seq<char>;
}

impl Symbol for String {
    open spec fn sym_text(&self) -> Seq<char> {
        self@
    }

    fn get_symbol_func(&self) -> (r: Option<NativeOp>)
        ensures
            r == spec_symbol_func(self@),
    {
        let s = self.as_str();
        if str_eq(s, "+") {
            Some(NativeOp::Add)
        } else if str_eq(s, "-") {
            Some(NativeOp::Sub)
        } else if str_eq(s, "*") {
            Some(NativeOp::Mul)
        } else if str_eq(s, "/") {
            Some(NativeOp::Div)
        } else {
            None
        }
    }
}

} // verus!
