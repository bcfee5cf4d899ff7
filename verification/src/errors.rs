use vstd::prelude::*;

verus! {

/// A structured evaluation or reading error.
#[derive(Debug)]
pub enum LispError {
    /// A symbol had to resolve through the environment chain and did not.
    SymbolNotFound(String),
    /// A function was called with the wrong number of arguments:
    /// expected count, then received count.
    ArityMismatch(usize, usize),
    /// An operand or argument had the wrong kind; the text names the
    /// operation that rejected it.
    TypeMismatch(String),
    /// A special form was written with the wrong shape: form name, reason.
    MalformedSpecialForm(String, String),
    /// Division by zero.
    DivisionError,
    /// The reader ran out of tokens or met a stray closing token.
    ReaderError(String),
    /// The evaluation step budget ran out; guards the interpreter
    /// against unbounded recursion through the environment.
    DepthExceeded,
}

/// The mathematical model of an error.
pub enum ErrVal {
    SymbolNotFound(Seq<char>),
    ArityMismatch(int, int),
    TypeMismatch(Seq<char>),
    MalformedSpecialForm(Seq<char>, Seq<char>),
    DivisionError,
    ReaderError(Seq<char>),
    DepthExceeded,
}

impl View for LispError {
    type V = ErrVal;

    open spec fn view(&self) -> ErrVal {
        match self {
            LispError::SymbolNotFound(s) => ErrVal::SymbolNotFound(s@),
            LispError::ArityMismatch(want, got) => ErrVal::ArityMismatch(
                *want as int,
                *got as int,
            ),
            LispError::TypeMismatch(s) => ErrVal::TypeMismatch(s@),
            LispError::MalformedSpecialForm(f, r) => ErrVal::MalformedSpecialForm(f@, r@),
            LispError::DivisionError => ErrVal::DivisionError,
            LispError::ReaderError(s) => ErrVal::ReaderError(s@),
            LispError::DepthExceeded => ErrVal::DepthExceeded,
        }
    }
}

/// A `TypeMismatch` whose context is the given text.
pub fn type_mismatch(context: &str) -> (r: LispError)
    ensures
        r@ == ErrVal::TypeMismatch(context@),
{
    LispError::TypeMismatch(context.to_owned())
}

/// A `MalformedSpecialForm` for the given form and reason.
pub fn malformed(form: &str, reason: &str) -> (r: LispError)
    ensures
        r@ == ErrVal::MalformedSpecialForm(form@, reason@),
{
    LispError::MalformedSpecialForm(form.to_owned(), reason.to_owned())
}

/// A `ReaderError` with the given reason.
pub fn reader_error(reason: &str) -> (r: LispError)
    ensures
        r@ == ErrVal::ReaderError(reason@),
{
    LispError::ReaderError(reason.to_owned())
}

} // verus!
