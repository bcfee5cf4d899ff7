use vstd::prelude::*;

verus! {

/// The reserved words of the early arithmetic front end.
#[derive(Clone, Copy, PartialEq, Eq, Structural)]
pub enum Keyword {
    WriteLine,
}

/// A token of the early arithmetic front end.  List delimiters carry the
/// nesting depth at which they were seen.
pub enum Token {
    Symbol(char),
    Str(String),
    Keyword(Keyword),
    Int(i32),
    ListBegin(u32),
    ListEnd(u32),
}

/// The mathematical model of a token.
pub enum TokenVal {
    Symbol(char),
    Str(Seq<char>),
    Keyword(Keyword),
    Int(i32),
    ListBegin(u32),
    ListEnd(u32),
}

impl View for Token {
    type V = TokenVal;

    open spec fn view(&self) -> TokenVal {
        match self {
            Token::Symbol(c) => TokenVal::Symbol(*c),
            Token::Str(s) => TokenVal::Str(s@),
            Token::Keyword(k) => TokenVal::Keyword(*k),
            Token::Int(i) => TokenVal::Int(*i),
            Token::ListBegin(d) => TokenVal::ListBegin(*d),
            Token::ListEnd(d) => TokenVal::ListEnd(*d),
        }
    }
}

impl Clone for Token {
    /// A structural copy: the copy has the same model as the original.
    fn clone(&self) -> (r: Self)
        ensures
            r@ == self@,
    {
        match self {
            Token::Symbol(c) => Token::Symbol(*c),
            Token::Str(s) => Token::Str(s.clone()),
            Token::Keyword(k) => Token::Keyword(*k),
            Token::Int(i) => Token::Int(*i),
            Token::ListBegin(d) => Token::ListBegin(*d),
            Token::ListEnd(d) => Token::ListEnd(*d),
        }
    }
}

/// The models of a sequence of tokens.
pub open spec fn tokens_view(ts: Seq<Token>) -> Seq<TokenVal> {
    Seq::new(ts.len(), |i: int| ts[i]@)
}

/// The name of a token's kind.
pub open spec fn token_kind(t: Token) -> Seq<char> {
    match t {
        Token::Symbol(_) => "Symbol"@,
        Token::Keyword(_) => "Keyword"@,
        Token::Str(_) => "Str"@,
        Token::Int(_) => "Int"@,
        Token::ListBegin(_) => "ListBegin"@,
        Token::ListEnd(_) => "ListEnd"@,
    }
}

impl Token {
    /// The name of this token's kind.
    pub fn to_text(&self) -> (s: String)
        ensures
            s@ == token_kind(*self),
    {
        match self {
            Token::Symbol(_) => "Symbol".to_owned(),
            Token::Keyword(_) => "Keyword".to_owned(),
            Token::Str(_) => "Str".to_owned(),
            Token::Int(_) => "Int".to_owned(),
            Token::ListBegin(_) => "ListBegin".to_owned(),
            Token::ListEnd(_) => "ListEnd".to_owned(),
        }
    }
}

} // verus!
