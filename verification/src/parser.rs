use crate::text::{dec_int, format_i32, push_char};
use crate::token::{tokens_view, Keyword, Token, TokenVal};
use vstd::prelude::*;
use vstd::string::StringExecFns;

verus! {

broadcast use vstd::std_specs::vec::group_vec_axioms;

/// A node of the early arithmetic front end's parse tree.
pub enum ListValue {
    List(Vec<ListValue>),
    Int(i32),
    Symbol(char),
    Keyword(Keyword),
    Str(String),
}

/// The mathematical model of a parse tree node.
pub enum LVal {
    List(Seq<LVal>),
    Int(i32),
    Symbol(char),
    Keyword(Keyword),
    Str(Seq<char>),
}

/// The model of a node: each child is mapped to its `LVal` counterpart.
pub open spec fn lval_of(v: ListValue) -> LVal
    decreases v,
{
    match v {
        ListValue::List(children) => LVal::List(
            Seq::new(
                children@.len(),
                |i: int|
                    if 0 <= i < children@.len() {
                        lval_of(children[i])
                    } else {
                        LVal::Int(0)
                    },
            ),
        ),
        ListValue::Int(i) => LVal::Int(i),
        ListValue::Symbol(c) => LVal::Symbol(c),
        ListValue::Keyword(k) => LVal::Keyword(k),
        ListValue::Str(s) => LVal::Str(s@),
    }
}

impl View for ListValue {
    type V = LVal;

    open spec fn view(&self) -> LVal {
        lval_of(*self)
    }
}

/// The models of a vector of nodes.
pub open spec fn lvals_seq(vs: Seq<ListValue>) -> Seq<LVal> {
    Seq::new(vs.len(), |i: int| lval_of(vs[i]))
}

/// The printed form of a node: every node is followed by one space, a
/// list wraps its children in parentheses.
pub open spec fn lv_text(v: ListValue) -> Seq<char>
    decreases v, 1int,
{
    match v {
        ListValue::Int(i) => dec_int(i as int) + " "@,
        ListValue::Symbol(c) => seq![c] + " "@,
        ListValue::Str(s) => "\""@ + s@ + "\""@ + " "@,
        ListValue::Keyword(_) => "write-line"@ + " "@,
        ListValue::List(children) => "("@ + lv_items_text(children, 0) + ")"@ + " "@,
    }
}

/// The printed forms of `children[idx..]`, concatenated.
pub open spec fn lv_items_text(children: Vec<ListValue>, idx: int) -> Seq<char>
    decreases children, children@.len() - idx,
{
    if idx < 0 || idx >= children@.len() {
        Seq::empty()
    } else {
        lv_text(children[idx]) + lv_items_text(children, idx + 1)
    }
}

/// Appends the printed form of `value` onto `text`.
fn actual_to_string(value: &ListValue, text: &mut String)
    ensures
        final(text)@ == old(text)@ + lv_text(*value),
    decreases *value,
{
    match value {
        ListValue::Int(v) => {
            let d = format_i32(*v);
            text.append(d.as_str());
            text.append(" ");
            proof {
                assert(text@ =~= old(text)@ + (dec_int(*v as int) + " "@));
            }
        }
        ListValue::Symbol(c) => {
            let mut one = String::new();
            push_char(&mut one, *c);
            text.append(one.as_str());
            text.append(" ");
            proof {
                assert(text@ =~= old(text)@ + (seq![*c] + " "@));
            }
        }
        ListValue::Str(s) => {
            text.append("\"");
            text.append(s.as_str());
            text.append("\"");
            text.append(" ");
            proof {
                assert(text@ =~= old(text)@ + ("\""@ + s@ + "\""@ + " "@));
            }
        }
        ListValue::Keyword(_) => {
            text.append("write-line");
            text.append(" ");
            proof {
                assert(text@ =~= old(text)@ + ("write-line"@ + " "@));
            }
        }
        ListValue::List(children) => {
            text.append("(");
            lv_items_to_string(children, text);
            text.append(")");
            text.append(" ");
            proof {
                assert(text@ =~= old(text)@ + ("("@ + lv_items_text(*children, 0) + ")"@
                    + " "@));
            }
        }
    }
}

/// Appends the printed forms of all children onto `text`.
fn lv_items_to_string(children: &Vec<ListValue>, text: &mut String)
    ensures
        final(text)@ == old(text)@ + lv_items_text(*children, 0),
    decreases *children,
{
    let mut i: usize = 0;
    while i < children.len()
        invariant
            i <= children@.len(),
            text@ + lv_items_text(*children, i as int) == old(text)@ + lv_items_text(
                *children,
                0,
            ),
        decreases children@.len() - i,
    {
        let ghost before = text@;
        actual_to_string(&children[i], text);
        proof {
            assert(text@ + lv_items_text(*children, i + 1) =~= before + lv_items_text(
                *children,
                i as int,
            ));
        }
        i = i + 1;
    }
    proof {
        assert(lv_items_text(*children, children@.len() as int) =~= Seq::<char>::empty());
        assert(text@ =~= old(text)@ + lv_items_text(*children, 0));
    }
}

impl ListValue {
    /// The printed form of this node, against `lv_text`.
    pub fn to_string(&self) -> (s: String)
        ensures
            s@ == lv_text(*self),
    {
        let mut text = String::new();
        actual_to_string(self, &mut text);
        text
    }
}

/// One node from a token stream.  The cursor looks one past the stream's
/// front while consumption pops the front, so the first token is skipped
/// and each decision is made on the token after the one consumed.  `None`
/// marks the streams the parser rejects: too few tokens to look at, or a
/// closing token where a node was expected.
pub open spec fn spec_parse_any(tokens: Seq<TokenVal>) -> Option<(LVal, Seq<TokenVal>)>
    decreases tokens.len(), 1int,
{
    if tokens.len() <= 1 {
        None
    } else {
        match tokens[1] {
            TokenVal::ListBegin(_) => spec_parse_list(tokens),
            TokenVal::Symbol(c) => Some((LVal::Symbol(c), tokens.drop_first())),
            TokenVal::Int(i) => Some((LVal::Int(i), tokens.drop_first())),
            TokenVal::Keyword(k) => Some((LVal::Keyword(k), tokens.drop_first())),
            TokenVal::Str(s) => Some((LVal::Str(s), tokens.drop_first())),
            TokenVal::ListEnd(_) => None,
        }
    }
}

/// A list node: one token is discarded, then children gather until a
/// closing token or the end of the stream; the closing token stays.
pub open spec fn spec_parse_list(tokens: Seq<TokenVal>) -> Option<(LVal, Seq<TokenVal>)>
    decreases tokens.len(), 0int,
{
    if tokens.len() == 0 {
        Some((LVal::List(Seq::empty()), tokens))
    } else {
        match spec_parse_items(tokens.drop_first()) {
            None => None,
            Some((items, rest)) => Some((LVal::List(items), rest)),
        }
    }
}

/// The children of a list: nodes until a closing token or the end.
pub open spec fn spec_parse_items(tokens: Seq<TokenVal>) -> Option<(Seq<LVal>, Seq<TokenVal>)>
    decreases tokens.len(), 2int,
{
    if tokens.len() <= 1 {
        Some((Seq::empty(), tokens))
    } else {
        match tokens[1] {
            TokenVal::ListEnd(_) => Some((Seq::empty(), tokens)),
            _ => match spec_parse_any(tokens) {
                None => None,
                Some((v, rest)) => if rest.len() >= tokens.len() {
                    None
                } else {
                    match spec_parse_items(rest) {
                        None => None,
                        Some((vs, rest2)) => Some((seq![v] + vs, rest2)),
                    }
                },
            },
        }
    }
}

/// The early arithmetic front end's parser: a token stream consumed from
/// the front while decisions look one token ahead of it.
pub struct Parser {
    tokens: Vec<Token>,
    root_list: ListValue,
}

impl Parser {
    /// The models of the remaining tokens.
    pub closed spec fn toks(self) -> Seq<TokenVal> {
        tokens_view(self.tokens@)
    }

    /// A parser over `tokens`, nothing parsed yet.
    pub fn new(tokens: Vec<Token>) -> (p: Parser)
        ensures
            p.toks() == tokens_view(tokens@),
    {
        Parser { tokens, root_list: ListValue::List(Vec::new()) }
    }

    /// Pops the front token, if any.
    fn eat_token(&mut self) -> (r: Option<Token>)
        ensures
            match r {
                Some(t) => old(self).toks().len() > 0 && t@ == old(self).toks()[0]
                    && final(self).toks() == old(self).toks().drop_first(),
                None => old(self).toks().len() == 0 && final(self).toks() == old(self).toks(),
            },
    {
        if self.tokens.len() == 0 {
            return None;
        }
        let t = self.tokens.remove(0);
        proof {
            assert(tokens_view(self.tokens@) =~= old(self).toks().drop_first());
        }
        Some(t)
    }

    /// Looks at the token one past the front, without consuming.
    fn peek_token(&mut self) -> (r: Option<Token>)
        ensures
            final(self).toks() == old(self).toks(),
            match r {
                Some(t) => old(self).toks().len() > 1 && t@ == old(self).toks()[1],
                None => old(self).toks().len() <= 1,
            },
    {
        if self.tokens.len() <= 1 {
            return None;
        }
        Some(self.tokens[1].clone())
    }

    /// Parses one node, against `spec_parse_any`; the streams the parser
    /// rejects are excluded.
    pub fn parse_any(&mut self) -> (r: ListValue)
        requires
            spec_parse_any(old(self).toks()) is Some,
        ensures
            spec_parse_any(old(self).toks()) == Some((r@, final(self).toks())),
            final(self).toks().len() < old(self).toks().len(),
        decreases old(self).toks().len(), 1int,
    {
        match self.peek_token() {
            None => {
                proof {
                    assert(false);
                }
                ListValue::List(Vec::new())
            }
            Some(token) => match token {
                Token::ListBegin(_) => self.parse_list(),
                Token::Symbol(c) => {
                    let _ = self.eat_token();
                    ListValue::Symbol(c)
                }
                Token::Int(i) => {
                    let _ = self.eat_token();
                    ListValue::Int(i)
                }
                Token::Keyword(k) => {
                    let _ = self.eat_token();
                    ListValue::Keyword(k)
                }
                Token::Str(s) => {
                    let _ = self.eat_token();
                    ListValue::Str(s)
                }
                Token::ListEnd(_) => {
                    proof {
                        assert(false);
                    }
                    ListValue::List(Vec::new())
                }
            },
        }
    }

    /// Parses a list node, against `spec_parse_list`.
    pub fn parse_list(&mut self) -> (r: ListValue)
        requires
            spec_parse_list(old(self).toks()) is Some,
        ensures
            spec_parse_list(old(self).toks()) == Some((r@, final(self).toks())),
            old(self).toks().len() >= 1 ==> final(self).toks().len() < old(self).toks().len(),
            final(self).toks().len() <= old(self).toks().len(),
        decreases old(self).toks().len(), 0int,
    {
        match self.eat_token() {
            None => {
                let r = ListValue::List(Vec::new());
                proof {
                    assert(r@->List_0 =~= Seq::<LVal>::empty());
                }
                r
            }
            Some(_) => {
                let items = self.parse_items();
                let r = ListValue::List(items);
                proof {
                    assert(r@->List_0 =~= lvals_seq(r->List_0@));
                }
                r
            }
        }
    }

    /// Gathers list children, against `spec_parse_items`.
    fn parse_items(&mut self) -> (r: Vec<ListValue>)
        requires
            spec_parse_items(old(self).toks()) is Some,
        ensures
            spec_parse_items(old(self).toks()) == Some((lvals_seq(r@), final(self).toks())),
            final(self).toks().len() <= old(self).toks().len(),
        decreases old(self).toks().len(), 2int,
    {
        let stop = match self.peek_token() {
            None => true,
            Some(t) => match t {
                Token::ListEnd(_) => true,
                _ => false,
            },
        };
        if stop {
            let out: Vec<ListValue> = Vec::new();
            proof {
                assert(lvals_seq(out@) =~= Seq::<LVal>::empty());
            }
            return out;
        }
        let v = self.parse_any();
        let mut rest = self.parse_items();
        let ghost rest0 = lvals_seq(rest@);
        let ghost vv = v@;
        rest.insert(0, v);
        proof {
            assert(lvals_seq(rest@) =~= seq![vv] + rest0);
        }
        rest
    }
}

} // verus!
