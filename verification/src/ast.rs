use crate::text::{dec_int, format_i32, push_char};
use crate::token::Keyword;
use vstd::prelude::*;
use vstd::string::StringExecFns;

verus! {

broadcast use vstd::std_specs::vec::group_vec_axioms;

/// A node of the early arithmetic front end: a binary-operator expression
/// tree over integers.
pub enum AST {
    List(Vec<AST>),
    Int(i32),
    Symbol(char),
    Keyword(Keyword),
    Str(String),
}

/// The printed form of a node: every node is followed by one space, a
/// list wraps its children in parentheses.
pub open spec fn ast_text(a: AST) -> Seq<char>
    decreases a, 1int,
{
    match a {
        AST::Int(v) => dec_int(v as int) + " "@,
        AST::Symbol(c) => seq![c] + " "@,
        AST::Str(s) => "\""@ + s@ + "\""@ + " "@,
        AST::Keyword(_) => "write-line"@ + " "@,
        AST::List(children) => "("@ + ast_items_text(children, 0) + ")"@ + " "@,
    }
}

/// The printed forms of `children[idx..]`, concatenated.
pub open spec fn ast_items_text(children: Vec<AST>, idx: int) -> Seq<char>
    decreases children, children@.len() - idx,
{
    if idx < 0 || idx >= children@.len() {
        Seq::empty()
    } else {
        ast_text(children[idx]) + ast_items_text(children, idx + 1)
    }
}

/// What evaluating a node as a binary-operator tree yields: a list headed
/// by one of `+ - * /` applied to its next two operands, each an integer
/// literal or a nested list.  `None` marks the inputs the evaluator
/// rejects outright: short or headless lists, non-numeric operands, an
/// unknown operator, and division by zero.  Arithmetic wraps at 32 bits;
/// elements past the first three are ignored.
pub open spec fn spec_eval_ast(a: AST) -> Option<i32>
    decreases a, 1int,
{
    match a {
        AST::List(children) => {
            if children@.len() < 3 {
                None
            } else {
                match children[0] {
                    AST::Symbol(c) => {
                        match (spec_eval_operand(children[1]), spec_eval_operand(children[2])) {
                            (Some(x), Some(y)) => spec_ast_apply(c, x, y),
                            _ => None,
                        }
                    }
                    _ => None,
                }
            }
        }
        _ => None,
    }
}

/// An operand: an integer literal or a nested expression.
pub open spec fn spec_eval_operand(a: AST) -> Option<i32>
    decreases a, 2int,
{
    match a {
        AST::List(_) => spec_eval_ast(a),
        AST::Int(v) => Some(v),
        _ => None,
    }
}

/// The wrapping arithmetic of the four operator symbols; `None` for any
/// other symbol or a zero divisor.
pub open spec fn spec_ast_apply(c: char, x: i32, y: i32) -> Option<i32> {
    if c == '+' {
        Some(vstd::wrapping::i32_specs::wrapping_add(x, y))
    } else if c == '-' {
        Some(vstd::wrapping::i32_specs::wrapping_sub(x, y))
    } else if c == '*' {
        Some(vstd::wrapping::i32_specs::wrapping_mul(x, y))
    } else if c == '/' {
        if y == 0 {
            None
        } else if x == i32::MIN && y == -1 {
            Some(i32::MIN)
        } else {
            x.checked_div(y)
        }
    } else {
        None
    }
}

/// Appends the printed form of `value` onto `text`.
fn actual_to_string(value: &AST, text: &mut String)
    ensures
        final(text)@ == old(text)@ + ast_text(*value),
    decreases *value,
{
    match value {
        AST::Int(v) => {
            let d = format_i32(*v);
            text.append(d.as_str());
            text.append(" ");
            proof {
                assert(text@ =~= old(text)@ + (dec_int(*v as int) + " "@));
            }
        }
        AST::Symbol(c) => {
            let mut one = String::new();
            push_char(&mut one, *c);
            text.append(one.as_str());
            text.append(" ");
            proof {
                assert(text@ =~= old(text)@ + (seq![*c] + " "@));
            }
        }
        AST::Str(s) => {
            text.append("\"");
            text.append(s.as_str());
            text.append("\"");
            text.append(" ");
            proof {
                assert(text@ =~= old(text)@ + ("\""@ + s@ + "\""@ + " "@));
            }
        }
        AST::Keyword(_) => {
            text.append("write-line");
            text.append(" ");
            proof {
                assert(text@ =~= old(text)@ + ("write-line"@ + " "@));
            }
        }
        AST::List(children) => {
            text.append("(");
            ast_items_to_string(children, text);
            text.append(")");
            text.append(" ");
            proof {
                assert(text@ =~= old(text)@ + ("("@ + ast_items_text(*children, 0) + ")"@
                    + " "@));
            }
        }
    }
}

/// Appends the printed forms of all children onto `text`.
fn ast_items_to_string(children: &Vec<AST>, text: &mut String)
    ensures
        final(text)@ == old(text)@ + ast_items_text(*children, 0),
    decreases *children,
{
    let mut i: usize = 0;
    while i < children.len()
        invariant
            i <= children@.len(),
            text@ + ast_items_text(*children, i as int) == old(text)@ + ast_items_text(
                *children,
                0,
            ),
        decreases children@.len() - i,
    {
        let ghost before = text@;
        actual_to_string(&children[i], text);
        proof {
            assert(text@ + ast_items_text(*children, i + 1) =~= before + ast_items_text(
                *children,
                i as int,
            ));
        }
        i = i + 1;
    }
    proof {
        assert(ast_items_text(*children, children@.len() as int) =~= Seq::<char>::empty());
        assert(text@ =~= old(text)@ + ast_items_text(*children, 0));
    }
}

/// An operand's value: a literal directly, a nested list recursively.
fn eval_operand(a: &AST) -> (r: i32)
    requires
        spec_eval_operand(*a) is Some,
    ensures
        Some(r) == spec_eval_operand(*a),
    decreases *a, 2int,
{
    match a {
        AST::List(_) => a.eval_list(),
        AST::Int(v) => *v,
        _ => {
            proof {
                assert(false);
            }
            0
        }
    }
}

impl AST {
    /// The printed form of this node, against `ast_text`.
    pub fn to_string(&self) -> (s: String)
        ensures
            s@ == ast_text(*self),
    {
        let mut text = String::new();
        actual_to_string(self, &mut text);
        text
    }

    /// Evaluates a binary-operator tree, against `spec_eval_ast`; the
    /// inputs on which the evaluation has no value are excluded.
    pub fn eval_list(&self) -> (r: i32)
        requires
            spec_eval_ast(*self) is Some,
        ensures
            Some(r) == spec_eval_ast(*self),
        decreases *self, 1int,
    {
        match self {
            AST::List(children) => {
                let c: char = match &children[0] {
                    AST::Symbol(c) => *c,
                    _ => {
                        proof {
                            assert(false);
                        }
                        ' '
                    }
                };
                let x = eval_operand(&children[1]);
                let y = eval_operand(&children[2]);
                if c == '+' {
                    x.wrapping_add(y)
                } else if c == '-' {
                    x.wrapping_sub(y)
                } else if c == '*' {
                    x.wrapping_mul(y)
                } else if c == '/' {
                    if x == i32::MIN && y == -1 {
                        i32::MIN
                    } else {
                        match x.checked_div(y) {
                            Some(q) => q,
                            None => {
                                proof {
                                    assert(false);
                                }
                                0
                            }
                        }
                    }
                } else {
                    proof {
                        assert(false);
                    }
                    0
                }
            }
            _ => {
                proof {
                    assert(false);
                }
                0
            }
        }
    }
}

} // verus!
