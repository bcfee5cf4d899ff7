use crate::func::{func_val_of, FuncVal, LispFunc};
use crate::text::{dec_int, format_i32};
use vstd::prelude::*;
use vstd::string::StringExecFns;

verus! {

broadcast use vstd::std_specs::vec::group_vec_axioms;

/// A value of the language: a parsed expression tree or an evaluation
/// result.  The variant set is closed; no further kinds appear at runtime.
pub enum LispType {
    /// A callable value: closure or built-in operator.
    Func(LispFunc),
    /// An ordered sequence of values.
    List(Vec<LispType>),
    /// A 32-bit signed integer.
    Int(i32),
    /// A symbol; its name is the bare token text.
    Symbol(String),
    /// String text, stored without the surrounding quotes.
    Str(String),
    /// A boolean.
    Bool(bool),
    /// The nil value.
    Nil,
}

/// The mathematical model of a `LispType`: the same tree over `int`,
/// `Seq<char>` and `Seq`.
pub enum Val {
    Func(FuncVal),
    List(Seq<Val>),
    Int(i32),
    Symbol(Seq<char>),
    Str(Seq<char>),
    Bool(bool),
    Nil,
}

/// The model of a value: each node is mapped to its `Val` counterpart.
pub open spec fn val_of(e: LispType) -> Val
    decreases e,
{
    match e {
        LispType::Func(f) => Val::Func(func_val_of(f)),
        LispType::List(items) => Val::List(
            Seq::new(
                items@.len(),
                |i: int|
                    if 0 <= i < items@.len() {
                        val_of(items[i])
                    } else {
                        Val::Nil
                    },
            ),
        ),
        LispType::Int(i) => Val::Int(i),
        LispType::Symbol(s) => Val::Symbol(s@),
        LispType::Str(s) => Val::Str(s@),
        LispType::Bool(b) => Val::Bool(b),
        LispType::Nil => Val::Nil,
    }
}

impl View for LispType {
    type V = Val;

    open spec fn view(&self) -> Val {
        val_of(*self)
    }
}

/// A vector of values, as a sequence of value models.
pub open spec fn vals_seq(values: Seq<LispType>) -> Seq<Val> {
    Seq::new(values.len(), |i: int| val_of(values[i]))
}

/// The printed forms of `items[idx..]`, joined by single spaces.
pub open spec fn render_items(items: Seq<Val>, idx: int) -> Seq<char>
    decreases items, items.len() - idx,
{
    if idx < 0 || idx >= items.len() {
        Seq::empty()
    } else if idx == items.len() - 1 {
        render(items[idx])
    } else {
        render(items[idx]) + " "@ + render_items(items, idx + 1)
    }
}

/// The printed form of a value: decimal integers, bare symbols, re-quoted
/// strings, `true`/`false`/`nil`, parenthesised space-joined lists, and an
/// opaque placeholder for functions.
pub open spec fn render(v: Val) -> Seq<char>
    decreases v, 0int,
{
    match v {
        Val::Func(_) => "#<function>"@,
        Val::List(items) => "("@ + render_items(items, 0) + ")"@,
        Val::Int(i) => dec_int(i as int),
        Val::Symbol(s) => s,
        Val::Str(s) => "\""@ + s + "\""@,
        Val::Bool(b) => if b {
            "true"@
        } else {
            "false"@
        },
        Val::Nil => "nil"@,
    }
}

/// The printed forms of the elements of `items` from `idx` on, joined by
/// single spaces, built against `render_items`.
fn render_list_tail(items: &Vec<LispType>, idx: usize) -> (s: String)
    ensures
        s@ == render_items(vals_seq(items@), idx as int),
    decreases *items, items@.len() - idx,
{
    let ghost model = vals_seq(items@);
    if idx >= items.len() {
        String::new()
    } else if idx == items.len() - 1 {
        let s = items[idx].to_text();
        proof {
            assert(model[idx as int] == items@[idx as int]@);
        }
        s
    } else {
        let mut s = items[idx].to_text();
        s.append(" ");
        let rest = render_list_tail(items, idx + 1);
        s.append(rest.as_str());
        proof {
            assert(model[idx as int] == items@[idx as int]@);
            assert(s@ =~= render(model[idx as int]) + " "@ + render_items(
                model,
                idx + 1,
            ));
        }
        s
    }
}

impl LispType {
    /// The printed form of this value, against `render`.
    pub fn to_text(&self) -> (s: String)
        ensures
            s@ == render(self@),
        decreases *self, 0int,
    {
        match self {
            LispType::Func(_) => "#<function>".to_owned(),
            LispType::List(items) => {
                let mut s: String = "(".to_owned();
                let tail = render_list_tail(items, 0);
                s.append(tail.as_str());
                s.append(")");
                proof {
                    assert(val_of(*self)->List_0 =~= vals_seq(items@));
                    assert(s@ =~= "("@ + render_items(vals_seq(items@), 0) + ")"@);
                }
                s
            }
            LispType::Int(i) => format_i32(*i),
            LispType::Symbol(sym) => sym.as_str().to_owned(),
            LispType::Str(st) => {
                let mut s: String = "\"".to_owned();
                s.append(st.as_str());
                s.append("\"");
                proof {
                    assert(s@ =~= "\""@ + st@ + "\""@);
                }
                s
            }
            LispType::Bool(b) => if *b {
                "true".to_owned()
            } else {
                "false".to_owned()
            },
            LispType::Nil => "nil".to_owned(),
        }
    }
}

impl LispType {
    /// A structural copy: the copy has the same model as the original.
    pub fn duplicate(&self) -> (r: Self)
        ensures
            r@ == self@,
        decreases *self,
    {
        match self {
            LispType::Func(f) => LispType::Func(f.duplicate()),
            LispType::List(items) => {
                let copies = duplicate_vec(items);
                proof {
                    assert(val_of(LispType::List(copies))->List_0 =~= val_of(
                        LispType::List(*items),
                    )->List_0);
                }
                LispType::List(copies)
            }
            LispType::Int(i) => LispType::Int(*i),
            LispType::Symbol(s) => LispType::Symbol(s.clone()),
            LispType::Str(s) => LispType::Str(s.clone()),
            LispType::Bool(b) => LispType::Bool(*b),
            LispType::Nil => LispType::Nil,
        }
    }
}

/// An element-wise structural copy of a vector of values.
pub fn duplicate_vec(items: &Vec<LispType>) -> (r: Vec<LispType>)
    ensures
        r@.len() == items@.len(),
        forall|i: int| 0 <= i < items@.len() ==> val_of(#[trigger] r@[i]) == val_of(items@[i]),
    decreases *items,
{
    let mut copies: Vec<LispType> = Vec::new();
    let mut i: usize = 0;
    while i < items.len()
        invariant
            i <= items.len(),
            copies@.len() == i as int,
            forall|j: int| 0 <= j < i ==> val_of(#[trigger] copies@[j]) == val_of(items@[j]),
        decreases items.len() - i,
    {
        copies.push(items[i].duplicate());
        i = i + 1;
    }
    copies
}

impl Clone for LispType {
    /// A structural copy: the copy has the same model as the original.
    fn clone(&self) -> (r: Self)
        ensures
            r@ == self@,
    {
        self.duplicate()
    }
}

} // verus!
