use crate::lisp_type::{duplicate_vec, val_of, LispType, Val};
use crate::operator::NativeOp;
use vstd::prelude::*;

verus! {

broadcast use vstd::std_specs::vec::group_vec_axioms;

/// A callable value: a closure (body, parameter symbols and a captured
/// defining environment) or a built-in binary operator.  Exactly one of
/// `body`/`args` and `operator_func` is meaningful per instance.
pub struct LispFunc {
    /// The unevaluated closure body; a placeholder empty list for operators.
    pub body: Box<LispType>,
    /// The parameter symbols, bound in order at each call.
    pub args: Vec<LispType>,
    /// The native operator tag, when this function is a built-in.
    pub operator_func: Option<NativeOp>,
    /// Arena handle of the environment captured at definition time.
    pub internal_env: usize,
}

/// The mathematical model of a function value.
pub struct FuncVal {
    pub body: Box<Val>,
    pub args: Seq<Val>,
    pub op: Option<NativeOp>,
    pub env: int,
}

/// The model of a function value: body, parameters, operator tag and the
/// captured environment handle.
pub open spec fn func_val_of(f: LispFunc) -> FuncVal
    decreases f,
{
    FuncVal {
        body: Box::new(val_of(*f.body)),
        args: Seq::new(
            f.args@.len(),
            |i: int|
                if 0 <= i < f.args@.len() {
                    val_of(f.args[i])
                } else {
                    Val::Nil
                },
        ),
        op: f.operator_func,
        env: f.internal_env as int,
    }
}

impl View for LispFunc {
    type V = FuncVal;

    open spec fn view(&self) -> FuncVal {
        func_val_of(*self)
    }
}

impl LispFunc {
    /// A fresh closure shell capturing `outer_env`: empty body list, no
    /// parameters, no operator.
    pub fn new(outer_env: usize) -> (f: LispFunc)
        ensures
            f@ == (FuncVal {
                body: Box::new(Val::List(Seq::empty())),
                args: Seq::empty(),
                op: None::<NativeOp>,
                env: outer_env as int,
            }),
            f.args@ == Seq::<LispType>::empty(),
            f.operator_func == None::<NativeOp>,
            f.internal_env == outer_env,
    {
        let f = LispFunc {
            body: Box::new(LispType::List(Vec::new())),
            args: Vec::new(),
            operator_func: None,
            internal_env: outer_env,
        };
        proof {
            assert((*f@.body)->List_0 =~= Seq::<Val>::empty());
            assert(f@.args =~= Seq::<Val>::empty());
        }
        f
    }

    /// A built-in operator function capturing `outer_env`, with two
    /// placeholder parameters standing in for its fixed arity.
    pub fn new_operator(op: NativeOp, outer_env: usize) -> (f: LispFunc)
        ensures
            f@ == (FuncVal {
                body: Box::new(Val::List(Seq::empty())),
                args: seq![Val::Nil, Val::Nil],
                op: Some(op),
                env: outer_env as int,
            }),
    {
        let mut f = LispFunc::new(outer_env);
        f.operator_func = Some(op);
        f.args.push(LispType::Nil);
        f.args.push(LispType::Nil);
        proof {
            assert(f.args@.len() == 2);
            assert(f.args@[0] == LispType::Nil);
            assert(f.args@[1] == LispType::Nil);
            assert(f@.args[0] == val_of(LispType::Nil));
            assert(f@.args =~= seq![Val::Nil, Val::Nil]);
        }
        f
    }

    /// A structural copy: the copy has the same model as the original.
    pub fn duplicate(&self) -> (r: Self)
        ensures
            r@ == self@,
        decreases *self,
    {
        let body = Box::new((*self.body).duplicate());
        let params = duplicate_vec(&self.args);
        let r = LispFunc {
            body,
            args: params,
            operator_func: self.operator_func,
            internal_env: self.internal_env,
        };
        proof {
            assert(r@.args =~= self@.args);
        }
        r
    }
}

impl Clone for LispFunc {
    /// A structural copy: the copy has the same model as the original.
    fn clone(&self) -> (r: Self)
        ensures
            r@ == self@,
    {
        self.duplicate()
    }
}

} // verus!
