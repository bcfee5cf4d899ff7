use crate::env::{arena_ok, arena_view, Env, ScopeVal};
use crate::errors::{type_mismatch, ErrVal, LispError};
use crate::func::{FuncVal, LispFunc};
use crate::lisp_type::{LispType, Val};
use crate::text::{byte_len, str_eq};
use vstd::prelude::*;

verus! {

broadcast use vstd::std_specs::vec::group_vec_axioms, vstd::slice::group_slice_axioms;

/// The tag of a built-in binary operator, carried inside a function value.
///
/// A closed tag with a single dispatch point keeps the operator set
/// explicit and lets every operator body be specified on its own.
#[derive(Clone, Copy, PartialEq, Eq, Structural)]
pub enum NativeOp {
    Add,
    Sub,
    Mul,
    Div,
    Lt,
    Lte,
    Gt,
    Gte,
    Eq,
}

/// The symbol under which an operator is registered, doubling as the
/// context text of its type errors.
pub open spec fn op_context(op: NativeOp) -> Seq<char> {
    match op {
        NativeOp::Add => "+"@,
        NativeOp::Sub => "-"@,
        NativeOp::Mul => "*"@,
        NativeOp::Div => "/"@,
        NativeOp::Lt => "<"@,
        NativeOp::Lte => "<="@,
        NativeOp::Gt => ">"@,
        NativeOp::Gte => ">="@,
        NativeOp::Eq => "="@,
    }
}

/// Arithmetic on two integers: 32-bit two's-complement wraparound, never an
/// overflow error; division by zero alone is `DivisionError`.  Any operand
/// that is not an `Int` is a `TypeMismatch`.
pub open spec fn spec_arith(op: NativeOp, a: Val, b: Val) -> Result<Val, ErrVal> {
    match (a, b) {
        (Val::Int(x), Val::Int(y)) => match op {
            NativeOp::Add => Ok(Val::Int(vstd::wrapping::i32_specs::wrapping_add(x, y))),
            NativeOp::Sub => Ok(Val::Int(vstd::wrapping::i32_specs::wrapping_sub(x, y))),
            NativeOp::Mul => Ok(Val::Int(vstd::wrapping::i32_specs::wrapping_mul(x, y))),
            _ => if y == 0 {
                Err(ErrVal::DivisionError)
            } else if x == i32::MIN && y == -1 {
                Ok(Val::Int(i32::MIN))
            } else {
                Ok(
                    Val::Int(
                        match x.checked_div(y) {
                            Some(q) => q,
                            None => 0,
                        },
                    ),
                )
            },
        },
        _ => Err(ErrVal::TypeMismatch(op_context(op))),
    }
}

/// Whether the ordering `op` holds between two integers.
pub open spec fn ord_holds(op: NativeOp, x: int, y: int) -> bool {
    match op {
        NativeOp::Lt => x < y,
        NativeOp::Lte => x <= y,
        NativeOp::Gt => x > y,
        NativeOp::Gte => x >= y,
        _ => false,
    }
}

/// Ordering: both operands must share a variant.  Integers compare
/// numerically; strings and symbols compare by their UTF-8 byte count
/// alone, never lexicographically; booleans order false before true; nil,
/// lists and functions are unorderable.
pub open spec fn spec_order(op: NativeOp, a: Val, b: Val) -> Result<Val, ErrVal> {
    match (a, b) {
        (Val::Int(x), Val::Int(y)) => Ok(Val::Bool(ord_holds(op, x as int, y as int))),
        (Val::Str(x), Val::Str(y)) => Ok(
            Val::Bool(
                ord_holds(
                    op,
                    vstd::utf8::encode_utf8(x).len() as int,
                    vstd::utf8::encode_utf8(y).len() as int,
                ),
            ),
        ),
        (Val::Symbol(x), Val::Symbol(y)) => Ok(
            Val::Bool(
                ord_holds(
                    op,
                    vstd::utf8::encode_utf8(x).len() as int,
                    vstd::utf8::encode_utf8(y).len() as int,
                ),
            ),
        ),
        (Val::Bool(x), Val::Bool(y)) => Ok(
            Val::Bool(
                ord_holds(
                    op,
                    if x {
                        1int
                    } else {
                        0int
                    },
                    if y {
                        1int
                    } else {
                        0int
                    },
                ),
            ),
        ),
        _ => Err(ErrVal::TypeMismatch(op_context(op))),
    }
}

/// Equality: both operands must share a variant; `nil` equals `nil`;
/// integers, booleans, strings and symbols compare by value; lists and
/// functions are not comparable.
pub open spec fn spec_eq_op(a: Val, b: Val) -> Result<Val, ErrVal> {
    match (a, b) {
        (Val::Int(x), Val::Int(y)) => Ok(Val::Bool(x == y)),
        (Val::Str(x), Val::Str(y)) => Ok(Val::Bool(x == y)),
        (Val::Symbol(x), Val::Symbol(y)) => Ok(Val::Bool(x == y)),
        (Val::Bool(x), Val::Bool(y)) => Ok(Val::Bool(x == y)),
        (Val::Nil, Val::Nil) => Ok(Val::Bool(true)),
        _ => Err(ErrVal::TypeMismatch("="@)),
    }
}

/// What applying a built-in operator to two evaluated operands returns.
pub open spec fn spec_apply(op: NativeOp, a: Val, b: Val) -> Result<Val, ErrVal> {
    match op {
        NativeOp::Add | NativeOp::Sub | NativeOp::Mul | NativeOp::Div => spec_arith(op, a, b),
        NativeOp::Lt | NativeOp::Lte | NativeOp::Gt | NativeOp::Gte => spec_order(op, a, b),
        NativeOp::Eq => spec_eq_op(a, b),
    }
}

/// Whether the exec result mirrors the spec result, through the views.
pub open spec fn res_matches(r: Result<LispType, LispError>, s: Result<Val, ErrVal>) -> bool {
    match (r, s) {
        (Ok(v), Ok(w)) => v@ == w,
        (Err(e), Err(f)) => e@ == f,
        _ => false,
    }
}

/// Wrapping 32-bit addition of two `Int`s.
pub fn add_symbol(a: LispType, b: LispType) -> (r: Result<LispType, LispError>)
    ensures
        res_matches(r, spec_apply(NativeOp::Add, a@, b@)),
{
    match (a, b) {
        (LispType::Int(x), LispType::Int(y)) => Ok(LispType::Int(x.wrapping_add(y))),
        _ => Err(type_mismatch("+")),
    }
}

/// Wrapping 32-bit subtraction of two `Int`s.
pub fn sub_symbol(a: LispType, b: LispType) -> (r: Result<LispType, LispError>)
    ensures
        res_matches(r, spec_apply(NativeOp::Sub, a@, b@)),
{
    match (a, b) {
        (LispType::Int(x), LispType::Int(y)) => Ok(LispType::Int(x.wrapping_sub(y))),
        _ => Err(type_mismatch("-")),
    }
}

/// Wrapping 32-bit multiplication of two `Int`s.
pub fn mul_symbol(a: LispType, b: LispType) -> (r: Result<LispType, LispError>)
    ensures
        res_matches(r, spec_apply(NativeOp::Mul, a@, b@)),
{
    match (a, b) {
        (LispType::Int(x), LispType::Int(y)) => Ok(LispType::Int(x.wrapping_mul(y))),
        _ => Err(type_mismatch("*")),
    }
}

/// Truncating 32-bit division of two `Int`s; zero divisor is
/// `DivisionError`, and the one overflowing case wraps.
pub fn div_symbol(a: LispType, b: LispType) -> (r: Result<LispType, LispError>)
    ensures
        res_matches(r, spec_apply(NativeOp::Div, a@, b@)),
{
    match (a, b) {
        (LispType::Int(x), LispType::Int(y)) => {
            if y == 0 {
                Err(LispError::DivisionError)
            } else if x == i32::MIN && y == -1 {
                Ok(LispType::Int(i32::MIN))
            } else {
                match x.checked_div(y) {
                    Some(q) => Ok(LispType::Int(q)),
                    None => Ok(LispType::Int(0)),
                }
            }
        }
        _ => Err(type_mismatch("/")),
    }
}

/// Whether the ordering `op` holds between two machine integers.
fn ord_i32(op: NativeOp, x: i32, y: i32) -> (r: bool)
    ensures
        r == ord_holds(op, x as int, y as int),
{
    match op {
        NativeOp::Lt => x < y,
        NativeOp::Lte => x <= y,
        NativeOp::Gt => x > y,
        NativeOp::Gte => x >= y,
        _ => false,
    }
}

/// Whether the ordering `op` holds between two lengths.
fn ord_usize(op: NativeOp, x: usize, y: usize) -> (r: bool)
    ensures
        r == ord_holds(op, x as int, y as int),
{
    match op {
        NativeOp::Lt => x < y,
        NativeOp::Lte => x <= y,
        NativeOp::Gt => x > y,
        NativeOp::Gte => x >= y,
        _ => false,
    }
}

/// The shared body of the four ordering operators.
fn compare_symbols(op: NativeOp, a: LispType, b: LispType) -> (r: Result<LispType, LispError>)
    requires
        op == NativeOp::Lt || op == NativeOp::Lte || op == NativeOp::Gt || op == NativeOp::Gte,
    ensures
        res_matches(r, spec_order(op, a@, b@)),
{
    let ctx: &str = match op {
        NativeOp::Lt => "<",
        NativeOp::Lte => "<=",
        NativeOp::Gt => ">",
        _ => ">=",
    };
    match (&a, &b) {
        (LispType::Int(x), LispType::Int(y)) => Ok(LispType::Bool(ord_i32(op, *x, *y))),
        (LispType::Str(x), LispType::Str(y)) => Ok(
            LispType::Bool(ord_usize(op, byte_len(x.as_str()), byte_len(y.as_str()))),
        ),
        (LispType::Symbol(x), LispType::Symbol(y)) => Ok(
            LispType::Bool(ord_usize(op, byte_len(x.as_str()), byte_len(y.as_str()))),
        ),
        (LispType::Bool(x), LispType::Bool(y)) => Ok(
            LispType::Bool(
                ord_usize(
                    op,
                    if *x {
                        1
                    } else {
                        0
                    },
                    if *y {
                        1
                    } else {
                        0
                    },
                ),
            ),
        ),
        _ => Err(type_mismatch(ctx)),
    }
}

/// Ordering `<` on two values of one orderable variant.
pub fn lt_symbol(a: LispType, b: LispType) -> (r: Result<LispType, LispError>)
    ensures
        res_matches(r, spec_apply(NativeOp::Lt, a@, b@)),
{
    compare_symbols(NativeOp::Lt, a, b)
}

/// Ordering `<=` on two values of one orderable variant.
pub fn lte_symbol(a: LispType, b: LispType) -> (r: Result<LispType, LispError>)
    ensures
        res_matches(r, spec_apply(NativeOp::Lte, a@, b@)),
{
    compare_symbols(NativeOp::Lte, a, b)
}

/// Ordering `>` on two values of one orderable variant.
pub fn gt_symbol(a: LispType, b: LispType) -> (r: Result<LispType, LispError>)
    ensures
        res_matches(r, spec_apply(NativeOp::Gt, a@, b@)),
{
    compare_symbols(NativeOp::Gt, a, b)
}

/// Ordering `>=` on two values of one orderable variant.
pub fn gte_symbol(a: LispType, b: LispType) -> (r: Result<LispType, LispError>)
    ensures
        res_matches(r, spec_apply(NativeOp::Gte, a@, b@)),
{
    compare_symbols(NativeOp::Gte, a, b)
}

/// Equality on two values of one comparable variant.
pub fn eq_symbol(a: LispType, b: LispType) -> (r: Result<LispType, LispError>)
    ensures
        res_matches(r, spec_apply(NativeOp::Eq, a@, b@)),
{
    match (a, b) {
        (LispType::Int(x), LispType::Int(y)) => Ok(LispType::Bool(x == y)),
        (LispType::Str(x), LispType::Str(y)) => Ok(
            LispType::Bool(str_eq(x.as_str(), y.as_str())),
        ),
        (LispType::Symbol(x), LispType::Symbol(y)) => Ok(
            LispType::Bool(str_eq(x.as_str(), y.as_str())),
        ),
        (LispType::Bool(x), LispType::Bool(y)) => Ok(LispType::Bool(x == y)),
        (LispType::Nil, LispType::Nil) => Ok(LispType::Bool(true)),
        _ => Err(type_mismatch("=")),
    }
}

/// Applies the operator named by `op` to two evaluated operands.
pub fn apply_native(op: NativeOp, a: LispType, b: LispType) -> (r: Result<LispType, LispError>)
    ensures
        res_matches(r, spec_apply(op, a@, b@)),
{
    match op {
        NativeOp::Add => add_symbol(a, b),
        NativeOp::Sub => sub_symbol(a, b),
        NativeOp::Mul => mul_symbol(a, b),
        NativeOp::Div => div_symbol(a, b),
        NativeOp::Lt => lt_symbol(a, b),
        NativeOp::Lte => lte_symbol(a, b),
        NativeOp::Gt => gt_symbol(a, b),
        NativeOp::Gte => gte_symbol(a, b),
        NativeOp::Eq => eq_symbol(a, b),
    }
}

/// The function value under which an operator is registered: a built-in
/// with two placeholder parameters and an empty body.
pub open spec fn op_func(op: NativeOp, env: int) -> Val {
    Val::Func(
        FuncVal {
            body: Box::new(Val::List(Seq::empty())),
            args: seq![Val::Nil, Val::Nil],
            op: Some(op),
            env,
        },
    )
}

/// The root mapping after operator registration.
pub open spec fn with_ops(vars: Map<Seq<char>, Val>, env: int) -> Map<Seq<char>, Val> {
    vars.insert("+"@, op_func(NativeOp::Add, env)).insert("-"@, op_func(NativeOp::Sub, env)).insert(
        "*"@,
        op_func(NativeOp::Mul, env),
    ).insert("/"@, op_func(NativeOp::Div, env)).insert("="@, op_func(NativeOp::Eq, env)).insert(
        "<"@,
        op_func(NativeOp::Lt, env),
    ).insert("<="@, op_func(NativeOp::Lte, env)).insert(">"@, op_func(NativeOp::Gt, env)).insert(
        ">="@,
        op_func(NativeOp::Gte, env),
    )
}

/// One operator registration: binds `sym` in the scope `env` to the
/// operator function `op` capturing `env` itself.
fn decl_operator(envs: &mut Vec<Env>, env: usize, sym: &str, op: NativeOp)
    requires
        arena_ok(old(envs)@),
        env < old(envs)@.len(),
    ensures
        arena_ok(final(envs)@),
        final(envs)@.len() == old(envs)@.len(),
        forall|i: int|
            0 <= i < old(envs)@.len() && i != env ==> arena_view(final(envs)@)[i] == arena_view(
                old(envs)@,
            )[i],
        arena_view(final(envs)@)[env as int].parent == arena_view(old(envs)@)[env as int].parent,
        arena_view(final(envs)@)[env as int].vars == arena_view(old(envs)@)[env as int].vars.insert(
            sym@,
            op_func(op, env as int),
        ),
{
    let func = LispFunc::new_operator(op, env);
    let ghost before = arena_view(envs@);
    proof {
        assert(LispType::Func(func)@ == op_func(op, env as int));
    }
    let scope = &mut envs[env];
    scope.set(sym, LispType::Func(func));
    proof {
        assert(forall|i: int|
            0 <= i < before.len() && i != env ==> arena_view(envs@)[i] == before[i]);
    }
}

/// Registers the nine arithmetic and comparison operators into the scope
/// `env`, which is the session root.
pub fn init_operator_funcs(envs: &mut Vec<Env>, env: usize)
    requires
        arena_ok(old(envs)@),
        env < old(envs)@.len(),
    ensures
        arena_ok(final(envs)@),
        final(envs)@.len() == old(envs)@.len(),
        forall|i: int|
            0 <= i < old(envs)@.len() && i != env ==> arena_view(final(envs)@)[i] == arena_view(
                old(envs)@,
            )[i],
        arena_view(final(envs)@)[env as int].parent == arena_view(old(envs)@)[env as int].parent,
        arena_view(final(envs)@)[env as int].vars == with_ops(
            arena_view(old(envs)@)[env as int].vars,
            env as int,
        ),
{
    decl_operator(envs, env, "+", NativeOp::Add);
    decl_operator(envs, env, "-", NativeOp::Sub);
    decl_operator(envs, env, "*", NativeOp::Mul);
    decl_operator(envs, env, "/", NativeOp::Div);
    decl_operator(envs, env, "=", NativeOp::Eq);
    decl_operator(envs, env, "<", NativeOp::Lt);
    decl_operator(envs, env, "<=", NativeOp::Lte);
    decl_operator(envs, env, ">", NativeOp::Gt);
    decl_operator(envs, env, ">=", NativeOp::Gte);
}

} // verus!
