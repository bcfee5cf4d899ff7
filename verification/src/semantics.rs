use crate::env::{chain_find, ScopeVal};
use crate::errors::ErrVal;
use crate::func::FuncVal;
use crate::lisp_type::{render, Val};
use crate::operator::spec_apply;
use vstd::prelude::*;

verus! {

broadcast use vstd::string::group_string_axioms;

/// The model of the whole mutable evaluation state: the scope arena and
/// the text printed so far.
pub struct MachineVal {
    pub envs: Seq<ScopeVal>,
    pub out: Seq<Seq<char>>,
}

/// The state after binding `key` to `v` in the scope `env` alone.
pub open spec fn m_set(m: MachineVal, env: int, key: Seq<char>, v: Val) -> MachineVal {
    MachineVal {
        envs: m.envs.update(
            env,
            ScopeVal { parent: m.envs[env].parent, vars: m.envs[env].vars.insert(key, v) },
        ),
        out: m.out,
    }
}

/// The state after appending a fresh scope whose parent is `parent`.
pub open spec fn m_push(m: MachineVal, parent: int) -> MachineVal {
    MachineVal {
        envs: m.envs.push(ScopeVal { parent: Some(parent), vars: Map::empty() }),
        out: m.out,
    }
}

/// The state after printing one line of text.
pub open spec fn m_print(m: MachineVal, text: Seq<char>) -> MachineVal {
    MachineVal { envs: m.envs, out: m.out.push(text) }
}

/// Whether every environment handle inside `v` is a valid index below `n`.
pub open spec fn val_wf(v: Val, n: int) -> bool
    decreases v, 0int,
{
    match v {
        Val::Func(f) => 0 <= f.env < n && val_wf(*f.body, n) && vals_wf(f.args, 0, n),
        Val::List(items) => vals_wf(items, 0, n),
        _ => true,
    }
}

/// Whether every element of `items[idx..]` is well formed below `n`.
pub open spec fn vals_wf(items: Seq<Val>, idx: int, n: int) -> bool
    decreases items, items.len() - idx,
{
    idx < 0 || idx >= items.len() || (val_wf(items[idx], n) && vals_wf(items, idx + 1, n))
}

/// `vals_wf` element by element.
pub proof fn lemma_vals_wf_index(items: Seq<Val>, idx: int, n: int)
    requires
        0 <= idx,
    ensures
        vals_wf(items, idx, n) <==> (forall|i: int|
            idx <= i < items.len() ==> val_wf(#[trigger] items[i], n)),
    decreases items.len() - idx,
{
    if idx < items.len() {
        lemma_vals_wf_index(items, idx + 1, n);
    }
}

/// Well-formedness survives arena growth.
pub proof fn lemma_val_wf_mono(v: Val, n1: int, n2: int)
    requires
        val_wf(v, n1),
        n1 <= n2,
    ensures
        val_wf(v, n2),
    decreases v, 0int,
{
    match v {
        Val::Func(f) => {
            lemma_val_wf_mono(*f.body, n1, n2);
            lemma_vals_wf_mono(f.args, 0, n1, n2);
        }
        Val::List(items) => {
            lemma_vals_wf_mono(items, 0, n1, n2);
        }
        _ => {}
    }
}

/// Well-formedness of a run of values survives arena growth.
pub proof fn lemma_vals_wf_mono(items: Seq<Val>, idx: int, n1: int, n2: int)
    requires
        vals_wf(items, idx, n1),
        n1 <= n2,
    ensures
        vals_wf(items, idx, n2),
    decreases items, items.len() - idx,
{
    if 0 <= idx < items.len() {
        lemma_val_wf_mono(items[idx], n1, n2);
        lemma_vals_wf_mono(items, idx + 1, n1, n2);
    }
}

/// Whether every value stored in the scope is well formed below `n`.
pub open spec fn scope_vals_wf(s: ScopeVal, n: int) -> bool {
    forall|k: Seq<char>| #[trigger] s.vars.contains_key(k) ==> val_wf(s.vars[k], n)
}

/// Machine well-formedness: parent handles point strictly downward and
/// every stored value's handles are in bounds.
pub open spec fn machine_wf(m: MachineVal) -> bool {
    forall|i: int|
        0 <= i < m.envs.len() ==> {
            &&& ((#[trigger] m.envs[i]).parent matches Some(p) ==> 0 <= p < i)
            &&& scope_vals_wf(m.envs[i], m.envs.len() as int)
        }
}

/// Chain lookup only ever hands out stored, well-formed values.
pub proof fn lemma_chain_find_wf(m: MachineVal, env: int, key: Seq<char>)
    requires
        machine_wf(m),
    ensures
        chain_find(m.envs, env, key) matches Some(v) ==> val_wf(v, m.envs.len() as int),
    decreases env,
{
    if 0 <= env < m.envs.len() && !m.envs[env].vars.contains_key(key) {
        match m.envs[env].parent {
            Some(p) => {
                if 0 <= p < env {
                    lemma_chain_find_wf(m, p, key);
                }
            }
            None => {}
        }
    }
}

/// Binding a well-formed value keeps the machine well formed.
pub proof fn lemma_m_set_wf(m: MachineVal, env: int, key: Seq<char>, v: Val)
    requires
        machine_wf(m),
        0 <= env < m.envs.len(),
        val_wf(v, m.envs.len() as int),
    ensures
        machine_wf(m_set(m, env, key, v)),
        m_set(m, env, key, v).envs.len() == m.envs.len(),
{
    let m2 = m_set(m, env, key, v);
    assert forall|i: int| 0 <= i < m2.envs.len() implies {
        &&& ((#[trigger] m2.envs[i]).parent matches Some(p) ==> 0 <= p < i)
        &&& scope_vals_wf(m2.envs[i], m2.envs.len() as int)
    } by {
        if i == env {
            assert forall|k: Seq<char>| #[trigger]
                m2.envs[i].vars.contains_key(k) implies val_wf(
                m2.envs[i].vars[k],
                m2.envs.len() as int,
            ) by {
                if k != key {
                    assert(m.envs[i].vars.contains_key(k));
                }
            }
        }
    }
}

/// Appending a child scope keeps the machine well formed.
pub proof fn lemma_m_push_wf(m: MachineVal, parent: int)
    requires
        machine_wf(m),
        0 <= parent < m.envs.len(),
    ensures
        machine_wf(m_push(m, parent)),
        m_push(m, parent).envs.len() == m.envs.len() + 1,
{
    let m2 = m_push(m, parent);
    let n2 = m2.envs.len() as int;
    assert forall|i: int| 0 <= i < m2.envs.len() implies {
        &&& ((#[trigger] m2.envs[i]).parent matches Some(p) ==> 0 <= p < i)
        &&& scope_vals_wf(m2.envs[i], n2)
    } by {
        if i < m.envs.len() {
            assert(m2.envs[i] == m.envs[i]);
            assert forall|k: Seq<char>| #[trigger]
                m2.envs[i].vars.contains_key(k) implies val_wf(m2.envs[i].vars[k], n2) by {
                assert(val_wf(m.envs[i].vars[k], m.envs.len() as int));
                lemma_val_wf_mono(m.envs[i].vars[k], m.envs.len() as int, n2);
            }
        } else {
            assert(m2.envs[i].vars =~= Map::<Seq<char>, Val>::empty());
        }
    }
}

/// The reserved head symbols that dispatch to a special form.
pub open spec fn is_special(name: Seq<char>) -> bool {
    ||| name == "def!"@
    ||| name == "let*"@
    ||| name == "fn*"@
    ||| name == "do"@
    ||| name == "if"@
    ||| name == "prn"@
    ||| name == "list"@
    ||| name == "list?"@
    ||| name == "empty?"@
    ||| name == "count"@
    ||| name == "type?"@
    ||| name == "and"@
    ||| name == "&&"@
    ||| name == "or"@
    ||| name == "||"@
    ||| name == "xor"@
    ||| name == "^"@
    ||| name == "not"@
    ||| name == "!"@
}

/// What a bare symbol evaluates to: the innermost binding if any; else the
/// reserved names map to their constants; any other unresolved symbol
/// evaluates to itself, never an error.
pub open spec fn resolve_symbol(m: MachineVal, env: int, name: Seq<char>) -> Val {
    match chain_find(m.envs, env, name) {
        Some(v) => v,
        None => if name == "nil"@ {
            Val::Nil
        } else if name == "true"@ {
            Val::Bool(true)
        } else if name == "false"@ {
            Val::Bool(false)
        } else {
            Val::Symbol(name)
        },
    }
}

/// Whether two values carry the same variant tag.
pub open spec fn same_tag(a: Val, b: Val) -> bool {
    match (a, b) {
        (Val::Func(_), Val::Func(_)) => true,
        (Val::List(_), Val::List(_)) => true,
        (Val::Int(_), Val::Int(_)) => true,
        (Val::Symbol(_), Val::Symbol(_)) => true,
        (Val::Str(_), Val::Str(_)) => true,
        (Val::Bool(_), Val::Bool(_)) => true,
        (Val::Nil, Val::Nil) => true,
        _ => false,
    }
}

/// The two-operand boolean special forms.
pub enum BoolOp {
    And,
    Or,
    Xor,
}

/// The canonical name of a boolean form, used in its errors.
pub open spec fn bool2_name(op: BoolOp) -> Seq<char> {
    match op {
        BoolOp::And => "and"@,
        BoolOp::Or => "or"@,
        BoolOp::Xor => "xor"@,
    }
}

/// The logical result of a boolean form.
pub open spec fn bool2_apply(op: BoolOp, a: bool, b: bool) -> bool {
    match op {
        BoolOp::And => a && b,
        BoolOp::Or => a || b,
        BoolOp::Xor => a != b,
    }
}

/// One step of evaluation.  Every recursive entry costs one unit of fuel;
/// exhausted fuel is the distinct `DepthExceeded` error, the only guard
/// against unbounded recursion through the environment.
pub open spec fn seval(m: MachineVal, env: int, e: Val, fuel: nat) -> (MachineVal, Result<
    Val,
    ErrVal,
>)
    decreases fuel, 3int, 0int,
{
    if fuel == 0 {
        (m, Err(ErrVal::DepthExceeded))
    } else {
        match e {
            Val::Int(_) => (m, Ok(e)),
            Val::Str(_) => (m, Ok(e)),
            Val::Bool(_) => (m, Ok(e)),
            Val::Nil => (m, Ok(e)),
            Val::Symbol(name) => (m, Ok(resolve_symbol(m, env, name))),
            Val::Func(_) => (m, Err(ErrVal::TypeMismatch("evaluate"@))),
            Val::List(items) => {
                if items.len() == 0 {
                    (m, Ok(Val::Int(0)))
                } else {
                    match items[0] {
                        Val::Symbol(name) => if is_special(name) {
                            seval_form(m, env, name, items, fuel)
                        } else {
                            seval_head_call(m, env, items, fuel)
                        },
                        _ => seval_head_call(m, env, items, fuel),
                    }
                }
            }
        }
    }
}

/// A list whose head is no special form: the head is evaluated once; a
/// function is called on the raw argument expressions; any other head
/// value is returned as is, the trailing elements ignored.
pub open spec fn seval_head_call(m: MachineVal, env: int, items: Seq<Val>, fuel: nat) -> (
    MachineVal,
    Result<Val, ErrVal>,
)
    decreases fuel, 2int, 0int,
{
    if fuel == 0 {
        (m, Err(ErrVal::DepthExceeded))
    } else {
        let (m1, r1) = seval(m, env, items[0], (fuel - 1) as nat);
        match r1 {
            Err(e) => (m1, Err(e)),
            Ok(Val::Func(f)) => seval_call(m1, f, items.skip(1), env, fuel),
            Ok(v) => (m1, Ok(v)),
        }
    }
}

/// A function call: exact arity first; an operator evaluates its two
/// argument expressions in the caller's scope and applies natively; a
/// closure binds evaluated arguments into a fresh child of its captured
/// scope and evaluates its body there.
pub open spec fn seval_call(
    m: MachineVal,
    f: FuncVal,
    args: Seq<Val>,
    caller: int,
    fuel: nat,
) -> (MachineVal, Result<Val, ErrVal>)
    decreases fuel, 1int, 1int,
{
    if fuel == 0 {
        (m, Err(ErrVal::DepthExceeded))
    } else {
        if f.args.len() != args.len() {
            (m, Err(ErrVal::ArityMismatch(f.args.len() as int, args.len() as int)))
        } else {
            match f.op {
                Some(op) => {
                    if args.len() != 2 {
                        (m, Err(ErrVal::ArityMismatch(2, args.len() as int)))
                    } else {
                        let (m1, r1) = seval(m, caller, args[0], (fuel - 1) as nat);
                        match r1 {
                            Err(e) => (m1, Err(e)),
                            Ok(a) => {
                                let (m2, r2) = seval(m1, caller, args[1], (fuel - 1) as nat);
                                match r2 {
                                    Err(e) => (m2, Err(e)),
                                    Ok(b) => (m2, spec_apply(op, a, b)),
                                }
                            }
                        }
                    }
                }
                None => {
                    let child = m.envs.len() as int;
                    let m1 = m_push(m, f.env);
                    let (m2, r) = seval_bind_args(m1, caller, child, f.args, args, 0, fuel);
                    match r {
                        Err(e) => (m2, Err(e)),
                        Ok(_) => seval(m2, child, *f.body, (fuel - 1) as nat),
                    }
                }
            }
        }
    }
}

/// Binds each parameter in turn: the parameter must be a symbol, the
/// argument expression is evaluated in the caller's scope, and the result
/// is bound in the child scope.
pub open spec fn seval_bind_args(
    m: MachineVal,
    caller: int,
    child: int,
    params: Seq<Val>,
    args: Seq<Val>,
    idx: int,
    fuel: nat,
) -> (MachineVal, Result<(), ErrVal>)
    decreases fuel, 0int, params.len() - idx,
{
    if fuel == 0 {
        (m, Err(ErrVal::DepthExceeded))
    } else {
        if idx < 0 || idx >= params.len() || params.len() != args.len() {
            (m, Ok(()))
        } else {
            match params[idx] {
                Val::Symbol(s) => {
                    let (m1, r) = seval(m, caller, args[idx], (fuel - 1) as nat);
                    match r {
                        Err(e) => (m1, Err(e)),
                        Ok(v) => seval_bind_args(
                            m_set(m1, child, s, v),
                            caller,
                            child,
                            params,
                            args,
                            idx + 1,
                            fuel,
                        ),
                    }
                }
                _ => (m, Err(ErrVal::TypeMismatch("fn*"@))),
            }
        }
    }
}

/// Binds the `let*` pairs in order: each name must be a symbol, each value
/// expression is evaluated in the child scope, so later pairs see earlier
/// ones.
pub open spec fn seval_bindings(
    m: MachineVal,
    child: int,
    defs: Seq<Val>,
    idx: int,
    fuel: nat,
) -> (MachineVal, Result<(), ErrVal>)
    decreases fuel, 0int, defs.len() - idx,
{
    if fuel == 0 {
        (m, Err(ErrVal::DepthExceeded))
    } else {
        if idx < 0 || idx + 2 > defs.len() {
            (m, Ok(()))
        } else {
            match defs[idx] {
                Val::Symbol(s) => {
                    let (m1, r) = seval(m, child, defs[idx + 1], (fuel - 1) as nat);
                    match r {
                        Err(e) => (m1, Err(e)),
                        Ok(v) => seval_bindings(m_set(m1, child, s, v), child, defs, idx + 2, fuel),
                    }
                }
                _ => (
                    m,
                    Err(ErrVal::MalformedSpecialForm("let*"@, "each bound name must be a symbol"@)),
                ),
            }
        }
    }
}

/// Evaluates `items[idx..]` left to right, discarding all but the last
/// result.
pub open spec fn seval_do(m: MachineVal, env: int, items: Seq<Val>, idx: int, fuel: nat) -> (
    MachineVal,
    Result<Val, ErrVal>,
)
    decreases fuel, 0int, items.len() - idx,
{
    if fuel == 0 {
        (m, Err(ErrVal::DepthExceeded))
    } else {
        if idx < 1 || idx >= items.len() {
            (m, Ok(Val::Nil))
        } else {
            let (m1, r) = seval(m, env, items[idx], (fuel - 1) as nat);
            if idx == items.len() - 1 {
                (m1, r)
            } else {
                match r {
                    Err(e) => (m1, Err(e)),
                    Ok(_) => seval_do(m1, env, items, idx + 1, fuel),
                }
            }
        }
    }
}

/// A two-operand boolean form: both operands always evaluate, in order,
/// and each must be a boolean.
pub open spec fn seval_bool2(
    m: MachineVal,
    env: int,
    items: Seq<Val>,
    op: BoolOp,
    fuel: nat,
) -> (MachineVal, Result<Val, ErrVal>)
    decreases fuel, 1int, 0int,
{
    if fuel == 0 {
        (m, Err(ErrVal::DepthExceeded))
    } else {
        if items.len() != 3 {
            (m, Err(ErrVal::MalformedSpecialForm(bool2_name(op), "expected two arguments"@)))
        } else {
            let (m1, r1) = seval(m, env, items[1], (fuel - 1) as nat);
            match r1 {
                Err(e) => (m1, Err(e)),
                Ok(Val::Bool(a)) => {
                    let (m2, r2) = seval(m1, env, items[2], (fuel - 1) as nat);
                    match r2 {
                        Err(e) => (m2, Err(e)),
                        Ok(Val::Bool(b)) => (m2, Ok(Val::Bool(bool2_apply(op, a, b)))),
                        Ok(_) => (m2, Err(ErrVal::TypeMismatch(bool2_name(op)))),
                    }
                }
                Ok(_) => (m1, Err(ErrVal::TypeMismatch(bool2_name(op)))),
            }
        }
    }
}

/// Dispatch over the special forms, on the raw head symbol.
pub open spec fn seval_form(
    m: MachineVal,
    env: int,
    name: Seq<char>,
    items: Seq<Val>,
    fuel: nat,
) -> (MachineVal, Result<Val, ErrVal>)
    decreases fuel, 2int, 0int,
{
    if fuel == 0 {
        (m, Err(ErrVal::DepthExceeded))
    } else {
        if name == "def!"@ {
            if items.len() != 3 {
                (m, Err(ErrVal::MalformedSpecialForm("def!"@, "expected two arguments"@)))
            } else {
                match items[1] {
                    Val::Symbol(s) => {
                        let (m1, r) = seval(m, env, items[2], (fuel - 1) as nat);
                        match r {
                            Err(e) => (m1, Err(e)),
                            Ok(v) => (m_set(m1, env, s, v), Ok(v)),
                        }
                    }
                    _ => (
                        m,
                        Err(ErrVal::MalformedSpecialForm("def!"@, "the name must be a symbol"@)),
                    ),
                }
            }
        } else if name == "let*"@ {
            if items.len() != 3 {
                (m, Err(ErrVal::MalformedSpecialForm("let*"@, "expected two arguments"@)))
            } else {
                match items[1] {
                    Val::List(defs) => {
                        if defs.len() % 2 != 0 {
                            (
                                m,
                                Err(
                                    ErrVal::MalformedSpecialForm(
                                        "let*"@,
                                        "odd number of binding forms"@,
                                    ),
                                ),
                            )
                        } else {
                            let child = m.envs.len() as int;
                            let m1 = m_push(m, env);
                            let (m2, r) = seval_bindings(m1, child, defs, 0, fuel);
                            match r {
                                Err(e) => (m2, Err(e)),
                                Ok(_) => seval(m2, child, items[2], (fuel - 1) as nat),
                            }
                        }
                    }
                    _ => (
                        m,
                        Err(ErrVal::MalformedSpecialForm("let*"@, "the bindings must be a list"@)),
                    ),
                }
            }
        } else if name == "fn*"@ {
            if items.len() != 3 {
                (m, Err(ErrVal::MalformedSpecialForm("fn*"@, "expected two arguments"@)))
            } else {
                match items[1] {
                    Val::List(params) => (
                        m,
                        Ok(
                            Val::Func(
                                FuncVal {
                                    body: Box::new(items[2]),
                                    args: params,
                                    op: None,
                                    env,
                                },
                            ),
                        ),
                    ),
                    _ => (
                        m,
                        Err(ErrVal::MalformedSpecialForm("fn*"@, "the parameters must be a list"@)),
                    ),
                }
            }
        } else if name == "do"@ {
            if items.len() < 2 {
                (m, Err(ErrVal::MalformedSpecialForm("do"@, "at least one form is needed"@)))
            } else {
                seval_do(m, env, items, 1, fuel)
            }
        } else if name == "if"@ {
            if items.len() != 3 && items.len() != 4 {
                (m, Err(ErrVal::MalformedSpecialForm("if"@, "two or three arguments are needed"@)))
            } else {
                let (m1, r) = seval(m, env, items[1], (fuel - 1) as nat);
                match r {
                    Err(e) => (m1, Err(e)),
                    Ok(c) => {
                        if c == Val::Nil || c == Val::Bool(false) {
                            if items.len() == 4 {
                                seval(m1, env, items[3], (fuel - 1) as nat)
                            } else {
                                (m1, Ok(Val::Nil))
                            }
                        } else {
                            seval(m1, env, items[2], (fuel - 1) as nat)
                        }
                    }
                }
            }
        } else if name == "prn"@ {
            if items.len() != 2 {
                (m, Err(ErrVal::MalformedSpecialForm("prn"@, "expected one argument"@)))
            } else {
                let (m1, r) = seval(m, env, items[1], (fuel - 1) as nat);
                match r {
                    Err(e) => (m1, Err(e)),
                    Ok(v) => (m_print(m1, render(v)), Ok(Val::Nil)),
                }
            }
        } else if name == "list"@ {
            (m, Ok(Val::List(items.skip(1))))
        } else if name == "list?"@ {
            if items.len() != 2 {
                (m, Err(ErrVal::MalformedSpecialForm("list?"@, "expected one argument"@)))
            } else {
                let (m1, r) = seval(m, env, items[1], (fuel - 1) as nat);
                match r {
                    Err(e) => (m1, Err(e)),
                    Ok(v) => (m1, Ok(Val::Bool(v is List))),
                }
            }
        } else if name == "empty?"@ {
            if items.len() != 2 {
                (m, Err(ErrVal::MalformedSpecialForm("empty?"@, "expected one argument"@)))
            } else {
                let (m1, r) = seval(m, env, items[1], (fuel - 1) as nat);
                match r {
                    Err(e) => (m1, Err(e)),
                    Ok(Val::List(xs)) => (m1, Ok(Val::Bool(xs.len() == 0))),
                    Ok(_) => (m1, Err(ErrVal::TypeMismatch("empty?"@))),
                }
            }
        } else if name == "count"@ {
            if items.len() != 2 {
                (m, Err(ErrVal::MalformedSpecialForm("count"@, "expected one argument"@)))
            } else {
                let (m1, r) = seval(m, env, items[1], (fuel - 1) as nat);
                match r {
                    Err(e) => (m1, Err(e)),
                    Ok(Val::List(xs)) => if xs.len() <= i32::MAX {
                        (m1, Ok(Val::Int(xs.len() as i32)))
                    } else {
                        (m1, Err(ErrVal::TypeMismatch("count"@)))
                    },
                    Ok(_) => (m1, Err(ErrVal::TypeMismatch("count"@))),
                }
            }
        } else if name == "type?"@ {
            if items.len() != 3 {
                (m, Err(ErrVal::MalformedSpecialForm("type?"@, "expected two arguments"@)))
            } else {
                let (m1, r1) = seval(m, env, items[1], (fuel - 1) as nat);
                match r1 {
                    Err(e) => (m1, Err(e)),
                    Ok(a) => {
                        let (m2, r2) = seval(m1, env, items[2], (fuel - 1) as nat);
                        match r2 {
                            Err(e) => (m2, Err(e)),
                            Ok(b) => (m2, Ok(Val::Bool(same_tag(a, b)))),
                        }
                    }
                }
            }
        } else if name == "and"@ || name == "&&"@ {
            seval_bool2(m, env, items, BoolOp::And, fuel)
        } else if name == "or"@ || name == "||"@ {
            seval_bool2(m, env, items, BoolOp::Or, fuel)
        } else if name == "xor"@ || name == "^"@ {
            seval_bool2(m, env, items, BoolOp::Xor, fuel)
        } else if name == "not"@ || name == "!"@ {
            if items.len() != 2 {
                (m, Err(ErrVal::MalformedSpecialForm("not"@, "expected one argument"@)))
            } else {
                let (m1, r) = seval(m, env, items[1], (fuel - 1) as nat);
                match r {
                    Err(e) => (m1, Err(e)),
                    Ok(Val::Bool(a)) => (m1, Ok(Val::Bool(!a))),
                    Ok(_) => (m1, Err(ErrVal::TypeMismatch("not"@))),
                }
            }
        } else {
            (m, Err(ErrVal::TypeMismatch("evaluate"@)))
        }
    }
}


/// The special form names are pairwise distinct, so the dispatch chain
/// resolves.
pub proof fn lemma_form_names()
    ensures
        "let*"@ != "def!"@,
        "fn*"@ != "def!"@,
        "fn*"@ != "let*"@,
        "do"@ != "def!"@,
        "do"@ != "let*"@,
        "do"@ != "fn*"@,
        "if"@ != "def!"@,
        "if"@ != "let*"@,
        "if"@ != "fn*"@,
        "if"@ != "do"@,
        "prn"@ != "def!"@,
        "prn"@ != "let*"@,
        "prn"@ != "fn*"@,
        "prn"@ != "do"@,
        "prn"@ != "if"@,
        "list"@ != "def!"@,
        "list"@ != "let*"@,
        "list"@ != "fn*"@,
        "list"@ != "do"@,
        "list"@ != "if"@,
        "list"@ != "prn"@,
        "list?"@ != "def!"@,
        "list?"@ != "let*"@,
        "list?"@ != "fn*"@,
        "list?"@ != "do"@,
        "list?"@ != "if"@,
        "list?"@ != "prn"@,
        "list?"@ != "list"@,
        "empty?"@ != "def!"@,
        "empty?"@ != "let*"@,
        "empty?"@ != "fn*"@,
        "empty?"@ != "do"@,
        "empty?"@ != "if"@,
        "empty?"@ != "prn"@,
        "empty?"@ != "list"@,
        "empty?"@ != "list?"@,
        "count"@ != "def!"@,
        "count"@ != "let*"@,
        "count"@ != "fn*"@,
        "count"@ != "do"@,
        "count"@ != "if"@,
        "count"@ != "prn"@,
        "count"@ != "list"@,
        "count"@ != "list?"@,
        "count"@ != "empty?"@,
        "type?"@ != "def!"@,
        "type?"@ != "let*"@,
        "type?"@ != "fn*"@,
        "type?"@ != "do"@,
        "type?"@ != "if"@,
        "type?"@ != "prn"@,
        "type?"@ != "list"@,
        "type?"@ != "list?"@,
        "type?"@ != "empty?"@,
        "type?"@ != "count"@,
        "and"@ != "def!"@,
        "and"@ != "let*"@,
        "and"@ != "fn*"@,
        "and"@ != "do"@,
        "and"@ != "if"@,
        "and"@ != "prn"@,
        "and"@ != "list"@,
        "and"@ != "list?"@,
        "and"@ != "empty?"@,
        "and"@ != "count"@,
        "and"@ != "type?"@,
        "&&"@ != "def!"@,
        "&&"@ != "let*"@,
        "&&"@ != "fn*"@,
        "&&"@ != "do"@,
        "&&"@ != "if"@,
        "&&"@ != "prn"@,
        "&&"@ != "list"@,
        "&&"@ != "list?"@,
        "&&"@ != "empty?"@,
        "&&"@ != "count"@,
        "&&"@ != "type?"@,
        "&&"@ != "and"@,
        "or"@ != "def!"@,
        "or"@ != "let*"@,
        "or"@ != "fn*"@,
        "or"@ != "do"@,
        "or"@ != "if"@,
        "or"@ != "prn"@,
        "or"@ != "list"@,
        "or"@ != "list?"@,
        "or"@ != "empty?"@,
        "or"@ != "count"@,
        "or"@ != "type?"@,
        "or"@ != "and"@,
        "or"@ != "&&"@,
        "||"@ != "def!"@,
        "||"@ != "let*"@,
        "||"@ != "fn*"@,
        "||"@ != "do"@,
        "||"@ != "if"@,
        "||"@ != "prn"@,
        "||"@ != "list"@,
        "||"@ != "list?"@,
        "||"@ != "empty?"@,
        "||"@ != "count"@,
        "||"@ != "type?"@,
        "||"@ != "and"@,
        "||"@ != "&&"@,
        "||"@ != "or"@,
        "xor"@ != "def!"@,
        "xor"@ != "let*"@,
        "xor"@ != "fn*"@,
        "xor"@ != "do"@,
        "xor"@ != "if"@,
        "xor"@ != "prn"@,
        "xor"@ != "list"@,
        "xor"@ != "list?"@,
        "xor"@ != "empty?"@,
        "xor"@ != "count"@,
        "xor"@ != "type?"@,
        "xor"@ != "and"@,
        "xor"@ != "&&"@,
        "xor"@ != "or"@,
        "xor"@ != "||"@,
        "^"@ != "def!"@,
        "^"@ != "let*"@,
        "^"@ != "fn*"@,
        "^"@ != "do"@,
        "^"@ != "if"@,
        "^"@ != "prn"@,
        "^"@ != "list"@,
        "^"@ != "list?"@,
        "^"@ != "empty?"@,
        "^"@ != "count"@,
        "^"@ != "type?"@,
        "^"@ != "and"@,
        "^"@ != "&&"@,
        "^"@ != "or"@,
        "^"@ != "||"@,
        "^"@ != "xor"@,
        "not"@ != "def!"@,
        "not"@ != "let*"@,
        "not"@ != "fn*"@,
        "not"@ != "do"@,
        "not"@ != "if"@,
        "not"@ != "prn"@,
        "not"@ != "list"@,
        "not"@ != "list?"@,
        "not"@ != "empty?"@,
        "not"@ != "count"@,
        "not"@ != "type?"@,
        "not"@ != "and"@,
        "not"@ != "&&"@,
        "not"@ != "or"@,
        "not"@ != "||"@,
        "not"@ != "xor"@,
        "not"@ != "^"@,
        "!"@ != "def!"@,
        "!"@ != "let*"@,
        "!"@ != "fn*"@,
        "!"@ != "do"@,
        "!"@ != "if"@,
        "!"@ != "prn"@,
        "!"@ != "list"@,
        "!"@ != "list?"@,
        "!"@ != "empty?"@,
        "!"@ != "count"@,
        "!"@ != "type?"@,
        "!"@ != "and"@,
        "!"@ != "&&"@,
        "!"@ != "or"@,
        "!"@ != "||"@,
        "!"@ != "xor"@,
        "!"@ != "^"@,
        "!"@ != "not"@,
{
    reveal_strlit("def!");
    reveal_strlit("let*");
    reveal_strlit("fn*");
    reveal_strlit("do");
    reveal_strlit("if");
    reveal_strlit("prn");
    reveal_strlit("list");
    reveal_strlit("list?");
    reveal_strlit("empty?");
    reveal_strlit("count");
    reveal_strlit("type?");
    reveal_strlit("and");
    reveal_strlit("&&");
    reveal_strlit("or");
    reveal_strlit("||");
    reveal_strlit("xor");
    reveal_strlit("^");
    reveal_strlit("not");
    reveal_strlit("!");
    assert(("let*"@)[0] == 'l');
    assert(("def!"@)[0] == 'd');
    assert(("fn*"@).len() == 3);
    assert(("def!"@).len() == 4);
    assert(("let*"@).len() == 4);
    assert(("do"@).len() == 2);
    assert(("if"@).len() == 2);
    assert(("if"@)[0] == 'i');
    assert(("do"@)[0] == 'd');
    assert(("prn"@).len() == 3);
    assert(("prn"@)[0] == 'p');
    assert(("fn*"@)[0] == 'f');
    assert(("list"@)[0] == 'l');
    assert(("list"@)[1] == 'i');
    assert(("let*"@)[1] == 'e');
    assert(("list"@).len() == 4);
    assert(("list?"@).len() == 5);
    assert(("empty?"@).len() == 6);
    assert(("count"@).len() == 5);
    assert(("count"@)[0] == 'c');
    assert(("list?"@)[0] == 'l');
    assert(("type?"@).len() == 5);
    assert(("type?"@)[0] == 't');
    assert(("and"@).len() == 3);
    assert(("and"@)[0] == 'a');
    assert(("&&"@).len() == 2);
    assert(("&&"@)[0] == '&');
    assert(("or"@).len() == 2);
    assert(("or"@)[0] == 'o');
    assert(("||"@).len() == 2);
    assert(("||"@)[0] == '|');
    assert(("xor"@).len() == 3);
    assert(("xor"@)[0] == 'x');
    assert(("^"@).len() == 1);
    assert(("not"@).len() == 3);
    assert(("not"@)[0] == 'n');
    assert(("!"@).len() == 1);
    assert(("!"@)[0] == '!');
    assert(("^"@)[0] == '^');
}

} // verus!
