use crate::env::{arena_ok, arena_view, chain_find, push_scope, root_arena, Env};
use crate::errors::{malformed, type_mismatch, LispError};
use crate::func::{FuncVal, LispFunc};
use crate::lisp_type::{duplicate_vec, val_of, vals_seq, LispType, Val};
use crate::operator::{apply_native, init_operator_funcs, res_matches, spec_apply, with_ops, NativeOp};
use crate::semantics::{
    bool2_name, is_special, lemma_chain_find_wf, lemma_form_names, lemma_m_push_wf,
    lemma_m_set_wf, lemma_val_wf_mono, lemma_vals_wf_index, lemma_vals_wf_mono, m_print, m_push, m_set,
    machine_wf, same_tag, seval, seval_bind_args, seval_bindings, seval_bool2,
    seval_call, seval_do, seval_form, seval_head_call, val_wf, vals_wf, BoolOp, MachineVal,
};
use crate::text::str_eq;
use vstd::prelude::*;

verus! {

broadcast use vstd::std_specs::vec::group_vec_axioms;

/// The mutable state of one session: the scope arena, and the lines that
/// `prn` has printed, in order of printing.
pub struct Machine {
    pub envs: Vec<Env>,
    pub out: Vec<String>,
}

impl View for Machine {
    type V = MachineVal;

    open spec fn view(&self) -> MachineVal {
        MachineVal {
            envs: arena_view(self.envs@),
            out: Seq::new(self.out@.len(), |i: int| self.out@[i]@),
        }
    }
}

/// Session well-formedness: the arena representation and the machine model
/// are both well formed.
pub open spec fn machine_ok(m: Machine) -> bool {
    arena_ok(m.envs@) && machine_wf(m@)
}

/// An operator's function value is well formed in any arena that holds its
/// captured scope.
proof fn lemma_op_func_wf(op: NativeOp, env: int, n: int)
    requires
        0 <= env < n,
    ensures
        val_wf(crate::operator::op_func(op, env), n),
{
    let f = crate::operator::op_func(op, env);
    let args = f->Func_0.args;
    assert(args[0] == Val::Nil && args[1] == Val::Nil);
    assert(val_wf(Val::Nil, n));
    assert(vals_wf(args, 2, n));
    assert(vals_wf(args, 1, n));
    assert(vals_wf(args, 0, n));
    let body = *f->Func_0.body;
    assert(vals_wf(body->List_0, 0, n));
    assert(val_wf(body, n));
}

/// Ok results of the native operators are integers or booleans, well
/// formed anywhere.
proof fn lemma_spec_apply_wf(op: NativeOp, a: Val, b: Val, n: int)
    ensures
        spec_apply(op, a, b) matches Ok(v) ==> val_wf(v, n),
{
    match spec_apply(op, a, b) {
        Ok(v) => {
            assert(v is Int || v is Bool);
        }
        Err(_) => {}
    }
}

/// Element-wise well-formedness, phrased over the expression vector, so a
/// sub-expression's model is covered at its use site.
proof fn lemma_vals_wf_exec(items: Seq<LispType>, n: int)
    requires
        vals_wf(vals_seq(items), 0, n),
    ensures
        forall|i: int| 0 <= i < items.len() ==> val_wf(val_of(#[trigger] items[i]), n),
{
    lemma_vals_wf_index(vals_seq(items), 0, n);
    assert forall|i: int| 0 <= i < items.len() implies val_wf(val_of(items[i]), n) by {
        assert(val_wf(vals_seq(items)[i], n));
    }
}

impl Machine {
    /// A fresh session: one root scope holding the nine operators, nothing
    /// printed yet.  Returns the machine and the root handle.
    pub fn boot() -> (r: (Machine, usize))
        ensures
            machine_ok(r.0),
            r.1 == 0,
            r.0@.envs.len() == 1,
            r.0@.envs[0].parent is None,
            r.0@.envs[0].vars == with_ops(Map::empty(), 0),
            r.0@.out == Seq::<Seq<char>>::empty(),
    {
        let (mut envs, root) = root_arena();
        init_operator_funcs(&mut envs, root);
        let m = Machine { envs, out: Vec::new() };
        proof {
            assert(m@.out =~= Seq::<Seq<char>>::empty());
            let vars = m@.envs[0].vars;
            assert forall|k: Seq<char>| #[trigger] vars.contains_key(k) implies val_wf(
                vars[k],
                1,
            ) by {
                lemma_op_func_wf(NativeOp::Add, 0, 1);
                lemma_op_func_wf(NativeOp::Sub, 0, 1);
                lemma_op_func_wf(NativeOp::Mul, 0, 1);
                lemma_op_func_wf(NativeOp::Div, 0, 1);
                lemma_op_func_wf(NativeOp::Eq, 0, 1);
                lemma_op_func_wf(NativeOp::Lt, 0, 1);
                lemma_op_func_wf(NativeOp::Lte, 0, 1);
                lemma_op_func_wf(NativeOp::Gt, 0, 1);
                lemma_op_func_wf(NativeOp::Gte, 0, 1);
            }
        }
        (m, root)
    }

    /// Binds `key` to `value` in the scope `env` alone.
    fn set_var(&mut self, env: usize, key: &str, value: LispType)
        requires
            machine_ok(*old(self)),
            env < old(self)@.envs.len(),
            val_wf(value@, old(self)@.envs.len() as int),
        ensures
            machine_ok(*final(self)),
            final(self)@ == m_set(old(self)@, env as int, key@, value@),
    {
        let ghost pre = self@;
        let ghost v = value@;
        let scope = &mut self.envs[env];
        scope.set(key, value);
        proof {
            assert(self@.envs =~= m_set(pre, env as int, key@, v).envs);
            assert(self@.out =~= pre.out);
            assert(self@ == m_set(pre, env as int, key@, v));
            lemma_m_set_wf(pre, env as int, key@, v);
            assert forall|i: int| 0 <= i < self.envs@.len() implies (#[trigger] self.envs@[i]).wf()
                && (self.envs@[i]@.parent matches Some(p) ==> 0 <= p < i) by {
                if i != env {
                    assert(self.envs@[i] == old(self).envs@[i]);
                }
            }
        }
    }

    /// Appends a fresh scope under `parent`; returns its handle.
    fn push_child(&mut self, parent: usize) -> (id: usize)
        requires
            machine_ok(*old(self)),
            parent < old(self)@.envs.len(),
        ensures
            machine_ok(*final(self)),
            final(self)@ == m_push(old(self)@, parent as int),
            id == old(self)@.envs.len(),
            final(self)@.envs.len() == old(self)@.envs.len() + 1,
    {
        let ghost pre = self@;
        let id = push_scope(&mut self.envs, parent);
        proof {
            assert(self@.envs =~= m_push(pre, parent as int).envs);
            assert(self@.out =~= pre.out);
            assert(self@ == m_push(pre, parent as int));
            lemma_m_push_wf(pre, parent as int);
        }
        id
    }

    /// Records one printed line.
    fn emit(&mut self, text: String)
        requires
            machine_ok(*old(self)),
        ensures
            machine_ok(*final(self)),
            final(self)@ == m_print(old(self)@, text@),
    {
        let ghost pre = self@;
        self.out.push(text);
        proof {
            assert(self@.out =~= m_print(pre, text@).out);
            assert(self@.envs =~= pre.envs);
            assert(self@ == m_print(pre, text@));
        }
    }

    /// Chain lookup from the scope `env`, innermost match first.
    fn lookup(&self, env: usize, key: &str) -> (r: Option<LispType>)
        requires
            machine_ok(*self),
            env < self@.envs.len(),
        ensures
            match r {
                Some(v) => chain_find(self@.envs, env as int, key@) == Some(v@) && val_wf(
                    v@,
                    self@.envs.len() as int,
                ),
                None => chain_find(self@.envs, env as int, key@) is None,
            },
    {
        let r = Env::find(&self.envs, env, key);
        proof {
            lemma_chain_find_wf(self@, env as int, key@);
        }
        r
    }
}

/// Whether `name` is one of the reserved special form heads.
fn is_special_name(name: &str) -> (r: bool)
    ensures
        r == is_special(name@),
{
    str_eq(name, "def!") || str_eq(name, "let*") || str_eq(name, "fn*") || str_eq(name, "do")
        || str_eq(name, "if") || str_eq(name, "prn") || str_eq(name, "list") || str_eq(
        name,
        "list?",
    ) || str_eq(name, "empty?") || str_eq(name, "count") || str_eq(name, "type?") || str_eq(
        name,
        "and",
    ) || str_eq(name, "&&") || str_eq(name, "or") || str_eq(name, "||") || str_eq(name, "xor")
        || str_eq(name, "^") || str_eq(name, "not") || str_eq(name, "!")
}

/// Clones `items[from..]` into a fresh vector.
fn clone_tail(items: &Vec<LispType>, from: usize) -> (r: Vec<LispType>)
    requires
        from <= items@.len(),
    ensures
        vals_seq(r@) == vals_seq(items@).skip(from as int),
{
    let mut out: Vec<LispType> = Vec::new();
    let mut i: usize = from;
    while i < items.len()
        invariant
            from <= i <= items@.len(),
            out@.len() == i - from,
            forall|j: int|
                0 <= j < out@.len() ==> val_of(#[trigger] out@[j]) == val_of(items@[from + j]),
        decreases items@.len() - i,
    {
        out.push(items[i].clone());
        i = i + 1;
    }
    proof {
        assert(vals_seq(out@) =~= vals_seq(items@).skip(from as int));
    }
    out
}

/// Whether two values carry the same variant tag.
fn tag_eq(a: &LispType, b: &LispType) -> (r: bool)
    ensures
        r == same_tag(a@, b@),
{
    match (a, b) {
        (LispType::Func(_), LispType::Func(_)) => true,
        (LispType::List(_), LispType::List(_)) => true,
        (LispType::Int(_), LispType::Int(_)) => true,
        (LispType::Symbol(_), LispType::Symbol(_)) => true,
        (LispType::Str(_), LispType::Str(_)) => true,
        (LispType::Bool(_), LispType::Bool(_)) => true,
        (LispType::Nil, LispType::Nil) => true,
        _ => false,
    }
}

/// The `def!` form: `(def! sym expr)` binds `sym` in the current scope to
/// the value of `expr` and returns that value.
fn eval_def(m: &mut Machine, env: usize, items: &Vec<LispType>, fuel: u64) -> (r: Result<
    LispType,
    LispError,
>)
    requires
        machine_ok(*old(m)),
        env < old(m)@.envs.len(),
        fuel >= 1,
        vals_wf(vals_seq(items@), 0, old(m)@.envs.len() as int),
    ensures
        machine_ok(*final(m)),
        old(m)@.envs.len() <= final(m)@.envs.len(),
        final(m)@ == seval_form(old(m)@, env as int, "def!"@, vals_seq(items@), fuel as nat).0,
        res_matches(r, seval_form(old(m)@, env as int, "def!"@, vals_seq(items@), fuel as nat).1),
        r matches Ok(v) ==> val_wf(v@, final(m)@.envs.len() as int),
    decreases fuel, 2int, 0int,
{
    proof {
        lemma_form_names();
    }
    let ghost model = vals_seq(items@);
    let ghost n = old(m)@.envs.len() as int;
    if items.len() != 3 {
        return Err(malformed("def!", "expected two arguments"));
    }
    proof {
        lemma_vals_wf_exec(items@, n);
    }
    match &items[1] {
        LispType::Symbol(s) => {
            match items[2].evaluate(m, env, fuel - 1) {
                Err(e) => Err(e),
                Ok(v) => {
                    let copy = v.clone();
                    m.set_var(env, s.as_str(), copy);
                    Ok(v)
                }
            }
        }
        _ => Err(malformed("def!", "the name must be a symbol")),
    }
}

/// The `let*` binding walk: binds each `(sym expr)` pair in the child
/// scope in order, so later pairs see earlier ones.
fn eval_bindings(m: &mut Machine, child: usize, defs: &Vec<LispType>, idx: usize, fuel: u64) -> (r:
    Result<(), LispError>)
    requires
        machine_ok(*old(m)),
        child < old(m)@.envs.len(),
        fuel >= 1,
        idx <= defs@.len(),
        vals_wf(vals_seq(defs@), 0, old(m)@.envs.len() as int),
    ensures
        machine_ok(*final(m)),
        old(m)@.envs.len() <= final(m)@.envs.len(),
        final(m)@ == seval_bindings(
            old(m)@,
            child as int,
            vals_seq(defs@),
            idx as int,
            fuel as nat,
        ).0,
        ({
            let s = seval_bindings(old(m)@, child as int, vals_seq(defs@), idx as int, fuel as nat).1;
            match r {
                Ok(_) => s is Ok,
                Err(e) => s matches Err(f) && e@ == f,
            }
        }),
    decreases fuel, 0int, defs@.len() - idx,
{
    let ghost model = vals_seq(defs@);
    let ghost n = old(m)@.envs.len() as int;
    if idx >= defs.len() || idx + 1 >= defs.len() {
        return Ok(());
    }
    proof {
        lemma_vals_wf_exec(defs@, n);
    }
    match &defs[idx] {
        LispType::Symbol(s) => {
            match defs[idx + 1].evaluate(m, child, fuel - 1) {
                Err(e) => Err(e),
                Ok(v) => {
                    m.set_var(child, s.as_str(), v);
                    proof {
                        lemma_vals_wf_mono(vals_seq(defs@), 0, n, m@.envs.len() as int);
                    }
                    eval_bindings(m, child, defs, idx + 2, fuel)
                }
            }
        }
        _ => Err(malformed("let*", "each bound name must be a symbol")),
    }
}

/// The `let*` form: `(let* (s1 v1 ...) body)` evaluates the pairs in a
/// fresh child scope and the body in that scope.
fn eval_let(m: &mut Machine, env: usize, items: &Vec<LispType>, fuel: u64) -> (r: Result<
    LispType,
    LispError,
>)
    requires
        machine_ok(*old(m)),
        env < old(m)@.envs.len(),
        fuel >= 1,
        vals_wf(vals_seq(items@), 0, old(m)@.envs.len() as int),
    ensures
        machine_ok(*final(m)),
        old(m)@.envs.len() <= final(m)@.envs.len(),
        final(m)@ == seval_form(old(m)@, env as int, "let*"@, vals_seq(items@), fuel as nat).0,
        res_matches(r, seval_form(old(m)@, env as int, "let*"@, vals_seq(items@), fuel as nat).1),
        r matches Ok(v) ==> val_wf(v@, final(m)@.envs.len() as int),
    decreases fuel, 2int, 0int,
{
    proof {
        lemma_form_names();
    }
    let ghost model = vals_seq(items@);
    let ghost n = old(m)@.envs.len() as int;
    if items.len() != 3 {
        return Err(malformed("let*", "expected two arguments"));
    }
    proof {
        lemma_vals_wf_exec(items@, n);
    }
    match &items[1] {
        LispType::List(defs) => {
            if defs.len() % 2 != 0 {
                return Err(malformed("let*", "odd number of binding forms"));
            }
            proof {
                assert(model[1]->List_0 =~= vals_seq(defs@));
            }
            let child = m.push_child(env);
            proof {
                let n2 = m@.envs.len() as int;
                lemma_vals_wf_mono(model, 0, n, n2);
                lemma_vals_wf_index(model, 0, n2);
                assert(val_wf(model[1], n2));
                assert(vals_wf(vals_seq(defs@), 0, n2));
            }
            match eval_bindings(m, child, defs, 0, fuel) {
                Err(e) => Err(e),
                Ok(_) => {
                    proof {
                        lemma_vals_wf_mono(model, 0, n, m@.envs.len() as int);
                        lemma_vals_wf_exec(items@, m@.envs.len() as int);
                    }
                    items[2].evaluate(m, child, fuel - 1)
                }
            }
        }
        _ => Err(malformed("let*", "the bindings must be a list")),
    }
}

/// The `fn*` form: `(fn* (p1 ...) body)` builds a closure over the current
/// scope; the body stays unevaluated until a call.
fn eval_fn_star(m: &mut Machine, env: usize, items: &Vec<LispType>, fuel: u64) -> (r: Result<
    LispType,
    LispError,
>)
    requires
        machine_ok(*old(m)),
        env < old(m)@.envs.len(),
        fuel >= 1,
        vals_wf(vals_seq(items@), 0, old(m)@.envs.len() as int),
    ensures
        machine_ok(*final(m)),
        old(m)@.envs.len() <= final(m)@.envs.len(),
        final(m)@ == seval_form(old(m)@, env as int, "fn*"@, vals_seq(items@), fuel as nat).0,
        res_matches(r, seval_form(old(m)@, env as int, "fn*"@, vals_seq(items@), fuel as nat).1),
        r matches Ok(v) ==> val_wf(v@, final(m)@.envs.len() as int),
    decreases fuel, 2int, 0int,
{
    proof {
        lemma_form_names();
    }
    let ghost model = vals_seq(items@);
    let ghost n = old(m)@.envs.len() as int;
    if items.len() != 3 {
        return Err(malformed("fn*", "expected two arguments"));
    }
    proof {
        lemma_vals_wf_exec(items@, n);
    }
    match &items[1] {
        LispType::List(params) => {
            let ps = duplicate_vec(params);
            let body = Box::new(items[2].clone());
            let f = LispFunc { body, args: ps, operator_func: None, internal_env: env };
            proof {
                assert(f@.args =~= model[1]->List_0);
                assert(*f@.body == model[2]);
                assert(f@ == (FuncVal {
                    body: Box::new(model[2]),
                    args: model[1]->List_0,
                    op: None::<NativeOp>,
                    env: env as int,
                }));
            }
            Ok(LispType::Func(f))
        }
        _ => Err(malformed("fn*", "the parameters must be a list")),
    }
}

/// The `do` walk: evaluates `items[idx..]` left to right and keeps only
/// the last result.
fn eval_do_seq(m: &mut Machine, env: usize, items: &Vec<LispType>, idx: usize, fuel: u64) -> (r:
    Result<LispType, LispError>)
    requires
        machine_ok(*old(m)),
        env < old(m)@.envs.len(),
        fuel >= 1,
        1 <= idx < items@.len(),
        vals_wf(vals_seq(items@), 0, old(m)@.envs.len() as int),
    ensures
        machine_ok(*final(m)),
        old(m)@.envs.len() <= final(m)@.envs.len(),
        final(m)@ == seval_do(old(m)@, env as int, vals_seq(items@), idx as int, fuel as nat).0,
        res_matches(
            r,
            seval_do(old(m)@, env as int, vals_seq(items@), idx as int, fuel as nat).1,
        ),
        r matches Ok(v) ==> val_wf(v@, final(m)@.envs.len() as int),
    decreases fuel, 0int, items@.len() - idx,
{
    proof {
        lemma_form_names();
    }
    let ghost model = vals_seq(items@);
    let ghost n = old(m)@.envs.len() as int;
    proof {
        lemma_vals_wf_exec(items@, n);
    }
    let res = items[idx].evaluate(m, env, fuel - 1);
    if idx == items.len() - 1 {
        res
    } else {
        match res {
            Err(e) => Err(e),
            Ok(_) => {
                proof {
                    lemma_vals_wf_mono(model, 0, n, m@.envs.len() as int);
                }
                eval_do_seq(m, env, items, idx + 1, fuel)
            }
        }
    }
}

/// The `do` form: `(do e1 ... en)` evaluates each form for effect and
/// returns the last one's value.
fn eval_do(m: &mut Machine, env: usize, items: &Vec<LispType>, fuel: u64) -> (r: Result<
    LispType,
    LispError,
>)
    requires
        machine_ok(*old(m)),
        env < old(m)@.envs.len(),
        fuel >= 1,
        vals_wf(vals_seq(items@), 0, old(m)@.envs.len() as int),
    ensures
        machine_ok(*final(m)),
        old(m)@.envs.len() <= final(m)@.envs.len(),
        final(m)@ == seval_form(old(m)@, env as int, "do"@, vals_seq(items@), fuel as nat).0,
        res_matches(r, seval_form(old(m)@, env as int, "do"@, vals_seq(items@), fuel as nat).1),
        r matches Ok(v) ==> val_wf(v@, final(m)@.envs.len() as int),
    decreases fuel, 2int, 0int,
{
    proof {
        lemma_form_names();
    }
    if items.len() < 2 {
        return Err(malformed("do", "at least one form is needed"));
    }
    eval_do_seq(m, env, items, 1, fuel)
}

/// The `if` form: only `nil` and `false` are falsy; a missing else branch
/// defaults to `nil`.
fn eval_if(m: &mut Machine, env: usize, items: &Vec<LispType>, fuel: u64) -> (r: Result<
    LispType,
    LispError,
>)
    requires
        machine_ok(*old(m)),
        env < old(m)@.envs.len(),
        fuel >= 1,
        vals_wf(vals_seq(items@), 0, old(m)@.envs.len() as int),
    ensures
        machine_ok(*final(m)),
        old(m)@.envs.len() <= final(m)@.envs.len(),
        final(m)@ == seval_form(old(m)@, env as int, "if"@, vals_seq(items@), fuel as nat).0,
        res_matches(r, seval_form(old(m)@, env as int, "if"@, vals_seq(items@), fuel as nat).1),
        r matches Ok(v) ==> val_wf(v@, final(m)@.envs.len() as int),
    decreases fuel, 2int, 0int,
{
    proof {
        lemma_form_names();
    }
    let ghost model = vals_seq(items@);
    let ghost n = old(m)@.envs.len() as int;
    if items.len() != 3 && items.len() != 4 {
        return Err(malformed("if", "two or three arguments are needed"));
    }
    proof {
        lemma_vals_wf_exec(items@, n);
    }
    match items[1].evaluate(m, env, fuel - 1) {
        Err(e) => Err(e),
        Ok(c) => {
            let falsy = match &c {
                LispType::Nil => true,
                LispType::Bool(b) => !*b,
                _ => false,
            };
            proof {
                lemma_vals_wf_mono(model, 0, n, m@.envs.len() as int);
                lemma_vals_wf_exec(items@, m@.envs.len() as int);
            }
            if falsy {
                if items.len() == 4 {
                    items[3].evaluate(m, env, fuel - 1)
                } else {
                    Ok(LispType::Nil)
                }
            } else {
                items[2].evaluate(m, env, fuel - 1)
            }
        }
    }
}

/// The `prn` form: evaluates its argument, records the printed form, and
/// returns `nil`.
fn eval_prn(m: &mut Machine, env: usize, items: &Vec<LispType>, fuel: u64) -> (r: Result<
    LispType,
    LispError,
>)
    requires
        machine_ok(*old(m)),
        env < old(m)@.envs.len(),
        fuel >= 1,
        vals_wf(vals_seq(items@), 0, old(m)@.envs.len() as int),
    ensures
        machine_ok(*final(m)),
        old(m)@.envs.len() <= final(m)@.envs.len(),
        final(m)@ == seval_form(old(m)@, env as int, "prn"@, vals_seq(items@), fuel as nat).0,
        res_matches(r, seval_form(old(m)@, env as int, "prn"@, vals_seq(items@), fuel as nat).1),
        r matches Ok(v) ==> val_wf(v@, final(m)@.envs.len() as int),
    decreases fuel, 2int, 0int,
{
    proof {
        lemma_form_names();
    }
    let ghost model = vals_seq(items@);
    let ghost n = old(m)@.envs.len() as int;
    if items.len() != 2 {
        return Err(malformed("prn", "expected one argument"));
    }
    proof {
        lemma_vals_wf_exec(items@, n);
    }
    match items[1].evaluate(m, env, fuel - 1) {
        Err(e) => Err(e),
        Ok(v) => {
            let text = v.to_text();
            m.emit(text);
            Ok(LispType::Nil)
        }
    }
}

/// The `list` form: returns its argument expressions raw and unevaluated.
fn eval_list_form(m: &mut Machine, env: usize, items: &Vec<LispType>, fuel: u64) -> (r: Result<
    LispType,
    LispError,
>)
    requires
        machine_ok(*old(m)),
        env < old(m)@.envs.len(),
        fuel >= 1,
        items@.len() >= 1,
        vals_wf(vals_seq(items@), 0, old(m)@.envs.len() as int),
    ensures
        machine_ok(*final(m)),
        old(m)@.envs.len() <= final(m)@.envs.len(),
        final(m)@ == seval_form(old(m)@, env as int, "list"@, vals_seq(items@), fuel as nat).0,
        res_matches(r, seval_form(old(m)@, env as int, "list"@, vals_seq(items@), fuel as nat).1),
        r matches Ok(v) ==> val_wf(v@, final(m)@.envs.len() as int),
    decreases fuel, 2int, 0int,
{
    proof {
        lemma_form_names();
    }
    let ghost model = vals_seq(items@);
    let ghost n = old(m)@.envs.len() as int;
    let tail = clone_tail(items, 1);
    proof {
        assert(val_of(LispType::List(tail))->List_0 =~= model.skip(1));
        lemma_vals_wf_exec(items@, n);
        lemma_vals_wf_index(model.skip(1), 0, n);
        assert(vals_wf(model.skip(1), 0, n));
    }
    Ok(LispType::List(tail))
}

/// The `list?` form: whether the evaluated argument is a list.
fn eval_listp(m: &mut Machine, env: usize, items: &Vec<LispType>, fuel: u64) -> (r: Result<
    LispType,
    LispError,
>)
    requires
        machine_ok(*old(m)),
        env < old(m)@.envs.len(),
        fuel >= 1,
        vals_wf(vals_seq(items@), 0, old(m)@.envs.len() as int),
    ensures
        machine_ok(*final(m)),
        old(m)@.envs.len() <= final(m)@.envs.len(),
        final(m)@ == seval_form(old(m)@, env as int, "list?"@, vals_seq(items@), fuel as nat).0,
        res_matches(r, seval_form(old(m)@, env as int, "list?"@, vals_seq(items@), fuel as nat).1),
        r matches Ok(v) ==> val_wf(v@, final(m)@.envs.len() as int),
    decreases fuel, 2int, 0int,
{
    proof {
        lemma_form_names();
    }
    let ghost model = vals_seq(items@);
    let ghost n = old(m)@.envs.len() as int;
    if items.len() != 2 {
        return Err(malformed("list?", "expected one argument"));
    }
    proof {
        lemma_vals_wf_exec(items@, n);
    }
    match items[1].evaluate(m, env, fuel - 1) {
        Err(e) => Err(e),
        Ok(v) => match &v {
            LispType::List(_) => Ok(LispType::Bool(true)),
            _ => Ok(LispType::Bool(false)),
        },
    }
}

/// The `empty?` form: the evaluated argument must be a list; whether it
/// has no elements.
fn eval_emptyp(m: &mut Machine, env: usize, items: &Vec<LispType>, fuel: u64) -> (r: Result<
    LispType,
    LispError,
>)
    requires
        machine_ok(*old(m)),
        env < old(m)@.envs.len(),
        fuel >= 1,
        vals_wf(vals_seq(items@), 0, old(m)@.envs.len() as int),
    ensures
        machine_ok(*final(m)),
        old(m)@.envs.len() <= final(m)@.envs.len(),
        final(m)@ == seval_form(old(m)@, env as int, "empty?"@, vals_seq(items@), fuel as nat).0,
        res_matches(
            r,
            seval_form(old(m)@, env as int, "empty?"@, vals_seq(items@), fuel as nat).1,
        ),
        r matches Ok(v) ==> val_wf(v@, final(m)@.envs.len() as int),
    decreases fuel, 2int, 0int,
{
    proof {
        lemma_form_names();
    }
    let ghost model = vals_seq(items@);
    let ghost n = old(m)@.envs.len() as int;
    if items.len() != 2 {
        return Err(malformed("empty?", "expected one argument"));
    }
    proof {
        lemma_vals_wf_exec(items@, n);
    }
    match items[1].evaluate(m, env, fuel - 1) {
        Err(e) => Err(e),
        Ok(v) => match &v {
            LispType::List(xs) => Ok(LispType::Bool(xs.len() == 0)),
            _ => Err(type_mismatch("empty?")),
        },
    }
}

/// The `count` form: the evaluated argument must be a list; its length.
fn eval_count(m: &mut Machine, env: usize, items: &Vec<LispType>, fuel: u64) -> (r: Result<
    LispType,
    LispError,
>)
    requires
        machine_ok(*old(m)),
        env < old(m)@.envs.len(),
        fuel >= 1,
        vals_wf(vals_seq(items@), 0, old(m)@.envs.len() as int),
    ensures
        machine_ok(*final(m)),
        old(m)@.envs.len() <= final(m)@.envs.len(),
        final(m)@ == seval_form(old(m)@, env as int, "count"@, vals_seq(items@), fuel as nat).0,
        res_matches(r, seval_form(old(m)@, env as int, "count"@, vals_seq(items@), fuel as nat).1),
        r matches Ok(v) ==> val_wf(v@, final(m)@.envs.len() as int),
    decreases fuel, 2int, 0int,
{
    proof {
        lemma_form_names();
    }
    let ghost model = vals_seq(items@);
    let ghost n = old(m)@.envs.len() as int;
    if items.len() != 2 {
        return Err(malformed("count", "expected one argument"));
    }
    proof {
        lemma_vals_wf_exec(items@, n);
    }
    match items[1].evaluate(m, env, fuel - 1) {
        Err(e) => Err(e),
        Ok(v) => match &v {
            LispType::List(xs) => {
                if xs.len() <= (i32::MAX as usize) {
                    Ok(LispType::Int(xs.len() as i32))
                } else {
                    Err(type_mismatch("count"))
                }
            }
            _ => Err(type_mismatch("count")),
        },
    }
}

/// The `type?` form: whether the two evaluated arguments share a variant
/// tag.
fn eval_typep(m: &mut Machine, env: usize, items: &Vec<LispType>, fuel: u64) -> (r: Result<
    LispType,
    LispError,
>)
    requires
        machine_ok(*old(m)),
        env < old(m)@.envs.len(),
        fuel >= 1,
        vals_wf(vals_seq(items@), 0, old(m)@.envs.len() as int),
    ensures
        machine_ok(*final(m)),
        old(m)@.envs.len() <= final(m)@.envs.len(),
        final(m)@ == seval_form(old(m)@, env as int, "type?"@, vals_seq(items@), fuel as nat).0,
        res_matches(r, seval_form(old(m)@, env as int, "type?"@, vals_seq(items@), fuel as nat).1),
        r matches Ok(v) ==> val_wf(v@, final(m)@.envs.len() as int),
    decreases fuel, 2int, 0int,
{
    proof {
        lemma_form_names();
    }
    let ghost model = vals_seq(items@);
    let ghost n = old(m)@.envs.len() as int;
    if items.len() != 3 {
        return Err(malformed("type?", "expected two arguments"));
    }
    proof {
        lemma_vals_wf_exec(items@, n);
    }
    match items[1].evaluate(m, env, fuel - 1) {
        Err(e) => Err(e),
        Ok(a) => {
            proof {
                lemma_vals_wf_mono(model, 0, n, m@.envs.len() as int);
                lemma_vals_wf_exec(items@, m@.envs.len() as int);
            }
            match items[2].evaluate(m, env, fuel - 1) {
                Err(e) => Err(e),
                Ok(b) => Ok(LispType::Bool(tag_eq(&a, &b))),
            }
        }
    }
}

/// A two-operand boolean form: both operands always evaluate, in order,
/// and each must be a boolean.
fn eval_bool2(m: &mut Machine, env: usize, items: &Vec<LispType>, op: BoolOp, fuel: u64) -> (r:
    Result<LispType, LispError>)
    requires
        machine_ok(*old(m)),
        env < old(m)@.envs.len(),
        fuel >= 1,
        vals_wf(vals_seq(items@), 0, old(m)@.envs.len() as int),
    ensures
        machine_ok(*final(m)),
        old(m)@.envs.len() <= final(m)@.envs.len(),
        final(m)@ == seval_bool2(old(m)@, env as int, vals_seq(items@), op, fuel as nat).0,
        res_matches(r, seval_bool2(old(m)@, env as int, vals_seq(items@), op, fuel as nat).1),
        r matches Ok(v) ==> val_wf(v@, final(m)@.envs.len() as int),
    decreases fuel, 2int, 0int,
{
    proof {
        lemma_form_names();
    }
    let ghost model = vals_seq(items@);
    let ghost n = old(m)@.envs.len() as int;
    let name: &str = match op {
        BoolOp::And => "and",
        BoolOp::Or => "or",
        BoolOp::Xor => "xor",
    };
    proof {
        assert(name@ == bool2_name(op));
    }
    if items.len() != 3 {
        return Err(malformed(name, "expected two arguments"));
    }
    proof {
        lemma_vals_wf_exec(items@, n);
    }
    match items[1].evaluate(m, env, fuel - 1) {
        Err(e) => Err(e),
        Ok(av) => match &av {
            LispType::Bool(a) => {
                proof {
                    lemma_vals_wf_mono(model, 0, n, m@.envs.len() as int);
                    lemma_vals_wf_exec(items@, m@.envs.len() as int);
                }
                match items[2].evaluate(m, env, fuel - 1) {
                    Err(e) => Err(e),
                    Ok(bv) => match &bv {
                        LispType::Bool(b) => {
                            let c = match op {
                                BoolOp::And => *a && *b,
                                BoolOp::Or => *a || *b,
                                BoolOp::Xor => *a != *b,
                            };
                            Ok(LispType::Bool(c))
                        }
                        _ => Err(type_mismatch(name)),
                    },
                }
            }
            _ => Err(type_mismatch(name)),
        },
    }
}

/// The `not` form: logical negation of one boolean operand.
fn eval_not(m: &mut Machine, env: usize, items: &Vec<LispType>, fuel: u64) -> (r: Result<
    LispType,
    LispError,
>)
    requires
        machine_ok(*old(m)),
        env < old(m)@.envs.len(),
        fuel >= 1,
        vals_wf(vals_seq(items@), 0, old(m)@.envs.len() as int),
    ensures
        machine_ok(*final(m)),
        old(m)@.envs.len() <= final(m)@.envs.len(),
        final(m)@ == seval_form(old(m)@, env as int, "not"@, vals_seq(items@), fuel as nat).0,
        res_matches(r, seval_form(old(m)@, env as int, "not"@, vals_seq(items@), fuel as nat).1),
        r matches Ok(v) ==> val_wf(v@, final(m)@.envs.len() as int),
    decreases fuel, 2int, 0int,
{
    proof {
        lemma_form_names();
    }
    let ghost model = vals_seq(items@);
    let ghost n = old(m)@.envs.len() as int;
    if items.len() != 2 {
        return Err(malformed("not", "expected one argument"));
    }
    proof {
        lemma_vals_wf_exec(items@, n);
    }
    match items[1].evaluate(m, env, fuel - 1) {
        Err(e) => Err(e),
        Ok(v) => match &v {
            LispType::Bool(a) => Ok(LispType::Bool(!*a)),
            _ => Err(type_mismatch("not")),
        },
    }
}

/// Binds each parameter in turn: the parameter must be a symbol, the
/// argument expression evaluates in the caller's scope, the result is
/// bound in the child scope.
fn eval_bind_args(
    m: &mut Machine,
    caller: usize,
    child: usize,
    params: &Vec<LispType>,
    args: &Vec<LispType>,
    idx: usize,
    fuel: u64,
) -> (r: Result<(), LispError>)
    requires
        machine_ok(*old(m)),
        caller < old(m)@.envs.len(),
        child < old(m)@.envs.len(),
        fuel >= 1,
        idx <= params@.len(),
        params@.len() == args@.len(),
        vals_wf(vals_seq(params@), 0, old(m)@.envs.len() as int),
        vals_wf(vals_seq(args@), 0, old(m)@.envs.len() as int),
    ensures
        machine_ok(*final(m)),
        old(m)@.envs.len() <= final(m)@.envs.len(),
        final(m)@ == seval_bind_args(
            old(m)@,
            caller as int,
            child as int,
            vals_seq(params@),
            vals_seq(args@),
            idx as int,
            fuel as nat,
        ).0,
        ({
            let s = seval_bind_args(
                old(m)@,
                caller as int,
                child as int,
                vals_seq(params@),
                vals_seq(args@),
                idx as int,
                fuel as nat,
            ).1;
            match r {
                Ok(_) => s is Ok,
                Err(e) => s matches Err(f) && e@ == f,
            }
        }),
    decreases fuel, 0int, params@.len() - idx,
{
    let ghost pmodel = vals_seq(params@);
    let ghost amodel = vals_seq(args@);
    let ghost n = old(m)@.envs.len() as int;
    if idx >= params.len() {
        return Ok(());
    }
    proof {
        lemma_vals_wf_exec(params@, n);
        lemma_vals_wf_exec(args@, n);
    }
    match &params[idx] {
        LispType::Symbol(s) => {
            match args[idx].evaluate(m, caller, fuel - 1) {
                Err(e) => Err(e),
                Ok(v) => {
                    m.set_var(child, s.as_str(), v);
                    proof {
                        lemma_vals_wf_mono(pmodel, 0, n, m@.envs.len() as int);
                        lemma_vals_wf_mono(amodel, 0, n, m@.envs.len() as int);
                    }
                    eval_bind_args(m, caller, child, params, args, idx + 1, fuel)
                }
            }
        }
        _ => Err(type_mismatch("fn*")),
    }
}

impl LispFunc {
    /// A call: exact arity first; an operator evaluates its two argument
    /// expressions in the caller's scope and applies natively; a closure
    /// binds evaluated arguments into a fresh child of its captured scope
    /// and evaluates its body there.
    pub fn call(&self, m: &mut Machine, args: &Vec<LispType>, env: usize, fuel: u64) -> (r: Result<
        LispType,
        LispError,
    >)
        requires
            machine_ok(*old(m)),
            env < old(m)@.envs.len(),
            fuel >= 1,
            val_wf(Val::Func(self@), old(m)@.envs.len() as int),
            vals_wf(vals_seq(args@), 0, old(m)@.envs.len() as int),
        ensures
            machine_ok(*final(m)),
            old(m)@.envs.len() <= final(m)@.envs.len(),
            final(m)@ == seval_call(old(m)@, self@, vals_seq(args@), env as int, fuel as nat).0,
            res_matches(
                r,
                seval_call(old(m)@, self@, vals_seq(args@), env as int, fuel as nat).1,
            ),
            r matches Ok(v) ==> val_wf(v@, final(m)@.envs.len() as int),
        decreases fuel, 1int, 1int,
    {
        let ghost amodel = vals_seq(args@);
        let ghost n = old(m)@.envs.len() as int;
        if self.args.len() != args.len() {
            return Err(LispError::ArityMismatch(self.args.len(), args.len()));
        }
        match self.operator_func {
            Some(op) => {
                if args.len() != 2 {
                    return Err(LispError::ArityMismatch(2, args.len()));
                }
                proof {
                    lemma_vals_wf_exec(args@, n);
                }
                match args[0].evaluate(m, env, fuel - 1) {
                    Err(e) => Err(e),
                    Ok(a) => {
                        proof {
                            lemma_vals_wf_mono(amodel, 0, n, m@.envs.len() as int);
                            lemma_vals_wf_exec(args@, m@.envs.len() as int);
                        }
                        match args[1].evaluate(m, env, fuel - 1) {
                            Err(e) => Err(e),
                            Ok(b) => {
                                proof {
                                    lemma_spec_apply_wf(op, a@, b@, m@.envs.len() as int);
                                }
                                apply_native(op, a, b)
                            }
                        }
                    }
                }
            }
            None => {
                proof {
                    assert(self@.args =~= vals_seq(self.args@));
                }
                let child = m.push_child(self.internal_env);
                proof {
                    lemma_vals_wf_mono(amodel, 0, n, m@.envs.len() as int);
                    lemma_vals_wf_mono(vals_seq(self.args@), 0, n, m@.envs.len() as int);
                }
                match eval_bind_args(m, env, child, &self.args, args, 0, fuel) {
                    Err(e) => Err(e),
                    Ok(_) => {
                        proof {
                            lemma_val_wf_mono(*self@.body, n, m@.envs.len() as int);
                        }
                        (*self.body).evaluate(m, child, fuel - 1)
                    }
                }
            }
        }
    }
}

/// A list whose head is no special form: the head evaluates once; a
/// function is called on the raw argument expressions; any other head
/// value is returned as is, the trailing elements ignored.
fn eval_head_call(m: &mut Machine, env: usize, items: &Vec<LispType>, fuel: u64) -> (r: Result<
    LispType,
    LispError,
>)
    requires
        machine_ok(*old(m)),
        env < old(m)@.envs.len(),
        fuel >= 1,
        items@.len() >= 1,
        vals_wf(vals_seq(items@), 0, old(m)@.envs.len() as int),
    ensures
        machine_ok(*final(m)),
        old(m)@.envs.len() <= final(m)@.envs.len(),
        final(m)@ == seval_head_call(old(m)@, env as int, vals_seq(items@), fuel as nat).0,
        res_matches(
            r,
            seval_head_call(old(m)@, env as int, vals_seq(items@), fuel as nat).1,
        ),
        r matches Ok(v) ==> val_wf(v@, final(m)@.envs.len() as int),
    decreases fuel, 2int, 0int,
{
    proof {
        lemma_form_names();
    }
    let ghost model = vals_seq(items@);
    let ghost n = old(m)@.envs.len() as int;
    proof {
        lemma_vals_wf_exec(items@, n);
    }
    match items[0].evaluate(m, env, fuel - 1) {
        Err(e) => Err(e),
        Ok(v) => match v {
            LispType::Func(f) => {
                let tail = clone_tail(items, 1);
                proof {
                    let n2 = m@.envs.len() as int;
                    lemma_vals_wf_mono(model, 0, n, n2);
                    lemma_vals_wf_index(model, 0, n2);
                    lemma_vals_wf_index(model.skip(1), 0, n2);
                    assert(vals_wf(vals_seq(tail@), 0, n2));
                }
                f.call(m, &tail, env, fuel)
            }
            other => Ok(other),
        },
    }
}

impl LispType {
    /// Evaluates this expression in the scope `env` of the session `m`,
    /// against the `seval` semantics: atoms are themselves; symbols
    /// resolve through the scope chain with the unresolved-symbol quirk;
    /// an empty list is `Int(0)`; a special form head dispatches raw;
    /// any other list evaluates its head and calls it if it is a
    /// function, else returns it.  Every recursive entry costs one unit
    /// of fuel; exhaustion is the distinct `DepthExceeded` error.
    pub fn evaluate(&self, m: &mut Machine, env: usize, fuel: u64) -> (r: Result<
        LispType,
        LispError,
    >)
        requires
            machine_ok(*old(m)),
            env < old(m)@.envs.len(),
            val_wf(self@, old(m)@.envs.len() as int),
        ensures
            machine_ok(*final(m)),
            old(m)@.envs.len() <= final(m)@.envs.len(),
            final(m)@ == seval(old(m)@, env as int, self@, fuel as nat).0,
            res_matches(r, seval(old(m)@, env as int, self@, fuel as nat).1),
            r matches Ok(v) ==> val_wf(v@, final(m)@.envs.len() as int),
        decreases fuel, 3int, 0int,
    {
        if fuel == 0 {
            return Err(LispError::DepthExceeded);
        }
        proof {
            lemma_form_names();
        }
        match self {
            LispType::Int(i) => Ok(LispType::Int(*i)),
            LispType::Str(s) => Ok(LispType::Str(s.clone())),
            LispType::Bool(b) => Ok(LispType::Bool(*b)),
            LispType::Nil => Ok(LispType::Nil),
            LispType::Symbol(s) => {
                match m.lookup(env, s.as_str()) {
                    Some(v) => Ok(v),
                    None => {
                        if str_eq(s.as_str(), "nil") {
                            Ok(LispType::Nil)
                        } else if str_eq(s.as_str(), "true") {
                            Ok(LispType::Bool(true))
                        } else if str_eq(s.as_str(), "false") {
                            Ok(LispType::Bool(false))
                        } else {
                            Ok(LispType::Symbol(s.clone()))
                        }
                    }
                }
            }
            LispType::Func(_) => Err(type_mismatch("evaluate")),
            LispType::List(items) => {
                let ghost model = vals_seq(items@);
                proof {
                    assert(val_of(*self)->List_0 =~= model);
                }
                if items.len() == 0 {
                    return Ok(LispType::Int(0));
                }
                match &items[0] {
                    LispType::Symbol(name) => {
                        if is_special_name(name.as_str()) {
                            if str_eq(name.as_str(), "def!") {
                                eval_def(m, env, items, fuel)
                            } else if str_eq(name.as_str(), "let*") {
                                eval_let(m, env, items, fuel)
                            } else if str_eq(name.as_str(), "fn*") {
                                eval_fn_star(m, env, items, fuel)
                            } else if str_eq(name.as_str(), "do") {
                                eval_do(m, env, items, fuel)
                            } else if str_eq(name.as_str(), "if") {
                                eval_if(m, env, items, fuel)
                            } else if str_eq(name.as_str(), "prn") {
                                eval_prn(m, env, items, fuel)
                            } else if str_eq(name.as_str(), "list") {
                                eval_list_form(m, env, items, fuel)
                            } else if str_eq(name.as_str(), "list?") {
                                eval_listp(m, env, items, fuel)
                            } else if str_eq(name.as_str(), "empty?") {
                                eval_emptyp(m, env, items, fuel)
                            } else if str_eq(name.as_str(), "count") {
                                eval_count(m, env, items, fuel)
                            } else if str_eq(name.as_str(), "type?") {
                                eval_typep(m, env, items, fuel)
                            } else if str_eq(name.as_str(), "and") || str_eq(name.as_str(), "&&") {
                                eval_bool2(m, env, items, BoolOp::And, fuel)
                            } else if str_eq(name.as_str(), "or") || str_eq(name.as_str(), "||") {
                                eval_bool2(m, env, items, BoolOp::Or, fuel)
                            } else if str_eq(name.as_str(), "xor") || str_eq(name.as_str(), "^") {
                                eval_bool2(m, env, items, BoolOp::Xor, fuel)
                            } else if str_eq(name.as_str(), "not") || str_eq(name.as_str(), "!") {
                                eval_not(m, env, items, fuel)
                            } else {
                                Err(type_mismatch("evaluate"))
                            }
                        } else {
                            eval_head_call(m, env, items, fuel)
                        }
                    }
                    _ => eval_head_call(m, env, items, fuel),
                }
            }
        }
    }
}

} // verus!
