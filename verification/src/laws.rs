use crate::errors::ErrVal;
use crate::func::FuncVal;
use crate::lisp_type::{render, Val};
use crate::operator::{spec_apply, spec_order, NativeOp};
use crate::semantics::{same_tag, seval, seval_call, MachineVal};
use crate::reader::{
    atom_end, is_atom_break, is_separator, spec_read_atom, spec_read_form, spec_read_list,
    spec_tokens, str_tok_end,
};
use crate::text::{all_digits, dec_digit, dec_int, dec_nat, digit_val, digits_val, is_digit,
    spec_parse_i32};
use vstd::prelude::*;

verus! {

broadcast use vstd::string::group_string_axioms;

/// The decimal digits of `n` are digits and mean `n`.
proof fn lemma_dec_nat_digits(n: nat)
    ensures
        all_digits(dec_nat(n)),
        digits_val(dec_nat(n)) == n,
        dec_nat(n).len() >= 1,
        is_digit(dec_nat(n)[0]),
    decreases n,
{
    if n < 10 {
        assert(is_digit(dec_digit(n)));
        let t = dec_nat(n);
        assert(t.last() == dec_digit(n));
        assert(t.drop_last() =~= Seq::<char>::empty());
        assert(digits_val(t.drop_last()) == 0);
        assert(digit_val(dec_digit(n)) == n);
        assert(digits_val(t) == digits_val(t.drop_last()) * 10 + digit_val(t.last()));
    } else {
        lemma_dec_nat_digits(n / 10);
        let front = dec_nat(n / 10);
        let t = dec_nat(n);
        assert(t.drop_last() =~= front);
        assert(t.last() == dec_digit(n % 10));
        assert(is_digit(dec_digit(n % 10)));
        assert(digit_val(dec_digit(n % 10)) == n % 10);
        assert(digits_val(t) == (n / 10) * 10 + n % 10);
        assert((n / 10) * 10 + n % 10 == n) by (nonlinear_arith);
        assert forall|i: int| 0 <= i < t.len() implies is_digit(t[i]) by {
            if i < front.len() {
                assert(t[i] == front[i]);
            }
        }
        assert(t[0] == front[0]);
    }
}

/// Parsing the printed decimal text of an integer gives it back.
proof fn lemma_parse_render_int(i: i32)
    ensures
        spec_parse_i32(dec_int(i as int)) == Some(i),
{
    if i >= 0 {
        lemma_dec_nat_digits(i as nat);
        let t = dec_int(i as int);
        assert(t == dec_nat(i as nat));
        assert(is_digit(t[0]));
        assert(t[0] != '-');
        assert(digits_val(t) <= 0x7fff_ffff);
    } else {
        let mag = (-(i as int)) as nat;
        lemma_dec_nat_digits(mag);
        let t = dec_int(i as int);
        assert(t == seq!['-'] + dec_nat(mag as nat));
        assert(t[0] == '-');
        let ds = t.skip(1);
        assert(ds =~= dec_nat(mag as nat));
        assert(digits_val(ds) == mag);
        assert(mag <= 0x8000_0000);
        assert((-(digits_val(ds) as int)) as i32 == i);
    }
}

/// A run of non-breaking characters is one whole atom token.
proof fn lemma_atom_run(t: Seq<char>, i: int)
    requires
        0 <= i <= t.len(),
        forall|j: int| i <= j < t.len() ==> !is_atom_break(#[trigger] t[j]),
    ensures
        atom_end(t, i) == t.len(),
    decreases t.len() - i,
{
    if i < t.len() {
        lemma_atom_run(t, i + 1);
    }
}

/// Whether every character of `t` can sit inside an atom token.
pub open spec fn atom_text(t: Seq<char>) -> bool {
    forall|j: int| 0 <= j < t.len() ==> !is_atom_break(#[trigger] t[j])
}

/// A nonempty run of non-breaking characters tokenizes as itself alone.
proof fn lemma_single_atom_token(t: Seq<char>)
    requires
        t.len() > 0,
        atom_text(t),
    ensures
        spec_tokens(t, 0) == seq![t],
{
    assert(!is_separator(t[0]) && t[0] != '(' && t[0] != ')' && t[0] != ';' && t[0] != '"');
    lemma_atom_run(t, 1);
    assert(t.subrange(0, t.len() as int) =~= t);
    assert(spec_tokens(t, t.len() as int) =~= Seq::<Seq<char>>::empty());
    assert(spec_tokens(t, 0) =~= seq![t]);
}

/// The scan of a quote-free, escape-free string body runs to the closing
/// quote at the very end.
proof fn lemma_str_scan(t: Seq<char>, i: int)
    requires
        t.len() >= 2,
        1 <= i <= t.len() - 1,
        t[t.len() - 1] == '"',
        forall|j: int| 1 <= j < t.len() - 1 ==> t[j] != '"' && t[j] != '\\',
    ensures
        str_tok_end(t, i) == t.len(),
    decreases t.len() - i,
{
    if i < t.len() - 1 {
        lemma_str_scan(t, i + 1);
    }
}

/// A re-quoted string with no quotes or backslashes inside tokenizes as
/// itself alone.
proof fn lemma_single_str_token(t: Seq<char>)
    requires
        t.len() >= 2,
        t[0] == '"',
        t[t.len() - 1] == '"',
        forall|j: int| 1 <= j < t.len() - 1 ==> t[j] != '"' && t[j] != '\\',
    ensures
        spec_tokens(t, 0) == seq![t],
{
    lemma_str_scan(t, 1);
    assert(t.subrange(0, t.len() as int) =~= t);
    assert(spec_tokens(t, t.len() as int) =~= Seq::<Seq<char>>::empty());
    assert(spec_tokens(t, 0) =~= seq![t]);
}

/// The values whose printed form reads back: integers, booleans, nil,
/// strings free of quotes and backslashes, and symbols that are nonempty,
/// hold no token-breaking character, do not look like an integer, and are
/// not a reserved constant name.  A symbol named `true`, `false` or `nil`,
/// or one that parses as a number, prints as text that reads back as that
/// other value instead.
pub open spec fn prints_readably(v: Val) -> bool {
    match v {
        Val::Int(_) => true,
        Val::Bool(_) => true,
        Val::Nil => true,
        Val::Str(s) => forall|i: int| 0 <= i < s.len() ==> s[i] != '"' && s[i] != '\\',
        Val::Symbol(name) => {
            &&& name.len() > 0
            &&& atom_text(name)
            &&& (!(is_digit(name[0]) || name[0] == '-') || spec_parse_i32(name) is None)
            &&& name != "true"@
            &&& name != "false"@
            &&& name != "nil"@
        },
        _ => false,
    }
}

/// Printing and reading round-trip: the printed form of a readable value
/// is one single token, and reading that token gives the value back.
pub proof fn lemma_read_print_round_trip(v: Val)
    requires
        prints_readably(v),
    ensures
        spec_tokens(render(v), 0) == seq![render(v)],
        spec_read_atom(render(v)) == v,
{
    reveal_strlit("true");
    reveal_strlit("false");
    reveal_strlit("nil");
    reveal_strlit("\"");
    let t = render(v);
    match v {
        Val::Int(i) => {
            lemma_parse_render_int(i);
            lemma_dec_nat_digits(if i >= 0 {
                i as nat
            } else {
                (-(i as int)) as nat
            });
            assert forall|j: int| 0 <= j < t.len() implies !is_atom_break(#[trigger] t[j]) by {
                if i >= 0 {
                    assert(is_digit(t[j]));
                } else {
                    if j > 0 {
                        assert(t[j] == dec_nat((-(i as int)) as nat)[j - 1]);
                        assert(is_digit(t[j]));
                    }
                }
            }
            lemma_single_atom_token(t);
            assert(is_digit(t[0]) || t[0] == '-');
        }
        Val::Bool(b) => {
            lemma_single_atom_token(t);
            assert(spec_read_atom(t) == v);
        }
        Val::Nil => {
            lemma_single_atom_token(t);
            assert(spec_read_atom(t) == v);
        }
        Val::Str(s) => {
            assert(t =~= seq!['"'] + s + seq!['"']);
            assert forall|j: int| 1 <= j < t.len() - 1 implies t[j] != '"' && t[j] != '\\' by {
                assert(t[j] == s[j - 1]);
            }
            lemma_single_str_token(t);
            assert(t[0] == '"' && t.last() == '"' && t.len() >= 2);
            assert(!is_digit('"') && '"' != '-');
            assert(t.subrange(1, t.len() - 1) =~= s);
        }
        Val::Symbol(name) => {
            assert(t == name);
            lemma_single_atom_token(t);
            assert(spec_read_atom(t) == v);
        }
        _ => {}
    }
}

/// Printing a readable value and reading the tokenized text back through
/// the reader gives the implicit sequencing form around exactly that
/// value: `( do v )`.
pub proof fn lemma_print_read_form(v: Val)
    requires
        prints_readably(v),
    ensures
        ({
            let toks = seq!["("@, "do"@] + spec_tokens(render(v), 0) + seq![")"@];
            spec_read_form(toks, 0) == Some(
                (Val::List(seq![Val::Symbol("do"@), v]), 4int),
            )
        }),
{
    lemma_read_print_round_trip(v);
    reveal_strlit("(");
    reveal_strlit(")");
    reveal_strlit("do");
    reveal_strlit("true");
    reveal_strlit("false");
    reveal_strlit("nil");
    let text = render(v);
    let toks = seq!["("@, "do"@] + spec_tokens(text, 0) + seq![")"@];
    assert(toks.len() == 4);
    assert(toks[0] == "("@ && toks[1] == "do"@ && toks[2] == text && toks[3] == ")"@);
    assert(toks[0][0] == '(');
    assert(toks[3][0] == ')');
    assert(toks[1].len() == 2 && toks[1][0] == 'd');
    assert(spec_read_atom("do"@) == Val::Symbol("do"@));
    assert(spec_read_form(toks, 1) == Some((Val::Symbol("do"@), 2int)));
    assert(text.len() > 0);
    match v {
        Val::Int(i) => {
            lemma_dec_nat_digits(if i >= 0 {
                i as nat
            } else {
                (-(i as int)) as nat
            });
            if i >= 0 {
                assert(is_digit(text[0]));
            }
            assert(text[0] != '(' && text[0] != ')');
        }
        Val::Bool(b) => {
            assert(text[0] != '(' && text[0] != ')');
        }
        Val::Nil => {
            assert(text[0] != '(' && text[0] != ')');
        }
        Val::Str(s) => {
            assert(text[0] == '"');
        }
        Val::Symbol(name) => {
            assert(!is_atom_break(text[0]));
        }
        _ => {}
    }
    assert(spec_read_form(toks, 2) == Some((v, 3int)));
    assert(spec_read_list(toks, 3) == Some((Seq::<Val>::empty(), 4int)));
    assert(spec_read_list(toks, 2) == Some((seq![v], 4int)));
    assert(spec_read_list(toks, 1) == Some((seq![Val::Symbol("do"@), v], 4int)));
    assert(seq![Val::Symbol("do"@)] + (seq![v] + Seq::<Val>::empty()) =~= seq![
        Val::Symbol("do"@),
        v,
    ]);
}

/// Evaluating a bare symbol never fails, whatever the state: a bound name
/// yields its value, the reserved names yield their constants, and any
/// other unresolved symbol yields itself.
pub proof fn lemma_symbol_never_errors(m: MachineVal, env: int, name: Seq<char>, fuel: nat)
    requires
        fuel >= 1,
    ensures
        seval(m, env, Val::Symbol(name), fuel).1 is Ok,
        seval(m, env, Val::Symbol(name), fuel).0 == m,
{
}

/// Integer addition, subtraction and multiplication never fail: overflow
/// wraps at 32 bits instead of erring.  Division fails exactly on a zero
/// divisor.
pub proof fn lemma_arith_wraps_never_errors(op: NativeOp, x: i32, y: i32)
    requires
        op == NativeOp::Add || op == NativeOp::Sub || op == NativeOp::Mul,
    ensures
        spec_apply(op, Val::Int(x), Val::Int(y)) is Ok,
        spec_apply(NativeOp::Div, Val::Int(x), Val::Int(y)) is Err <==> y == 0,
        spec_apply(NativeOp::Div, Val::Int(x), Val::Int(0)) == Result::<Val, ErrVal>::Err(
            ErrVal::DivisionError,
        ),
{
}

/// Ordering never coerces: operands of two different kinds are always a
/// type mismatch, for every ordering operator.
pub proof fn lemma_order_rejects_mixed(op: NativeOp, a: Val, b: Val)
    requires
        !same_tag(a, b),
    ensures
        spec_order(op, a, b) matches Err(e) && e is TypeMismatch,
{
}

/// A call checks its arity first: the wrong number of arguments is always
/// an `ArityMismatch` reporting the expected and received counts, before
/// any argument is evaluated or the state is touched.
pub proof fn lemma_call_checks_arity(
    m: MachineVal,
    f: FuncVal,
    args: Seq<Val>,
    caller: int,
    fuel: nat,
)
    requires
        fuel >= 1,
        f.args.len() != args.len(),
    ensures
        seval_call(m, f, args, caller, fuel).1 == Result::<Val, ErrVal>::Err(
            ErrVal::ArityMismatch(f.args.len() as int, args.len() as int),
        ),
        seval_call(m, f, args, caller, fuel).0 == m,
{
}

} // verus!
