use tinylisp::{LispError, LispType, Machine, Reader};

const FUEL: u64 = 1_000_000;

/// Reads and evaluates one input in a fresh session.
fn run(src: &str) -> Result<LispType, LispError> {
    let (mut m, root) = Machine::boot();
    let mut reader = Reader::tokenize(src.to_string());
    let form = reader.read_form().expect("reading should succeed");
    form.evaluate(&mut m, root, FUEL)
}

/// Reads and evaluates one input, returning its printed form.
fn run_text(src: &str) -> String {
    run(src).expect("evaluation should succeed").to_text()
}

/// Evaluates several inputs in one persistent session, returning the
/// printed form of the last result.
fn run_session(srcs: &[&str]) -> String {
    let (mut m, root) = Machine::boot();
    let mut last = String::new();
    for src in srcs {
        let mut reader = Reader::tokenize(src.to_string());
        let form = reader.read_form().expect("reading should succeed");
        let v = form.evaluate(&mut m, root, FUEL).expect("evaluation should succeed");
        last = v.to_text();
    }
    last
}

#[test]
fn literal_int_round_trips() {
    assert_eq!(run_text("5"), "5");
    assert_eq!(run_text("-42"), "-42");
    assert_eq!(run_text("2147483647"), "2147483647");
    assert_eq!(run_text("-2147483648"), "-2147483648");
    assert_eq!(run_text("0"), "0");
}

#[test]
fn literal_bool_nil_round_trip() {
    assert_eq!(run_text("true"), "true");
    assert_eq!(run_text("false"), "false");
    assert_eq!(run_text("nil"), "nil");
}

#[test]
fn literal_string_round_trips() {
    assert_eq!(run_text("\"abc\""), "\"abc\"");
    assert_eq!(run_text("\"\""), "\"\"");
    assert_eq!(run_text("\"a b\""), "\"a b\"");
}

#[test]
fn unbound_symbol_round_trips() {
    assert_eq!(run_text("foo"), "foo");
    assert_eq!(run_text("bar-baz"), "bar-baz");
}

#[test]
fn def_then_lookup_same_environment() {
    assert_eq!(run_session(&["(def! x 5)", "x"]), "5");
}

#[test]
fn def_in_discarded_child_is_not_visible() {
    // The binding made inside the function's own scope dies with it; a
    // later bare `x` is unresolved and evaluates to itself.
    assert_eq!(run_session(&["((fn* (a) (def! x 5)) 1)", "x"]), "x");
}

#[test]
fn sibling_environments_do_not_share_bindings() {
    let (mut m, root) = Machine::boot();
    m.envs.push(tinylisp::Env::new(Some(root)));
    m.envs.push(tinylisp::Env::new(Some(root)));
    let first_child: usize = 1;
    let second_child: usize = 2;

    let mut reader = Reader::tokenize("(def! x 5)".to_string());
    let form = reader.read_form().expect("reading should succeed");
    let v = form.evaluate(&mut m, first_child, FUEL).expect("evaluation should succeed");
    assert_eq!(v.to_text(), "5");

    let mut reader2 = Reader::tokenize("x".to_string());
    let form2 = reader2.read_form().expect("reading should succeed");
    let same = form2.evaluate(&mut m, first_child, FUEL).expect("evaluation should succeed");
    assert_eq!(same.to_text(), "5");

    let mut reader3 = Reader::tokenize("x".to_string());
    let form3 = reader3.read_form().expect("reading should succeed");
    let sibling = form3.evaluate(&mut m, second_child, FUEL).expect("evaluation should succeed");
    assert_eq!(sibling.to_text(), "x");
}

#[test]
fn let_star_sees_earlier_bindings() {
    assert_eq!(run_text("(let* (a 1 b (+ a 1)) (+ a b))"), "3");
}

#[test]
fn closure_call_squares() {
    assert_eq!(run_text("((fn* (n) (* n n)) 3)"), "9");
}

#[test]
fn closure_arity_mismatch() {
    match run("((fn* (n) n) 1 2)") {
        Err(LispError::ArityMismatch(want, got)) => {
            assert_eq!(want, 1);
            assert_eq!(got, 2);
        }
        other => panic!("expected an arity mismatch, got {:?}", other.is_ok()),
    }
}

#[test]
fn addition_wraps_at_32_bits() {
    assert_eq!(run_text("(+ 2147483647 1)"), "-2147483648");
    assert_eq!(run_text("(- -2147483648 1)"), "2147483647");
    assert_eq!(run_text("(* 65536 65536)"), "0");
}

#[test]
fn division_by_zero_is_an_error() {
    assert!(matches!(run("(/ 1 0)"), Err(LispError::DivisionError)));
}

#[test]
fn division_truncates() {
    assert_eq!(run_text("(/ 7 2)"), "3");
    assert_eq!(run_text("(/ -7 2)"), "-3");
    assert_eq!(run_text("(/ -2147483648 -1)"), "-2147483648");
}

#[test]
fn if_only_nil_and_false_are_falsy() {
    assert_eq!(run_text("(if nil 1 2)"), "2");
    assert_eq!(run_text("(if false 1)"), "nil");
    assert_eq!(run_text("(if 0 1 2)"), "1");
    assert_eq!(run_text("(if \"\" 1 2)"), "1");
    assert_eq!(run_text("(if (list) 1 2)"), "1");
}

#[test]
fn list_predicates_and_count() {
    assert_eq!(run_text("(list? (list 1 2))"), "true");
    assert_eq!(run_text("(list? 5)"), "false");
    assert_eq!(run_text("(count (list 1 2 3))"), "3");
    assert_eq!(run_text("(count (list))"), "0");
    assert_eq!(run_text("(empty? (list))"), "true");
    assert_eq!(run_text("(empty? (list 1))"), "false");
}

#[test]
fn list_leaves_arguments_unevaluated() {
    assert_eq!(run_text("(list (+ 1 2))"), "((+ 1 2))");
    assert_eq!(run_text("(count (list (+ 1 2)))"), "1");
}

#[test]
fn ordering_rejects_mixed_kinds() {
    assert!(matches!(run("(< 1 \"a\")"), Err(LispError::TypeMismatch(_))));
    assert!(matches!(run("(= 1 true)"), Err(LispError::TypeMismatch(_))));
}

#[test]
fn strings_order_by_length_only() {
    assert_eq!(run_text("(< \"a\" \"bc\")"), "true");
    assert_eq!(run_text("(< \"ab\" \"c\")"), "false");
    assert_eq!(run_text("(<= \"ab\" \"xy\")"), "true");
}

#[test]
fn string_length_is_counted_in_bytes() {
    // One e-acute character encodes as two UTF-8 bytes, so it ties with a
    // two-letter ASCII string and outweighs a one-letter one.
    assert_eq!(run_text("(< \"\u{e9}\" \"ab\")"), "false");
    assert_eq!(run_text("(>= \"\u{e9}\" \"ab\")"), "true");
    assert_eq!(run_text("(< \"a\" \"\u{e9}\")"), "true");
    // The same byte measure applies to symbols.
    assert_eq!(run_text("(> \u{e9} a)"), "true");
    assert_eq!(run_text("(> \u{e9} ab)"), "false");
}

#[test]
fn equality_by_value() {
    assert_eq!(run_text("(= 2 2)"), "true");
    assert_eq!(run_text("(= \"a\" \"a\")"), "true");
    assert_eq!(run_text("(= \"a\" \"b\")"), "false");
    assert_eq!(run_text("(= nil nil)"), "true");
    assert_eq!(run_text("(= true false)"), "false");
}

#[test]
fn lists_and_functions_do_not_compare() {
    assert!(matches!(run("(= (list) (list))"), Err(LispError::TypeMismatch(_))));
    assert!(matches!(
        run("(< (list 1) (list 2))"),
        Err(LispError::TypeMismatch(_))
    ));
}

#[test]
fn boolean_forms() {
    assert_eq!(run_text("(and true true)"), "true");
    assert_eq!(run_text("(and true false)"), "false");
    assert_eq!(run_text("(or false true)"), "true");
    assert_eq!(run_text("(xor true true)"), "false");
    assert_eq!(run_text("(^ true false)"), "true");
    assert_eq!(run_text("(not true)"), "false");
    assert_eq!(run_text("(! false)"), "true");
    assert_eq!(run_text("(&& true true)"), "true");
    assert_eq!(run_text("(|| false false)"), "false");
}

#[test]
fn boolean_forms_need_booleans() {
    assert!(matches!(run("(and 1 true)"), Err(LispError::TypeMismatch(_))));
    assert!(matches!(run("(not 0)"), Err(LispError::TypeMismatch(_))));
}

#[test]
fn type_compares_variant_tags() {
    assert_eq!(run_text("(type? 1 2)"), "true");
    assert_eq!(run_text("(type? 1 \"a\")"), "false");
    assert_eq!(run_text("(type? nil nil)"), "true");
    assert_eq!(run_text("(type? (list) (list 1))"), "true");
}

#[test]
fn do_returns_the_last_value() {
    assert_eq!(run_text("(do 1 2 3)"), "3");
    assert_eq!(run_text("1 2 3"), "3");
}

#[test]
fn malformed_special_forms() {
    assert!(matches!(run("(def! x)"), Err(LispError::MalformedSpecialForm(_, _))));
    assert!(matches!(run("(def! 5 1)"), Err(LispError::MalformedSpecialForm(_, _))));
    assert!(matches!(
        run("(let* (a) 1)"),
        Err(LispError::MalformedSpecialForm(_, _))
    ));
    assert!(matches!(run("(if 1)"), Err(LispError::MalformedSpecialForm(_, _))));
    assert!(matches!(run("(fn* 1 2)"), Err(LispError::MalformedSpecialForm(_, _))));
}

#[test]
fn count_and_empty_need_lists() {
    assert!(matches!(run("(count 5)"), Err(LispError::TypeMismatch(_))));
    assert!(matches!(run("(empty? nil)"), Err(LispError::TypeMismatch(_))));
}

#[test]
fn runaway_recursion_exhausts_the_step_budget() {
    let (mut m, root) = Machine::boot();
    let mut reader = Reader::tokenize("(def! f (fn* (n) (f n)))".to_string());
    let form = reader.read_form().expect("reading should succeed");
    form.evaluate(&mut m, root, FUEL).expect("defining should succeed");
    let mut reader2 = Reader::tokenize("(f 1)".to_string());
    let form2 = reader2.read_form().expect("reading should succeed");
    assert!(matches!(
        form2.evaluate(&mut m, root, 500),
        Err(LispError::DepthExceeded)
    ));
}

#[test]
fn prn_records_the_printed_form_and_returns_nil() {
    let (mut m, root) = Machine::boot();
    let mut reader = Reader::tokenize("(prn (+ 1 2))".to_string());
    let form = reader.read_form().expect("reading should succeed");
    let v = form.evaluate(&mut m, root, FUEL).expect("evaluation should succeed");
    assert_eq!(v.to_text(), "nil");
    assert_eq!(m.out.len(), 1);
    assert_eq!(m.out[0], "3");
}

#[test]
fn calling_a_non_function_head_returns_its_value() {
    assert_eq!(run_session(&["(def! x 5)", "(x 1 2)"]), "5");
    assert_eq!(run_text("(foo 1 2)"), "foo");
}

#[test]
fn head_position_lists_evaluate_first() {
    assert_eq!(run_text("((fn* (a b) (+ a b)) 2 3)"), "5");
}

#[test]
fn empty_list_evaluates_to_zero() {
    assert_eq!(run_text("()"), "0");
}

#[test]
fn closures_capture_their_defining_scope() {
    assert_eq!(
        run_session(&[
            "(def! make (fn* (a) (fn* (b) (+ a b))))",
            "(def! add2 (make 2))",
            "(add2 40)",
        ]),
        "42"
    );
}

#[test]
fn later_definitions_are_visible_to_earlier_closures() {
    // Lookup walks the live chain, not a snapshot.
    assert_eq!(
        run_session(&["(def! get (fn* () y))", "(def! y 7)", "(get)"]),
        "7"
    );
}
