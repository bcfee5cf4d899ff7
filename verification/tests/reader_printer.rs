use tinylisp::{Env, LispError, LispType, Machine, Reader};

const FUEL: u64 = 1_000_000;

fn run(src: &str) -> Result<LispType, LispError> {
    let (mut m, root) = Machine::boot();
    let mut reader = Reader::tokenize(src.to_string());
    let form = reader.read_form().expect("reading should succeed");
    form.evaluate(&mut m, root, FUEL)
}

fn run_text(src: &str) -> String {
    run(src).expect("evaluation should succeed").to_text()
}

#[test]
fn tokenize_wraps_input_in_a_do_form() {
    let reader = Reader::tokenize("1 2".to_string());
    let texts: Vec<&str> = reader.tokens.iter().map(|t| t.as_str()).collect();
    assert_eq!(texts, ["(", "do", "1", "2", ")"]);
}

#[test]
fn tokenize_skips_commas_and_comments() {
    let reader = Reader::tokenize("(+ 1, 2) ; trailing words".to_string());
    let texts: Vec<&str> = reader.tokens.iter().map(|t| t.as_str()).collect();
    assert_eq!(texts, ["(", "do", "(", "+", "1", "2", ")", ")"]);
}

#[test]
fn tokenize_keeps_string_literals_whole() {
    let reader = Reader::tokenize("\"a b\" x".to_string());
    let texts: Vec<&str> = reader.tokens.iter().map(|t| t.as_str()).collect();
    assert_eq!(texts, ["(", "do", "\"a b\"", "x", ")"]);
}

#[test]
fn tokenize_honours_escapes_in_token_boundaries() {
    let reader = Reader::tokenize(r#""a\"b""#.to_string());
    let texts: Vec<&str> = reader.tokens.iter().map(|t| t.as_str()).collect();
    assert_eq!(texts, ["(", "do", r#""a\"b""#, ")"]);
}

#[test]
fn unterminated_string_still_becomes_a_token() {
    let reader = Reader::tokenize("\"abc".to_string());
    let texts: Vec<&str> = reader.tokens.iter().map(|t| t.as_str()).collect();
    assert_eq!(texts, ["(", "do", "\"abc", ")"]);
    // With no closing quote the token fails the string shape and reads
    // back as a symbol.
    assert_eq!(run_text("\"abc"), "\"abc");
}

#[test]
fn unclosed_list_is_a_reader_error() {
    let mut reader = Reader::tokenize("(1 2".to_string());
    assert!(matches!(reader.read_form(), Err(LispError::ReaderError(_))));
}

#[test]
fn stray_closing_token_is_a_reader_error() {
    // The implicit wrapper closes early on the stray token, and the next
    // read meets the leftover `)` with no open list.
    let mut reader = Reader::tokenize(")".to_string());
    let first = reader.read_form();
    assert!(first.is_ok());
    assert!(matches!(reader.read_form(), Err(LispError::ReaderError(_))));
}

#[test]
fn leading_plus_reads_as_a_symbol() {
    assert_eq!(run_text("+5"), "+5");
    // `+5` is a symbol, not a number, so addition rejects it.
    assert!(matches!(run("(+ +5 1)"), Err(LispError::TypeMismatch(_))));
}

#[test]
fn numbers_with_trailing_text_are_symbols() {
    assert_eq!(run_text("1x"), "1x");
    assert_eq!(run_text("--1"), "--1");
    // A lone `-` is a symbol too, and the root environment binds it to
    // the subtraction operator.
    assert_eq!(run_text("-"), "#<function>");
}

#[test]
fn overflowing_literals_are_symbols() {
    assert_eq!(run_text("2147483648"), "2147483648");
    assert_eq!(run_text("-2147483649"), "-2147483649");
}

#[test]
fn rendering_joins_lists_with_spaces() {
    // `list` keeps its arguments unevaluated, so the inner form stays raw.
    assert_eq!(run_text("(list 1 (list 2 3) \"x\")"), "(1 (list 2 3) \"x\")");
    assert_eq!(run_text("(list 1 2 3)"), "(1 2 3)");
}

#[test]
fn functions_render_opaquely() {
    assert_eq!(run_text("(fn* (n) n)"), "#<function>");
}

#[test]
fn environment_get_reports_missing_symbols() {
    let (m, _root) = Machine::boot();
    match Env::get(&m.envs, 0, "zzz") {
        Err(LispError::SymbolNotFound(name)) => assert_eq!(name, "zzz"),
        _ => panic!("expected a missing symbol"),
    }
    assert!(Env::get(&m.envs, 0, "+").is_ok());
}

#[test]
fn environment_set_overwrites_locally() {
    let (mut m, root) = Machine::boot();
    let mut reader = Reader::tokenize("(do (def! a 1) (def! a 2) a)".to_string());
    let form = reader.read_form().expect("reading should succeed");
    let v = form.evaluate(&mut m, root, FUEL).expect("evaluation should succeed");
    assert_eq!(v.to_text(), "2");
}

#[test]
fn empty_input_is_a_bare_do_form() {
    assert!(matches!(run(""), Err(LispError::MalformedSpecialForm(_, _))));
    assert!(matches!(run("; only a comment"), Err(LispError::MalformedSpecialForm(_, _))));
}
