use tinylisp::{
    add_symbol, div_symbol, eq_symbol, lt_symbol, mul_symbol, sub_symbol, Lexer, LispError,
    LispType, NativeOp, Parser, Symbol, Token, AST,
};

/// Scans one input; the scanner never reads the input's last byte, so
/// every form here carries a trailing space.
fn lex(src: &str) -> Vec<Token> {
    let mut lexer = Lexer::new(src.to_string());
    lexer.tokenize();
    lexer.get_tokens()
}

fn kinds(tokens: &[Token]) -> Vec<String> {
    tokens.iter().map(|t| t.to_text()).collect()
}

#[test]
fn lexer_scans_arithmetic_input() {
    let toks = lex("(+ 1 2) ");
    assert_eq!(
        kinds(&toks),
        ["ListBegin", "ListBegin", "Symbol", "Int", "Int", "ListEnd", "ListEnd"]
    );
    assert!(matches!(toks[0], Token::ListBegin(0)));
    assert!(matches!(toks[1], Token::ListBegin(1)));
    assert!(matches!(toks[2], Token::Symbol('+')));
    assert!(matches!(toks[3], Token::Int(1)));
    assert!(matches!(toks[4], Token::Int(2)));
    assert!(matches!(toks[5], Token::ListEnd(1)));
    assert!(matches!(toks[6], Token::ListEnd(0)));
}

#[test]
fn lexer_accepts_plus_signed_numbers() {
    let toks = lex("(+ +5 2) ");
    assert!(matches!(toks[3], Token::Int(5)));
}

#[test]
fn lexer_recognises_the_keyword_in_any_case() {
    let toks = lex("(WRITE-line 1 2) ");
    assert_eq!(
        kinds(&toks),
        ["ListBegin", "ListBegin", "Keyword", "Int", "Int", "ListEnd", "ListEnd"]
    );
}

#[test]
fn lexer_strips_string_quotes() {
    let toks = lex("(+ \"ab\" 2) ");
    match &toks[3] {
        Token::Str(s) => assert_eq!(s, "ab"),
        _ => panic!("expected a string token"),
    }
}

#[test]
fn lexer_tracks_nesting_depth() {
    // A space directly after an inner `)` would open an empty slice,
    // which the scanner rejects, so the next operand follows at once.
    let toks = lex("(+ (+ 1 2)3) ");
    assert_eq!(
        kinds(&toks),
        [
            "ListBegin",
            "ListBegin",
            "Symbol",
            "ListBegin",
            "Symbol",
            "Int",
            "Int",
            "ListEnd",
            "Int",
            "ListEnd",
            "ListEnd"
        ]
    );
    assert!(matches!(toks[3], Token::ListBegin(2)));
    assert!(matches!(toks[7], Token::ListEnd(2)));
}

#[test]
fn parser_builds_the_shallow_tree() {
    let mut parser = Parser::new(lex("(+ 1 2) "));
    let tree = parser.parse_list();
    assert_eq!(tree.to_string(), "(+ 1 2 ) ");
}

#[test]
fn parse_any_looks_one_token_ahead() {
    // The cursor inspects the second token while consumption pops the
    // first, so each decision is made one token ahead of the pop.
    let mut parser = Parser::new(vec![Token::ListBegin(0), Token::Int(7), Token::ListEnd(0)]);
    let v = parser.parse_any();
    assert_eq!(v.to_string(), "7 ");
}

#[test]
fn parser_lookahead_drops_the_element_after_a_nested_list() {
    // The same off-by-one leaves the stream one token behind after a
    // nested list closes, so the following element never joins the tree.
    let mut parser = Parser::new(lex("(+ (+ 1 2)3) "));
    let tree = parser.parse_list();
    assert_eq!(tree.to_string(), "(+ (+ 1 2 ) ) ");
}

fn int_list(op: char, a: AST, b: AST) -> AST {
    AST::List(vec![AST::Symbol(op), a, b])
}

#[test]
fn ast_evaluates_binary_trees() {
    let tree = int_list('+', AST::Int(1), AST::Int(2));
    assert_eq!(tree.eval_list(), 3);
}

#[test]
fn ast_evaluates_nested_trees() {
    let tree = int_list(
        '*',
        int_list('+', AST::Int(2), AST::Int(3)),
        int_list('-', AST::Int(10), AST::Int(4)),
    );
    assert_eq!(tree.eval_list(), 30);
}

#[test]
fn ast_arithmetic_wraps() {
    let tree = int_list('+', AST::Int(i32::MAX), AST::Int(1));
    assert_eq!(tree.eval_list(), i32::MIN);
}

#[test]
fn ast_division_truncates() {
    let tree = int_list('/', AST::Int(7), AST::Int(-2));
    assert_eq!(tree.eval_list(), -3);
}

#[test]
fn ast_prints_with_trailing_spaces() {
    let tree = int_list('+', AST::Int(1), AST::Int(2));
    assert_eq!(tree.to_string(), "(+ 1 2 ) ");
    assert_eq!(AST::Int(-5).to_string(), "-5 ");
    assert_eq!(AST::Str("hi".to_string()).to_string(), "\"hi\" ");
    assert_eq!(AST::Symbol('x').to_string(), "x ");
}

#[test]
fn symbols_resolve_to_operators() {
    assert!(matches!("+".to_string().get_symbol_func(), Some(NativeOp::Add)));
    assert!(matches!("-".to_string().get_symbol_func(), Some(NativeOp::Sub)));
    assert!(matches!("*".to_string().get_symbol_func(), Some(NativeOp::Mul)));
    assert!(matches!("/".to_string().get_symbol_func(), Some(NativeOp::Div)));
    assert!(matches!("%".to_string().get_symbol_func(), None));
}

#[test]
fn tokens_name_their_kind() {
    assert_eq!(Token::Int(3).to_text(), "Int");
    assert_eq!(Token::Symbol('+').to_text(), "Symbol");
    assert_eq!(Token::ListBegin(0).to_text(), "ListBegin");
}

#[test]
fn operator_functions_apply_directly() {
    match add_symbol(LispType::Int(2), LispType::Int(3)) {
        Ok(LispType::Int(v)) => assert_eq!(v, 5),
        _ => panic!("expected an integer"),
    }
    match sub_symbol(LispType::Int(2), LispType::Int(3)) {
        Ok(LispType::Int(v)) => assert_eq!(v, -1),
        _ => panic!("expected an integer"),
    }
    match mul_symbol(LispType::Int(4), LispType::Int(5)) {
        Ok(LispType::Int(v)) => assert_eq!(v, 20),
        _ => panic!("expected an integer"),
    }
    assert!(matches!(
        div_symbol(LispType::Int(1), LispType::Int(0)),
        Err(LispError::DivisionError)
    ));
    match lt_symbol(LispType::Bool(false), LispType::Bool(true)) {
        Ok(LispType::Bool(b)) => assert!(b),
        _ => panic!("expected a boolean"),
    }
    match eq_symbol(LispType::Nil, LispType::Nil) {
        Ok(LispType::Bool(b)) => assert!(b),
        _ => panic!("expected a boolean"),
    }
    assert!(matches!(
        add_symbol(LispType::Nil, LispType::Int(1)),
        Err(LispError::TypeMismatch(_))
    ));
}
