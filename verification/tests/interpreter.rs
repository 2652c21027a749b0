use lispulator::builtins::{apply_builtin, parse_list_of_floats, parse_single_float, sum_from};
use lispulator::environment::{as_environment, LispEnvironment};
use lispulator::error::LispError;
use lispulator::evaluator::{evaluate, lisp_parse_evaluate};
use lispulator::expression::{Builtin, LispExpression};
use lispulator::parser::{lisp_parse, parse_atomic, read_sequentially};
use lispulator::tokenizer::{is_whitespace, lisp_tokenize};

fn read(token: &str) -> Option<u64> {
    token.parse::<f64>().ok().map(f64::to_bits)
}

fn plus(a: u64, b: u64) -> u64 {
    (f64::from_bits(a) + f64::from_bits(b)).to_bits()
}

fn minus(a: u64, b: u64) -> u64 {
    (f64::from_bits(a) - f64::from_bits(b)).to_bits()
}

fn show(bits: u64) -> String {
    f64::from_bits(bits).to_string()
}

fn number(x: f64) -> LispExpression {
    LispExpression::Number(x.to_bits())
}

fn symbol(name: &str) -> LispExpression {
    LispExpression::Symbol(name.to_string())
}

fn words(tokens: &[&str]) -> Vec<String> {
    tokens.iter().map(|t| t.to_string()).collect()
}

fn run(line: &str) -> Result<LispExpression, LispError> {
    let mut environment: LispEnvironment = as_environment();
    lisp_parse_evaluate(line.to_string(), &mut environment, &read, &plus, &minus)
}

#[test]
fn tokenize_empty_line() {
    assert_eq!(lisp_tokenize(String::new()), Vec::<String>::new());
    assert_eq!(lisp_tokenize("   \t\n".to_string()), Vec::<String>::new());
}

#[test]
fn tokenize_pads_parentheses() {
    assert_eq!(lisp_tokenize("(+ 1 2)".to_string()), words(&["(", "+", "1", "2", ")"]));
    assert_eq!(lisp_tokenize("a(b)c".to_string()), words(&["a", "(", "b", ")", "c"]));
    assert_eq!(lisp_tokenize("((".to_string()), words(&["(", "("]));
    assert_eq!(lisp_tokenize("  foo   bar ".to_string()), words(&["foo", "bar"]));
}

#[test]
fn tokenize_splits_on_every_white_space() {
    assert_eq!(
        lisp_tokenize("a\u{a0}b\u{2003}c\u{3000}d\u{85}e".to_string()),
        words(&["a", "b", "c", "d", "e"])
    );
    assert_eq!(lisp_tokenize("a\u{200b}b".to_string()), words(&["a\u{200b}b"]));
}

#[test]
fn tokenize_agrees_with_split_whitespace() {
    let line = "(+ 1\t(- 5.5 2)\u{2028}x\u{1680}y)  ";
    let expected: Vec<String> = line
        .replace("(", " ( ")
        .replace(")", " ) ")
        .split_whitespace()
        .map(|x| x.to_string())
        .collect();
    assert_eq!(lisp_tokenize(line.to_string()), expected);
}

#[test]
fn white_space_is_what_the_standard_library_says() {
    let mut n: u32 = 0;
    while n < 0x11_0000 {
        if let Some(c) = char::from_u32(n) {
            assert_eq!(is_whitespace(c), c.is_whitespace(), "U+{:04X}", n);
        }
        n += 1;
    }
}

#[test]
fn atom_is_number_or_symbol() {
    assert_eq!(parse_atomic("1.5", &read), number(1.5));
    assert_eq!(parse_atomic("-2e3", &read), number(-2000.0));
    assert_eq!(parse_atomic("foo", &read), symbol("foo"));
    assert_eq!(parse_atomic("+", &read), symbol("+"));
    assert_eq!(parse_atomic("1x", &read), symbol("1x"));
}

#[test]
fn parse_atom_leaves_the_rest() {
    let tokens = words(&["1", "2", ")"]);
    let (expression, rest) = lisp_parse(&tokens, &read).unwrap();
    assert_eq!(expression, number(1.0));
    assert_eq!(rest, &tokens[1..]);
}

#[test]
fn parse_empty_list() {
    let tokens = words(&["(", ")"]);
    let (expression, rest) = lisp_parse(&tokens, &read).unwrap();
    assert_eq!(expression, LispExpression::List(vec![]));
    assert!(rest.is_empty());
}

#[test]
fn parse_nested_lists() {
    let tokens = lisp_tokenize("(+ (- 5 2) (a) 1) tail".to_string());
    let (expression, rest) = lisp_parse(&tokens, &read).unwrap();
    assert_eq!(
        expression,
        LispExpression::List(vec![
            symbol("+"),
            LispExpression::List(vec![symbol("-"), number(5.0), number(2.0)]),
            LispExpression::List(vec![symbol("a")]),
            number(1.0),
        ])
    );
    assert_eq!(rest, &words(&["tail"])[..]);
}

#[test]
fn parse_failures() {
    assert_eq!(lisp_parse(&words(&[]), &read), Err(LispError::NoToken));
    assert_eq!(lisp_parse(&words(&[")"]), &read), Err(LispError::StrayClose));
    assert_eq!(lisp_parse(&words(&["(", "+", "1"]), &read), Err(LispError::MissingClose));
    assert_eq!(lisp_parse(&words(&["(", "(", "1", ")"]), &read), Err(LispError::MissingClose));
    assert_eq!(lisp_parse(&words(&["("]), &read), Err(LispError::MissingClose));
}

#[test]
fn well_formed_input_parses() {
    for line in ["x", "1", "()", "(a)", "(a (b c) ())", "((((1))))", "(+ 1 2) )", "a ("] {
        let tokens = lisp_tokenize(line.to_string());
        assert!(lisp_parse(&tokens, &read).is_ok(), "{}", line);
    }
}

#[test]
fn unmatched_parentheses_fail() {
    for line in ["(", "(a", "((a)", "(a (b c)", "(()", "(+ 1 2"] {
        let tokens = lisp_tokenize(line.to_string());
        assert_eq!(lisp_parse(&tokens, &read), Err(LispError::MissingClose), "{}", line);
    }
    for line in [")", ") a", ")("] {
        let tokens = lisp_tokenize(line.to_string());
        assert_eq!(lisp_parse(&tokens, &read), Err(LispError::StrayClose), "{}", line);
    }
    assert_eq!(run("(+ 1 (- 2 3)"), Err(LispError::MissingClose));
}

#[test]
fn read_sequentially_stops_at_the_closing_token() {
    let tokens = words(&["1", "x", ")", "y"]);
    let (expression, rest) = read_sequentially(&tokens, &read).unwrap();
    assert_eq!(expression, LispExpression::List(vec![number(1.0), symbol("x")]));
    assert_eq!(rest, &tokens[3..]);
    assert_eq!(read_sequentially(&words(&["1", "x"]), &read), Err(LispError::MissingClose));
}

#[test]
fn scenario_sum() {
    assert_eq!(run("(+ 1 2 3)"), Ok(number(6.0)));
}

#[test]
fn scenario_difference() {
    assert_eq!(run("(- 10 1 2 3)"), Ok(number(4.0)));
}

#[test]
fn scenario_empty_list() {
    let failure = run("()").unwrap_err();
    assert_eq!(failure, LispError::EmptyList);
    assert_eq!(failure.message(), "list is empty");
}

#[test]
fn scenario_nested() {
    assert_eq!(run("(+ (- 5 2) 1)"), Ok(number(4.0)));
}

#[test]
fn scenario_no_closing() {
    let failure = run("(+ 1 2").unwrap_err();
    assert_eq!(failure, LispError::MissingClose);
    assert_eq!(failure.message(), "no closing `)`");
}

#[test]
fn scenario_unbound_symbol() {
    let failure = run("(foo 1 2)").unwrap_err();
    assert_eq!(failure, LispError::UnboundSymbol("foo".to_string()));
    assert_eq!(failure.message(), "unexpected symbol: foo");
}

#[test]
fn scenario_head_is_no_function() {
    let failure = run("(1 2 3)").unwrap_err();
    assert_eq!(failure, LispError::NotCallable);
    assert_eq!(failure.message(), "initial form must be a function");
}

#[test]
fn sum_of_nothing_is_zero() {
    assert_eq!(run("(+)"), Ok(number(0.0)));
}

#[test]
fn sum_is_folded_from_the_left() {
    assert_eq!(run("(+ 0.1 0.2 0.3)"), Ok(number(0.0 + 0.1 + 0.2 + 0.3)));
    assert_eq!(run("(+ 1e308 1e308 -1e308)"), Ok(number(f64::INFINITY)));
    assert_eq!(run("(+ 1.5)"), Ok(number(1.5)));
}

#[test]
fn difference_of_one_is_itself() {
    assert_eq!(run("(- 7.25)"), Ok(number(7.25)));
}

#[test]
fn difference_takes_the_sum_of_the_rest() {
    assert_eq!(run("(- 1 0.1 0.2)"), Ok(number(1.0 - (0.0 + 0.1 + 0.2))));
    assert_eq!(run("(- 3 5)"), Ok(number(-2.0)));
}

#[test]
fn difference_needs_an_operand() {
    let failure = run("(-)").unwrap_err();
    assert_eq!(failure, LispError::NoOperand);
    assert_eq!(failure.message(), "requires at least one number");
}

#[test]
fn arithmetic_wants_numbers() {
    let failure = run("(+ 1 +)").unwrap_err();
    assert_eq!(failure, LispError::NotANumber);
    assert_eq!(failure.message(), "expected a number");
    assert_eq!(run("(- -)"), Err(LispError::NotANumber));
}

#[test]
fn atoms_evaluate() {
    assert_eq!(run("42"), Ok(number(42.0)));
    assert_eq!(run("+"), Ok(LispExpression::Function(Builtin::Add)));
    assert_eq!(run("-"), Ok(LispExpression::Function(Builtin::Subtract)));
    assert_eq!(run("x"), Err(LispError::UnboundSymbol("x".to_string())));
}

#[test]
fn tokens_after_the_first_expression_are_ignored() {
    assert_eq!(run("(+ 1 2) (foo"), Ok(number(3.0)));
    assert_eq!(run("1 )"), Ok(number(1.0)));
}

#[test]
fn line_failures() {
    let failure = run("").unwrap_err();
    assert_eq!(failure, LispError::NoToken);
    assert_eq!(failure.message(), "unable to get token");
    let failure = run(") 1").unwrap_err();
    assert_eq!(failure, LispError::StrayClose);
    assert_eq!(failure.message(), "unexpected `)`");
}

#[test]
fn first_failure_wins() {
    assert_eq!(run("(+ a b)"), Err(LispError::UnboundSymbol("a".to_string())));
    assert_eq!(run("(+ 1 () b)"), Err(LispError::EmptyList));
    assert_eq!(run("(a ())"), Err(LispError::UnboundSymbol("a".to_string())));
    assert_eq!(run("((+ 1) 2)"), Err(LispError::NotCallable));
}

#[test]
fn bare_function_has_no_value() {
    let mut environment = as_environment();
    let failure = evaluate(
        &LispExpression::Function(Builtin::Add),
        &mut environment,
        &plus,
        &minus,
    )
    .unwrap_err();
    assert_eq!(failure, LispError::BareFunction);
    assert_eq!(failure.message(), "unexpected form");
}

#[test]
fn function_in_head_position_is_applied() {
    let mut environment = as_environment();
    let call = LispExpression::List(vec![symbol("-"), number(5.0), number(2.0)]);
    assert_eq!(evaluate(&call, &mut environment, &plus, &minus), Ok(number(3.0)));
    let bare = LispExpression::List(vec![
        LispExpression::Function(Builtin::Add),
        number(1.0),
    ]);
    assert_eq!(evaluate(&bare, &mut environment, &plus, &minus), Err(LispError::BareFunction));
}

#[test]
fn environment_binds_the_native_functions() {
    let environment = as_environment();
    assert_eq!(environment.get("+"), Some(&LispExpression::Function(Builtin::Add)));
    assert_eq!(environment.get("-"), Some(&LispExpression::Function(Builtin::Subtract)));
    assert_eq!(environment.get("*"), None);
    assert_eq!(environment.get(""), None);
}

#[test]
fn environment_outlives_evaluations() {
    let mut environment = as_environment();
    assert_eq!(
        lisp_parse_evaluate("(+ 1 2)".to_string(), &mut environment, &read, &plus, &minus),
        Ok(number(3.0))
    );
    assert_eq!(
        lisp_parse_evaluate("(oops".to_string(), &mut environment, &read, &plus, &minus),
        Err(LispError::MissingClose)
    );
    assert_eq!(
        lisp_parse_evaluate("(- 1 2)".to_string(), &mut environment, &read, &plus, &minus),
        Ok(number(-1.0))
    );
}

#[test]
fn coercion_to_numbers() {
    assert_eq!(parse_single_float(&number(2.5)), Ok(2.5f64.to_bits()));
    assert_eq!(parse_single_float(&symbol("a")), Err(LispError::NotANumber));
    assert_eq!(parse_single_float(&LispExpression::List(vec![])), Err(LispError::NotANumber));
    assert_eq!(
        parse_single_float(&LispExpression::Function(Builtin::Add)),
        Err(LispError::NotANumber)
    );
    assert_eq!(
        parse_list_of_floats(&[number(1.0), number(2.0)]),
        Ok(vec![1.0f64.to_bits(), 2.0f64.to_bits()])
    );
    assert_eq!(parse_list_of_floats(&[]), Ok(vec![]));
    assert_eq!(parse_list_of_floats(&[number(1.0), symbol("x")]), Err(LispError::NotANumber));
}

#[test]
fn native_functions_by_hand() {
    let arguments = [number(10.0), number(1.0), number(2.0), number(3.0)];
    assert_eq!(apply_builtin(Builtin::Add, &arguments, &plus, &minus), Ok(number(16.0)));
    assert_eq!(apply_builtin(Builtin::Subtract, &arguments, &plus, &minus), Ok(number(4.0)));
    assert_eq!(apply_builtin(Builtin::Subtract, &[], &plus, &minus), Err(LispError::NoOperand));
    assert_eq!(apply_builtin(Builtin::Add, &[], &plus, &minus), Ok(number(0.0)));
    let bits: Vec<u64> = vec![1.0f64.to_bits(), 2.0f64.to_bits(), 4.0f64.to_bits()];
    assert_eq!(sum_from(&bits, 0, &plus), 7.0f64.to_bits());
    assert_eq!(sum_from(&bits, 1, &plus), 6.0f64.to_bits());
    assert_eq!(sum_from(&bits, 3, &plus), 0.0f64.to_bits());
}

#[test]
fn display_joins_with_commas() {
    let tokens = lisp_tokenize("(1 2 3)".to_string());
    let (list, _) = lisp_parse(&tokens, &read).unwrap();
    assert_eq!(list.to_text(&show), "(1,2,3)");
}

#[test]
fn display_of_each_kind() {
    assert_eq!(number(6.0).to_text(&show), "6");
    assert_eq!(number(2.5).to_text(&show), "2.5");
    assert_eq!(symbol("foo").to_text(&show), "foo");
    assert_eq!(LispExpression::List(vec![]).to_text(&show), "()");
    assert_eq!(LispExpression::List(vec![symbol("a")]).to_text(&show), "(a)");
    assert_eq!(LispExpression::Function(Builtin::Add).to_text(&show), "Function {}");
    let tokens = lisp_tokenize("(+ (- 5 2.5) x)".to_string());
    let (nested, _) = lisp_parse(&tokens, &read).unwrap();
    assert_eq!(nested.to_text(&show), "(+,(-,5,2.5),x)");
}

#[test]
fn display_differs_from_the_input() {
    let line = "(1 2.5 -3)";
    let tokens = lisp_tokenize(line.to_string());
    let (list, _) = lisp_parse(&tokens, &read).unwrap();
    let text = list.to_text(&show);
    assert_eq!(text, "(1,2.5,-3)");
    assert_ne!(text, line);
}

#[test]
fn environment_can_be_copied() {
    let environment = as_environment();
    let copy = environment.clone();
    assert_eq!(copy.get("+"), environment.get("+"));
    assert_eq!(copy.get("-"), Some(&LispExpression::Function(Builtin::Subtract)));
}

#[test]
fn clone_copies_the_tree() {
    let tree = LispExpression::List(vec![
        symbol("+"),
        LispExpression::List(vec![number(1.0), LispExpression::Function(Builtin::Subtract)]),
        number(2.0),
    ]);
    assert_eq!(tree.clone(), tree);
}
