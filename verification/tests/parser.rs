use let_lang::ast::{Expression, Module, Visibility};
use let_lang::error::ErrorKind;
use let_lang::lexer::{
    char_in, characters, classify, classify_all, lex, lex_with, CharClass, CharFacts, CharReader, Lexer,
    Token, TokenKind,
};
use let_lang::parser::{parse, Parser};
use let_lang::shapes::{shape_float, shape_function, shape_named, shape_string, shape_unknown, Shape};

fn tokens(text: &str) -> Vec<Token> {
    let mut tokens = lex("test.let", text).unwrap();
    for token in tokens.iter_mut() {
        if token.kind == TokenKind::Number {
            token.bits = token.value.parse::<f64>().unwrap().to_bits();
        }
    }
    tokens
}

fn module(text: &str) -> Module {
    parse(tokens(text), "test", "basic").unwrap()
}

fn refused(text: &str) -> (ErrorKind, usize, usize) {
    let error = parse(tokens(text), "test", "basic").unwrap_err();
    let loc = error.loc.expect("a parse error has its place");
    (error.kind, loc.x, loc.y)
}

fn body(text: &str) -> Expression {
    let mut parsed = module(&format!("fun main(): Float = {}", text));
    parsed.functions.remove(0).ex.body
}

fn spelled(text: &str) -> Vec<(TokenKind, String)> {
    lex("test.let", text).unwrap().into_iter().map(|t| (t.kind, t.value)).collect()
}

fn named(name: &str) -> Shape {
    shape_named(String::from(name))
}

fn show(e: &Expression) -> String {
    match e {
        Expression::NoOp(_) => String::from("noop"),
        Expression::FunctionDeclaration(f) => {
            let args: Vec<String> = f.args.iter().map(|p| p.pretty()).collect();
            format!("fun {}({}): {} = {}", f.id, args.join(", "), f.result.pretty(), show(&f.body))
        }
        Expression::Assignment(a) => format!("let {}: {} = {}", a.id, a.shape.pretty(), show(&a.body)),
        Expression::Variable(v) => v.id.clone(),
        Expression::BinaryOp(b) => format!("({} {} {})", show(&b.left), b.op, show(&b.right)),
        Expression::Call(c) => {
            let args: Vec<String> = c.args.iter().map(show).collect();
            format!("{}({})", show(&c.func), args.join(", "))
        }
        Expression::If(i) => {
            format!("if {} then {} else {}", show(&i.condition), show(&i.then_block), show(&i.else_block))
        }
        Expression::Block(b) => {
            let items: Vec<String> = b.body.iter().map(show).collect();
            format!("{{{}}}", items.join("; "))
        }
        Expression::StringLiteral(s) => format!("{:?}", s.value),
        Expression::NumberLiteral(n) => format!("{}", f64::from_bits(n.value)),
        Expression::BooleanLiteral(_, value) => format!("{}", value),
    }
}

#[test]
fn the_lexer_tells_words_symbols_numbers_and_strings_apart() {
    let wanted = vec![
        (TokenKind::Id, String::from("fun")),
        (TokenKind::Id, String::from("a1")),
        (TokenKind::Symbol, String::from("(")),
        (TokenKind::Symbol, String::from(")")),
        (TokenKind::Symbol, String::from(":")),
        (TokenKind::Id, String::from("Float")),
        (TokenKind::Symbol, String::from("=")),
        (TokenKind::Number, String::from("12.5")),
        (TokenKind::Symbol, String::from("<=")),
        (TokenKind::String, String::from("a b")),
        (TokenKind::EOF, String::from("<EOF>")),
    ];
    assert_eq!(spelled("fun a1(): Float = 12.5<=\"a b\""), wanted);
}

#[test]
fn the_lexer_skips_white_space_and_ends_with_the_end_token() {
    assert_eq!(spelled(""), vec![(TokenKind::EOF, String::from("<EOF>"))]);
    assert_eq!(spelled(" \t\n  "), vec![(TokenKind::EOF, String::from("<EOF>"))]);
    assert_eq!(
        spelled("\n x \t\ty\n"),
        vec![
            (TokenKind::Id, String::from("x")),
            (TokenKind::Id, String::from("y")),
            (TokenKind::EOF, String::from("<EOF>")),
        ]
    );
}

#[test]
fn single_symbols_stand_alone_and_the_others_run_together() {
    let kinds: Vec<String> = spelled("(){}[];,==>=!=->=>+-").into_iter().map(|(_, v)| v).collect();
    assert_eq!(kinds, vec!["(", ")", "{", "}", "[", "]", ";", ",", "==>=!=->=>+-", "<EOF>"]);
    let apart: Vec<String> = spelled("a == b => c -> d").into_iter().map(|(_, v)| v).collect();
    assert_eq!(apart, vec!["a", "==", "b", "=>", "c", "->", "d", "<EOF>"]);
}

#[test]
fn words_take_letters_of_any_script_and_digits_behind_them() {
    let words: Vec<(TokenKind, String)> = spelled("größe2 名前 x9y 7up");
    assert_eq!(
        words,
        vec![
            (TokenKind::Id, String::from("größe2")),
            (TokenKind::Id, String::from("名前")),
            (TokenKind::Id, String::from("x9y")),
            (TokenKind::Number, String::from("7")),
            (TokenKind::Id, String::from("up")),
            (TokenKind::EOF, String::from("<EOF>")),
        ]
    );
}

#[test]
fn tokens_know_their_line_and_column() {
    let found = lex("place.let", "ab cd\n  ef\n\ng").unwrap();
    let places: Vec<(String, usize, usize)> =
        found.iter().map(|t| (t.value.clone(), t.location.x, t.location.y)).collect();
    assert_eq!(
        places,
        vec![
            (String::from("ab"), 1, 1),
            (String::from("cd"), 4, 1),
            (String::from("ef"), 3, 2),
            (String::from("g"), 1, 4),
            (String::from("<EOF>"), 2, 4),
        ]
    );
    assert!(found.iter().all(|t| t.location.src == "place.let" && t.bits == 0));
}

#[test]
fn a_character_that_starts_no_token_is_an_error() {
    let error = lex("bad.let", "a\n  #").unwrap_err();
    assert_eq!(error.kind, ErrorKind::UnexpectedCharacter);
    assert_eq!(error.loc.map(|l| (l.src, l.x, l.y)), Some((String::from("bad.let"), 3, 2)));
    assert_eq!(lex("bad.let", ".5").unwrap_err().kind, ErrorKind::UnexpectedCharacter);
}

#[test]
fn a_string_without_its_closing_quote_is_an_error() {
    let error = lex("bad.let", "x \"open").unwrap_err();
    assert_eq!(error.kind, ErrorKind::UnterminatedString);
    assert_eq!(error.loc.map(|l| (l.x, l.y)), Some((3, 1)));
    assert_eq!(spelled("\"\""), vec![(TokenKind::String, String::new()), (TokenKind::EOF, String::from("<EOF>"))]);
}

#[test]
fn the_lexer_hands_out_one_token_at_a_time() {
    let mut lexer = Lexer::new("step.let", "a + 1");
    assert_eq!(lexer.chars, characters("a + 1"));
    let first = lexer.lex().unwrap();
    assert_eq!((first.kind, first.value.as_str()), (TokenKind::Id, "a"));
    assert_eq!(lexer.point().x, 2);
    let second = lexer.lex().unwrap();
    assert_eq!((second.kind, second.value.as_str()), (TokenKind::Symbol, "+"));
    let third = lexer.lex().unwrap();
    assert_eq!((third.kind, third.value.as_str()), (TokenKind::Number, "1"));
    assert_eq!(lexer.lex().unwrap().kind, TokenKind::EOF);
    assert_eq!(lexer.lex().unwrap().kind, TokenKind::EOF);
    let copy = third.clone();
    assert_eq!(copy.value, "1");
    let failed: Result<u8, _> = copy.expected();
    assert_eq!(failed.unwrap_err().kind, ErrorKind::UnexpectedToken);
}

#[test]
fn a_function_has_name_parameters_result_and_body() {
    let parsed = module("fun add(a: Float, b: String): Float = a");
    assert_eq!(parsed.package, "test");
    assert_eq!(parsed.name, "basic");
    assert_eq!(parsed.functions.len(), 1);
    let f = &parsed.functions[0];
    assert_eq!(f.visibility, Visibility::Private);
    assert_eq!(f.ex.id, "add");
    let args: Vec<(&str, &Shape)> = f.ex.args.iter().map(|p| (p.id.as_str(), &p.shape)).collect();
    assert_eq!(args, vec![("a", &named("Float")), ("b", &named("String"))]);
    assert_eq!(f.ex.result, named("Float"));
    assert_eq!(show(&f.ex.body), "a");
    assert!(!f.ex.context.is_lambda && !f.ex.context.is_local && !f.ex.context.is_recursive);
    assert!(f.ex.context.closures.is_empty());
    assert_eq!((f.ex.loc.x, f.ex.loc.y), (1, 1));
}

#[test]
fn a_module_holds_its_functions_in_order_and_knows_the_exported_ones() {
    let parsed = module("fun a(): Float = 1\nexport fun b(): Float = 2 fun c(): Unit = {}");
    let names: Vec<(&str, Visibility)> =
        parsed.functions.iter().map(|f| (f.ex.id.as_str(), f.visibility)).collect();
    assert_eq!(
        names,
        vec![("a", Visibility::Private), ("b", Visibility::Public), ("c", Visibility::Private)]
    );
    assert!(module("").functions.is_empty());
}

#[test]
fn products_bind_tighter_than_sums_and_sums_tighter_than_comparisons() {
    assert_eq!(show(&body("2 + 3 * 4")), "(2 + (3 * 4))");
    assert_eq!(show(&body("2 * 3 + 4")), "((2 * 3) + 4)");
    assert_eq!(show(&body("1 + 2 < 3 * 4 == 5 > 6")), "(((1 + 2) < (3 * 4)) == (5 > 6))");
    assert_eq!(show(&body("a != b <= c - d / e")), "(a != (b <= (c - (d / e))))");
}

#[test]
fn operations_of_one_level_group_from_the_left() {
    assert_eq!(show(&body("1 - 2 - 3 + 4")), "(((1 - 2) - 3) + 4)");
    assert_eq!(show(&body("8 / 4 / 2 * 3")), "(((8 / 4) / 2) * 3)");
    assert_eq!(show(&body("(1 - (2 - 3)) * 2")), "((1 - (2 - 3)) * 2)");
}

#[test]
fn calls_take_arguments_and_can_follow_each_other() {
    assert_eq!(show(&body("f()")), "f()");
    assert_eq!(show(&body("f(1, x + 2, g(3))")), "f(1, (x + 2), g(3))");
    assert_eq!(show(&body("make(10)(5)")), "make(10)(5)");
    assert_eq!(show(&body("f(1) + g(2) * 3")), "(f(1) + (g(2) * 3))");
}

#[test]
fn terms_are_names_truth_values_strings_and_numbers() {
    assert_eq!(show(&body("true")), "true");
    assert_eq!(show(&body("false")), "false");
    assert_eq!(show(&body("truth")), "truth");
    assert_eq!(show(&body("\"fun\"")), "\"fun\"");
    assert_eq!(show(&body("12.5")), "12.5");
    assert_eq!(body("1").shape(), shape_float());
    assert_eq!(body("\"s\"").shape(), shape_string());
    assert_eq!(body("x").shape(), shape_unknown());
}

#[test]
fn a_condition_has_a_test_and_two_arms() {
    assert_eq!(show(&body("if (1 < 2) { 10 } else { 20 }")), "if (1 < 2) then {10} else {20}");
    assert_eq!(
        show(&body("if (a) 1 else if (b) 2 else 3")),
        "if a then 1 else if b then 2 else 3"
    );
}

#[test]
fn a_block_holds_statements_with_or_without_semicolons() {
    assert_eq!(show(&body("{ let x = 1; let y: Float = 2 x + y }")), "{let x: Unknown = 1; let y: Float = 2; (x + y)}");
    assert_eq!(show(&body("{}")), "{}");
    assert_eq!(show(&body("{ { 1 } }")), "{{1}}");
}

#[test]
fn a_function_inside_a_block_is_local() {
    let parsed = body("{ fun inner(n: Float): Float = n inner(1) }");
    match &parsed {
        Expression::Block(b) => match &b.body[0] {
            Expression::FunctionDeclaration(f) => {
                assert_eq!(f.id, "inner");
                assert!(f.context.is_local && !f.context.is_lambda);
            }
            other => panic!("no function: {}", show(other)),
        },
        other => panic!("no block: {}", show(other)),
    }
    assert_eq!(show(&parsed), "{fun inner(n: Float): Float = n; inner(1)}");
}

#[test]
fn braces_with_a_double_arrow_are_a_lambda() {
    let parsed = body("{ x, y: Float => x + y }");
    match &parsed {
        Expression::FunctionDeclaration(f) => {
            assert_eq!(f.id, "<anon>");
            assert!(f.context.is_lambda && f.context.is_local);
            assert_eq!(f.args[0].shape, shape_unknown());
            assert_eq!(f.args[1].shape, named("Float"));
            assert_eq!(f.result, shape_unknown());
        }
        other => panic!("no lambda: {}", show(other)),
    }
    assert_eq!(show(&parsed), "fun <anon>(x: Unknown, y: Float): Unknown = {(x + y)}");
    assert_eq!(show(&body("{ => 1 }")), "fun <anon>(): Unknown = {1}");
    assert_eq!(show(&body("{ x -> Float => x }")), "fun <anon>(x: Unknown): Float = {x}");
    assert_eq!(show(&body("{ { y => y } }")), "{fun <anon>(y: Unknown): Unknown = {y}}");
    assert_eq!(show(&body("{ a => { b => a + b } }")), "fun <anon>(a: Unknown): Unknown = {fun <anon>(b: Unknown): Unknown = {(a + b)}}");
}

#[test]
fn types_are_names_generics_and_functions() {
    let parsed = module("fun f(a: List[Float], b: { Float, String -> Boolean }, c: { -> Unit }): Map[String, List[Float]] = a");
    let f = &parsed.functions[0].ex;
    let list = Shape::GenericShape { base: Box::new(named("List")), args: vec![named("Float")] };
    assert_eq!(f.args[0].shape, list);
    assert_eq!(f.args[1].shape, shape_function(vec![named("Float"), named("String")], named("Boolean")));
    assert_eq!(f.args[2].shape, shape_function(vec![], named("Unit")));
    assert_eq!(
        f.result,
        Shape::GenericShape { base: Box::new(named("Map")), args: vec![named("String"), list.clone()] }
    );
    assert_ne!(list, shape_float());
}

#[test]
fn what_the_grammar_does_not_want_is_refused_with_its_place() {
    assert_eq!(refused("let x = 1"), (ErrorKind::UnexpectedToken, 1, 1));
    assert_eq!(refused("fun 1(): Float = 1"), (ErrorKind::UnexpectedToken, 5, 1));
    assert_eq!(refused("fun f(: Float = 1"), (ErrorKind::UnexpectedToken, 7, 1));
    assert_eq!(refused("fun f(a): Float = 1"), (ErrorKind::UnexpectedToken, 8, 1));
    assert_eq!(refused("fun f() = 1"), (ErrorKind::UnexpectedToken, 9, 1));
    assert_eq!(refused("fun f(): Float 1"), (ErrorKind::UnexpectedToken, 16, 1));
    assert_eq!(refused("fun f(): Float = "), (ErrorKind::UnexpectedToken, 18, 1));
    assert_eq!(refused("fun f(): Float =\n 1 +"), (ErrorKind::UnexpectedToken, 5, 2));
    assert_eq!(refused("fun f(): Float = (1"), (ErrorKind::UnexpectedToken, 20, 1));
    assert_eq!(refused("fun f(): Float = { 1"), (ErrorKind::UnexpectedToken, 21, 1));
    assert_eq!(refused("fun f(): Float = g(1, )"), (ErrorKind::UnexpectedToken, 23, 1));
    assert_eq!(refused("fun f(): Float = if (a) 1"), (ErrorKind::UnexpectedToken, 26, 1));
    assert_eq!(refused("fun f(): List[ = 1"), (ErrorKind::UnexpectedToken, 16, 1));
    assert_eq!(refused("fun f(): Float = 1 )"), (ErrorKind::UnexpectedToken, 20, 1));
    assert_eq!(refused("fun f(): Float = \"fun\"(\"(\", \")\") \"fun\""), (ErrorKind::UnexpectedToken, 34, 1));
}

#[test]
fn the_parser_reads_its_parts_from_any_place() {
    let parser = Parser { tokens: tokens("1 + 2 * x , { Float -> Float }") };
    let (sum, next) = parser.parse_expression(0).unwrap();
    assert_eq!(show(&sum), "(1 + (2 * x))");
    assert_eq!(next, 5);
    let (product, next) = parser.parse_ops(2, 3).unwrap();
    assert_eq!(show(&product), "(2 * x)");
    assert_eq!(next, 5);
    let (term, next) = parser.parse_term(4).unwrap();
    assert_eq!(show(&term), "x");
    assert_eq!(next, 5);
    let (shape, next) = parser.parse_type(6).unwrap();
    assert_eq!(shape, shape_function(vec![named("Float")], named("Float")));
    assert_eq!(next, 11);
    assert!(parser.check_literal(5, ","));
    assert!(!parser.check_literal(5, ";"));
    assert!(parser.check_kind(11, TokenKind::EOF));
    assert!(!parser.check_is_lambda(7));
    assert!(parser.parse_term(5).is_err());
    assert_eq!(parser.parse_term(99).unwrap_err().kind, ErrorKind::UnexpectedToken);
}

#[test]
fn the_standard_library_says_what_a_character_is() {
    let letter = classify('q');
    assert_eq!(letter, CharFacts { whitespace: false, alphabetic: true, alphanumeric: true, numeric: false });
    let digit = classify('7');
    assert_eq!(digit, CharFacts { whitespace: false, alphabetic: false, alphanumeric: true, numeric: true });
    let blank = classify('\t');
    assert_eq!(blank, CharFacts { whitespace: true, alphabetic: false, alphanumeric: false, numeric: false });
    let sign = classify('+');
    assert_eq!(sign, CharFacts { whitespace: false, alphabetic: false, alphanumeric: false, numeric: false });
    assert_eq!(classify_all(&vec!['a', ' ']), vec![classify('a'), classify(' ')]);
}

#[test]
fn classes_go_by_the_facts_and_by_the_character() {
    let nothing = CharFacts { whitespace: false, alphabetic: false, alphanumeric: false, numeric: false };
    let digit = CharFacts { numeric: true, ..nothing };
    assert!(char_in('(', nothing, CharClass::Single));
    assert!(!char_in('=', nothing, CharClass::Single));
    assert!(char_in('!', nothing, CharClass::Merge));
    assert!(!char_in(',', nothing, CharClass::Merge));
    assert!(char_in('.', nothing, CharClass::DigitOrDot));
    assert!(!char_in('.', nothing, CharClass::Digit));
    assert!(char_in('x', digit, CharClass::Digit));
    assert!(!char_in('x', digit, CharClass::Letter));
    assert!(char_in('x', CharFacts { alphabetic: true, ..nothing }, CharClass::Letter));
    assert!(char_in('x', CharFacts { alphanumeric: true, ..nothing }, CharClass::LetterOrDigit));
    assert!(char_in('x', CharFacts { whitespace: true, ..nothing }, CharClass::Space));
    assert!(char_in('x', nothing, CharClass::StringBody));
    assert!(!char_in('"', nothing, CharClass::StringBody));
}

#[test]
fn the_lexer_goes_by_the_facts_it_is_given() {
    let text = "ab1 c";
    let real = classify_all(&characters(text));
    let same: Vec<(TokenKind, String)> =
        lex_with("f.let", text, real).unwrap().into_iter().map(|t| (t.kind, t.value)).collect();
    assert_eq!(same, spelled(text));
    let nothing = CharFacts { whitespace: false, alphabetic: false, alphanumeric: false, numeric: false };
    let space = CharFacts { whitespace: true, ..nothing };
    let letter = CharFacts { alphabetic: true, alphanumeric: true, ..nothing };
    let odd = vec![letter, space, letter, letter, letter];
    let other: Vec<(TokenKind, String)> =
        lex_with("f.let", text, odd).unwrap().into_iter().map(|t| (t.kind, t.value)).collect();
    assert_eq!(
        other,
        vec![
            (TokenKind::Id, String::from("a")),
            (TokenKind::Id, String::from("1 c")),
            (TokenKind::EOF, String::from("<EOF>")),
        ]
    );
    let none = vec![nothing; 5];
    assert_eq!(lex_with("f.let", text, none).unwrap_err().kind, ErrorKind::UnexpectedCharacter);
}

#[test]
fn the_reader_counts_columns_and_lines() {
    let chars = characters("ab\nc");
    let mut reader = CharReader::new();
    assert_eq!(reader.point(), (1, 1));
    reader.advance(&chars);
    assert_eq!((reader.index, reader.point()), (1, (2, 1)));
    reader.advance(&chars);
    reader.advance(&chars);
    assert_eq!((reader.index, reader.point()), (3, (1, 2)));
    let facts = classify_all(&chars);
    let mut runner = CharReader::new();
    runner.skip_run(&chars, &facts, CharClass::Letter);
    assert_eq!((runner.index, runner.point()), (2, (3, 1)));
    runner.skip_run(&chars, &facts, CharClass::Letter);
    assert_eq!(runner.index, 2);
    runner.skip_run(&chars, &facts, CharClass::Space);
    assert_eq!((runner.index, runner.point()), (3, (1, 2)));
}
