//! End-to-end behaviour of the language: variable metadata, array and struct
//! expansion, interpolation, conditionals, function-script calls and
//! indentation rules.

use bucl::ast::Param;
use bucl::error::BuclError;
use bucl::evaluator::Evaluator;
use bucl::functions::register_all;
use bucl::functions::if_fn::evaluate_condition;
use bucl::parser::parse;

fn run(eval: &mut Evaluator, source: &str) -> Result<(), BuclError> {
    let stmts = parse(source).expect("parse failed");
    eval.evaluate_statements(&stmts)
}

fn fresh() -> Evaluator {
    let mut eval = Evaluator::new();
    register_all(&mut eval);
    eval
}

#[test]
fn single_value_assignment_writes_metadata() {
    let mut eval = fresh();
    run(&mut eval, "{word} = \"hello\"").unwrap();
    assert_eq!(eval.resolve_var("word"), "hello");
    assert_eq!(eval.resolve_var("word/count"), "1");
    assert_eq!(eval.resolve_var("word/length"), "5");
}

#[test]
fn set_var_writes_metadata_directly() {
    let mut eval = fresh();
    eval.set_var("name", "value".to_string());
    assert_eq!(eval.resolve_var("name/count"), "1");
    assert_eq!(eval.resolve_var("name/length"), "5");
}

#[test]
fn multi_value_assignment_indexes_elements() {
    let mut eval = fresh();
    run(&mut eval, "{parts} = \"hello\" \"world\"").unwrap();
    assert_eq!(eval.resolve_var("parts/0"), "hello");
    assert_eq!(eval.resolve_var("parts/1"), "world");
    assert_eq!(eval.resolve_var("parts"), "helloworld");
    assert_eq!(eval.resolve_var("parts/count"), "2");
    assert_eq!(eval.resolve_var("parts/5"), "");
}

#[test]
fn scalar_character_indexing() {
    let mut eval = fresh();
    eval.set_var("name", "hello".to_string());
    assert_eq!(eval.resolve_var("name/0"), "h");
    assert_eq!(eval.resolve_var("name/4"), "o");
    assert_eq!(eval.resolve_var("name/5"), "");
}

#[test]
fn multi_value_interpolation_auto_implodes() {
    let mut eval = fresh();
    run(&mut eval, "{v} = \"red\" \"green\" \"blue\"").unwrap();
    assert_eq!(eval.interpolate("{v}"), "red green blue");
}

#[test]
fn multi_value_argument_expands_to_elements() {
    let mut eval = fresh();
    run(&mut eval, "{v} = \"red\" \"green\" \"blue\"").unwrap();
    let values = eval.eval_params(&[Param::Variable("v".to_string())]);
    assert_eq!(
        values,
        vec!["red".to_string(), "green".to_string(), "blue".to_string()]
    );
    run(&mut eval, "{n} count {v}").unwrap();
    assert_eq!(eval.resolve_var("n"), "3");
}

#[test]
fn struct_expansion_derives_names() {
    let mut eval = fresh();
    eval.set_var("db/port", "3308".to_string());
    eval.set_var("db/host", "myserver".to_string());
    let resolved = eval.eval_params_with_names(&[Param::Variable("db".to_string())]);
    assert_eq!(resolved.len(), 2);
    assert_eq!(resolved[0].name, Some("host".to_string()));
    assert_eq!(resolved[0].value, "myserver");
    assert_eq!(resolved[1].name, Some("port".to_string()));
    assert_eq!(resolved[1].value, "3308");
}

#[test]
fn duplicate_derived_names_are_a_runtime_error() {
    let mut eval = fresh();
    eval.set_var("db/port", "3308".to_string());
    eval.set_var("other/port", "9".to_string());
    let r = run(&mut eval, "{x} count {db/port} {other/port}");
    assert!(matches!(r, Err(BuclError::RuntimeError(_))));
}

#[test]
fn tokenize_round_trip_of_one_line() {
    let line = bucl::lexer::tokenize_line("{x} foo \"a\" {y} 42")
        .unwrap()
        .unwrap();
    let (target, function, args) = bucl::parser::extract_parts(&line.tokens).unwrap();
    assert_eq!(target, Some("x".to_string()));
    assert_eq!(function, "foo");
    assert_eq!(args.len(), 3);
    assert!(matches!(&args[0], Param::Quoted(s) if s == "a"));
    assert!(matches!(&args[1], Param::Variable(n) if n == "y"));
    assert!(matches!(&args[2], Param::Bare(s) if s == "42"));
}

#[test]
fn numeric_and_lexicographic_conditions() {
    assert!(!evaluate_condition("7", ">", "10"));
    assert!(evaluate_condition("15", ">", "10"));
    assert!(evaluate_condition("abc", ">", "10"));
    assert!(evaluate_condition("a", "=", "a"));
    assert!(evaluate_condition("a", "!=", "b"));
    assert!(evaluate_condition("2.5", ">", "2.25"));
    assert!(evaluate_condition("-3", "<", "2"));
}

#[test]
fn if_elseif_else_chain_takes_the_right_branch() {
    let mut eval = fresh();
    let script = "{a} = \"15\"\nif {a} > \"100\"\n    {out} = \"big\"\nelseif {a} > \"10\"\n    {out} = \"medium\"\nelse\n    {out} = \"small\"\n";
    run(&mut eval, script).unwrap();
    assert_eq!(eval.resolve_var("out"), "medium");

    let mut eval2 = fresh();
    let script2 = "{a} = \"7\"\nif {a} > \"10\"\n    {out} = \"big\"\nelse\n    {out} = \"small\"\n";
    run(&mut eval2, script2).unwrap();
    assert_eq!(eval2.resolve_var("out"), "small");
}

#[test]
fn function_script_returns_primary_then_sub_keys() {
    let mut eval = fresh();
    eval.add_embedded_function(
        "f",
        "{return} = \"x\"\n{return/0} = \"a\"\n{return/1} = \"b\"\n",
    );
    run(&mut eval, "{t} f \"arg\"").unwrap();
    assert_eq!(eval.resolve_var("t"), "x");
    assert_eq!(eval.resolve_var("t/0"), "a");
    assert_eq!(eval.resolve_var("t/1"), "b");
}

#[test]
fn function_script_sees_calling_convention() {
    let mut eval = fresh();
    eval.add_embedded_function("f", "{return} = \"{argc}:{0}:{1}:{args}\"\n");
    run(&mut eval, "{t} f \"a\" \"b\"").unwrap();
    assert_eq!(eval.resolve_var("t"), "2:a:b:a b");
}

#[test]
fn function_script_receives_named_arguments() {
    let mut eval = fresh();
    eval.set_var("db/port", "3308".to_string());
    eval.add_embedded_function("f", "{return} = \"{port}\"\n");
    run(&mut eval, "{t} f {db/port}").unwrap();
    assert_eq!(eval.resolve_var("t"), "3308");
}

#[test]
fn block_indentation_rules() {
    assert!(parse("a\n    b\n").is_ok());
    let r = parse("a\n    b\n  c\n");
    assert!(matches!(r, Err(BuclError::ParseError(_))));
}

#[test]
fn unknown_function_is_reported() {
    let mut eval = fresh();
    let r = run(&mut eval, "nosuchoperation \"x\"");
    assert!(matches!(r, Err(BuclError::UnknownFunction(_))));
}

#[test]
fn line_starting_with_string_literal_is_a_parse_error() {
    assert!(matches!(parse("\"hello\"\n"), Err(BuclError::ParseError(_))));
}

#[test]
fn nested_references_resolve_dynamically() {
    let mut eval = fresh();
    run(&mut eval, "{parts} = \"alpha\" \"beta\"\n{i} = \"1\"").unwrap();
    assert_eq!(eval.interpolate("{parts/{i}}"), "beta");
    assert_eq!(eval.resolve_var("parts/{i}"), "beta");
}

#[test]
fn echo_appends_to_the_output_collector() {
    let mut eval = fresh();
    run(&mut eval, "echo \"hello\" \"world\"\necho \"again\"").unwrap();
    assert_eq!(eval.output_buffer, vec!["hello world".to_string(), "again".to_string()]);
    assert_eq!(bucl::run_internal("echo \"hi\""), "hi");
}

#[test]
fn comments_and_blank_lines_produce_nothing() {
    let lines = bucl::lexer::tokenize("# comment\n\n   \necho \"x\"\n").unwrap();
    assert_eq!(lines.len(), 1);
    assert!(bucl::lexer::tokenize_line("# only a comment").unwrap().is_none());
    assert!(bucl::lexer::tokenize_line("   ").unwrap().is_none());
}

#[test]
fn unterminated_spans_fall_back_to_literal_text() {
    let line = bucl::lexer::tokenize_line("echo {oops").unwrap().unwrap();
    assert_eq!(line.tokens.len(), 2);
    assert!(matches!(&line.tokens[1], bucl::lexer::Token::Bare(s) if s == "{oops"));

    let mut eval = fresh();
    assert_eq!(eval.interpolate("{oops"), "{oops");
}
