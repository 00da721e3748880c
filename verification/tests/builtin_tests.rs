//! The built-in operations: exact values for the string and arithmetic
//! helpers, the loop builtins, the file table, and every error variant.

use bucl::error::BuclError;
use bucl::evaluator::Evaluator;
use bucl::functions::register_all;
use bucl::parser::parse;

fn run(eval: &mut Evaluator, source: &str) -> Result<(), BuclError> {
    let stmts = parse(source).expect("parse failed");
    eval.evaluate_statements(&stmts)
}

fn fresh() -> Evaluator {
    let mut eval = Evaluator::new();
    register_all(&mut eval);
    eval
}

#[test]
fn count_and_length() {
    let mut eval = fresh();
    run(&mut eval, "{n} count \"one\" \"two\" \"three\"\n{l} length \"hal\" \"lo\"").unwrap();
    assert_eq!(eval.resolve_var("n"), "3");
    assert_eq!(eval.resolve_var("l"), "5");
}

#[test]
fn cmp_returns_sign() {
    let mut eval = fresh();
    run(&mut eval, "{a} cmp \"5\" \"3\"\n{b} cmp \"2\" \"9\"\n{c} cmp \"4\" \"4\"").unwrap();
    assert_eq!(eval.resolve_var("a"), "1");
    assert_eq!(eval.resolve_var("b"), "-1");
    assert_eq!(eval.resolve_var("c"), "0");
    // Non-numeric operands count as zero.
    run(&mut eval, "{d} cmp \"x\" \"-2\"").unwrap();
    assert_eq!(eval.resolve_var("d"), "1");
}

#[test]
fn strpos_finds_first_occurrence() {
    let mut eval = fresh();
    run(&mut eval, "{p} strpos \"hello world\" \"world\"\n{q} strpos \"hello\" \"xyz\"").unwrap();
    assert_eq!(eval.resolve_var("p"), "6");
    assert_eq!(eval.resolve_var("q"), "-1");
}

#[test]
fn substr_extracts_and_clamps() {
    let mut eval = fresh();
    run(&mut eval, "{r} substr 0 3 \"AAAaaa\"\n{s} substr 4 10 \"abcdef\"").unwrap();
    assert_eq!(eval.resolve_var("r"), "AAA");
    assert_eq!(eval.resolve_var("s"), "ef");
    let bad = run(&mut eval, "{x} substr no 3 \"abc\"");
    assert!(matches!(bad, Err(BuclError::RuntimeError(_))));
}

#[test]
fn math_evaluates_integer_expressions() {
    let mut eval = fresh();
    run(&mut eval, "{m} math \"3+3\"\n{n} math \"(10-2)*3\"\n{o} math \"7 % 4\"").unwrap();
    assert_eq!(eval.resolve_var("m"), "6");
    assert_eq!(eval.resolve_var("n"), "24");
    assert_eq!(eval.resolve_var("o"), "3");
    let bad = run(&mut eval, "{z} math \"1/0\"");
    assert!(matches!(bad, Err(BuclError::RuntimeError(_))));
}

#[test]
fn getvar_setvar_dynamic_names() {
    let mut eval = fresh();
    run(
        &mut eval,
        "{greeting} = \"hello\"\n{n} = \"greeting\"\n{val} getvar {n}\nsetvar \"other\" \"x\"",
    )
    .unwrap();
    assert_eq!(eval.resolve_var("val"), "hello");
    assert_eq!(eval.resolve_var("other"), "x");
    let bad = run(&mut eval, "setvar \"only-one\"");
    assert!(matches!(bad, Err(BuclError::RuntimeError(_))));
}

#[test]
fn repeat_runs_the_block_count_times() {
    let mut eval = fresh();
    run(&mut eval, "{r} repeat 3\n    echo \"turn {r/index} of {r/count}\"").unwrap();
    assert_eq!(
        eval.output_buffer,
        vec![
            "turn 1 of 3".to_string(),
            "turn 2 of 3".to_string(),
            "turn 3 of 3".to_string(),
        ]
    );
    let bad = run(&mut eval, "repeat \"x\"");
    assert!(matches!(bad, Err(BuclError::RuntimeError(_))));
}

#[test]
fn each_iterates_and_populates_the_loop_variable() {
    let mut eval = fresh();
    run(&mut eval, "{e} each \"Alice\" \"Bob\"\n    echo \"{e/index}: {e/value}\"").unwrap();
    assert_eq!(
        eval.output_buffer,
        vec!["0: Alice".to_string(), "1: Bob".to_string()]
    );
    assert_eq!(eval.resolve_var("e"), "2");
    assert_eq!(eval.resolve_var("e/count"), "2");
    assert_eq!(eval.resolve_var("e/0"), "Alice");
    assert_eq!(eval.resolve_var("e/1"), "Bob");
}

#[test]
fn file_table_reads_and_writes() {
    let mut eval = fresh();
    eval.add_file("hello.txt", "contents here");
    run(&mut eval, "{c} readfile \"hello.txt\"\n{w} writefile \"out.txt\" \"payload\"").unwrap();
    assert_eq!(eval.resolve_var("c"), "contents here");
    assert_eq!(eval.resolve_var("w"), "payload");
    assert_eq!(eval.files.entries.iter().find(|e| e.0 == "out.txt").map(|e| e.1.clone()),
               Some("payload".to_string()));
    let missing = run(&mut eval, "{c2} readfile \"nope.txt\"");
    assert!(matches!(missing, Err(BuclError::IoError(_))));
}

#[test]
fn random_respects_its_bounds() {
    let mut eval = fresh();
    run(&mut eval, "{r} random 7 7").unwrap();
    assert_eq!(eval.resolve_var("r"), "7");
    run(&mut eval, "{d} random 1 6").unwrap();
    let d: i64 = eval.resolve_var("d").parse().unwrap();
    assert!((1..=6).contains(&d));
    let bad = run(&mut eval, "{x} random 9 2");
    assert!(matches!(bad, Err(BuclError::RuntimeError(_))));
}

#[test]
fn sleep_validates_its_duration() {
    let mut eval = fresh();
    assert!(run(&mut eval, "sleep \"0.0\"").is_ok());
    assert!(matches!(run(&mut eval, "sleep \"x\""), Err(BuclError::RuntimeError(_))));
    assert!(matches!(run(&mut eval, "sleep \"-1\""), Err(BuclError::RuntimeError(_))));
}

#[test]
fn error_messages_render_with_their_kind() {
    assert_eq!(
        BuclError::UnknownFunction("foo".to_string()).message(),
        "Unknown function: 'foo'"
    );
    assert_eq!(BuclError::ParseError("bad".to_string()).message(), "Parse error: bad");
    assert!(bucl::run_internal("\"oops\"").starts_with("[parse error] "));
    assert!(bucl::run_internal("nosuch").starts_with("[error] Unknown function: 'nosuch'"));
}

#[test]
fn quoted_escapes_resolve() {
    let line = bucl::lexer::tokenize_line("echo \"a\\\"b\\n\\t\\\\c\\q\"")
        .unwrap()
        .unwrap();
    match &line.tokens[1] {
        bucl::lexer::Token::Quoted(s) => assert_eq!(s, "a\"b\n\t\\c\\q"),
        other => panic!("unexpected token {:?}", other),
    }
}

#[test]
fn deep_function_recursion_fails_cleanly() {
    let mut eval = fresh();
    eval.add_embedded_function("loopy", "{t} loopy\n");
    let r = run(&mut eval, "{t} loopy");
    assert!(matches!(r, Err(BuclError::RuntimeError(_))));
}

#[test]
fn loop_builtins_default_their_prefixes() {
    let mut eval = fresh();
    run(&mut eval, "each \"x\" \"y\"").unwrap();
    assert_eq!(eval.resolve_var("e"), "2");
    assert_eq!(eval.resolve_var("e/0"), "x");
    assert_eq!(eval.resolve_var("e/1"), "y");
    run(&mut eval, "repeat 2\n    echo \"round {r/index}\"").unwrap();
    assert_eq!(eval.resolve_var("r"), "2");
    assert_eq!(
        eval.output_buffer,
        vec!["round 1".to_string(), "round 2".to_string()]
    );
}

#[test]
fn named_arguments_reach_builtins() {
    // `count` is reserved and never becomes a derived name, so the repeat
    // count arrives positionally even from `{cfg/count}`.
    let mut eval = fresh();
    run(&mut eval, "{cfg/count} = \"2\"\nrepeat {cfg/count}\n    echo \"tick\"").unwrap();
    assert_eq!(eval.output_buffer.len(), 2);

    // `path`, `min` and `max` do derive names and reach their builtins.
    let mut eval2 = fresh();
    eval2.add_file("in.txt", "data");
    run(&mut eval2, "{cfg/path} = \"in.txt\"\n{c} readfile {cfg/path}").unwrap();
    assert_eq!(eval2.resolve_var("c"), "data");

    let mut eval3 = fresh();
    run(
        &mut eval3,
        "{cfg/min} = \"3\"\n{cfg/max} = \"3\"\n{r} random {cfg/min} {cfg/max}",
    )
    .unwrap();
    assert_eq!(eval3.resolve_var("r"), "3");
}

#[test]
fn unset_variables_resolve_to_empty() {
    let eval = fresh();
    assert_eq!(eval.resolve_var("missing"), "");
    assert_eq!(eval.resolve_var("missing/3"), "");
    assert_eq!(eval.resolve_var("missing/label"), "");
}
