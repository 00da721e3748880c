//! Tests for the argument resolver's helper functions: derived parameter
//! names, named sub-variable discovery and duplicate-name detection.

use bucl::ast::ResolvedArg;
use bucl::evaluator::{check_duplicate_names, extract_param_name, Evaluator};

#[test]
fn test_extract_param_name_root() {
    assert_eq!(extract_param_name("port"), Some("port".to_string()));
    assert_eq!(extract_param_name("host"), Some("host".to_string()));
}

#[test]
fn test_extract_param_name_sub_variable() {
    assert_eq!(extract_param_name("db/port"), Some("port".to_string()));
    assert_eq!(extract_param_name("config/db/host"), Some("host".to_string()));
}

#[test]
fn test_extract_param_name_numeric() {
    assert_eq!(extract_param_name("0"), None);
    assert_eq!(extract_param_name("42"), None);
    assert_eq!(extract_param_name("args/0"), None);
}

#[test]
fn test_extract_param_name_reserved() {
    assert_eq!(extract_param_name("argc"), None);
    assert_eq!(extract_param_name("args"), None);
    assert_eq!(extract_param_name("target"), None);
    assert_eq!(extract_param_name("return"), None);
    assert_eq!(extract_param_name("count"), None);
    assert_eq!(extract_param_name("length"), None);
}

#[test]
fn test_extract_param_name_empty() {
    assert_eq!(extract_param_name(""), None);
}

#[test]
fn test_find_named_sub_vars() {
    let mut eval = Evaluator::new();
    eval.set_var("db/port", "3308".to_string());
    eval.set_var("db/host", "myserver".to_string());
    eval.set_var("db/count", "1".to_string());
    eval.set_var("db/length", "5".to_string());
    eval.set_var("db/0", "zero".to_string());
    eval.set_var("db/nested/deep", "skip".to_string());

    let subs = eval.find_named_sub_vars("db");
    assert_eq!(
        subs,
        vec![
            ("host".to_string(), "myserver".to_string()),
            ("port".to_string(), "3308".to_string()),
        ]
    );
}

#[test]
fn test_check_duplicate_names_ok() {
    let args = vec![
        ResolvedArg { name: Some("host".to_string()), value: "a".to_string() },
        ResolvedArg { name: Some("port".to_string()), value: "b".to_string() },
        ResolvedArg { name: None, value: "c".to_string() },
    ];
    assert!(check_duplicate_names(&args).is_ok());
}

#[test]
fn test_check_duplicate_names_error() {
    let args = vec![
        ResolvedArg { name: Some("port".to_string()), value: "a".to_string() },
        ResolvedArg { name: Some("port".to_string()), value: "b".to_string() },
    ];
    assert!(check_duplicate_names(&args).is_err());
}
