use cleverhans::codegen::{codegen_target, parse_args, pascal_ident, split_camel_boundaries, Args, CodegenTarget};

fn parse(args: &[&str]) -> Result<Args, String> {
    parse_args(args.iter().map(|a| a.to_string()).collect())
}

#[test]
fn splits_dots_and_camel_case() {
    assert_eq!(pascal_ident("transaction.coBuyer.remove"), "TransactionCoBuyerRemove");
}

#[test]
fn handles_snake_and_kebab() {
    assert_eq!(pascal_ident("bulk_ops.delete-by-predicate"), "BulkOpsDeleteByPredicate");
}

#[test]
fn requires_schema_flag() {
    assert!(parse(&["--ts", "out.ts"]).is_err());
}

#[test]
fn parses_all_flags() {
    let args = parse(&["--schema", "r.json", "--ts", "a.ts", "--py", "b.py"]).expect("valid args");

    assert_eq!(
        (args.schema.as_str(), args.ts.as_deref(), args.py.as_deref()),
        ("r.json", Some("a.ts"), Some("b.py"))
    );
}

#[test]
fn rejects_unknown_and_duplicate_flags() {
    assert!(parse(&["--schema", "r.json", "--wat", "x"]).is_err());
    assert!(parse(&["--schema", "a", "--schema", "b"]).is_err());
}

#[test]
fn flag_errors_name_the_flag() {
    assert_eq!(parse(&["--ts", "out.ts"]).err().unwrap(), "--schema <file> is required");
    assert_eq!(parse(&["--schema", "r.json", "--wat", "x"]).err().unwrap(), "unknown flag `--wat`");
    assert_eq!(parse(&["--schema", "a", "--schema", "b"]).err().unwrap(), "--schema given twice");
    assert_eq!(parse(&["--schema"]).err().unwrap(), "--schema needs a value");
}

#[test]
fn camel_boundaries_split_only_after_lowercase() {
    assert_eq!(split_camel_boundaries("coBuyer"), vec!["co".to_string(), "Buyer".to_string()]);
    assert_eq!(split_camel_boundaries("HTTPServer"), vec!["HTTPServer".to_string()]);
    assert_eq!(split_camel_boundaries("a"), vec!["a".to_string()]);
}

#[test]
fn pascal_ident_lowercases_word_tails_and_drops_empty_segments() {
    assert_eq!(pascal_ident("..FOO--bar.."), "FooBar");
    assert_eq!(pascal_ident(""), "");
}

#[test]
fn codegen_targets_accept_long_and_short_names() {
    assert_eq!(codegen_target("typescript"), Ok(CodegenTarget::TypeScript));
    assert_eq!(codegen_target("ts"), Ok(CodegenTarget::TypeScript));
    assert_eq!(codegen_target("py"), Ok(CodegenTarget::Python));
    assert_eq!(codegen_target("rs"), Ok(CodegenTarget::Rust));
    assert_eq!(
        codegen_target("go"),
        Err("unknown codegen target `go` (typescript | python | rust)".to_string())
    );
}

#[test]
fn the_separator_between_two_parts_does_not_matter() {
    for (a, b) in [("transaction", "coBuyer"), ("record", "remove"), ("ab", "Cd"), ("x9", "y")] {
        let joined = pascal_ident(a) + &pascal_ident(b);
        for sep in ['.', '_', '-', ' ', '/', 'é'] {
            assert_eq!(pascal_ident(&format!("{a}{sep}{b}")), joined, "separator {sep:?}");
        }
    }
}

#[test]
fn identifiers_are_alphanumeric() {
    for id in ["transaction.coBuyer.remove", "a--b__c", "é.ü-x", "..", "MiXeD.case_42"] {
        assert!(pascal_ident(id).chars().all(|c| c.is_ascii_alphanumeric()), "{id}");
    }
}
