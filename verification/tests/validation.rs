use blockcheck::analyze_block;
use blockcheck::check_aggregate;
use blockcheck::check_call;
use blockcheck::check_lookup;
use blockcheck::from_parse_error;
use blockcheck::validate_block;
use blockcheck::Aggregate;
use blockcheck::Block;
use blockcheck::CompileError;
use blockcheck::Error;
use blockcheck::FunctionCall;
use blockcheck::FunctionDef;
use blockcheck::Lookup;
use blockcheck::ParamUse;
use blockcheck::ParseError;
use blockcheck::ParseResult;
use blockcheck::Position;
use blockcheck::SearchClause;
use blockcheck::Span;
use blockcheck::UpdateClause;
use blockcheck::VarUse;

fn pos(line: u32, column: u32, offset: u32) -> Position {
    Position { line, column, offset }
}

fn span_at(line: u32, c1: u32, c2: u32) -> Span {
    Span::new(pos(line, c1, c1), pos(line, c2, c2))
}

fn var(name: &str, s: Span) -> VarUse {
    VarUse { name: name.to_string(), span: s }
}

fn empty_block() -> Block {
    Block {
        searches: vec![],
        constant_binds: vec![],
        aggregates: vec![],
        updates: vec![],
        lookups: vec![],
        calls: vec![],
    }
}

fn search(outputs: &[&str]) -> SearchClause {
    SearchClause { outputs: outputs.iter().map(|s| s.to_string()).collect() }
}

fn aggregate(sorted: bool, from: &[VarUse], for_v: &[VarUse], result: &str) -> Aggregate {
    Aggregate {
        sorted,
        from_vars: from.to_vec(),
        for_vars: for_v.to_vec(),
        result: result.to_string(),
        from_span: span_at(0, 0, 1),
        span: span_at(0, 0, 1),
    }
}

#[test]
fn span_constructors_keep_ordering() {
    let s = Span::new(pos(1, 2, 10), pos(3, 0, 20));
    assert_eq!(s.start, pos(1, 2, 10));
    assert_eq!(s.stop, pos(3, 0, 20));
    assert!(!s.single_line());
    let same_line = Span::new(pos(4, 1, 30), pos(4, 7, 36));
    assert!(same_line.single_line());
}

#[test]
fn point_span_advances_one_column_and_offset() {
    let s = Span::from_point(pos(2, 5, 17));
    assert_eq!(s.start, pos(2, 5, 17));
    assert_eq!(s.stop, pos(2, 6, 18));
    assert!(s.single_line());
}

#[test]
fn parse_failure_lifting() {
    let outcome = ParseResult::Error(pos(0, 3, 3), ParseError::MissingEnd);
    let ce = from_parse_error(&outcome);
    assert_eq!(ce.span.start, pos(0, 3, 3));
    assert_eq!(ce.span.stop, pos(0, 4, 4));
    assert_eq!(ce.error, Error::ParseError(ParseError::MissingEnd));
}

#[test]
fn parse_error_messages_are_fixed() {
    assert_eq!(
        ParseError::EmptySearch.message(),
        "This block has an empty search. If you want a block to run\n unconditionally, you can omit the search section."
    );
    assert_eq!(
        ParseError::EmptyUpdate.message(),
        "This block doesn't have any actions in it."
    );
    assert_eq!(
        ParseError::InvalidBlock.message(),
        "This block is invalid, but unfortunately I don't have a lot of information about why."
    );
    assert_eq!(
        ParseError::MissingEnd.message(),
        "The `end` keyword is missing for this block."
    );
    assert_eq!(
        ParseError::MissingUpdate.message(),
        "This block is missing either a `bind` or `commit` section."
    );
    assert_eq!(
        ParseError::NumberOverflow().message(),
        "This block contains a number too large or small to represent with the numeric datatype in use."
    );
}

#[test]
fn semantic_error_messages_interpolate_payloads() {
    assert_eq!(
        Error::InvalidNeedle.message(),
        "The `from` in a sorted aggregate has to be the same size as the `for` in order to match the values."
    );
    assert_eq!(
        Error::InvalidLookupType.message(),
        "Lookup can only have \"add\" or \"remove\" for its type field."
    );
    assert_eq!(
        Error::Unprovided("foo".to_string()).message(),
        "Nothing in the block is providing `foo`. You can search for\n something that provides `foo`, or bind a constant.\n e.g. `foo: \"Hello\"`"
    );
    assert_eq!(
        Error::UnknownFunction("math/sin".to_string()).message(),
        "I don't know the `math/sin` function, so I'm not sure what to execute."
    );
    assert_eq!(
        Error::UnknownFunctionParam("math/abs".to_string(), "angle".to_string()).message(),
        "The `math/abs` function doesn't have a `angle` attribute."
    );
    assert_eq!(
        Error::ParseError(ParseError::MissingEnd).message(),
        "The `end` keyword is missing for this block."
    );
}

#[test]
fn grounded_block_yields_no_diagnostics() {
    let mut b = empty_block();
    b.searches = vec![search(&["x", "y"]), search(&["y"])];
    b.constant_binds = vec!["z".to_string()];
    b.updates = vec![
        UpdateClause { consumed: vec![var("x", span_at(1, 0, 1)), var("z", span_at(1, 2, 3))] },
        UpdateClause { consumed: vec![var("y", span_at(2, 0, 1))] },
    ];
    b.lookups = vec![Lookup {
        lookup_type: "add".to_string(),
        type_span: span_at(3, 0, 3),
        keys: vec![var("y", span_at(3, 4, 5))],
    }];
    b.calls = vec![FunctionCall {
        name: "math/abs".to_string(),
        name_span: span_at(4, 0, 8),
        params: vec![ParamUse {
            name: "value".to_string(),
            span: span_at(4, 9, 14),
            arg: Some(var("x", span_at(4, 16, 17))),
        }],
    }];
    assert_eq!(analyze_block(&b), vec![]);
}

#[test]
fn single_missing_variable_flagged_once_with_its_span() {
    let mut b = empty_block();
    b.searches = vec![search(&["x"])];
    let missing_span = span_at(5, 2, 9);
    b.updates = vec![UpdateClause {
        consumed: vec![var("x", span_at(5, 0, 1)), var("quantity", missing_span)],
    }];
    let diags = analyze_block(&b);
    assert_eq!(diags.len(), 1);
    assert_eq!(diags[0].span, missing_span);
    assert_eq!(diags[0].error, Error::Unprovided("quantity".to_string()));
}

#[test]
fn unconsumed_provided_variable_is_not_flagged() {
    let mut b = empty_block();
    b.searches = vec![search(&["lonely"])];
    assert_eq!(analyze_block(&b), vec![]);
}

#[test]
fn aggregate_result_grounds_later_consumers() {
    let mut b = empty_block();
    b.searches = vec![search(&["x"])];
    b.aggregates = vec![aggregate(false, &[var("x", span_at(1, 0, 1))], &[], "total")];
    b.updates = vec![UpdateClause { consumed: vec![var("total", span_at(2, 0, 5))] }];
    assert_eq!(analyze_block(&b), vec![]);
}

#[test]
fn aggregate_inputs_cannot_use_its_own_result() {
    let mut b = empty_block();
    let own = span_at(1, 0, 5);
    b.aggregates = vec![aggregate(false, &[var("total", own)], &[], "total")];
    let diags = analyze_block(&b);
    assert_eq!(diags.len(), 1);
    assert_eq!(diags[0].span, own);
    assert_eq!(diags[0].error, Error::Unprovided("total".to_string()));
}

#[test]
fn earlier_aggregate_feeds_later_one_but_not_backwards() {
    let mut b = empty_block();
    b.searches = vec![search(&["x"])];
    let late = span_at(1, 0, 1);
    b.aggregates = vec![
        aggregate(false, &[var("second", late)], &[], "first"),
        aggregate(false, &[var("first", span_at(2, 0, 5))], &[], "second"),
    ];
    let diags = analyze_block(&b);
    assert_eq!(diags.len(), 1);
    assert_eq!(diags[0].span, late);
    assert_eq!(diags[0].error, Error::Unprovided("second".to_string()));
}

#[test]
fn sorted_aggregate_arity_mismatch_yields_one_needle_error() {
    let a = var("a", span_at(0, 0, 1));
    let bv = var("b", span_at(0, 2, 3));
    let x = var("x", span_at(0, 4, 5));
    let y = var("y", span_at(0, 6, 7));
    let bad = aggregate(true, &[a.clone(), bv.clone()], &[x.clone()], "r");
    let diag = check_aggregate(&bad).expect("mismatch must be reported");
    assert_eq!(diag.span, bad.from_span);
    assert_eq!(diag.error, Error::InvalidNeedle);
    let good = aggregate(true, &[a, bv], &[x, y], "r");
    assert!(check_aggregate(&good).is_none());
}

#[test]
fn unsorted_aggregate_arity_is_not_checked() {
    let a = var("a", span_at(0, 0, 1));
    let x = var("x", span_at(0, 4, 5));
    let plain = aggregate(false, &[a, x.clone()], &[x], "r");
    assert!(check_aggregate(&plain).is_none());
}

#[test]
fn lookup_discriminant_accepts_add_and_remove_only() {
    let lookup = |t: &str| Lookup {
        lookup_type: t.to_string(),
        type_span: span_at(7, 3, 9),
        keys: vec![],
    };
    assert!(check_lookup(&lookup("add")).is_none());
    assert!(check_lookup(&lookup("remove")).is_none());
    let diag = check_lookup(&lookup("delete")).expect("delete must be rejected");
    assert_eq!(diag.span, span_at(7, 3, 9));
    assert_eq!(diag.error, Error::InvalidLookupType);
    assert!(check_lookup(&lookup("Add")).is_some());
    assert!(check_lookup(&lookup("")).is_some());
}

fn abs_registry() -> Vec<FunctionDef> {
    vec![FunctionDef {
        name: "math/abs".to_string(),
        params: vec!["value".to_string()],
    }]
}

fn call(name: &str, params: &[(&str, Span)]) -> FunctionCall {
    FunctionCall {
        name: name.to_string(),
        name_span: span_at(9, 0, 8),
        params: params
            .iter()
            .map(|(p, s)| ParamUse { name: p.to_string(), span: *s, arg: None })
            .collect(),
    }
}

#[test]
fn registered_function_with_recognized_param_passes() {
    let reg = abs_registry();
    let c = call("math/abs", &[("value", span_at(9, 9, 14))]);
    assert_eq!(check_call(&c, &reg), vec![]);
}

#[test]
fn unregistered_function_yields_one_unknown_function() {
    let reg = abs_registry();
    let c = call("math/frobnicate", &[("value", span_at(9, 9, 14))]);
    let diags = check_call(&c, &reg);
    assert_eq!(diags.len(), 1);
    assert_eq!(diags[0].span, c.name_span);
    assert_eq!(diags[0].error, Error::UnknownFunction("math/frobnicate".to_string()));
}

#[test]
fn unrecognized_param_yields_one_unknown_param_each() {
    let reg = abs_registry();
    let bad_span = span_at(9, 9, 18);
    let c = call("math/abs", &[("magnitude", bad_span)]);
    let diags = check_call(&c, &reg);
    assert_eq!(diags.len(), 1);
    assert_eq!(diags[0].span, bad_span);
    assert_eq!(
        diags[0].error,
        Error::UnknownFunctionParam("math/abs".to_string(), "magnitude".to_string())
    );
    let two_bad = call(
        "math/abs",
        &[("magnitude", span_at(9, 9, 18)), ("value", span_at(9, 20, 25)), ("sign", span_at(9, 27, 31))],
    );
    assert_eq!(check_call(&two_bad, &reg).len(), 2);
}

#[test]
fn validation_pass_collects_everything_in_order() {
    let mut b = empty_block();
    b.searches = vec![search(&["x"])];
    let needle_span = span_at(1, 0, 4);
    let mut bad_agg = aggregate(true, &[var("x", span_at(1, 5, 6)), var("x", span_at(1, 7, 8))], &[], "r");
    bad_agg.from_span = needle_span;
    b.aggregates = vec![bad_agg];
    let type_span = span_at(2, 3, 9);
    b.lookups = vec![Lookup {
        lookup_type: "delete".to_string(),
        type_span,
        keys: vec![var("x", span_at(2, 10, 11))],
    }];
    let name_span = span_at(3, 0, 8);
    b.calls = vec![FunctionCall {
        name: "math/frobnicate".to_string(),
        name_span,
        params: vec![],
    }];
    let missing_span = span_at(4, 0, 7);
    b.updates = vec![UpdateClause { consumed: vec![var("missing", missing_span)] }];
    let diags = validate_block(&b, &abs_registry());
    let expected = vec![
        CompileError { span: needle_span, error: Error::InvalidNeedle },
        CompileError { span: type_span, error: Error::InvalidLookupType },
        CompileError { span: name_span, error: Error::UnknownFunction("math/frobnicate".to_string()) },
        CompileError { span: missing_span, error: Error::Unprovided("missing".to_string()) },
    ];
    assert_eq!(diags, expected);
}

#[test]
fn literal_call_arguments_need_no_grounding() {
    let mut b = empty_block();
    b.calls = vec![FunctionCall {
        name: "math/abs".to_string(),
        name_span: span_at(0, 0, 8),
        params: vec![ParamUse { name: "value".to_string(), span: span_at(0, 9, 14), arg: None }],
    }];
    assert_eq!(analyze_block(&b), vec![]);
}

#[test]
fn empty_block_validates_cleanly() {
    let b = empty_block();
    assert_eq!(validate_block(&b, &vec![]), vec![]);
    assert_eq!(analyze_block(&b), vec![]);
}

#[test]
fn variable_provided_twice_is_not_an_error() {
    let mut b = empty_block();
    b.searches = vec![search(&["x"]), search(&["x"])];
    b.updates = vec![UpdateClause { consumed: vec![var("x", span_at(1, 0, 1))] }];
    assert_eq!(analyze_block(&b), vec![]);
}
