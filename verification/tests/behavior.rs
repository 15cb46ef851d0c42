//! Arithmetic values, error cases, short-circuiting, deduplication and
//! the error serialization shape.

use json_selection::ast::{JSONSelection, LitExpr, MethodArgs, PathList, VarName};
use json_selection::errors::{ApplyToError, ErrorAcc, InputPath, PathSeg};
use json_selection::num::JsonNum;
use json_selection::value::{JsonValue, ObjField};
use serde_json_bytes::serde_json::Number;

fn cs(s: &str) -> Vec<char> {
    s.chars().collect()
}

fn jnull() -> JsonValue {
    JsonValue::Null
}

fn jbool(b: bool) -> JsonValue {
    JsonValue::Bool(b)
}

fn jint(i: i64) -> JsonValue {
    JsonValue::Number(JsonNum::Int(i))
}

fn jfloat(x: f64) -> JsonValue {
    JsonValue::Number(JsonNum::Float(Number::from_f64(x).unwrap()))
}

fn jstr(s: &str) -> JsonValue {
    JsonValue::String(cs(s))
}

fn jarr(elems: Vec<JsonValue>) -> JsonValue {
    JsonValue::Array(elems)
}

fn jobj(fields: Vec<(&str, JsonValue)>) -> JsonValue {
    JsonValue::Object(
        fields
            .into_iter()
            .map(|(k, v)| ObjField { key: cs(k), value: v })
            .collect(),
    )
}

fn empty() -> PathList {
    PathList::Empty
}

fn var_dollar(tail: PathList) -> PathList {
    PathList::Var(VarName::Named(cs("$")), Box::new(tail))
}

fn var_at(tail: PathList) -> PathList {
    PathList::Var(VarName::At, Box::new(tail))
}

fn key(k: &str, tail: PathList) -> PathList {
    PathList::Key(cs(k), Box::new(tail))
}

fn method(name: &str, args: Option<Vec<LitExpr>>, tail: PathList) -> PathList {
    PathList::Method(cs(name), args.map(MethodArgs), Box::new(tail))
}

fn lit_int(i: i64) -> LitExpr {
    LitExpr::Number(JsonNum::Int(i))
}

fn lit_float(x: f64) -> LitExpr {
    LitExpr::Number(JsonNum::Float(Number::from_f64(x).unwrap()))
}

fn lit_str(s: &str) -> LitExpr {
    LitExpr::String(cs(s))
}

fn lit_path(p: PathList) -> LitExpr {
    LitExpr::Path(p)
}

fn sel_path(p: PathList) -> JSONSelection {
    JSONSelection::Path(p)
}

fn apply(sel: &JSONSelection, data: &JsonValue) -> (Option<JsonValue>, Vec<ApplyToError>) {
    let (value, errors) = sel.apply_to(data);
    (value, errors.errs)
}

fn ok(sel: &JSONSelection, data: &JsonValue, expected: JsonValue) {
    assert_eq!(apply(sel, data), (Some(expected), vec![]));
}

/// `$->name(args...)` as a whole selection.
fn dollar_method(name: &str, args: Vec<LitExpr>) -> JSONSelection {
    sel_path(var_dollar(method(name, Some(args), empty())))
}

fn one_error(sel: &JSONSelection, data: &JsonValue, message: &str, path: Vec<PathSeg>) {
    let (value, errors) = apply(sel, data);
    assert_eq!(value, None);
    assert_eq!(errors, vec![ApplyToError { message: cs(message), path }]);
}

#[test]
fn test_arithmetic_methods() {
    ok(&dollar_method("add", vec![lit_int(1)]), &jint(2), jint(3));
    ok(&dollar_method("add", vec![lit_float(1.5)]), &jint(2), jfloat(3.5));
    ok(&dollar_method("add", vec![lit_int(1)]), &jfloat(2.5), jfloat(3.5));
    ok(
        &dollar_method(
            "add",
            vec![lit_int(1), lit_int(2), lit_int(3), lit_int(5), lit_int(8)],
        ),
        &jint(1),
        jint(20),
    );

    ok(&dollar_method("sub", vec![lit_int(1)]), &jint(2), jint(1));
    ok(&dollar_method("sub", vec![lit_float(1.5)]), &jint(2), jfloat(0.5));
    ok(&dollar_method("sub", vec![lit_int(10)]), &jfloat(2.5), jfloat(-7.5));
    ok(
        &dollar_method("sub", vec![lit_int(10), lit_float(2.5)]),
        &jfloat(2.5),
        jfloat(-10.0),
    );

    ok(&dollar_method("mul", vec![lit_int(2)]), &jint(3), jint(6));
    ok(&dollar_method("mul", vec![lit_float(2.5)]), &jint(3), jfloat(7.5));
    ok(&dollar_method("mul", vec![lit_int(2)]), &jfloat(3.5), jfloat(7.0));
    ok(&dollar_method("mul", vec![lit_float(-2.5)]), &jfloat(3.5), jfloat(-8.75));
    ok(
        &dollar_method("mul", vec![lit_int(2), lit_int(3), lit_int(5), lit_int(7)]),
        &jint(10),
        jint(2100),
    );

    ok(&dollar_method("div", vec![lit_int(2)]), &jint(6), jint(3));
    ok(&dollar_method("div", vec![lit_float(2.5)]), &jfloat(7.5), jfloat(3.0));
    ok(&dollar_method("div", vec![lit_int(2)]), &jint(7), jint(3));
    ok(&dollar_method("div", vec![lit_float(2.5)]), &jint(7), jfloat(2.8));
    ok(
        &dollar_method("div", vec![lit_int(2), lit_int(3), lit_int(5), lit_int(7)]),
        &jint(2100),
        jint(10),
    );

    ok(&dollar_method("mod", vec![lit_int(2)]), &jint(6), jint(0));
    ok(&dollar_method("mod", vec![lit_float(2.5)]), &jfloat(7.5), jfloat(0.0));
    ok(&dollar_method("mod", vec![lit_int(2)]), &jint(7), jint(1));
    ok(&dollar_method("mod", vec![lit_int(4)]), &jint(7), jint(3));
    ok(&dollar_method("mod", vec![lit_float(2.5)]), &jint(7), jfloat(2.0));
    ok(
        &dollar_method("mod", vec![lit_int(2), lit_int(3), lit_int(5), lit_int(7)]),
        &jint(2100),
        jint(0),
    );
}

#[test]
fn test_arithmetic_domain_errors() {
    // Integer division by zero fails on that argument, naming it.
    one_error(
        &dollar_method("div", vec![lit_int(0)]),
        &jint(7),
        "Method ->div failed on argument 0",
        vec![],
    );
    // Floating division by zero is not finite, and the argument is
    // rendered as serde_json renders it.
    one_error(
        &dollar_method("div", vec![lit_float(0.0)]),
        &jfloat(7.5),
        "Method ->div failed on argument 0.0",
        vec![],
    );
    // Integer overflow fails on the argument that overflowed.
    one_error(
        &dollar_method("add", vec![lit_int(1)]),
        &jint(i64::MAX),
        "Method ->add failed on argument 1",
        vec![],
    );
    // A non-numeric argument.
    one_error(
        &dollar_method("add", vec![lit_str("x")]),
        &jint(5),
        "Method ->add requires numeric arguments",
        vec![],
    );
    // Non-numeric data.
    one_error(
        &dollar_method("add", vec![lit_int(1)]),
        &jstr("x"),
        "Method ->add requires numeric arguments",
        vec![],
    );
    // No argument list at all.
    one_error(
        &sel_path(var_dollar(method("add", None, empty()))),
        &jint(5),
        "Method ->add requires at least one argument",
        vec![],
    );
}

#[test]
fn test_arity_errors() {
    one_error(
        &sel_path(var_dollar(method("echo", None, empty()))),
        &jint(5),
        "Method ->echo requires one argument",
        vec![],
    );
    one_error(
        &dollar_method("typeof", vec![lit_int(1)]),
        &jint(5),
        "Method ->typeof does not take any arguments",
        vec![],
    );
    one_error(
        &dollar_method("first", vec![lit_int(1)]),
        &jarr(vec![jint(1)]),
        "Method ->first does not take any arguments",
        vec![],
    );
    one_error(
        &dollar_method("not", vec![lit_int(1)]),
        &jint(5),
        "Method ->not does not take any arguments",
        vec![],
    );
    one_error(
        &dollar_method("eq", vec![]),
        &jint(5),
        "Method ->eq requires exactly one argument",
        vec![],
    );
    one_error(
        &sel_path(var_dollar(method("or", None, empty()))),
        &jint(5),
        "Method ->or requires arguments",
        vec![],
    );
    one_error(
        &sel_path(var_dollar(method("and", None, empty()))),
        &jint(5),
        "Method ->and requires arguments",
        vec![],
    );
    one_error(
        &dollar_method("slice", vec![lit_int(0)]),
        &jint(5),
        "Method ->slice requires an array or string input",
        vec![],
    );
}

#[test]
fn test_match_exhaustion_errors() {
    one_error(
        &dollar_method("match", vec![LitExpr::Array(vec![lit_str("a"), lit_str("b")])]),
        &jint(5),
        "Method ->match did not match any [candidate, value] pair",
        vec![],
    );
    one_error(
        &dollar_method(
            "matchIf",
            vec![LitExpr::Array(vec![LitExpr::Bool(false), lit_str("b")])],
        ),
        &jint(5),
        "Method ->matchIf did not match any [condition, value] pair",
        vec![],
    );
    // A trailing default pair guarantees a value for the same data.
    ok(
        &dollar_method(
            "match",
            vec![
                LitExpr::Array(vec![lit_str("a"), lit_str("b")]),
                LitExpr::Array(vec![lit_str("fallback")]),
            ],
        ),
        &jint(5),
        jstr("fallback"),
    );
    ok(
        &dollar_method(
            "matchIf",
            vec![
                LitExpr::Array(vec![LitExpr::Bool(false), lit_str("b")]),
                LitExpr::Array(vec![LitExpr::Bool(true), lit_str("fallback")]),
            ],
        ),
        &jint(5),
        jstr("fallback"),
    );
}

#[test]
fn test_lookup_and_path_errors() {
    one_error(
        &sel_path(var_dollar(method("bogus", None, empty()))),
        &jint(5),
        "Method ->bogus not found",
        vec![],
    );
    one_error(
        &sel_path(PathList::Var(VarName::Named(cs("$oops")), Box::new(empty()))),
        &jint(5),
        "Variable $oops not found",
        vec![],
    );
    one_error(
        &sel_path(key("x", empty())),
        &jobj(vec![("y", jint(1))]),
        "Property .x not found in object",
        vec![PathSeg::Key(cs("x"))],
    );
    one_error(
        &sel_path(key("x", empty())),
        &jint(5),
        "Property .x not found in number",
        vec![PathSeg::Key(cs("x"))],
    );
}

#[test]
fn test_short_circuit_skips_arguments() {
    // A decisive receiver: the failing argument is never evaluated, so
    // its error never appears.
    let or_bogus = dollar_method("or", vec![lit_path(var_at(method("bogus", None, empty())))]);
    assert_eq!(apply(&or_bogus, &jint(1)), (Some(jbool(true)), vec![]));

    let and_bogus = dollar_method("and", vec![lit_path(var_at(method("bogus", None, empty())))]);
    assert_eq!(apply(&and_bogus, &jint(0)), (Some(jbool(false)), vec![]));

    // An indecisive receiver: the argument is evaluated and its error
    // recorded; the failed argument counts as false.
    let (value, errors) = apply(&or_bogus, &jint(0));
    assert_eq!(value, Some(jbool(false)));
    assert_eq!(
        errors,
        vec![ApplyToError { message: cs("Method ->bogus not found"), path: vec![] }],
    );
}

#[test]
fn test_error_deduplication() {
    // The same failure at the same path from two evaluation attempts
    // surfaces once.
    let twice = dollar_method(
        "or",
        vec![
            lit_path(var_at(method("bogus", None, empty()))),
            lit_path(var_at(method("bogus", None, empty()))),
        ],
    );
    let (value, errors) = apply(&twice, &jint(0));
    assert_eq!(value, Some(jbool(false)));
    assert_eq!(
        errors,
        vec![ApplyToError { message: cs("Method ->bogus not found"), path: vec![] }],
    );

    // The same failure at two different paths surfaces twice.
    let map_bogus = dollar_method("map", vec![lit_path(var_at(method("bogus", None, empty())))]);
    let (value, errors) = apply(&map_bogus, &jarr(vec![jint(1), jint(2)]));
    assert_eq!(value, Some(jarr(vec![jnull(), jnull()])));
    assert_eq!(
        errors,
        vec![
            ApplyToError {
                message: cs("Method ->bogus not found"),
                path: vec![PathSeg::Index(0)],
            },
            ApplyToError {
                message: cs("Method ->bogus not found"),
                path: vec![PathSeg::Index(1)],
            },
        ],
    );
}

#[test]
fn test_slice_behavior() {
    // Without an argument list the data passes through unchanged.
    let bare = sel_path(var_dollar(method("slice", None, empty())));
    ok(&bare, &jarr(vec![jint(1), jint(2)]), jarr(vec![jint(1), jint(2)]));

    // Negative and oversized bounds clamp.
    ok(
        &dollar_method("slice", vec![lit_int(-10), lit_int(10)]),
        &jarr(vec![jint(1), jint(2)]),
        jarr(vec![jint(1), jint(2)]),
    );
    // A start beyond the end yields the empty array.
    ok(
        &dollar_method("slice", vec![lit_int(3), lit_int(1)]),
        &jarr(vec![jint(1), jint(2)]),
        jarr(vec![]),
    );
    // One argument slices to the end.
    ok(
        &dollar_method("slice", vec![lit_int(1)]),
        &jarr(vec![jint(1), jint(2), jint(3)]),
        jarr(vec![jint(2), jint(3)]),
    );
    // A bound that fails to evaluate falls back to its default, and the
    // failure is still recorded.
    let failing_start = dollar_method(
        "slice",
        vec![lit_path(var_at(method("bogus", None, empty()))), lit_int(2)],
    );
    let (value, errors) = apply(&failing_start, &jarr(vec![jint(1), jint(2), jint(3)]));
    assert_eq!(value, Some(jarr(vec![jint(1), jint(2)])));
    assert_eq!(
        errors,
        vec![ApplyToError { message: cs("Method ->bogus not found"), path: vec![] }],
    );
}

#[test]
fn test_float_values() {
    // The two IEEE zeroes are equal and both falsy.
    let eq_neg_zero = dollar_method("eq", vec![lit_float(-0.0)]);
    ok(&eq_neg_zero, &jfloat(0.0), jbool(true));
    let not = sel_path(var_dollar(method("not", None, empty())));
    ok(&not, &jfloat(0.0), jbool(true));
    ok(&not, &jfloat(-0.0), jbool(true));
    ok(&not, &jfloat(1.1), jbool(false));

    // An integer never deep-equals a float, even of the same value.
    ok(&dollar_method("eq", vec![lit_float(1.0)]), &jint(1), jbool(false));
    ok(&dollar_method("eq", vec![lit_float(1.5)]), &jfloat(1.5), jbool(true));
}

#[test]
fn test_first_last_singleton() {
    let first = sel_path(var_dollar(method("first", None, empty())));
    let last = sel_path(var_dollar(method("last", None, empty())));
    ok(&first, &jarr(vec![jint(42)]), jint(42));
    ok(&last, &jarr(vec![jint(42)]), jint(42));
}

#[test]
fn test_error_serialization_shape() {
    let err = ApplyToError::new(
        cs("Method ->bogus not found"),
        &InputPath { segs: vec![PathSeg::Key(cs("nested")), PathSeg::Index(2)] },
    );
    assert_eq!(
        err.to_value(),
        jobj(vec![
            ("message", jstr("Method ->bogus not found")),
            ("path", jarr(vec![jstr("nested"), jint(2)])),
        ]),
    );
}

#[test]
fn test_error_accumulator_grows_only() {
    let mut acc = ErrorAcc::empty();
    assert_eq!(acc.len(), 0);
    let path = InputPath { segs: vec![] };
    acc.insert(ApplyToError::new(cs("one"), &path));
    acc.insert(ApplyToError::new(cs("two"), &path));
    acc.insert(ApplyToError::new(cs("one"), &path));
    assert_eq!(acc.len(), 2);
    assert_eq!(
        acc.errs,
        vec![
            ApplyToError { message: cs("one"), path: vec![] },
            ApplyToError { message: cs("two"), path: vec![] },
        ],
    );
}

#[test]
fn test_nested_object_literal_argument() {
    // An object literal among the arguments, with a path for one value.
    let echo_obj = sel_path(var_dollar(method(
        "echo",
        Some(vec![LitExpr::Object(vec![
            json_selection::ast::LitField { key: cs("tag"), value: lit_str("wrapped") },
            json_selection::ast::LitField {
                key: cs("inner"),
                value: lit_path(var_at(empty())),
            },
        ])]),
        empty(),
    )));
    ok(
        &echo_obj,
        &jint(7),
        jobj(vec![("tag", jstr("wrapped")), ("inner", jint(7))]),
    );
}
