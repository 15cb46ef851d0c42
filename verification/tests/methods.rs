//! The arrow methods, exercised through `JSONSelection::apply_to`.

use json_selection::ast::{
    JSONSelection, LitExpr, MethodArgs, NamedSelection, PathList, SubSelection, VarName,
};
use json_selection::errors::{ApplyToError, PathSeg};
use json_selection::num::JsonNum;
use json_selection::value::{JsonValue, ObjField};
use serde_json_bytes::serde_json::Number;

fn cs(s: &str) -> Vec<char> {
    s.chars().collect()
}

fn jnull() -> JsonValue {
    JsonValue::Null
}

fn jbool(b: bool) -> JsonValue {
    JsonValue::Bool(b)
}

fn jint(i: i64) -> JsonValue {
    JsonValue::Number(JsonNum::Int(i))
}

fn jfloat(x: f64) -> JsonValue {
    JsonValue::Number(JsonNum::Float(Number::from_f64(x).unwrap()))
}

fn jstr(s: &str) -> JsonValue {
    JsonValue::String(cs(s))
}

fn jarr(elems: Vec<JsonValue>) -> JsonValue {
    JsonValue::Array(elems)
}

fn jobj(fields: Vec<(&str, JsonValue)>) -> JsonValue {
    JsonValue::Object(
        fields
            .into_iter()
            .map(|(k, v)| ObjField { key: cs(k), value: v })
            .collect(),
    )
}

fn empty() -> PathList {
    PathList::Empty
}

fn var_dollar(tail: PathList) -> PathList {
    PathList::Var(VarName::Named(cs("$")), Box::new(tail))
}

fn var_at(tail: PathList) -> PathList {
    PathList::Var(VarName::At, Box::new(tail))
}

fn key(k: &str, tail: PathList) -> PathList {
    PathList::Key(cs(k), Box::new(tail))
}

fn method(name: &str, args: Option<Vec<LitExpr>>, tail: PathList) -> PathList {
    PathList::Method(cs(name), args.map(MethodArgs), Box::new(tail))
}

fn lit_int(i: i64) -> LitExpr {
    LitExpr::Number(JsonNum::Int(i))
}

fn lit_float(x: f64) -> LitExpr {
    LitExpr::Number(JsonNum::Float(Number::from_f64(x).unwrap()))
}

fn lit_str(s: &str) -> LitExpr {
    LitExpr::String(cs(s))
}

fn lit_arr(elems: Vec<LitExpr>) -> LitExpr {
    LitExpr::Array(elems)
}

fn lit_path(p: PathList) -> LitExpr {
    LitExpr::Path(p)
}

fn sel_path(p: PathList) -> JSONSelection {
    JSONSelection::Path(p)
}

fn sel_named(sels: Vec<NamedSelection>) -> JSONSelection {
    JSONSelection::Named(SubSelection { selections: sels })
}

fn field(k: &str) -> NamedSelection {
    NamedSelection::Field(None, cs(k), None)
}

fn aliased(alias: &str, p: PathList) -> NamedSelection {
    NamedSelection::Path(cs(alias), p)
}

/// The `{ id: $ }` sub-selection used by several expressions.
fn id_dollar_sub() -> SubSelection {
    SubSelection { selections: vec![aliased("id", var_dollar(empty()))] }
}

fn apply(sel: &JSONSelection, data: &JsonValue) -> (Option<JsonValue>, Vec<ApplyToError>) {
    let (value, errors) = sel.apply_to(data);
    (value, errors.errs)
}

fn ok(sel: &JSONSelection, data: &JsonValue, expected: JsonValue) {
    assert_eq!(apply(sel, data), (Some(expected), vec![]));
}

#[test]
fn test_echo_method() {
    let echo_oyez = sel_path(var_dollar(method("echo", Some(vec![lit_str("oyez")]), empty())));
    ok(&echo_oyez, &jnull(), jstr("oyez"));
    ok(&echo_oyez, &jarr(vec![jint(1), jint(2), jint(3)]), jstr("oyez"));

    // $->echo([1, 2, 3]) { id: $ }
    let echo_ids = sel_path(var_dollar(method(
        "echo",
        Some(vec![lit_arr(vec![lit_int(1), lit_int(2), lit_int(3)])]),
        PathList::Selection(id_dollar_sub()),
    )));
    ok(
        &echo_ids,
        &jnull(),
        jarr(vec![
            jobj(vec![("id", jint(1))]),
            jobj(vec![("id", jint(2))]),
            jobj(vec![("id", jint(3))]),
        ]),
    );

    // $->echo([1, 2, 3])->last { id: $ }
    let echo_last = sel_path(var_dollar(method(
        "echo",
        Some(vec![lit_arr(vec![lit_int(1), lit_int(2), lit_int(3)])]),
        method("last", None, PathList::Selection(id_dollar_sub())),
    )));
    ok(&echo_last, &jnull(), jobj(vec![("id", jint(3))]));

    // $->echo([1.1, 0.2, -3.3]) { id: $ }
    let echo_floats = sel_path(var_dollar(method(
        "echo",
        Some(vec![lit_arr(vec![lit_float(1.1), lit_float(0.2), lit_float(-3.3)])]),
        PathList::Selection(id_dollar_sub()),
    )));
    ok(
        &echo_floats,
        &jnull(),
        jarr(vec![
            jobj(vec![("id", jfloat(1.1))]),
            jobj(vec![("id", jfloat(0.2))]),
            jobj(vec![("id", jfloat(-3.3))]),
        ]),
    );

    let nested = jobj(vec![("nested", jobj(vec![("value", jint(123))]))]);

    // $.nested.value->echo(['before', @, 'after'])
    let echo_at = sel_path(var_dollar(key(
        "nested",
        key(
            "value",
            method(
                "echo",
                Some(vec![lit_arr(vec![
                    lit_str("before"),
                    lit_path(var_at(empty())),
                    lit_str("after"),
                ])]),
                empty(),
            ),
        ),
    )));
    ok(&echo_at, &nested, jarr(vec![jstr("before"), jint(123), jstr("after")]));

    // $.nested.value->echo(['before', $, 'after'])
    let echo_dollar = sel_path(var_dollar(key(
        "nested",
        key(
            "value",
            method(
                "echo",
                Some(vec![lit_arr(vec![
                    lit_str("before"),
                    lit_path(var_dollar(empty())),
                    lit_str("after"),
                ])]),
                empty(),
            ),
        ),
    )));
    ok(
        &echo_dollar,
        &nested,
        jarr(vec![jstr("before"), json_selection::value::deep_clone(&nested), jstr("after")]),
    );

    // data->echo(@.results->last)
    let echo_results_last = sel_path(key(
        "data",
        method(
            "echo",
            Some(vec![lit_path(var_at(key("results", method("last", None, empty()))))]),
            empty(),
        ),
    ));
    ok(
        &echo_results_last,
        &jobj(vec![("data", jobj(vec![("results", jarr(vec![jint(1), jint(2), jint(3)]))]))]),
        jint(3),
    );

    // results->echo(@->first)
    let results = jobj(vec![(
        "results",
        jarr(vec![jarr(vec![jint(1), jint(2), jint(3)]), jstr("ignored")]),
    )]);
    let echo_first = sel_path(key(
        "results",
        method("echo", Some(vec![lit_path(var_at(method("first", None, empty())))]), empty()),
    ));
    ok(&echo_first, &results, jarr(vec![jint(1), jint(2), jint(3)]));

    // results->echo(@->first)->last
    let echo_first_last = sel_path(key(
        "results",
        method(
            "echo",
            Some(vec![lit_path(var_at(method("first", None, empty())))]),
            method("last", None, empty()),
        ),
    ));
    ok(&echo_first_last, &results, jint(3));
}

#[test]
fn test_typeof_method() {
    fn check(sel: &JSONSelection, data: &JsonValue, expected_type: &str) {
        assert_eq!(apply(sel, data), (Some(jstr(expected_type)), vec![]));
    }

    let dollar_typeof = sel_path(var_dollar(method("typeof", None, empty())));
    let at_typeof = sel_path(var_at(method("typeof", None, empty())));

    check(&dollar_typeof, &jnull(), "null");
    check(&dollar_typeof, &jbool(true), "boolean");
    check(&at_typeof, &jbool(false), "boolean");
    check(&dollar_typeof, &jint(123), "number");
    check(&dollar_typeof, &jfloat(123.45), "number");
    check(&dollar_typeof, &jstr("hello"), "string");
    check(&dollar_typeof, &jarr(vec![jint(1), jint(2), jint(3)]), "array");
    check(&dollar_typeof, &jobj(vec![("key", jstr("value"))]), "object");
}

#[test]
fn test_map_method() {
    // $->map(@->add(10))
    let add_ten = sel_path(var_dollar(method(
        "map",
        Some(vec![lit_path(var_at(method("add", Some(vec![lit_int(10)]), empty())))]),
        empty(),
    )));
    ok(
        &add_ten,
        &jarr(vec![jint(1), jint(2), jint(3)]),
        jarr(vec![jint(11), jint(12), jint(13)]),
    );

    // messages->map(@.role)
    let map_role = sel_path(key(
        "messages",
        method("map", Some(vec![lit_path(var_at(key("role", empty())))]), empty()),
    ));
    ok(
        &map_role,
        &jobj(vec![(
            "messages",
            jarr(vec![
                jobj(vec![("role", jstr("admin"))]),
                jobj(vec![("role", jstr("user"))]),
                jobj(vec![("role", jstr("guest"))]),
            ]),
        )]),
        jarr(vec![jstr("admin"), jstr("user"), jstr("guest")]),
    );

    // messages->map(@.roles)
    let map_roles = sel_path(key(
        "messages",
        method("map", Some(vec![lit_path(var_at(key("roles", empty())))]), empty()),
    ));
    ok(
        &map_roles,
        &jobj(vec![(
            "messages",
            jarr(vec![
                jobj(vec![("roles", jarr(vec![jstr("admin")]))]),
                jobj(vec![("roles", jarr(vec![jstr("user"), jstr("guest")]))]),
            ]),
        )]),
        jarr(vec![
            jarr(vec![jstr("admin")]),
            jarr(vec![jstr("user"), jstr("guest")]),
        ]),
    );

    // values->map(@->typeof)
    let map_typeof = sel_path(key(
        "values",
        method(
            "map",
            Some(vec![lit_path(var_at(method("typeof", None, empty())))]),
            empty(),
        ),
    ));
    ok(
        &map_typeof,
        &jobj(vec![(
            "values",
            jarr(vec![
                jint(1),
                jfloat(2.5),
                jstr("hello"),
                jbool(true),
                jnull(),
                jarr(vec![]),
                jobj(vec![]),
            ]),
        )]),
        jarr(vec![
            jstr("number"),
            jstr("number"),
            jstr("string"),
            jstr("boolean"),
            jstr("null"),
            jstr("array"),
            jstr("object"),
        ]),
    );

    // singleValue->map(@->mul(10))
    let map_single = sel_path(key(
        "singleValue",
        method(
            "map",
            Some(vec![lit_path(var_at(method("mul", Some(vec![lit_int(10)]), empty())))]),
            empty(),
        ),
    ));
    ok(&map_single, &jobj(vec![("singleValue", jint(123))]), jint(1230));
}

#[test]
fn test_missing_method() {
    // nested.path->bogus
    let bogus = sel_path(key("nested", key("path", method("bogus", None, empty()))));
    let (value, errors) = apply(&bogus, &jobj(vec![("nested", jobj(vec![("path", jint(123))]))]));
    assert_eq!(value, None);
    assert_eq!(
        errors,
        vec![ApplyToError {
            message: cs("Method ->bogus not found"),
            path: vec![PathSeg::Key(cs("nested")), PathSeg::Key(cs("path"))],
        }],
    );
}

#[test]
fn test_match_methods() {
    // name  __typename: kind->match(['dog', 'Canine'], ['cat', 'Feline'])
    let two_pairs = sel_named(vec![
        field("name"),
        aliased(
            "__typename",
            key(
                "kind",
                method(
                    "match",
                    Some(vec![
                        lit_arr(vec![lit_str("dog"), lit_str("Canine")]),
                        lit_arr(vec![lit_str("cat"), lit_str("Feline")]),
                    ]),
                    empty(),
                ),
            ),
        ),
    ]);
    ok(
        &two_pairs,
        &jobj(vec![("kind", jstr("cat")), ("name", jstr("Whiskers"))]),
        jobj(vec![("name", jstr("Whiskers")), ("__typename", jstr("Feline"))]),
    );

    // ... with a trailing [@, 'Exotic'] pair
    let at_default = sel_named(vec![
        field("name"),
        aliased(
            "__typename",
            key(
                "kind",
                method(
                    "match",
                    Some(vec![
                        lit_arr(vec![lit_str("dog"), lit_str("Canine")]),
                        lit_arr(vec![lit_str("cat"), lit_str("Feline")]),
                        lit_arr(vec![lit_path(var_at(empty())), lit_str("Exotic")]),
                    ]),
                    empty(),
                ),
            ),
        ),
    ]);
    ok(
        &at_default,
        &jobj(vec![("kind", jstr("axlotl")), ("name", jstr("Gulpy"))]),
        jobj(vec![("name", jstr("Gulpy")), ("__typename", jstr("Exotic"))]),
    );

    // ... with a trailing single-element ['Exotic'] pair
    let single_default = sel_named(vec![
        field("name"),
        aliased(
            "__typename",
            key(
                "kind",
                method(
                    "match",
                    Some(vec![
                        lit_arr(vec![lit_str("dog"), lit_str("Canine")]),
                        lit_arr(vec![lit_str("cat"), lit_str("Feline")]),
                        lit_arr(vec![lit_str("Exotic")]),
                    ]),
                    empty(),
                ),
            ),
        ),
    ]);
    ok(
        &single_default,
        &jobj(vec![("kind", jstr("axlotl")), ("name", jstr("Gulpy"))]),
        jobj(vec![("name", jstr("Gulpy")), ("__typename", jstr("Exotic"))]),
    );
    ok(
        &single_default,
        &jobj(vec![("kind", jstr("dog")), ("name", jstr("Laika"))]),
        jobj(vec![("name", jstr("Laika")), ("__typename", jstr("Canine"))]),
    );

    // num: value->matchIf([@->typeof->eq('number'), @], [true, 'not a number'])
    let match_if_number = sel_named(vec![aliased(
        "num",
        key(
            "value",
            method(
                "matchIf",
                Some(vec![
                    lit_arr(vec![
                        lit_path(var_at(method(
                            "typeof",
                            None,
                            method("eq", Some(vec![lit_str("number")]), empty()),
                        ))),
                        lit_path(var_at(empty())),
                    ]),
                    lit_arr(vec![LitExpr::Bool(true), lit_str("not a number")]),
                ]),
                empty(),
            ),
        ),
    )]);
    ok(
        &match_if_number,
        &jobj(vec![("value", jint(123))]),
        jobj(vec![("num", jint(123))]),
    );
    ok(
        &match_if_number,
        &jobj(vec![("value", jbool(true))]),
        jobj(vec![("num", jstr("not a number"))]),
    );

    // result->matchIf([@->typeof->eq('boolean'), @], [true, 'not boolean'])
    fn bool_or_default(method_name: &str) -> JSONSelection {
        sel_path(key(
            "result",
            method(
                method_name,
                Some(vec![
                    lit_arr(vec![
                        lit_path(var_at(method(
                            "typeof",
                            None,
                            method("eq", Some(vec![lit_str("boolean")]), empty()),
                        ))),
                        lit_path(var_at(empty())),
                    ]),
                    lit_arr(vec![LitExpr::Bool(true), lit_str("not boolean")]),
                ]),
                empty(),
            ),
        ))
    }
    ok(&bool_or_default("matchIf"), &jobj(vec![("result", jbool(true))]), jbool(true));
    ok(&bool_or_default("match_if"), &jobj(vec![("result", jint(321))]), jstr("not boolean"));
}

#[test]
fn test_array_methods() {
    let first = sel_path(var_dollar(method("first", None, empty())));
    ok(&first, &jarr(vec![jint(1), jint(2), jint(3)]), jint(1));
    assert_eq!(apply(&first, &jarr(vec![])), (None, vec![]));
    ok(&first, &jstr("hello"), jstr("hello"));

    let last = sel_path(var_dollar(method("last", None, empty())));
    ok(&last, &jarr(vec![jint(1), jint(2), jint(3)]), jint(3));
    assert_eq!(apply(&last, &jarr(vec![])), (None, vec![]));
    ok(&last, &jstr("hello"), jstr("hello"));

    let slice13 = sel_path(var_dollar(method(
        "slice",
        Some(vec![lit_int(1), lit_int(3)]),
        empty(),
    )));
    ok(
        &slice13,
        &jarr(vec![jint(1), jint(2), jint(3), jint(4), jint(5)]),
        jarr(vec![jint(2), jint(3)]),
    );
    ok(&slice13, &jarr(vec![jint(1), jint(2)]), jarr(vec![jint(2)]));
    ok(&slice13, &jarr(vec![jint(1)]), jarr(vec![]));
    ok(&slice13, &jarr(vec![]), jarr(vec![]));
    ok(&slice13, &jstr("hello"), jstr("el"));
    ok(&slice13, &jstr("he"), jstr("e"));
    ok(&slice13, &jstr("h"), jstr(""));
    ok(&slice13, &jstr(""), jstr(""));
}

#[test]
fn test_logical_methods() {
    let map_not = sel_path(var_dollar(method(
        "map",
        Some(vec![lit_path(var_at(method("not", None, empty())))]),
        empty(),
    )));
    ok(
        &map_not,
        &jarr(vec![
            jbool(true),
            jbool(false),
            jint(0),
            jint(1),
            jint(-123),
            jnull(),
            jstr("hello"),
            jobj(vec![]),
            jarr(vec![]),
        ]),
        jarr(vec![
            jbool(false),
            jbool(true),
            jbool(true),
            jbool(false),
            jbool(false),
            jbool(true),
            jbool(false),
            jbool(false),
            jbool(false),
        ]),
    );

    let map_not_not = sel_path(var_dollar(method(
        "map",
        Some(vec![lit_path(var_at(method("not", None, method("not", None, empty()))))]),
        empty(),
    )));
    ok(
        &map_not_not,
        &jarr(vec![
            jbool(true),
            jbool(false),
            jint(0),
            jint(1),
            jint(-123),
            jnull(),
            jstr("hello"),
            jobj(vec![]),
            jarr(vec![]),
        ]),
        jarr(vec![
            jbool(true),
            jbool(false),
            jbool(false),
            jbool(true),
            jbool(true),
            jbool(false),
            jbool(true),
            jbool(true),
            jbool(true),
        ]),
    );

    fn logical(first_key: &str, op: &str, rest: Vec<PathList>) -> JSONSelection {
        sel_path(var_dollar(key(
            first_key,
            method(op, Some(rest.into_iter().map(lit_path).collect()), empty()),
        )))
    }

    // $.a->and($.b, $.c) on { a: true, b: null, c: true }
    ok(
        &logical("a", "and", vec![var_dollar(key("b", empty())), var_dollar(key("c", empty()))]),
        &jobj(vec![("a", jbool(true)), ("b", jnull()), ("c", jbool(true))]),
        jbool(false),
    );
    // $.b->and($.c, $.a) on { a: "hello", b: true, c: 123 }
    ok(
        &logical("b", "and", vec![var_dollar(key("c", empty())), var_dollar(key("a", empty()))]),
        &jobj(vec![("a", jstr("hello")), ("b", jbool(true)), ("c", jint(123))]),
        jbool(true),
    );
    // $.both->and($.and) on { both: true, and: true }
    ok(
        &logical("both", "and", vec![var_dollar(key("and", empty()))]),
        &jobj(vec![("both", jbool(true)), ("and", jbool(true))]),
        jbool(true),
    );
    // data.x->and($.data.y) on { data: { x: true, y: false } }
    let data_x_and = sel_path(key(
        "data",
        key(
            "x",
            method(
                "and",
                Some(vec![lit_path(var_dollar(key("data", key("y", empty()))))]),
                empty(),
            ),
        ),
    ));
    ok(
        &data_x_and,
        &jobj(vec![("data", jobj(vec![("x", jbool(true)), ("y", jbool(false))]))]),
        jbool(false),
    );

    // $.a->or($.b, $.c) on { a: true, b: null, c: true }
    ok(
        &logical("a", "or", vec![var_dollar(key("b", empty())), var_dollar(key("c", empty()))]),
        &jobj(vec![("a", jbool(true)), ("b", jnull()), ("c", jbool(true))]),
        jbool(true),
    );
    // $.b->or($.a, $.c) on { a: false, b: null, c: 0 }
    ok(
        &logical("b", "or", vec![var_dollar(key("a", empty())), var_dollar(key("c", empty()))]),
        &jobj(vec![("a", jbool(false)), ("b", jnull()), ("c", jint(0))]),
        jbool(false),
    );
    // $.both->or($.and) on { both: true, and: false }
    ok(
        &logical("both", "or", vec![var_dollar(key("and", empty()))]),
        &jobj(vec![("both", jbool(true)), ("and", jbool(false))]),
        jbool(true),
    );
    // data.x->or($.data.y) on { data: { x: false, y: false } }
    let data_x_or = sel_path(key(
        "data",
        key(
            "x",
            method(
                "or",
                Some(vec![lit_path(var_dollar(key("data", key("y", empty()))))]),
                empty(),
            ),
        ),
    ));
    ok(
        &data_x_or,
        &jobj(vec![("data", jobj(vec![("x", jbool(false)), ("y", jbool(false))]))]),
        jbool(false),
    );
}
