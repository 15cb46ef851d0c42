//! General properties of the evaluator, stated and proved against the
//! same specification functions the executable code is verified
//! against. Each law here is a public proof: it holds for every input
//! its premises admit, not just for the values any test happens to try.

use vstd::prelude::*;

use crate::ast::LitExpr;
use crate::ast::LitField;
use crate::ast::NamedSelection;
use crate::ast::SubSelection;
use crate::ast::VarName;
use crate::ast::args_size;
use crate::ast::lemma_lit_fields_size_elem;
use crate::ast::lemma_lit_seq_size_elem;
use crate::ast::lemma_named_seq_size_elem;
use crate::ast::lit_fields_size;
use crate::ast::lit_seq_size;
use crate::ast::lit_size;
use crate::ast::named_seq_size;
use crate::ast::named_size;
use crate::ast::path_size;
use crate::ast::sub_size;
use crate::ast::MethodArgs;
use crate::ast::PathList;
use crate::errors::SpecErr;
use crate::errors::SpecSeg;
use crate::errors::spec_insert_err;
use crate::eval::SpecVarEntry;
use crate::eval::msg_method_not_found;
use crate::eval::spec_apply_path;
use crate::eval::spec_apply_named;
use crate::eval::spec_apply_sub;
use crate::eval::spec_eval_lit;
use crate::eval::spec_eval_lit_fields;
use crate::eval::spec_eval_lits;
use crate::eval::spec_find_field;
use crate::eval::spec_lookup_var;
use crate::eval::spec_named_seq;
use crate::eval::spec_sub_elems;
use crate::methods::ArithOp;
use crate::methods::arg_count;
use crate::methods::msg_method;
use crate::methods::MethodKind;
use crate::methods::spec_and_fold;
use crate::methods::spec_and_method;
use crate::methods::spec_apply_method;
use crate::methods::spec_arith_fold;
use crate::methods::spec_arithmetic_method;
use crate::methods::spec_echo_method;
use crate::methods::spec_eq_method;
use crate::methods::spec_infix_method;
use crate::methods::spec_arith_op;
use crate::methods::spec_clamp;
use crate::methods::spec_first_method;
use crate::methods::spec_last_method;
use crate::methods::spec_lookup_method;
use crate::methods::spec_map_elems;
use crate::methods::spec_map_method;
use crate::methods::spec_match_if_pairs;
use crate::methods::spec_match_if_method;
use crate::methods::spec_match_method;
use crate::methods::spec_match_pairs;
use crate::methods::spec_not_method;
use crate::methods::spec_or_fold;
use crate::methods::spec_or_method;
use crate::methods::spec_slice_method;
use crate::methods::spec_typeof_method;
use crate::value::SpecField;
use crate::value::SpecVal;
use crate::value::num_view;
use crate::value::spec_json_eq;
use crate::value::spec_truthy;
use crate::value::lemma_svals_size_elem;
use crate::value::sval_size;
use crate::value::svals_size;

verus! {

/// `first` and `last` on a one-element array both yield the sole
/// element, with no new error.
pub proof fn lemma_first_last_singleton(
    name: Seq<char>,
    data: SpecVal,
    vars: Seq<SpecVarEntry>,
    path: Seq<SpecSeg>,
    errs: Seq<SpecErr>,
)
    requires
        data matches SpecVal::Arr(elems) && elems.len() == 1,
    ensures
        spec_first_method(name, Option::None, data, vars, path, PathList::Empty, errs) == (
            Option::Some(data->Arr_0[0]),
            errs,
        ),
        spec_last_method(name, Option::None, data, vars, path, PathList::Empty, errs) == (
            Option::Some(data->Arr_0[0]),
            errs,
        ),
{
}

/// `first` and `last` on an empty array yield no value and no error.
pub proof fn lemma_first_last_empty(
    name: Seq<char>,
    data: SpecVal,
    vars: Seq<SpecVarEntry>,
    path: Seq<SpecSeg>,
    errs: Seq<SpecErr>,
)
    requires
        data matches SpecVal::Arr(elems) && elems.len() == 0,
    ensures
        spec_first_method(name, Option::None, data, vars, path, PathList::Empty, errs) == (
            Option::None::<SpecVal>,
            errs,
        ),
        spec_last_method(name, Option::None, data, vars, path, PathList::Empty, errs) == (
            Option::None::<SpecVal>,
            errs,
        ),
{
}

/// `typeof` yields one of exactly the six kind names, with no new
/// error, and null is reported as "null".
pub proof fn lemma_typeof_names(
    name: Seq<char>,
    data: SpecVal,
    vars: Seq<SpecVarEntry>,
    path: Seq<SpecSeg>,
    errs: Seq<SpecErr>,
)
    ensures
        ({
            let r = spec_typeof_method(
                name,
                Option::None,
                data,
                vars,
                path,
                PathList::Empty,
                errs,
            );
            &&& r.1 == errs
            &&& r.0 matches Option::Some(v) && v matches SpecVal::Str(s) && (s == "null"@ || s
                == "boolean"@ || s == "number"@ || s == "string"@ || s == "array"@ || s
                == "object"@)
        }),
        data is Null ==> spec_typeof_method(
            name,
            Option::None,
            data,
            vars,
            path,
            PathList::Empty,
            errs,
        ).0 == Option::Some(SpecVal::Str("null"@)),
{
}

/// The distribution of `map` keeps lengths: from position `i` with the
/// results so far in `acc`, it ends with one output per element.
pub proof fn lemma_map_elems_len(
    arg: LitExpr,
    tail: PathList,
    elems: Seq<SpecVal>,
    i: int,
    acc: Seq<SpecVal>,
    vars: Seq<SpecVarEntry>,
    path: Seq<SpecSeg>,
    errs: Seq<SpecErr>,
)
    requires
        0 <= i <= elems.len(),
    ensures
        spec_map_elems(arg, tail, elems, i, acc, vars, path, errs).0.len() == acc.len() + (
        elems.len() - i),
    decreases elems.len() - i,
{
    if i < elems.len() {
        let ipath = path.push(SpecSeg::Index(i));
        let r = spec_eval_lit(arg, elems[i], vars, ipath, errs);
        match r.0 {
            Option::Some(applied) => {
                let r2 = spec_apply_path(tail, applied, vars, ipath, r.1);
                match r2.0 {
                    Option::Some(v) => {
                        lemma_map_elems_len(arg, tail, elems, i + 1, acc.push(v), vars, path, r2.1);
                    },
                    Option::None => {
                        lemma_map_elems_len(
                            arg,
                            tail,
                            elems,
                            i + 1,
                            acc.push(SpecVal::Null),
                            vars,
                            path,
                            r2.1,
                        );
                    },
                }
            },
            Option::None => {
                lemma_map_elems_len(
                    arg,
                    tail,
                    elems,
                    i + 1,
                    acc.push(SpecVal::Null),
                    vars,
                    path,
                    r.1,
                );
            },
        }
    }
}

/// `map` over an array yields an array of the same length.
pub proof fn lemma_map_preserves_length(
    name: Seq<char>,
    args: MethodArgs,
    data: SpecVal,
    vars: Seq<SpecVarEntry>,
    path: Seq<SpecSeg>,
    tail: PathList,
    errs: Seq<SpecErr>,
)
    requires
        args.0@.len() > 0,
        data is Arr,
    ensures
        ({
            let r = spec_map_method(name, Option::Some(args), data, vars, path, tail, errs);
            r.0 matches Option::Some(out) && out matches SpecVal::Arr(outs) && outs.len()
                == data->Arr_0.len()
        }),
{
    lemma_map_elems_len(args.0@[0], tail, data->Arr_0, 0, Seq::empty(), vars, path, errs);
}

/// `map` over a non-array is exactly the direct evaluation of its
/// argument against the data.
pub proof fn lemma_map_non_array(
    name: Seq<char>,
    args: MethodArgs,
    data: SpecVal,
    vars: Seq<SpecVarEntry>,
    path: Seq<SpecSeg>,
    tail: PathList,
    errs: Seq<SpecErr>,
)
    requires
        args.0@.len() > 0,
        !(data is Arr),
    ensures
        spec_map_method(name, Option::Some(args), data, vars, path, tail, errs) == spec_eval_lit(
            args.0@[0],
            data,
            vars,
            path,
            errs,
        ),
{
}

/// Arithmetic is type-promoting: a step with a floating operand yields
/// a floating result, a step with two integers an integer one.
pub proof fn lemma_arith_promotes(op: ArithOp, a: SpecVal, b: SpecVal)
    requires
        a is Int || a is Float,
        b is Int || b is Float,
    ensures
        (a is Float || b is Float) ==> (spec_arith_op(op, a, b) matches Option::Some(v) ==> v
            is Float),
        (a is Int && b is Int) ==> (spec_arith_op(op, a, b) matches Option::Some(v) ==> v
            is Int),
{
}

/// The pure left fold of an arithmetic operation over already
/// evaluated numeric argument values, from position `i`: the running
/// number is combined with each value in argument order (so the fold
/// is left-associative), and the whole fold fails as soon as one step
/// cannot be represented.
pub open spec fn spec_fold_nums(op: ArithOp, acc: SpecVal, vs: Seq<SpecVal>, i: int) -> Option<
    SpecVal,
>
    decreases vs.len() - i,
{
    if !(0 <= i < vs.len()) {
        Option::Some(acc)
    } else {
        match spec_arith_op(op, acc, vs[i]) {
            Option::Some(acc2) => spec_fold_nums(op, acc2, vs, i + 1),
            Option::None => Option::None,
        }
    }
}

/// The arithmetic fold is the pure left fold of the arguments' values:
/// when every argument evaluates to a number without adding errors,
/// the fold yields exactly `spec_fold_nums` (so `x->sub(a,b)` is
/// `(x-a)-b`), with the error set unchanged; and it yields no value
/// exactly when some step cannot be represented.
pub proof fn lemma_arith_left_fold(
    op: ArithOp,
    name: Seq<char>,
    args: Seq<LitExpr>,
    vs: Seq<SpecVal>,
    i: int,
    acc: SpecVal,
    data: SpecVal,
    vars: Seq<SpecVarEntry>,
    path: Seq<SpecSeg>,
    errs: Seq<SpecErr>,
)
    requires
        vs.len() == args.len(),
        0 <= i <= args.len(),
        acc is Int || acc is Float,
        forall|j: int| 0 <= j < vs.len() ==> (#[trigger] vs[j]) is Int || vs[j] is Float,
        forall|j: int, es: Seq<SpecErr>|
            0 <= j < args.len() ==> #[trigger] spec_eval_lit(args[j], data, vars, path, es) == (
                Option::Some(vs[j]),
                es,
            ),
    ensures
        ({
            let f = spec_fold_nums(op, acc, vs, i);
            match f {
                Option::Some(v) => spec_arith_fold(op, name, args, i, acc, data, vars, path, errs)
                    == (Option::Some(v), errs),
                Option::None => spec_arith_fold(
                    op,
                    name,
                    args,
                    i,
                    acc,
                    data,
                    vars,
                    path,
                    errs,
                ).0 is None,
            }
        }),
    decreases args.len() - i,
{
    if i < args.len() {
        assert(spec_eval_lit(args[i], data, vars, path, errs) == (Option::Some(vs[i]), errs));
        assert(vs[i] is Int || vs[i] is Float);
        match spec_arith_op(op, acc, vs[i]) {
            Option::Some(acc2) => {
                assert(acc2 is Int || acc2 is Float);
                lemma_arith_left_fold(op, name, args, vs, i + 1, acc2, data, vars, path, errs);
            },
            Option::None => {},
        }
    }
}

/// An arithmetic method on numeric data whose arguments evaluate to
/// numbers without adding errors is the pure left fold of those
/// numbers, starting from the data's number.
pub proof fn lemma_arithmetic_left_fold(
    op: ArithOp,
    name: Seq<char>,
    args: MethodArgs,
    vs: Seq<SpecVal>,
    data: SpecVal,
    vars: Seq<SpecVarEntry>,
    path: Seq<SpecSeg>,
    errs: Seq<SpecErr>,
)
    requires
        vs.len() == args.0@.len(),
        data is Int || data is Float,
        forall|j: int| 0 <= j < vs.len() ==> (#[trigger] vs[j]) is Int || vs[j] is Float,
        forall|j: int, es: Seq<SpecErr>|
            0 <= j < args.0@.len() ==> #[trigger] spec_eval_lit(args.0@[j], data, vars, path, es)
                == (Option::Some(vs[j]), es),
    ensures
        ({
            let f = spec_fold_nums(op, data, vs, 0);
            match f {
                Option::Some(v) => spec_arithmetic_method(
                    op,
                    name,
                    Option::Some(args),
                    data,
                    vars,
                    path,
                    errs,
                ) == (Option::Some(v), errs),
                Option::None => spec_arithmetic_method(
                    op,
                    name,
                    Option::Some(args),
                    data,
                    vars,
                    path,
                    errs,
                ).0 is None,
            }
        }),
{
    lemma_arith_left_fold(op, name, args.0@, vs, 0, data, data, vars, path, errs);
}

/// `slice` on an array or string clamps bounds that evaluate to
/// integers to the length and never errs: the whole method is the tail
/// applied to the clamped subrange, with the error set unchanged.
pub proof fn lemma_slice_clamps(
    name: Seq<char>,
    args: MethodArgs,
    start: i64,
    end: i64,
    data: SpecVal,
    vars: Seq<SpecVarEntry>,
    path: Seq<SpecSeg>,
    tail: PathList,
    errs: Seq<SpecErr>,
)
    requires
        data is Arr || data is Str,
        args.0@.len() == 2,
        forall|es: Seq<SpecErr>| #[trigger] spec_eval_lit(args.0@[0], data, vars, path, es) == (
            Option::Some(SpecVal::Int(start)),
            es,
        ),
        forall|es: Seq<SpecErr>| #[trigger] spec_eval_lit(args.0@[1], data, vars, path, es) == (
            Option::Some(SpecVal::Int(end)),
            es,
        ),
    ensures
        ({
            let len: int = if data is Arr {
                data->Arr_0.len() as int
            } else {
                data->Str_0.len() as int
            };
            let s = spec_clamp(start as int, len);
            let e = spec_clamp(end as int, len);
            let hi = if e > s {
                e
            } else {
                s
            };
            let sliced = if data is Arr {
                SpecVal::Arr(data->Arr_0.subrange(s, hi))
            } else {
                SpecVal::Str(data->Str_0.subrange(s, hi))
            };
            spec_slice_method(name, Option::Some(args), data, vars, path, tail, errs)
                == spec_apply_path(tail, sliced, vars, path, errs)
        }),
{
    assert(spec_eval_lit(args.0@[0], data, vars, path, errs) == (
        Option::Some(SpecVal::Int(start)),
        errs,
    ));
    assert(spec_eval_lit(args.0@[1], data, vars, path, errs) == (
        Option::Some(SpecVal::Int(end)),
        errs,
    ));
    assert(crate::methods::spec_as_int_bound(Option::Some(SpecVal::Int(start)))
        == Option::Some(start));
    assert(crate::methods::spec_as_int_bound(Option::Some(SpecVal::Int(end)))
        == Option::Some(end));
}

/// The registry maps the name "not" to the `not` method.
proof fn lemma_lookup_not(nm: Seq<char>)
    requires
        nm == "not"@,
    ensures
        spec_lookup_method(nm) == Option::Some(crate::methods::MethodKind::Not),
{
    reveal_strlit("echo");
    reveal_strlit("typeof");
    reveal_strlit("map");
    reveal_strlit("eq");
    reveal_strlit("match");
    reveal_strlit("matchIf");
    reveal_strlit("match_if");
    reveal_strlit("add");
    reveal_strlit("sub");
    reveal_strlit("mul");
    reveal_strlit("div");
    reveal_strlit("mod");
    reveal_strlit("first");
    reveal_strlit("last");
    reveal_strlit("slice");
    reveal_strlit("not");
    reveal_strlit("or");
    reveal_strlit("and");
    assert(nm != "echo"@) by {
        assert(nm.len() == 3);
        assert("echo"@.len() == 4);
    }
    assert(nm != "typeof"@) by {
        assert(nm.len() == 3);
        assert("typeof"@.len() == 6);
    }
    assert(nm != "map"@) by {
        assert(nm[0] == 'n');
        assert("map"@[0] == 'm');
    }
    assert(nm != "eq"@) by {
        assert(nm.len() == 3);
        assert("eq"@.len() == 2);
    }
    assert(nm != "match"@) by {
        assert(nm.len() == 3);
        assert("match"@.len() == 5);
    }
    assert(nm != "matchIf"@) by {
        assert(nm.len() == 3);
        assert("matchIf"@.len() == 7);
    }
    assert(nm != "match_if"@) by {
        assert(nm.len() == 3);
        assert("match_if"@.len() == 8);
    }
    assert(nm != "add"@) by {
        assert(nm[0] == 'n');
        assert("add"@[0] == 'a');
    }
    assert(nm != "sub"@) by {
        assert(nm[0] == 'n');
        assert("sub"@[0] == 's');
    }
    assert(nm != "mul"@) by {
        assert(nm[0] == 'n');
        assert("mul"@[0] == 'm');
    }
    assert(nm != "div"@) by {
        assert(nm[0] == 'n');
        assert("div"@[0] == 'd');
    }
    assert(nm != "mod"@) by {
        assert(nm[0] == 'n');
        assert("mod"@[0] == 'm');
    }
    assert(nm != "first"@) by {
        assert(nm.len() == 3);
        assert("first"@.len() == 5);
    }
    assert(nm != "last"@) by {
        assert(nm.len() == 3);
        assert("last"@.len() == 4);
    }
    assert(nm != "slice"@) by {
        assert(nm.len() == 3);
        assert("slice"@.len() == 5);
    }
    assert(spec_lookup_method(nm) == Option::Some(crate::methods::MethodKind::Not));
}

/// `not` is an involution on truthiness: applying it twice yields the
/// data's own truthiness, with no new error.
pub proof fn lemma_not_involution(
    p: PathList,
    data: SpecVal,
    vars: Seq<SpecVarEntry>,
    path: Seq<SpecSeg>,
    errs: Seq<SpecErr>,
)
    requires
        p is Method,
        p->Method_0@ == "not"@,
        p->Method_1 is None,
        (*p->Method_2) is Method,
        (*p->Method_2)->Method_0@ == "not"@,
        (*p->Method_2)->Method_1 is None,
        (*(*p->Method_2)->Method_2) is Empty,
    ensures
        spec_apply_path(p, data, vars, path, errs) == (
            Option::Some(SpecVal::Bool(spec_truthy(data))),
            errs,
        ),
{
    let nm = p->Method_0;
    let tail = p->Method_2;
    lemma_lookup_not(nm@);
    assert(spec_apply_path(p, data, vars, path, errs) == crate::methods::spec_apply_method(
        crate::methods::MethodKind::Not,
        nm@,
        Option::None,
        data,
        vars,
        path,
        *tail,
        errs,
    ));
    assert(spec_not_method(nm@, Option::None, data, vars, path, *tail, errs) == spec_apply_path(
        *tail,
        SpecVal::Bool(!spec_truthy(data)),
        vars,
        path,
        errs,
    ));
    let nm2 = (*tail)->Method_0;
    let tail2 = (*tail)->Method_2;
    lemma_lookup_not(nm2@);
    assert(spec_apply_path(*tail, SpecVal::Bool(!spec_truthy(data)), vars, path, errs)
        == crate::methods::spec_apply_method(
        crate::methods::MethodKind::Not,
        nm2@,
        Option::None,
        SpecVal::Bool(!spec_truthy(data)),
        vars,
        path,
        *tail2,
        errs,
    ));
    assert(spec_not_method(
        nm2@,
        Option::None,
        SpecVal::Bool(!spec_truthy(data)),
        vars,
        path,
        *tail2,
        errs,
    ) == (Option::Some(SpecVal::Bool(spec_truthy(data))), errs));
}

/// Once the running result of `or` is true, no further argument is
/// evaluated: the fold returns at once, so no error from a skipped
/// argument can appear.
pub proof fn lemma_or_fold_stops(
    args: Seq<LitExpr>,
    i: int,
    data: SpecVal,
    vars: Seq<SpecVarEntry>,
    path: Seq<SpecSeg>,
    errs: Seq<SpecErr>,
)
    ensures
        spec_or_fold(args, i, true, data, vars, path, errs) == (true, errs),
{
}

/// `or` on truthy data evaluates none of its arguments: the whole
/// method is the tail applied to `true`, with the error set untouched
/// by the arguments.
pub proof fn lemma_or_skips_after_decisive(
    name: Seq<char>,
    args: MethodArgs,
    data: SpecVal,
    vars: Seq<SpecVarEntry>,
    path: Seq<SpecSeg>,
    tail: PathList,
    errs: Seq<SpecErr>,
)
    requires
        spec_truthy(data),
    ensures
        spec_or_method(name, Option::Some(args), data, vars, path, tail, errs) == spec_apply_path(
            tail,
            SpecVal::Bool(true),
            vars,
            path,
            errs,
        ),
{
}

/// `and` on falsy data evaluates none of its arguments: the whole
/// method is the tail applied to `false`, with the error set untouched
/// by the arguments.
pub proof fn lemma_and_skips_after_decisive(
    name: Seq<char>,
    args: MethodArgs,
    data: SpecVal,
    vars: Seq<SpecVarEntry>,
    path: Seq<SpecSeg>,
    tail: PathList,
    errs: Seq<SpecErr>,
)
    requires
        !spec_truthy(data),
    ensures
        spec_and_method(name, Option::Some(args), data, vars, path, tail, errs) == spec_apply_path(
            tail,
            SpecVal::Bool(false),
            vars,
            path,
            errs,
        ),
{
}

/// Whether a literal is a scalar: such a literal always evaluates to
/// itself, with no error.
pub open spec fn lit_is_scalar(e: LitExpr) -> bool {
    e is Null || e is Bool || e is Number || e is String
}

/// The value of a scalar literal.
pub open spec fn scalar_lit_val(e: LitExpr) -> SpecVal {
    match e {
        LitExpr::Null => SpecVal::Null,
        LitExpr::Bool(b) => SpecVal::Bool(b),
        LitExpr::Number(n) => num_view(n),
        LitExpr::String(s) => SpecVal::Str(s@),
        _ => SpecVal::Null,
    }
}

/// A scalar literal evaluates to its value and adds no error.
pub proof fn lemma_scalar_eval(
    e: LitExpr,
    data: SpecVal,
    vars: Seq<SpecVarEntry>,
    path: Seq<SpecSeg>,
    errs: Seq<SpecErr>,
)
    requires
        lit_is_scalar(e),
    ensures
        spec_eval_lit(e, data, vars, path, errs) == (Option::Some(scalar_lit_val(e)), errs),
{
}

/// Whether `e` is a one-element array pair: an unconditional default.
pub open spec fn pair_is_default(e: LitExpr) -> bool {
    e is Array && e->Array_0@.len() == 1
}

/// Whether `e` is a two-element pair whose candidate, evaluated against
/// `data` with the error set `es`, yields a value that deep-equals
/// `data`.
pub open spec fn pair_matches(
    e: LitExpr,
    data: SpecVal,
    vars: Seq<SpecVarEntry>,
    path: Seq<SpecSeg>,
    es: Seq<SpecErr>,
) -> bool {
    e is Array && e->Array_0@.len() == 2 && spec_eval_lit(e->Array_0@[0], data, vars, path, es).0
        is Some && spec_json_eq(
        spec_eval_lit(e->Array_0@[0], data, vars, path, es).0->Some_0,
        data,
    )
}

/// Whether evaluating `e`'s first element (when `e` is a two-element
/// pair) leaves the error set `es` unchanged.
pub open spec fn pair_candidate_quiet(
    e: LitExpr,
    data: SpecVal,
    vars: Seq<SpecVarEntry>,
    path: Seq<SpecSeg>,
    es: Seq<SpecErr>,
) -> bool {
    (e is Array && e->Array_0@.len() == 2) ==> spec_eval_lit(
        e->Array_0@[0],
        data,
        vars,
        path,
        es,
    ).1 == es
}

/// From position `i`: when no remaining pair is a default, no remaining
/// pair's candidate can evaluate to a value that deep-equals the data
/// (whatever errors have accumulated), and the candidates add no errors
/// of their own, `match` falls through to no value and exactly one
/// "did not match" error at the invocation's path.
pub proof fn lemma_match_pairs_exhaustion(
    name: Seq<char>,
    args: Seq<LitExpr>,
    i: int,
    data: SpecVal,
    vars: Seq<SpecVarEntry>,
    path: Seq<SpecSeg>,
    tail: PathList,
    errs: Seq<SpecErr>,
)
    requires
        0 <= i <= args.len(),
        forall|j: int| i <= j < args.len() ==> !pair_is_default(#[trigger] args[j]),
        forall|j: int, es: Seq<SpecErr>|
            i <= j < args.len() ==> !(#[trigger] pair_matches(args[j], data, vars, path, es)),
        forall|j: int, es: Seq<SpecErr>|
            i <= j < args.len() ==> #[trigger] pair_candidate_quiet(args[j], data, vars, path, es),
    ensures
        spec_match_pairs(name, args, i, data, vars, path, tail, errs) == (
            Option::None::<SpecVal>,
            spec_insert_err(
                errs,
                SpecErr {
                    message: msg_method(name, " did not match any [candidate, value] pair"@),
                    path,
                },
            ),
        ),
    decreases args.len() - i,
{
    if i < args.len() {
        assert(!pair_is_default(args[i]));
        assert(!pair_matches(args[i], data, vars, path, errs));
        assert(pair_candidate_quiet(args[i], data, vars, path, errs));
        lemma_match_pairs_exhaustion(name, args, i + 1, data, vars, path, tail, errs);
        match args[i] {
            LitExpr::Array(pair) => {
                assert(pair@.len() != 1);
                if pair@.len() == 2 {
                    let c = spec_eval_lit(pair@[0], data, vars, path, errs);
                    assert(c.1 == errs);
                    match c.0 {
                        Option::Some(cv) => {
                            assert(!spec_json_eq(cv, data));
                        },
                        Option::None => {},
                    }
                }
            },
            _ => {},
        }
    }
}

/// `match` with data that none of the pairs' candidates can equal and
/// no default pair yields no value and exactly one "did not match"
/// error. The candidates may be any expressions, provided their
/// evaluation adds no errors of its own.
pub proof fn lemma_match_exhaustion(
    name: Seq<char>,
    args: MethodArgs,
    data: SpecVal,
    vars: Seq<SpecVarEntry>,
    path: Seq<SpecSeg>,
    tail: PathList,
    errs: Seq<SpecErr>,
)
    requires
        forall|j: int| 0 <= j < args.0@.len() ==> !pair_is_default(#[trigger] args.0@[j]),
        forall|j: int, es: Seq<SpecErr>|
            0 <= j < args.0@.len() ==> !(#[trigger] pair_matches(args.0@[j], data, vars, path, es)),
        forall|j: int, es: Seq<SpecErr>|
            0 <= j < args.0@.len() ==> #[trigger] pair_candidate_quiet(
                args.0@[j],
                data,
                vars,
                path,
                es,
            ),
    ensures
        spec_match_method(name, Option::Some(args), data, vars, path, tail, errs) == (
            Option::None::<SpecVal>,
            spec_insert_err(
                errs,
                SpecErr {
                    message: msg_method(name, " did not match any [candidate, value] pair"@),
                    path,
                },
            ),
        ),
{
    lemma_match_pairs_exhaustion(name, args.0@, 0, data, vars, path, tail, errs);
}

/// A trailing one-element `[default]` pair guarantees `match` reaches
/// the default: the whole method is the default's evaluation with the
/// tail applied to its value — so a value is guaranteed whenever that
/// evaluation and the tail succeed, and the "did not match" error is
/// never emitted.
pub proof fn lemma_match_default(
    name: Seq<char>,
    args: MethodArgs,
    data: SpecVal,
    vars: Seq<SpecVarEntry>,
    path: Seq<SpecSeg>,
    tail: PathList,
    errs: Seq<SpecErr>,
)
    requires
        args.0@.len() > 0,
        forall|j: int| 0 <= j < args.0@.len() - 1 ==> !pair_is_default(#[trigger] args.0@[j]),
        forall|j: int, es: Seq<SpecErr>|
            0 <= j < args.0@.len() - 1 ==> !(#[trigger] pair_matches(
                args.0@[j],
                data,
                vars,
                path,
                es,
            )),
        forall|j: int, es: Seq<SpecErr>|
            0 <= j < args.0@.len() - 1 ==> #[trigger] pair_candidate_quiet(
                args.0@[j],
                data,
                vars,
                path,
                es,
            ),
        pair_is_default(args.0@.last()),
    ensures
        spec_match_method(name, Option::Some(args), data, vars, path, tail, errs) == ({
            let r = spec_eval_lit(args.0@.last()->Array_0@[0], data, vars, path, errs);
            match r.0 {
                Option::Some(v) => spec_apply_path(tail, v, vars, path, r.1),
                Option::None => (Option::None, r.1),
            }
        }),
{
    lemma_match_pairs_default(name, args.0@, 0, data, vars, path, tail, errs);
}

/// Helper: walking the non-matching prefix down to the trailing
/// default pair.
proof fn lemma_match_pairs_default(
    name: Seq<char>,
    args: Seq<LitExpr>,
    i: int,
    data: SpecVal,
    vars: Seq<SpecVarEntry>,
    path: Seq<SpecSeg>,
    tail: PathList,
    errs: Seq<SpecErr>,
)
    requires
        args.len() > 0,
        0 <= i <= args.len() - 1,
        forall|j: int| i <= j < args.len() - 1 ==> !pair_is_default(#[trigger] args[j]),
        forall|j: int, es: Seq<SpecErr>|
            i <= j < args.len() - 1 ==> !(#[trigger] pair_matches(args[j], data, vars, path, es)),
        forall|j: int, es: Seq<SpecErr>|
            i <= j < args.len() - 1 ==> #[trigger] pair_candidate_quiet(
                args[j],
                data,
                vars,
                path,
                es,
            ),
        pair_is_default(args.last()),
    ensures
        spec_match_pairs(name, args, i, data, vars, path, tail, errs) == ({
            let r = spec_eval_lit(args.last()->Array_0@[0], data, vars, path, errs);
            match r.0 {
                Option::Some(v) => spec_apply_path(tail, v, vars, path, r.1),
                Option::None => (Option::None, r.1),
            }
        }),
    decreases args.len() - i,
{
    if i == args.len() - 1 {
        assert(args[i] == args.last());
        assert(args[i] is Array);
        assert(args[i]->Array_0@.len() == 1);
    } else {
        assert(!pair_is_default(args[i]));
        assert(!pair_matches(args[i], data, vars, path, errs));
        assert(pair_candidate_quiet(args[i], data, vars, path, errs));
        lemma_match_pairs_default(name, args, i + 1, data, vars, path, tail, errs);
        match args[i] {
            LitExpr::Array(pair) => {
                assert(pair@.len() != 1);
                if pair@.len() == 2 {
                    let c = spec_eval_lit(pair@[0], data, vars, path, errs);
                    assert(c.1 == errs);
                    match c.0 {
                        Option::Some(cv) => {
                            assert(!spec_json_eq(cv, data));
                        },
                        Option::None => {},
                    }
                }
            },
            _ => {},
        }
    }
}

/// Whether `e` is a two-element pair whose condition, evaluated against
/// `data` with the error set `es`, yields exactly the boolean true.
pub open spec fn if_pair_fires(
    e: LitExpr,
    data: SpecVal,
    vars: Seq<SpecVarEntry>,
    path: Seq<SpecSeg>,
    es: Seq<SpecErr>,
) -> bool {
    e is Array && e->Array_0@.len() == 2 && spec_eval_lit(e->Array_0@[0], data, vars, path, es).0
        == Option::Some(SpecVal::Bool(true))
}

/// A trailing `[true, default]` pair guarantees `matchIf` reaches the
/// default: the whole method is the default's evaluation with the tail
/// applied to its value, and the "did not match" error is never
/// emitted. The earlier conditions may be any expressions that never
/// evaluate to true and add no errors of their own.
pub proof fn lemma_match_if_catch_all(
    name: Seq<char>,
    args: MethodArgs,
    data: SpecVal,
    vars: Seq<SpecVarEntry>,
    path: Seq<SpecSeg>,
    tail: PathList,
    errs: Seq<SpecErr>,
)
    requires
        args.0@.len() > 0,
        forall|j: int, es: Seq<SpecErr>|
            0 <= j < args.0@.len() - 1 ==> !(#[trigger] if_pair_fires(
                args.0@[j],
                data,
                vars,
                path,
                es,
            )),
        forall|j: int, es: Seq<SpecErr>|
            0 <= j < args.0@.len() - 1 ==> #[trigger] pair_candidate_quiet(
                args.0@[j],
                data,
                vars,
                path,
                es,
            ),
        args.0@.last() is Array,
        args.0@.last()->Array_0@.len() == 2,
        args.0@.last()->Array_0@[0] == LitExpr::Bool(true),
    ensures
        spec_match_if_method(name, Option::Some(args), data, vars, path, tail, errs) == ({
            let r = spec_eval_lit(args.0@.last()->Array_0@[1], data, vars, path, errs);
            match r.0 {
                Option::Some(v) => spec_apply_path(tail, v, vars, path, r.1),
                Option::None => (Option::None, r.1),
            }
        }),
{
    lemma_match_if_pairs_catch_all(name, args.0@, 0, data, vars, path, tail, errs);
}

/// Helper: walking the non-firing prefix down to the trailing
/// `[true, default]` pair.
proof fn lemma_match_if_pairs_catch_all(
    name: Seq<char>,
    args: Seq<LitExpr>,
    i: int,
    data: SpecVal,
    vars: Seq<SpecVarEntry>,
    path: Seq<SpecSeg>,
    tail: PathList,
    errs: Seq<SpecErr>,
)
    requires
        args.len() > 0,
        0 <= i <= args.len() - 1,
        forall|j: int, es: Seq<SpecErr>|
            i <= j < args.len() - 1 ==> !(#[trigger] if_pair_fires(args[j], data, vars, path, es)),
        forall|j: int, es: Seq<SpecErr>|
            i <= j < args.len() - 1 ==> #[trigger] pair_candidate_quiet(
                args[j],
                data,
                vars,
                path,
                es,
            ),
        args.last() is Array,
        args.last()->Array_0@.len() == 2,
        args.last()->Array_0@[0] == LitExpr::Bool(true),
    ensures
        spec_match_if_pairs(name, args, i, data, vars, path, tail, errs) == ({
            let r = spec_eval_lit(args.last()->Array_0@[1], data, vars, path, errs);
            match r.0 {
                Option::Some(v) => spec_apply_path(tail, v, vars, path, r.1),
                Option::None => (Option::None, r.1),
            }
        }),
    decreases args.len() - i,
{
    if i == args.len() - 1 {
        assert(args[i] == args.last());
        let pair = args[i]->Array_0;
        assert(spec_eval_lit(pair@[0], data, vars, path, errs) == (
            Option::Some(SpecVal::Bool(true)),
            errs,
        ));
    } else {
        assert(!if_pair_fires(args[i], data, vars, path, errs));
        assert(pair_candidate_quiet(args[i], data, vars, path, errs));
        lemma_match_if_pairs_catch_all(name, args, i + 1, data, vars, path, tail, errs);
        match args[i] {
            LitExpr::Array(pair) => {
                if pair@.len() == 2 {
                    let c = spec_eval_lit(pair@[0], data, vars, path, errs);
                    assert(c.1 == errs);
                    match c.0 {
                        Option::Some(cv) => {
                            assert(cv != SpecVal::Bool(true));
                        },
                        Option::None => {},
                    }
                }
            },
            _ => {},
        }
    }
}

/// An unknown method name yields no value and exactly one error,
/// "Method ->name not found", at the receiver's path.
pub proof fn lemma_unknown_method(
    p: PathList,
    data: SpecVal,
    vars: Seq<SpecVarEntry>,
    path: Seq<SpecSeg>,
    errs: Seq<SpecErr>,
)
    requires
        p matches PathList::Method(nm, args, tail) && spec_lookup_method(nm@) is None,
    ensures
        spec_apply_path(p, data, vars, path, errs) == (
            Option::None::<SpecVal>,
            spec_insert_err(
                errs,
                SpecErr { message: msg_method_not_found(p->Method_0@), path },
            ),
        ),
{
}

/// Whether `new` extends `old`: everything once accumulated is still
/// there, in its place, and nothing was replaced. Every evaluation
/// below is proved to extend the error set it was handed.
pub open spec fn errs_extend(old_errs: Seq<SpecErr>, new_errs: Seq<SpecErr>) -> bool {
    new_errs.len() >= old_errs.len() && new_errs.subrange(0, old_errs.len() as int) == old_errs
}

/// Extension is reflexive.
pub proof fn lemma_extend_refl(s: Seq<SpecErr>)
    ensures
        errs_extend(s, s),
{
    assert(s.subrange(0, s.len() as int) =~= s);
}

/// Extension is transitive.
pub proof fn lemma_extend_trans(a: Seq<SpecErr>, b: Seq<SpecErr>, c: Seq<SpecErr>)
    requires
        errs_extend(a, b),
        errs_extend(b, c),
    ensures
        errs_extend(a, c),
{
    assert(c.subrange(0, a.len() as int) =~= a) by {
        assert forall|i: int| 0 <= i < a.len() implies c[i] == a[i] by {
            assert(b.subrange(0, a.len() as int)[i] == b[i]);
            assert(c.subrange(0, b.len() as int)[i] == c[i]);
        }
    }
}

/// Inserting extends: a duplicate changes nothing, a new error is
/// appended after everything already there.
pub proof fn lemma_insert_extends(s: Seq<SpecErr>, e: SpecErr)
    ensures
        errs_extend(s, spec_insert_err(s, e)),
{
    if exists|i: int| 0 <= i < s.len() && s[i] == e {
        lemma_extend_refl(s);
    } else {
        assert(s.push(e).subrange(0, s.len() as int) =~= s);
    }
}

/// Evaluating a literal only grows the error set.
pub proof fn lemma_grow_eval_lit(
    e: LitExpr,
    data: SpecVal,
    vars: Seq<SpecVarEntry>,
    path: Seq<SpecSeg>,
    errs: Seq<SpecErr>,
)
    ensures
        errs_extend(errs, spec_eval_lit(e, data, vars, path, errs).1),
    decreases lit_size(e), sval_size(data), 0nat,
{
    match e {
        LitExpr::Array(elems) => {
            lemma_grow_eval_lits(elems@, 0, Seq::empty(), data, vars, path, errs);
        },
        LitExpr::Object(fields) => {
            lemma_grow_eval_lit_fields(fields@, 0, Seq::empty(), data, vars, path, errs);
        },
        LitExpr::Path(p) => {
            lemma_grow_apply_path(p, data, vars, path, errs);
        },
        _ => {
            lemma_extend_refl(errs);
        },
    }
}

/// Evaluating array-literal elements only grows the error set.
pub proof fn lemma_grow_eval_lits(
    elems: Seq<LitExpr>,
    i: int,
    acc: Seq<SpecVal>,
    data: SpecVal,
    vars: Seq<SpecVarEntry>,
    path: Seq<SpecSeg>,
    errs: Seq<SpecErr>,
)
    ensures
        errs_extend(errs, spec_eval_lits(elems, i, acc, data, vars, path, errs).1),
    decreases lit_seq_size(elems), sval_size(data), elems.len() - i,
{
    if !(0 <= i < elems.len()) {
        lemma_extend_refl(errs);
    } else {
        lemma_lit_seq_size_elem(elems, i);
        let r = spec_eval_lit(elems[i], data, vars, path, errs);
        lemma_grow_eval_lit(elems[i], data, vars, path, errs);
        match r.0 {
            Option::Some(v) => {
                lemma_grow_eval_lits(elems, i + 1, acc.push(v), data, vars, path, r.1);
                lemma_extend_trans(
                    errs,
                    r.1,
                    spec_eval_lits(elems, i + 1, acc.push(v), data, vars, path, r.1).1,
                );
            },
            Option::None => {},
        }
    }
}

/// Evaluating object-literal fields only grows the error set.
pub proof fn lemma_grow_eval_lit_fields(
    fields: Seq<LitField>,
    i: int,
    acc: Seq<SpecField>,
    data: SpecVal,
    vars: Seq<SpecVarEntry>,
    path: Seq<SpecSeg>,
    errs: Seq<SpecErr>,
)
    ensures
        errs_extend(errs, spec_eval_lit_fields(fields, i, acc, data, vars, path, errs).1),
    decreases lit_fields_size(fields), sval_size(data), fields.len() - i,
{
    if !(0 <= i < fields.len()) {
        lemma_extend_refl(errs);
    } else {
        lemma_lit_fields_size_elem(fields, i);
        let r = spec_eval_lit(fields[i].value, data, vars, path, errs);
        lemma_grow_eval_lit(fields[i].value, data, vars, path, errs);
        match r.0 {
            Option::Some(v) => {
                let acc2 = acc.push(SpecField { key: fields[i].key@, value: v });
                lemma_grow_eval_lit_fields(fields, i + 1, acc2, data, vars, path, r.1);
                lemma_extend_trans(
                    errs,
                    r.1,
                    spec_eval_lit_fields(fields, i + 1, acc2, data, vars, path, r.1).1,
                );
            },
            Option::None => {},
        }
    }
}

/// Applying a path only grows the error set.
pub proof fn lemma_grow_apply_path(
    p: PathList,
    data: SpecVal,
    vars: Seq<SpecVarEntry>,
    path: Seq<SpecSeg>,
    errs: Seq<SpecErr>,
)
    ensures
        errs_extend(errs, spec_apply_path(p, data, vars, path, errs).1),
    decreases path_size(p), sval_size(data), 0nat,
{
    match p {
        PathList::Empty => {
            lemma_extend_refl(errs);
        },
        PathList::Var(v, tail) => match v {
            VarName::At => {
                lemma_grow_apply_path(*tail, data, vars, path, errs);
            },
            VarName::Named(name) => match spec_lookup_var(vars, name@) {
                Option::Some(entry) => {
                    lemma_grow_apply_path(*tail, entry.value, vars, entry.path, errs);
                },
                Option::None => {
                    lemma_insert_extends(
                        errs,
                        SpecErr { message: crate::eval::msg_var_not_found(name@), path },
                    );
                },
            },
        },
        PathList::Key(key, tail) => {
            let keyed = path.push(SpecSeg::Key(key@));
            match data {
                SpecVal::Obj(fields) => match spec_find_field(fields, key@) {
                    Option::Some(v) => {
                        lemma_grow_apply_path(*tail, v, vars, keyed, errs);
                    },
                    Option::None => {
                        lemma_insert_extends(
                            errs,
                            SpecErr {
                                message: crate::eval::msg_property_not_found(key@, "object"@),
                                path: keyed,
                            },
                        );
                    },
                },
                _ => {
                    lemma_insert_extends(
                        errs,
                        SpecErr {
                            message: crate::eval::msg_property_not_found(
                                key@,
                                crate::value::spec_type_name(data),
                            ),
                            path: keyed,
                        },
                    );
                },
            }
        },
        PathList::Method(name, args, tail) => match spec_lookup_method(name@) {
            Option::Some(kind) => {
                lemma_grow_apply_method(kind, name@, args, data, vars, path, *tail, errs);
            },
            Option::None => {
                lemma_insert_extends(
                    errs,
                    SpecErr { message: msg_method_not_found(name@), path },
                );
            },
        },
        PathList::Selection(sub) => {
            lemma_grow_apply_sub(sub, data, vars, path, errs);
        },
    }
}

/// Applying a sub-selection only grows the error set.
pub proof fn lemma_grow_apply_sub(
    sub: SubSelection,
    data: SpecVal,
    vars: Seq<SpecVarEntry>,
    path: Seq<SpecSeg>,
    errs: Seq<SpecErr>,
)
    ensures
        errs_extend(errs, spec_apply_sub(sub, data, vars, path, errs).1),
    decreases sub_size(sub), sval_size(data), 0nat,
{
    match data {
        SpecVal::Arr(elems) => {
            lemma_grow_sub_elems(sub, elems, 0, Seq::empty(), vars, path, errs);
        },
        _ => {
            let vars2 = seq![SpecVarEntry { name: "$"@, value: data, path }] + vars;
            lemma_grow_named_seq(sub.selections@, 0, Seq::empty(), data, vars2, path, errs);
        },
    }
}

/// Distributing a sub-selection over array elements only grows the
/// error set.
pub proof fn lemma_grow_sub_elems(
    sub: SubSelection,
    elems: Seq<SpecVal>,
    i: int,
    acc: Seq<SpecVal>,
    vars: Seq<SpecVarEntry>,
    path: Seq<SpecSeg>,
    errs: Seq<SpecErr>,
)
    ensures
        errs_extend(errs, spec_sub_elems(sub, elems, i, acc, vars, path, errs).1),
    decreases sub_size(sub), svals_size(elems), elems.len() - i,
{
    if !(0 <= i < elems.len()) {
        lemma_extend_refl(errs);
    } else {
        lemma_svals_size_elem(elems, i);
        let r = spec_apply_sub(sub, elems[i], vars, path.push(SpecSeg::Index(i)), errs);
        lemma_grow_apply_sub(sub, elems[i], vars, path.push(SpecSeg::Index(i)), errs);
        match r.0 {
            Option::Some(v) => {
                lemma_grow_sub_elems(sub, elems, i + 1, acc.push(v), vars, path, r.1);
                lemma_extend_trans(
                    errs,
                    r.1,
                    spec_sub_elems(sub, elems, i + 1, acc.push(v), vars, path, r.1).1,
                );
            },
            Option::None => {
                lemma_grow_sub_elems(sub, elems, i + 1, acc.push(SpecVal::Null), vars, path, r.1);
                lemma_extend_trans(
                    errs,
                    r.1,
                    spec_sub_elems(sub, elems, i + 1, acc.push(SpecVal::Null), vars, path, r.1).1,
                );
            },
        }
    }
}

/// Evaluating named selections only grows the error set.
pub proof fn lemma_grow_named_seq(
    sels: Seq<NamedSelection>,
    i: int,
    acc: Seq<SpecField>,
    data: SpecVal,
    vars: Seq<SpecVarEntry>,
    path: Seq<SpecSeg>,
    errs: Seq<SpecErr>,
)
    ensures
        errs_extend(errs, spec_named_seq(sels, i, acc, data, vars, path, errs).1),
    decreases named_seq_size(sels), sval_size(data), sels.len() - i,
{
    if !(0 <= i < sels.len()) {
        lemma_extend_refl(errs);
    } else {
        lemma_named_seq_size_elem(sels, i);
        let r = spec_apply_named(sels[i], acc, data, vars, path, errs);
        lemma_grow_apply_named(sels[i], acc, data, vars, path, errs);
        lemma_grow_named_seq(sels, i + 1, r.0, data, vars, path, r.1);
        lemma_extend_trans(errs, r.1, spec_named_seq(sels, i + 1, r.0, data, vars, path, r.1).1);
    }
}

/// Evaluating one named selection only grows the error set.
pub proof fn lemma_grow_apply_named(
    n: NamedSelection,
    acc: Seq<SpecField>,
    data: SpecVal,
    vars: Seq<SpecVarEntry>,
    path: Seq<SpecSeg>,
    errs: Seq<SpecErr>,
)
    ensures
        errs_extend(errs, spec_apply_named(n, acc, data, vars, path, errs).1),
    decreases named_size(n), sval_size(data), 0nat,
{
    match n {
        NamedSelection::Field(alias, key, sub_opt) => {
            let keyed = path.push(SpecSeg::Key(key@));
            match data {
                SpecVal::Obj(fields) => match spec_find_field(fields, key@) {
                    Option::Some(v) => match sub_opt {
                        Option::Some(sub) => {
                            lemma_grow_apply_sub(sub, v, vars, keyed, errs);
                        },
                        Option::None => {
                            lemma_extend_refl(errs);
                        },
                    },
                    Option::None => {
                        lemma_insert_extends(
                            errs,
                            SpecErr {
                                message: crate::eval::msg_property_not_found(key@, "object"@),
                                path: keyed,
                            },
                        );
                    },
                },
                _ => {
                    lemma_insert_extends(
                        errs,
                        SpecErr {
                            message: crate::eval::msg_property_not_found(
                                key@,
                                crate::value::spec_type_name(data),
                            ),
                            path: keyed,
                        },
                    );
                },
            }
        },
        NamedSelection::Path(_, p) => {
            lemma_grow_apply_path(p, data, vars, path, errs);
        },
    }
}

/// Applying any known method only grows the error set.
pub proof fn lemma_grow_apply_method(
    kind: MethodKind,
    name: Seq<char>,
    args: Option<MethodArgs>,
    data: SpecVal,
    vars: Seq<SpecVarEntry>,
    path: Seq<SpecSeg>,
    tail: PathList,
    errs: Seq<SpecErr>,
)
    ensures
        errs_extend(errs, spec_apply_method(kind, name, args, data, vars, path, tail, errs).1),
    decreases args_size(args) + path_size(tail), sval_size(data), arg_count(args) + 2,
{
    match kind {
        MethodKind::Echo => lemma_grow_echo(name, args, data, vars, path, tail, errs),
        MethodKind::TypeOf => lemma_grow_typeof(name, args, data, vars, path, tail, errs),
        MethodKind::MapOf => lemma_grow_map(name, args, data, vars, path, tail, errs),
        MethodKind::Eq => lemma_grow_eq(name, args, data, vars, path, tail, errs),
        MethodKind::Match => lemma_grow_match(name, args, data, vars, path, tail, errs),
        MethodKind::MatchIf => lemma_grow_match_if(name, args, data, vars, path, tail, errs),
        MethodKind::Add => lemma_grow_infix(ArithOp::Add, name, args, data, vars, path, tail, errs),
        MethodKind::Sub => lemma_grow_infix(ArithOp::Sub, name, args, data, vars, path, tail, errs),
        MethodKind::Mul => lemma_grow_infix(ArithOp::Mul, name, args, data, vars, path, tail, errs),
        MethodKind::Div => lemma_grow_infix(ArithOp::Div, name, args, data, vars, path, tail, errs),
        MethodKind::Mod => lemma_grow_infix(ArithOp::Mod, name, args, data, vars, path, tail, errs),
        MethodKind::First => lemma_grow_first(name, args, data, vars, path, tail, errs),
        MethodKind::Last => lemma_grow_last(name, args, data, vars, path, tail, errs),
        MethodKind::Slice => lemma_grow_slice(name, args, data, vars, path, tail, errs),
        MethodKind::Not => lemma_grow_not(name, args, data, vars, path, tail, errs),
        MethodKind::Or => lemma_grow_or(name, args, data, vars, path, tail, errs),
        MethodKind::And => lemma_grow_and(name, args, data, vars, path, tail, errs),
    }
}

/// `echo` only grows the error set.
proof fn lemma_grow_echo(
    name: Seq<char>,
    args: Option<MethodArgs>,
    data: SpecVal,
    vars: Seq<SpecVarEntry>,
    path: Seq<SpecSeg>,
    tail: PathList,
    errs: Seq<SpecErr>,
)
    ensures
        errs_extend(errs, spec_echo_method(name, args, data, vars, path, tail, errs).1),
    decreases args_size(args) + path_size(tail), sval_size(data), arg_count(args) + 1,
{
    match args {
        Option::Some(m) => {
            if m.0@.len() > 0 {
                lemma_lit_seq_size_elem(m.0@, 0);
                let r = spec_eval_lit(m.0@[0], data, vars, path, errs);
                lemma_grow_eval_lit(m.0@[0], data, vars, path, errs);
                match r.0 {
                    Option::Some(v) => {
                        lemma_grow_apply_path(tail, v, vars, path, r.1);
                        lemma_extend_trans(errs, r.1, spec_apply_path(tail, v, vars, path, r.1).1);
                    },
                    Option::None => {},
                }
            } else {
                lemma_insert_extends(
                    errs,
                    SpecErr { message: msg_method(name, " requires one argument"@), path },
                );
            }
        },
        Option::None => {
            lemma_insert_extends(
                errs,
                SpecErr { message: msg_method(name, " requires one argument"@), path },
            );
        },
    }
}

/// `typeof` only grows the error set.
proof fn lemma_grow_typeof(
    name: Seq<char>,
    args: Option<MethodArgs>,
    data: SpecVal,
    vars: Seq<SpecVarEntry>,
    path: Seq<SpecSeg>,
    tail: PathList,
    errs: Seq<SpecErr>,
)
    ensures
        errs_extend(errs, spec_typeof_method(name, args, data, vars, path, tail, errs).1),
    decreases args_size(args) + path_size(tail), sval_size(data), arg_count(args) + 1,
{
    match args {
        Option::Some(_) => {
            lemma_insert_extends(
                errs,
                SpecErr { message: msg_method(name, " does not take any arguments"@), path },
            );
        },
        Option::None => {
            lemma_grow_apply_path(
                tail,
                SpecVal::Str(crate::value::spec_type_name(data)),
                vars,
                path,
                errs,
            );
        },
    }
}

/// The distribution of `map` only grows the error set.
proof fn lemma_grow_map_elems(
    arg: LitExpr,
    tail: PathList,
    elems: Seq<SpecVal>,
    i: int,
    acc: Seq<SpecVal>,
    vars: Seq<SpecVarEntry>,
    path: Seq<SpecSeg>,
    errs: Seq<SpecErr>,
)
    ensures
        errs_extend(errs, spec_map_elems(arg, tail, elems, i, acc, vars, path, errs).1),
    decreases 1 + lit_size(arg) + path_size(tail), svals_size(elems), elems.len() - i,
{
    if !(0 <= i < elems.len()) {
        lemma_extend_refl(errs);
    } else {
        lemma_svals_size_elem(elems, i);
        let ipath = path.push(SpecSeg::Index(i));
        let r = spec_eval_lit(arg, elems[i], vars, ipath, errs);
        lemma_grow_eval_lit(arg, elems[i], vars, ipath, errs);
        match r.0 {
            Option::Some(applied) => {
                let r2 = spec_apply_path(tail, applied, vars, ipath, r.1);
                lemma_grow_apply_path(tail, applied, vars, ipath, r.1);
                lemma_extend_trans(errs, r.1, r2.1);
                let acc2 = if r2.0 is Some {
                    acc.push(r2.0->Some_0)
                } else {
                    acc.push(SpecVal::Null)
                };
                lemma_grow_map_elems(arg, tail, elems, i + 1, acc2, vars, path, r2.1);
                lemma_extend_trans(
                    errs,
                    r2.1,
                    spec_map_elems(arg, tail, elems, i + 1, acc2, vars, path, r2.1).1,
                );
            },
            Option::None => {
                lemma_grow_map_elems(arg, tail, elems, i + 1, acc.push(SpecVal::Null), vars, path, r.1);
                lemma_extend_trans(
                    errs,
                    r.1,
                    spec_map_elems(arg, tail, elems, i + 1, acc.push(SpecVal::Null), vars, path, r.1).1,
                );
            },
        }
    }
}

/// `map` only grows the error set.
proof fn lemma_grow_map(
    name: Seq<char>,
    args: Option<MethodArgs>,
    data: SpecVal,
    vars: Seq<SpecVarEntry>,
    path: Seq<SpecSeg>,
    tail: PathList,
    errs: Seq<SpecErr>,
)
    ensures
        errs_extend(errs, spec_map_method(name, args, data, vars, path, tail, errs).1),
    decreases args_size(args) + path_size(tail), sval_size(data), arg_count(args) + 1,
{
    match args {
        Option::Some(m) => {
            if m.0@.len() > 0 {
                lemma_lit_seq_size_elem(m.0@, 0);
                match data {
                    SpecVal::Arr(elems) => {
                        lemma_grow_map_elems(m.0@[0], tail, elems, 0, Seq::empty(), vars, path, errs);
                    },
                    _ => {
                        lemma_grow_eval_lit(m.0@[0], data, vars, path, errs);
                    },
                }
            } else {
                lemma_insert_extends(
                    errs,
                    SpecErr { message: msg_method(name, " requires one argument"@), path },
                );
            }
        },
        Option::None => {
            lemma_insert_extends(
                errs,
                SpecErr { message: msg_method(name, " requires one argument"@), path },
            );
        },
    }
}

/// `eq` only grows the error set.
proof fn lemma_grow_eq(
    name: Seq<char>,
    args: Option<MethodArgs>,
    data: SpecVal,
    vars: Seq<SpecVarEntry>,
    path: Seq<SpecSeg>,
    tail: PathList,
    errs: Seq<SpecErr>,
)
    ensures
        errs_extend(errs, spec_eq_method(name, args, data, vars, path, tail, errs).1),
    decreases args_size(args) + path_size(tail), sval_size(data), arg_count(args) + 1,
{
    match args {
        Option::Some(m) => {
            if m.0@.len() == 1 {
                lemma_lit_seq_size_elem(m.0@, 0);
                let r = spec_eval_lit(m.0@[0], data, vars, path, errs);
                lemma_grow_eval_lit(m.0@[0], data, vars, path, errs);
                let same = match r.0 {
                    Option::Some(v) => spec_json_eq(data, v),
                    Option::None => false,
                };
                lemma_grow_apply_path(tail, SpecVal::Bool(same), vars, path, r.1);
                lemma_extend_trans(
                    errs,
                    r.1,
                    spec_apply_path(tail, SpecVal::Bool(same), vars, path, r.1).1,
                );
            } else {
                lemma_insert_extends(
                    errs,
                    SpecErr { message: msg_method(name, " requires exactly one argument"@), path },
                );
            }
        },
        Option::None => {
            lemma_insert_extends(
                errs,
                SpecErr { message: msg_method(name, " requires exactly one argument"@), path },
            );
        },
    }
}

/// The pair walk of `match` only grows the error set.
proof fn lemma_grow_match_pairs(
    name: Seq<char>,
    args: Seq<LitExpr>,
    i: int,
    data: SpecVal,
    vars: Seq<SpecVarEntry>,
    path: Seq<SpecSeg>,
    tail: PathList,
    errs: Seq<SpecErr>,
)
    ensures
        errs_extend(errs, spec_match_pairs(name, args, i, data, vars, path, tail, errs).1),
    decreases 1 + lit_seq_size(args) + path_size(tail), sval_size(data), args.len() - i,
{
    if !(0 <= i < args.len()) {
        lemma_insert_extends(
            errs,
            SpecErr {
                message: msg_method(name, " did not match any [candidate, value] pair"@),
                path,
            },
        );
    } else {
        match args[i] {
            LitExpr::Array(pair) => {
                if pair@.len() == 1 {
                    lemma_lit_seq_size_elem(args, i);
                    lemma_lit_seq_size_elem(pair@, 0);
                    let r = spec_eval_lit(pair@[0], data, vars, path, errs);
                    lemma_grow_eval_lit(pair@[0], data, vars, path, errs);
                    match r.0 {
                        Option::Some(v) => {
                            lemma_grow_apply_path(tail, v, vars, path, r.1);
                            lemma_extend_trans(errs, r.1, spec_apply_path(tail, v, vars, path, r.1).1);
                        },
                        Option::None => {},
                    }
                } else if pair@.len() == 2 {
                    lemma_lit_seq_size_elem(args, i);
                    lemma_lit_seq_size_elem(pair@, 0);
                    lemma_lit_seq_size_elem(pair@, 1);
                    let c = spec_eval_lit(pair@[0], data, vars, path, errs);
                    lemma_grow_eval_lit(pair@[0], data, vars, path, errs);
                    match c.0 {
                        Option::Some(cv) => {
                            if spec_json_eq(cv, data) {
                                let r2 = spec_eval_lit(pair@[1], data, vars, path, c.1);
                                lemma_grow_eval_lit(pair@[1], data, vars, path, c.1);
                                lemma_extend_trans(errs, c.1, r2.1);
                                match r2.0 {
                                    Option::Some(v) => {
                                        lemma_grow_apply_path(tail, v, vars, path, r2.1);
                                        lemma_extend_trans(
                                            errs,
                                            r2.1,
                                            spec_apply_path(tail, v, vars, path, r2.1).1,
                                        );
                                    },
                                    Option::None => {},
                                }
                            } else {
                                lemma_grow_match_pairs(name, args, i + 1, data, vars, path, tail, c.1);
                                lemma_extend_trans(
                                    errs,
                                    c.1,
                                    spec_match_pairs(name, args, i + 1, data, vars, path, tail, c.1).1,
                                );
                            }
                        },
                        Option::None => {
                            lemma_grow_match_pairs(name, args, i + 1, data, vars, path, tail, c.1);
                            lemma_extend_trans(
                                errs,
                                c.1,
                                spec_match_pairs(name, args, i + 1, data, vars, path, tail, c.1).1,
                            );
                        },
                    }
                } else {
                    lemma_grow_match_pairs(name, args, i + 1, data, vars, path, tail, errs);
                }
            },
            _ => {
                lemma_grow_match_pairs(name, args, i + 1, data, vars, path, tail, errs);
            },
        }
    }
}

/// `match` only grows the error set.
proof fn lemma_grow_match(
    name: Seq<char>,
    args: Option<MethodArgs>,
    data: SpecVal,
    vars: Seq<SpecVarEntry>,
    path: Seq<SpecSeg>,
    tail: PathList,
    errs: Seq<SpecErr>,
)
    ensures
        errs_extend(errs, spec_match_method(name, args, data, vars, path, tail, errs).1),
    decreases args_size(args) + path_size(tail), sval_size(data), arg_count(args) + 1,
{
    match args {
        Option::Some(m) => {
            lemma_grow_match_pairs(name, m.0@, 0, data, vars, path, tail, errs);
        },
        Option::None => {
            lemma_insert_extends(
                errs,
                SpecErr {
                    message: msg_method(name, " did not match any [candidate, value] pair"@),
                    path,
                },
            );
        },
    }
}

/// The pair walk of `matchIf` only grows the error set.
proof fn lemma_grow_match_if_pairs(
    name: Seq<char>,
    args: Seq<LitExpr>,
    i: int,
    data: SpecVal,
    vars: Seq<SpecVarEntry>,
    path: Seq<SpecSeg>,
    tail: PathList,
    errs: Seq<SpecErr>,
)
    ensures
        errs_extend(errs, spec_match_if_pairs(name, args, i, data, vars, path, tail, errs).1),
    decreases 1 + lit_seq_size(args) + path_size(tail), sval_size(data), args.len() - i,
{
    if !(0 <= i < args.len()) {
        lemma_insert_extends(
            errs,
            SpecErr {
                message: msg_method(name, " did not match any [condition, value] pair"@),
                path,
            },
        );
    } else {
        match args[i] {
            LitExpr::Array(pair) => {
                if pair@.len() == 2 {
                    lemma_lit_seq_size_elem(args, i);
                    lemma_lit_seq_size_elem(pair@, 0);
                    lemma_lit_seq_size_elem(pair@, 1);
                    let c = spec_eval_lit(pair@[0], data, vars, path, errs);
                    lemma_grow_eval_lit(pair@[0], data, vars, path, errs);
                    match c.0 {
                        Option::Some(cv) => {
                            if cv == SpecVal::Bool(true) {
                                let r2 = spec_eval_lit(pair@[1], data, vars, path, c.1);
                                lemma_grow_eval_lit(pair@[1], data, vars, path, c.1);
                                lemma_extend_trans(errs, c.1, r2.1);
                                match r2.0 {
                                    Option::Some(v) => {
                                        lemma_grow_apply_path(tail, v, vars, path, r2.1);
                                        lemma_extend_trans(
                                            errs,
                                            r2.1,
                                            spec_apply_path(tail, v, vars, path, r2.1).1,
                                        );
                                    },
                                    Option::None => {},
                                }
                            } else {
                                lemma_grow_match_if_pairs(name, args, i + 1, data, vars, path, tail, c.1);
                                lemma_extend_trans(
                                    errs,
                                    c.1,
                                    spec_match_if_pairs(name, args, i + 1, data, vars, path, tail, c.1).1,
                                );
                            }
                        },
                        Option::None => {
                            lemma_grow_match_if_pairs(name, args, i + 1, data, vars, path, tail, c.1);
                            lemma_extend_trans(
                                errs,
                                c.1,
                                spec_match_if_pairs(name, args, i + 1, data, vars, path, tail, c.1).1,
                            );
                        },
                    }
                } else {
                    lemma_grow_match_if_pairs(name, args, i + 1, data, vars, path, tail, errs);
                }
            },
            _ => {
                lemma_grow_match_if_pairs(name, args, i + 1, data, vars, path, tail, errs);
            },
        }
    }
}

/// `matchIf` only grows the error set.
proof fn lemma_grow_match_if(
    name: Seq<char>,
    args: Option<MethodArgs>,
    data: SpecVal,
    vars: Seq<SpecVarEntry>,
    path: Seq<SpecSeg>,
    tail: PathList,
    errs: Seq<SpecErr>,
)
    ensures
        errs_extend(errs, spec_match_if_method(name, args, data, vars, path, tail, errs).1),
    decreases args_size(args) + path_size(tail), sval_size(data), arg_count(args) + 1,
{
    match args {
        Option::Some(m) => {
            lemma_grow_match_if_pairs(name, m.0@, 0, data, vars, path, tail, errs);
        },
        Option::None => {
            lemma_insert_extends(
                errs,
                SpecErr {
                    message: msg_method(name, " did not match any [condition, value] pair"@),
                    path,
                },
            );
        },
    }
}

/// The arithmetic fold only grows the error set.
proof fn lemma_grow_arith_fold(
    op: ArithOp,
    name: Seq<char>,
    args: Seq<LitExpr>,
    i: int,
    acc: SpecVal,
    data: SpecVal,
    vars: Seq<SpecVarEntry>,
    path: Seq<SpecSeg>,
    errs: Seq<SpecErr>,
)
    ensures
        errs_extend(errs, spec_arith_fold(op, name, args, i, acc, data, vars, path, errs).1),
    decreases lit_seq_size(args), sval_size(data), args.len() - i,
{
    if !(0 <= i < args.len()) {
        lemma_extend_refl(errs);
    } else {
        lemma_lit_seq_size_elem(args, i);
        let r = spec_eval_lit(args[i], data, vars, path, errs);
        lemma_grow_eval_lit(args[i], data, vars, path, errs);
        match r.0 {
            Option::Some(v) => {
                if v is Int || v is Float {
                    match spec_arith_op(op, acc, v) {
                        Option::Some(acc2) => {
                            lemma_grow_arith_fold(op, name, args, i + 1, acc2, data, vars, path, r.1);
                            lemma_extend_trans(
                                errs,
                                r.1,
                                spec_arith_fold(op, name, args, i + 1, acc2, data, vars, path, r.1).1,
                            );
                        },
                        Option::None => {
                            lemma_insert_extends(
                                r.1,
                                SpecErr {
                                    message: msg_method(
                                        name,
                                        " failed on argument "@ + crate::methods::spec_num_display(v),
                                    ),
                                    path,
                                },
                            );
                            lemma_extend_trans(
                                errs,
                                r.1,
                                spec_insert_err(
                                    r.1,
                                    SpecErr {
                                        message: msg_method(
                                            name,
                                            " failed on argument "@
                                                + crate::methods::spec_num_display(v),
                                        ),
                                        path,
                                    },
                                ),
                            );
                        },
                    }
                } else {
                    lemma_insert_extends(
                        r.1,
                        SpecErr { message: msg_method(name, " requires numeric arguments"@), path },
                    );
                    lemma_extend_trans(
                        errs,
                        r.1,
                        spec_insert_err(
                            r.1,
                            SpecErr {
                                message: msg_method(name, " requires numeric arguments"@),
                                path,
                            },
                        ),
                    );
                }
            },
            Option::None => {
                lemma_insert_extends(
                    r.1,
                    SpecErr { message: msg_method(name, " requires numeric arguments"@), path },
                );
                lemma_extend_trans(
                    errs,
                    r.1,
                    spec_insert_err(
                        r.1,
                        SpecErr {
                            message: msg_method(name, " requires numeric arguments"@),
                            path,
                        },
                    ),
                );
            },
        }
    }
}

/// An arithmetic method only grows the error set.
proof fn lemma_grow_infix(
    op: ArithOp,
    name: Seq<char>,
    args: Option<MethodArgs>,
    data: SpecVal,
    vars: Seq<SpecVarEntry>,
    path: Seq<SpecSeg>,
    tail: PathList,
    errs: Seq<SpecErr>,
)
    ensures
        errs_extend(errs, spec_infix_method(op, name, args, data, vars, path, tail, errs).1),
    decreases args_size(args) + path_size(tail), sval_size(data), arg_count(args) + 1,
{
    let r = spec_arithmetic_method(op, name, args, data, vars, path, errs);
    match args {
        Option::Some(m) => {
            if data is Int || data is Float {
                lemma_grow_arith_fold(op, name, m.0@, 0, data, data, vars, path, errs);
            } else {
                lemma_insert_extends(
                    errs,
                    SpecErr { message: msg_method(name, " requires numeric arguments"@), path },
                );
            }
        },
        Option::None => {
            lemma_insert_extends(
                errs,
                SpecErr { message: msg_method(name, " requires at least one argument"@), path },
            );
        },
    }
    match r.0 {
        Option::Some(v) => {
            lemma_grow_apply_path(tail, v, vars, path, r.1);
            lemma_extend_trans(errs, r.1, spec_apply_path(tail, v, vars, path, r.1).1);
        },
        Option::None => {},
    }
}

/// `first` only grows the error set.
proof fn lemma_grow_first(
    name: Seq<char>,
    args: Option<MethodArgs>,
    data: SpecVal,
    vars: Seq<SpecVarEntry>,
    path: Seq<SpecSeg>,
    tail: PathList,
    errs: Seq<SpecErr>,
)
    ensures
        errs_extend(errs, spec_first_method(name, args, data, vars, path, tail, errs).1),
    decreases args_size(args) + path_size(tail), sval_size(data), arg_count(args) + 1,
{
    match args {
        Option::Some(_) => {
            lemma_insert_extends(
                errs,
                SpecErr { message: msg_method(name, " does not take any arguments"@), path },
            );
        },
        Option::None => match data {
            SpecVal::Arr(elems) => {
                if elems.len() == 0 {
                    lemma_extend_refl(errs);
                } else {
                    lemma_grow_apply_path(tail, elems[0], vars, path, errs);
                }
            },
            _ => {
                lemma_grow_apply_path(tail, data, vars, path, errs);
            },
        },
    }
}

/// `last` only grows the error set.
proof fn lemma_grow_last(
    name: Seq<char>,
    args: Option<MethodArgs>,
    data: SpecVal,
    vars: Seq<SpecVarEntry>,
    path: Seq<SpecSeg>,
    tail: PathList,
    errs: Seq<SpecErr>,
)
    ensures
        errs_extend(errs, spec_last_method(name, args, data, vars, path, tail, errs).1),
    decreases args_size(args) + path_size(tail), sval_size(data), arg_count(args) + 1,
{
    match args {
        Option::Some(_) => {
            lemma_insert_extends(
                errs,
                SpecErr { message: msg_method(name, " does not take any arguments"@), path },
            );
        },
        Option::None => match data {
            SpecVal::Arr(elems) => {
                if elems.len() == 0 {
                    lemma_extend_refl(errs);
                } else {
                    lemma_grow_apply_path(tail, elems[elems.len() - 1], vars, path, errs);
                }
            },
            _ => {
                lemma_grow_apply_path(tail, data, vars, path, errs);
            },
        },
    }
}

/// `slice` only grows the error set.
proof fn lemma_grow_slice(
    name: Seq<char>,
    args: Option<MethodArgs>,
    data: SpecVal,
    vars: Seq<SpecVarEntry>,
    path: Seq<SpecSeg>,
    tail: PathList,
    errs: Seq<SpecErr>,
)
    ensures
        errs_extend(errs, spec_slice_method(name, args, data, vars, path, tail, errs).1),
    decreases args_size(args) + path_size(tail), sval_size(data), arg_count(args) + 1,
{
    if !(data is Arr || data is Str) {
        lemma_insert_extends(
            errs,
            SpecErr { message: msg_method(name, " requires an array or string input"@), path },
        );
    } else {
        match args {
            Option::Some(m) => {
                let len: int = match data {
                    SpecVal::Arr(elems) => elems.len() as int,
                    SpecVal::Str(s) => s.len() as int,
                    _ => 0,
                };
                let r1 = if m.0@.len() >= 1 {
                    lemma_lit_seq_size_elem(m.0@, 0);
                    let r = spec_eval_lit(m.0@[0], data, vars, path, errs);
                    lemma_grow_eval_lit(m.0@[0], data, vars, path, errs);
                    (crate::methods::spec_as_int_bound(r.0), r.1)
                } else {
                    lemma_extend_refl(errs);
                    (Option::<i64>::None, errs)
                };
                let r2 = if m.0@.len() >= 2 {
                    lemma_lit_seq_size_elem(m.0@, 1);
                    let r = spec_eval_lit(m.0@[1], data, vars, path, r1.1);
                    lemma_grow_eval_lit(m.0@[1], data, vars, path, r1.1);
                    lemma_extend_trans(errs, r1.1, r.1);
                    (crate::methods::spec_as_int_bound(r.0), r.1)
                } else {
                    (Option::<i64>::None, r1.1)
                };
                let start: int = spec_clamp(
                    match r1.0 {
                        Option::Some(b) => b as int,
                        Option::None => 0,
                    },
                    len,
                );
                let end: int = spec_clamp(
                    match r2.0 {
                        Option::Some(b) => b as int,
                        Option::None => len,
                    },
                    len,
                );
                let hi: int = if end > start {
                    end
                } else {
                    start
                };
                let sliced: SpecVal = match data {
                    SpecVal::Arr(elems) => SpecVal::Arr(elems.subrange(start, hi)),
                    SpecVal::Str(s) => SpecVal::Str(s.subrange(start, hi)),
                    _ => SpecVal::Null,
                };
                lemma_grow_apply_path(tail, sliced, vars, path, r2.1);
                lemma_extend_trans(errs, r2.1, spec_apply_path(tail, sliced, vars, path, r2.1).1);
            },
            Option::None => {
                lemma_grow_apply_path(tail, data, vars, path, errs);
            },
        }
    }
}

/// `not` only grows the error set.
proof fn lemma_grow_not(
    name: Seq<char>,
    args: Option<MethodArgs>,
    data: SpecVal,
    vars: Seq<SpecVarEntry>,
    path: Seq<SpecSeg>,
    tail: PathList,
    errs: Seq<SpecErr>,
)
    ensures
        errs_extend(errs, spec_not_method(name, args, data, vars, path, tail, errs).1),
    decreases args_size(args) + path_size(tail), sval_size(data), arg_count(args) + 1,
{
    match args {
        Option::Some(_) => {
            lemma_insert_extends(
                errs,
                SpecErr { message: msg_method(name, " does not take any arguments"@), path },
            );
        },
        Option::None => {
            lemma_grow_apply_path(tail, SpecVal::Bool(!spec_truthy(data)), vars, path, errs);
        },
    }
}

/// The fold of `or` only grows the error set.
proof fn lemma_grow_or_fold(
    args: Seq<LitExpr>,
    i: int,
    acc: bool,
    data: SpecVal,
    vars: Seq<SpecVarEntry>,
    path: Seq<SpecSeg>,
    errs: Seq<SpecErr>,
)
    ensures
        errs_extend(errs, spec_or_fold(args, i, acc, data, vars, path, errs).1),
    decreases lit_seq_size(args), sval_size(data), args.len() - i,
{
    if !(0 <= i < args.len()) || acc {
        lemma_extend_refl(errs);
    } else {
        lemma_lit_seq_size_elem(args, i);
        let r = spec_eval_lit(args[i], data, vars, path, errs);
        lemma_grow_eval_lit(args[i], data, vars, path, errs);
        let t = match r.0 {
            Option::Some(v) => spec_truthy(v),
            Option::None => false,
        };
        lemma_grow_or_fold(args, i + 1, t, data, vars, path, r.1);
        lemma_extend_trans(errs, r.1, spec_or_fold(args, i + 1, t, data, vars, path, r.1).1);
    }
}

/// `or` only grows the error set.
proof fn lemma_grow_or(
    name: Seq<char>,
    args: Option<MethodArgs>,
    data: SpecVal,
    vars: Seq<SpecVarEntry>,
    path: Seq<SpecSeg>,
    tail: PathList,
    errs: Seq<SpecErr>,
)
    ensures
        errs_extend(errs, spec_or_method(name, args, data, vars, path, tail, errs).1),
    decreases args_size(args) + path_size(tail), sval_size(data), arg_count(args) + 1,
{
    match args {
        Option::Some(m) => {
            let r = spec_or_fold(m.0@, 0, spec_truthy(data), data, vars, path, errs);
            lemma_grow_or_fold(m.0@, 0, spec_truthy(data), data, vars, path, errs);
            lemma_grow_apply_path(tail, SpecVal::Bool(r.0), vars, path, r.1);
            lemma_extend_trans(errs, r.1, spec_apply_path(tail, SpecVal::Bool(r.0), vars, path, r.1).1);
        },
        Option::None => {
            lemma_insert_extends(
                errs,
                SpecErr { message: msg_method(name, " requires arguments"@), path },
            );
        },
    }
}

/// The fold of `and` only grows the error set.
proof fn lemma_grow_and_fold(
    args: Seq<LitExpr>,
    i: int,
    acc: bool,
    data: SpecVal,
    vars: Seq<SpecVarEntry>,
    path: Seq<SpecSeg>,
    errs: Seq<SpecErr>,
)
    ensures
        errs_extend(errs, spec_and_fold(args, i, acc, data, vars, path, errs).1),
    decreases lit_seq_size(args), sval_size(data), args.len() - i,
{
    if !(0 <= i < args.len()) || !acc {
        lemma_extend_refl(errs);
    } else {
        lemma_lit_seq_size_elem(args, i);
        let r = spec_eval_lit(args[i], data, vars, path, errs);
        lemma_grow_eval_lit(args[i], data, vars, path, errs);
        let t = match r.0 {
            Option::Some(v) => spec_truthy(v),
            Option::None => false,
        };
        lemma_grow_and_fold(args, i + 1, t, data, vars, path, r.1);
        lemma_extend_trans(errs, r.1, spec_and_fold(args, i + 1, t, data, vars, path, r.1).1);
    }
}

/// `and` only grows the error set.
proof fn lemma_grow_and(
    name: Seq<char>,
    args: Option<MethodArgs>,
    data: SpecVal,
    vars: Seq<SpecVarEntry>,
    path: Seq<SpecSeg>,
    tail: PathList,
    errs: Seq<SpecErr>,
)
    ensures
        errs_extend(errs, spec_and_method(name, args, data, vars, path, tail, errs).1),
    decreases args_size(args) + path_size(tail), sval_size(data), arg_count(args) + 1,
{
    match args {
        Option::Some(m) => {
            let r = spec_and_fold(m.0@, 0, spec_truthy(data), data, vars, path, errs);
            lemma_grow_and_fold(m.0@, 0, spec_truthy(data), data, vars, path, errs);
            lemma_grow_apply_path(tail, SpecVal::Bool(r.0), vars, path, r.1);
            lemma_extend_trans(errs, r.1, spec_apply_path(tail, SpecVal::Bool(r.0), vars, path, r.1).1);
        },
        Option::None => {
            lemma_insert_extends(
                errs,
                SpecErr { message: msg_method(name, " requires arguments"@), path },
            );
        },
    }
}

} // verus!
