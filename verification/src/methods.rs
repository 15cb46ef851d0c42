//! The arrow methods and their dispatch.
//!
//! The method set is closed and known at build time, so the registry is
//! a total function from name to method kind; an unknown name yields a
//! typed error at the call site, never a crash. Every method follows
//! one contract: it reads the value it is invoked on, the optional
//! argument expressions, the variable environment and the input path,
//! inserts zero or more errors, and either hands a result through the
//! remaining path (the tail) or yields nothing.

use vstd::prelude::*;

use crate::ast::LitExpr;
use crate::ast::MethodArgs;
use crate::ast::PathList;
use crate::ast::args_size;
use crate::ast::lemma_lit_seq_size_elem;
use crate::ast::lit_seq_size;
use crate::ast::lit_size;
use crate::ast::path_size;
use crate::errors::ApplyToError;
use crate::errors::ErrorAcc;
use crate::errors::InputPath;
use crate::errors::PathSeg;
use crate::errors::SpecErr;
use crate::errors::SpecSeg;
use crate::errors::spec_insert_err;
use crate::eval::SpecVarEntry;
use crate::eval::VarsWithPathsMap;
use crate::eval::spec_apply_path;
use crate::eval::spec_eval_lit;
use crate::num::JsonNum;
use crate::num::f64_bits_finite;
use crate::num::i64_to_f64_bits;
use crate::num::add_f64_bits;
use crate::num::sub_f64_bits;
use crate::num::mul_f64_bits;
use crate::num::div_f64_bits;
use crate::num::rem_f64_bits;
use crate::num::num_add;
use crate::num::num_sub;
use crate::num::num_mul;
use crate::num::num_div;
use crate::num::num_rem;
use crate::num::num_promote;
use crate::num::i64_display;
use crate::num::num_float_display;
use crate::num::spec_i64_decimal;
use crate::num::f64_bits_display;
use crate::value::JsonValue;
use crate::value::SpecVal;
use crate::value::chars_concat;
use crate::value::chars_eq;
use crate::value::deep_clone;
use crate::value::is_truthy;
use crate::value::json_eq;
use crate::value::json_type_name;
use crate::value::lemma_svals_size_elem;
use crate::value::num_view;
use crate::value::opt_val_view;
use crate::value::spec_json_eq;
use crate::value::spec_truthy;
use crate::value::spec_type_name;
use crate::value::str_chars;
use crate::value::sval_size;
use crate::value::svals_size;
use crate::value::vals_view;
use crate::value::wrap_chars;

verus! {

/// The closed set of arrow methods.
#[derive(Clone, Copy, Debug, PartialEq)]
pub enum MethodKind {
    Echo,
    TypeOf,
    MapOf,
    Eq,
    Match,
    MatchIf,
    Add,
    Sub,
    Mul,
    Div,
    Mod,
    First,
    Last,
    Slice,
    Not,
    Or,
    And,
}

/// The five arithmetic operations.
#[derive(Clone, Copy, Debug, PartialEq)]
pub enum ArithOp {
    Add,
    Sub,
    Mul,
    Div,
    Mod,
}

/// The registry: which method a name denotes. `matchIf` and `match_if`
/// are aliases of one method.
pub open spec fn spec_lookup_method(name: Seq<char>) -> Option<MethodKind> {
    if name == "echo"@ {
        Option::Some(MethodKind::Echo)
    } else if name == "typeof"@ {
        Option::Some(MethodKind::TypeOf)
    } else if name == "map"@ {
        Option::Some(MethodKind::MapOf)
    } else if name == "eq"@ {
        Option::Some(MethodKind::Eq)
    } else if name == "match"@ {
        Option::Some(MethodKind::Match)
    } else if name == "matchIf"@ || name == "match_if"@ {
        Option::Some(MethodKind::MatchIf)
    } else if name == "add"@ {
        Option::Some(MethodKind::Add)
    } else if name == "sub"@ {
        Option::Some(MethodKind::Sub)
    } else if name == "mul"@ {
        Option::Some(MethodKind::Mul)
    } else if name == "div"@ {
        Option::Some(MethodKind::Div)
    } else if name == "mod"@ {
        Option::Some(MethodKind::Mod)
    } else if name == "first"@ {
        Option::Some(MethodKind::First)
    } else if name == "last"@ {
        Option::Some(MethodKind::Last)
    } else if name == "slice"@ {
        Option::Some(MethodKind::Slice)
    } else if name == "not"@ {
        Option::Some(MethodKind::Not)
    } else if name == "or"@ {
        Option::Some(MethodKind::Or)
    } else if name == "and"@ {
        Option::Some(MethodKind::And)
    } else {
        Option::None
    }
}

/// Looks a method name up in the registry.
pub fn lookup_method(name: &Vec<char>) -> (r: Option<MethodKind>)
    ensures
        r == spec_lookup_method(name@),
{
    if chars_eq(name, &str_chars("echo")) {
        Option::Some(MethodKind::Echo)
    } else if chars_eq(name, &str_chars("typeof")) {
        Option::Some(MethodKind::TypeOf)
    } else if chars_eq(name, &str_chars("map")) {
        Option::Some(MethodKind::MapOf)
    } else if chars_eq(name, &str_chars("eq")) {
        Option::Some(MethodKind::Eq)
    } else if chars_eq(name, &str_chars("match")) {
        Option::Some(MethodKind::Match)
    } else if chars_eq(name, &str_chars("matchIf")) || chars_eq(name, &str_chars("match_if")) {
        Option::Some(MethodKind::MatchIf)
    } else if chars_eq(name, &str_chars("add")) {
        Option::Some(MethodKind::Add)
    } else if chars_eq(name, &str_chars("sub")) {
        Option::Some(MethodKind::Sub)
    } else if chars_eq(name, &str_chars("mul")) {
        Option::Some(MethodKind::Mul)
    } else if chars_eq(name, &str_chars("div")) {
        Option::Some(MethodKind::Div)
    } else if chars_eq(name, &str_chars("mod")) {
        Option::Some(MethodKind::Mod)
    } else if chars_eq(name, &str_chars("first")) {
        Option::Some(MethodKind::First)
    } else if chars_eq(name, &str_chars("last")) {
        Option::Some(MethodKind::Last)
    } else if chars_eq(name, &str_chars("slice")) {
        Option::Some(MethodKind::Slice)
    } else if chars_eq(name, &str_chars("not")) {
        Option::Some(MethodKind::Not)
    } else if chars_eq(name, &str_chars("or")) {
        Option::Some(MethodKind::Or)
    } else if chars_eq(name, &str_chars("and")) {
        Option::Some(MethodKind::And)
    } else {
        Option::None
    }
}

/// How many arguments were syntactically supplied.
pub open spec fn arg_count(args: Option<MethodArgs>) -> nat {
    match args {
        Option::None => 0,
        Option::Some(m) => m.0@.len(),
    }
}

/// The shape of every method error message.
pub open spec fn msg_method(name: Seq<char>, suffix: Seq<char>) -> Seq<char> {
    "Method ->"@ + name + suffix
}

/// Inserts a method error of the common shape at the current path.
fn insert_method_err(
    name: &Vec<char>,
    suffix: &str,
    input_path: &InputPath,
    errors: &mut ErrorAcc,
)
    ensures
        final(errors)@ == spec_insert_err(
            old(errors)@,
            SpecErr { message: msg_method(name@, suffix@), path: input_path@ },
        ),
{
    let msg: Vec<char> = wrap_chars("Method ->", name, suffix);
    errors.insert(ApplyToError::new(msg, input_path));
}

/// The decimal rendering of a number, as its argument appears in an
/// arithmetic failure message.
pub open spec fn spec_num_display(v: SpecVal) -> Seq<char> {
    match v {
        SpecVal::Int(i) => spec_i64_decimal(i),
        SpecVal::Float(bits) => f64_bits_display(bits),
        _ => Seq::empty(),
    }
}

/// The decimal rendering of a number.
pub fn num_display(n: &JsonNum) -> (r: Vec<char>)
    ensures
        r@ == spec_num_display(num_view(*n)),
{
    match n {
        JsonNum::Int(i) => i64_display(*i),
        JsonNum::Float(m) => num_float_display(m),
    }
}

/// The `f64` bit pattern a number contributes once a fold is promoted
/// to floating point.
pub open spec fn spec_promote_bits(v: SpecVal) -> u64 {
    match v {
        SpecVal::Int(i) => i64_to_f64_bits(i),
        SpecVal::Float(bits) => bits,
        _ => 0,
    }
}

/// The bit pattern of one floating-point arithmetic step.
pub open spec fn spec_float_op_bits(op: ArithOp, a: u64, b: u64) -> u64 {
    match op {
        ArithOp::Add => add_f64_bits(a, b),
        ArithOp::Sub => sub_f64_bits(a, b),
        ArithOp::Mul => mul_f64_bits(a, b),
        ArithOp::Div => div_f64_bits(a, b),
        ArithOp::Mod => rem_f64_bits(a, b),
    }
}

/// One integer arithmetic step: 64-bit signed arithmetic, failing on
/// overflow, division by zero, and the one division that overflows.
pub open spec fn spec_int_op(op: ArithOp, x: i64, y: i64) -> Option<i64> {
    match op {
        ArithOp::Add => x.checked_add(y),
        ArithOp::Sub => x.checked_sub(y),
        ArithOp::Mul => x.checked_mul(y),
        ArithOp::Div => x.checked_div(y),
        ArithOp::Mod => x.checked_rem(y),
    }
}

/// One arithmetic step over two numbers: integer arithmetic when both
/// are integers, else both are read as `f64` and the result is the
/// floating-point value, failing when it is not finite. Defined for
/// number operands.
pub open spec fn spec_arith_op(op: ArithOp, a: SpecVal, b: SpecVal) -> Option<SpecVal> {
    match (a, b) {
        (SpecVal::Int(x), SpecVal::Int(y)) => match spec_int_op(op, x, y) {
            Option::Some(z) => Option::Some(SpecVal::Int(z)),
            Option::None => Option::None,
        },
        _ => {
            let bits = spec_float_op_bits(op, spec_promote_bits(a), spec_promote_bits(b));
            if f64_bits_finite(bits) {
                Option::Some(SpecVal::Float(bits))
            } else {
                Option::None
            }
        },
    }
}

/// One arithmetic step over two numbers.
pub fn num_arith_step(op: ArithOp, acc: &JsonNum, arg: &JsonNum) -> (r: Option<JsonNum>)
    ensures
        ({
            let so = spec_arith_op(op, num_view(*acc), num_view(*arg));
            match r {
                Option::Some(n) => so == Option::Some(num_view(n)),
                Option::None => so is None,
            }
        }),
{
    match (acc, arg) {
        (JsonNum::Int(x), JsonNum::Int(y)) => {
            let zo: Option<i64> = match op {
                ArithOp::Add => i64::checked_add(*x, *y),
                ArithOp::Sub => i64::checked_sub(*x, *y),
                ArithOp::Mul => i64::checked_mul(*x, *y),
                ArithOp::Div => i64::checked_div(*x, *y),
                ArithOp::Mod => i64::checked_rem(*x, *y),
            };
            match zo {
                Option::Some(z) => Option::Some(JsonNum::Int(z)),
                Option::None => Option::None,
            }
        },
        _ => {
            let na = num_promote(acc);
            let nb = num_promote(arg);
            let ro = match op {
                ArithOp::Add => num_add(&na, &nb),
                ArithOp::Sub => num_sub(&na, &nb),
                ArithOp::Mul => num_mul(&na, &nb),
                ArithOp::Div => num_div(&na, &nb),
                ArithOp::Mod => num_rem(&na, &nb),
            };
            match ro {
                Option::Some(n) => Option::Some(JsonNum::Float(n)),
                Option::None => Option::None,
            }
        },
    }
}

/// Dispatch: the specification of applying a known method.
pub open spec fn spec_apply_method(
    kind: MethodKind,
    name: Seq<char>,
    args: Option<MethodArgs>,
    data: SpecVal,
    vars: Seq<SpecVarEntry>,
    path: Seq<SpecSeg>,
    tail: PathList,
    errs: Seq<SpecErr>,
) -> (Option<SpecVal>, Seq<SpecErr>)
    decreases args_size(args) + path_size(tail), sval_size(data), arg_count(args) + 2,
{
    match kind {
        MethodKind::Echo => spec_echo_method(name, args, data, vars, path, tail, errs),
        MethodKind::TypeOf => spec_typeof_method(name, args, data, vars, path, tail, errs),
        MethodKind::MapOf => spec_map_method(name, args, data, vars, path, tail, errs),
        MethodKind::Eq => spec_eq_method(name, args, data, vars, path, tail, errs),
        MethodKind::Match => spec_match_method(name, args, data, vars, path, tail, errs),
        MethodKind::MatchIf => spec_match_if_method(name, args, data, vars, path, tail, errs),
        MethodKind::Add => spec_infix_method(ArithOp::Add, name, args, data, vars, path, tail, errs),
        MethodKind::Sub => spec_infix_method(ArithOp::Sub, name, args, data, vars, path, tail, errs),
        MethodKind::Mul => spec_infix_method(ArithOp::Mul, name, args, data, vars, path, tail, errs),
        MethodKind::Div => spec_infix_method(ArithOp::Div, name, args, data, vars, path, tail, errs),
        MethodKind::Mod => spec_infix_method(ArithOp::Mod, name, args, data, vars, path, tail, errs),
        MethodKind::First => spec_first_method(name, args, data, vars, path, tail, errs),
        MethodKind::Last => spec_last_method(name, args, data, vars, path, tail, errs),
        MethodKind::Slice => spec_slice_method(name, args, data, vars, path, tail, errs),
        MethodKind::Not => spec_not_method(name, args, data, vars, path, tail, errs),
        MethodKind::Or => spec_or_method(name, args, data, vars, path, tail, errs),
        MethodKind::And => spec_and_method(name, args, data, vars, path, tail, errs),
    }
}

/// Applies a known method: the executable dispatch.
pub fn apply_method(
    kind: MethodKind,
    name: &Vec<char>,
    args: &Option<MethodArgs>,
    data: &JsonValue,
    vars: &VarsWithPathsMap,
    input_path: &InputPath,
    tail: &PathList,
    errors: &mut ErrorAcc,
) -> (r: Option<JsonValue>)
    ensures
        ({
            let sr = spec_apply_method(
                kind,
                name@,
                *args,
                data@,
                vars@,
                input_path@,
                *tail,
                old(errors)@,
            );
            opt_val_view(r) == sr.0 && final(errors)@ == sr.1
        }),
    decreases args_size(*args) + path_size(*tail), sval_size(data@), arg_count(*args) + 2,
{
    match kind {
        MethodKind::Echo => echo_method(name, args, data, vars, input_path, tail, errors),
        MethodKind::TypeOf => typeof_method(name, args, data, vars, input_path, tail, errors),
        MethodKind::MapOf => map_method(name, args, data, vars, input_path, tail, errors),
        MethodKind::Eq => eq_method(name, args, data, vars, input_path, tail, errors),
        MethodKind::Match => match_method(name, args, data, vars, input_path, tail, errors),
        MethodKind::MatchIf => match_if_method(name, args, data, vars, input_path, tail, errors),
        MethodKind::Add => add_method(name, args, data, vars, input_path, tail, errors),
        MethodKind::Sub => sub_method(name, args, data, vars, input_path, tail, errors),
        MethodKind::Mul => mul_method(name, args, data, vars, input_path, tail, errors),
        MethodKind::Div => div_method(name, args, data, vars, input_path, tail, errors),
        MethodKind::Mod => mod_method(name, args, data, vars, input_path, tail, errors),
        MethodKind::First => first_method(name, args, data, vars, input_path, tail, errors),
        MethodKind::Last => last_method(name, args, data, vars, input_path, tail, errors),
        MethodKind::Slice => slice_method(name, args, data, vars, input_path, tail, errors),
        MethodKind::Not => not_method(name, args, data, vars, input_path, tail, errors),
        MethodKind::Or => or_method(name, args, data, vars, input_path, tail, errors),
        MethodKind::And => and_method(name, args, data, vars, input_path, tail, errors),
    }
}

/// `echo`: evaluates its first argument against the data, ignores the
/// data itself, and applies the tail to the argument's value. Without
/// an argument it reports "requires one argument".
pub open spec fn spec_echo_method(
    name: Seq<char>,
    args: Option<MethodArgs>,
    data: SpecVal,
    vars: Seq<SpecVarEntry>,
    path: Seq<SpecSeg>,
    tail: PathList,
    errs: Seq<SpecErr>,
) -> (Option<SpecVal>, Seq<SpecErr>)
    decreases args_size(args) + path_size(tail), sval_size(data), arg_count(args) + 1,
{
    match args {
        Option::Some(m) => {
            if m.0@.len() > 0 {
                proof {
                    lemma_lit_seq_size_elem(m.0@, 0);
                }
                let r = spec_eval_lit(m.0@[0], data, vars, path, errs);
                match r.0 {
                    Option::Some(v) => spec_apply_path(tail, v, vars, path, r.1),
                    Option::None => (Option::None, r.1),
                }
            } else {
                (
                    Option::None,
                    spec_insert_err(
                        errs,
                        SpecErr { message: msg_method(name, " requires one argument"@), path },
                    ),
                )
            }
        },
        Option::None => (
            Option::None,
            spec_insert_err(
                errs,
                SpecErr { message: msg_method(name, " requires one argument"@), path },
            ),
        ),
    }
}

/// `echo`: see `spec_echo_method`.
pub fn echo_method(
    method_name: &Vec<char>,
    method_args: &Option<MethodArgs>,
    data: &JsonValue,
    vars: &VarsWithPathsMap,
    input_path: &InputPath,
    tail: &PathList,
    errors: &mut ErrorAcc,
) -> (r: Option<JsonValue>)
    ensures
        ({
            let sr = spec_echo_method(
                method_name@,
                *method_args,
                data@,
                vars@,
                input_path@,
                *tail,
                old(errors)@,
            );
            opt_val_view(r) == sr.0 && final(errors)@ == sr.1
        }),
    decreases args_size(*method_args) + path_size(*tail), sval_size(data@), arg_count(
        *method_args,
    ) + 1,
{
    if let Option::Some(m) = method_args {
        if m.0.len() > 0 {
            proof {
                lemma_lit_seq_size_elem(m.0@, 0);
            }
            let ro = m.0[0].apply_to_path(data, vars, input_path, errors);
            return match ro {
                Option::Some(v) => tail.apply_to_path(&v, vars, input_path, errors),
                Option::None => Option::None,
            };
        }
    }
    insert_method_err(method_name, " requires one argument", input_path, errors);
    Option::None
}

/// `typeof`: the name of the data's runtime kind, handed to the tail.
/// Any arguments are an error.
pub open spec fn spec_typeof_method(
    name: Seq<char>,
    args: Option<MethodArgs>,
    data: SpecVal,
    vars: Seq<SpecVarEntry>,
    path: Seq<SpecSeg>,
    tail: PathList,
    errs: Seq<SpecErr>,
) -> (Option<SpecVal>, Seq<SpecErr>)
    decreases args_size(args) + path_size(tail), sval_size(data), arg_count(args) + 1,
{
    match args {
        Option::Some(_) => (
            Option::None,
            spec_insert_err(
                errs,
                SpecErr { message: msg_method(name, " does not take any arguments"@), path },
            ),
        ),
        Option::None => spec_apply_path(
            tail,
            SpecVal::Str(spec_type_name(data)),
            vars,
            path,
            errs,
        ),
    }
}

/// `typeof`: see `spec_typeof_method`.
pub fn typeof_method(
    method_name: &Vec<char>,
    method_args: &Option<MethodArgs>,
    data: &JsonValue,
    vars: &VarsWithPathsMap,
    input_path: &InputPath,
    tail: &PathList,
    errors: &mut ErrorAcc,
) -> (r: Option<JsonValue>)
    ensures
        ({
            let sr = spec_typeof_method(
                method_name@,
                *method_args,
                data@,
                vars@,
                input_path@,
                *tail,
                old(errors)@,
            );
            opt_val_view(r) == sr.0 && final(errors)@ == sr.1
        }),
    decreases args_size(*method_args) + path_size(*tail), sval_size(data@), arg_count(
        *method_args,
    ) + 1,
{
    match method_args {
        Option::Some(_) => {
            insert_method_err(method_name, " does not take any arguments", input_path, errors);
            Option::None
        },
        Option::None => {
            let tv = JsonValue::String(json_type_name(data));
            tail.apply_to_path(&tv, vars, input_path, errors)
        },
    }
}

/// `map` over the elements of an array, from position `i`: each element
/// has the argument evaluated against it and the tail applied to that
/// result, with the element's index on the path; any failure puts null
/// in that position, so the output keeps the array's length.
pub open spec fn spec_map_elems(
    arg: LitExpr,
    tail: PathList,
    elems: Seq<SpecVal>,
    i: int,
    acc: Seq<SpecVal>,
    vars: Seq<SpecVarEntry>,
    path: Seq<SpecSeg>,
    errs: Seq<SpecErr>,
) -> (Seq<SpecVal>, Seq<SpecErr>)
    decreases 1 + lit_size(arg) + path_size(tail), svals_size(elems), elems.len() - i,
{
    if !(0 <= i < elems.len()) {
        (acc, errs)
    } else {
        proof {
            lemma_svals_size_elem(elems, i);
        }
        let ipath = path.push(SpecSeg::Index(i));
        let r = spec_eval_lit(arg, elems[i], vars, ipath, errs);
        match r.0 {
            Option::Some(applied) => {
                let r2 = spec_apply_path(tail, applied, vars, ipath, r.1);
                match r2.0 {
                    Option::Some(v) => spec_map_elems(
                        arg,
                        tail,
                        elems,
                        i + 1,
                        acc.push(v),
                        vars,
                        path,
                        r2.1,
                    ),
                    Option::None => spec_map_elems(
                        arg,
                        tail,
                        elems,
                        i + 1,
                        acc.push(SpecVal::Null),
                        vars,
                        path,
                        r2.1,
                    ),
                }
            },
            Option::None => spec_map_elems(
                arg,
                tail,
                elems,
                i + 1,
                acc.push(SpecVal::Null),
                vars,
                path,
                r.1,
            ),
        }
    }
}

/// `map`: over an array, evaluates the argument against each element
/// (yielding an array of the same length, with null for failures); over
/// anything else, evaluates the argument against the data directly and
/// returns that result as-is.
pub open spec fn spec_map_method(
    name: Seq<char>,
    args: Option<MethodArgs>,
    data: SpecVal,
    vars: Seq<SpecVarEntry>,
    path: Seq<SpecSeg>,
    tail: PathList,
    errs: Seq<SpecErr>,
) -> (Option<SpecVal>, Seq<SpecErr>)
    decreases args_size(args) + path_size(tail), sval_size(data), arg_count(args) + 1,
{
    match args {
        Option::Some(m) => {
            if m.0@.len() > 0 {
                proof {
                    lemma_lit_seq_size_elem(m.0@, 0);
                }
                match data {
                    SpecVal::Arr(elems) => {
                        let r = spec_map_elems(
                            m.0@[0],
                            tail,
                            elems,
                            0,
                            Seq::empty(),
                            vars,
                            path,
                            errs,
                        );
                        (Option::Some(SpecVal::Arr(r.0)), r.1)
                    },
                    _ => spec_eval_lit(m.0@[0], data, vars, path, errs),
                }
            } else {
                (
                    Option::None,
                    spec_insert_err(
                        errs,
                        SpecErr { message: msg_method(name, " requires one argument"@), path },
                    ),
                )
            }
        },
        Option::None => (
            Option::None,
            spec_insert_err(
                errs,
                SpecErr { message: msg_method(name, " requires one argument"@), path },
            ),
        ),
    }
}

/// `map`: see `spec_map_method`.
pub fn map_method(
    method_name: &Vec<char>,
    method_args: &Option<MethodArgs>,
    data: &JsonValue,
    vars: &VarsWithPathsMap,
    input_path: &InputPath,
    tail: &PathList,
    errors: &mut ErrorAcc,
) -> (r: Option<JsonValue>)
    ensures
        ({
            let sr = spec_map_method(
                method_name@,
                *method_args,
                data@,
                vars@,
                input_path@,
                *tail,
                old(errors)@,
            );
            opt_val_view(r) == sr.0 && final(errors)@ == sr.1
        }),
    decreases args_size(*method_args) + path_size(*tail), sval_size(data@), arg_count(
        *method_args,
    ) + 1,
{
    if let Option::Some(m) = method_args {
        if m.0.len() > 0 {
            proof {
                lemma_lit_seq_size_elem(m.0@, 0);
            }
            match data {
                JsonValue::Array(elems) => {
                    let ghost errs0 = errors@;
                    let ghost gelems = vals_view(elems@);
                    let mut out: Vec<JsonValue> = Vec::new();
                    proof {
                        assert(vals_view(out@) =~= Seq::<SpecVal>::empty());
                    }
                    let mut i: usize = 0;
                    while i < elems.len()
                        invariant
                            errs0 == old(errors)@,
                            0 <= i <= elems@.len(),
                            data == JsonValue::Array(*elems),
                            gelems == vals_view(elems@),
                            method_args == Option::Some(*m),
                            m.0@.len() > 0,
                            out@.len() == i,
                            spec_map_elems(
                                m.0@[0],
                                *tail,
                                gelems,
                                0,
                                Seq::empty(),
                                vars@,
                                input_path@,
                                errs0,
                            ) == spec_map_elems(
                                m.0@[0],
                                *tail,
                                gelems,
                                i as int,
                                vals_view(out@),
                                vars@,
                                input_path@,
                                errors@,
                            ),
                        decreases elems@.len() - i,
                    {
                        proof {
                            lemma_svals_size_elem(gelems, i as int);
                            assert(gelems[i as int] == elems@[i as int]@);
                            lemma_lit_seq_size_elem(m.0@, 0);
                        }
                        let ghost acc_before = vals_view(out@);
                        let ipath: InputPath = input_path.append(PathSeg::Index(i));
                        let ro = m.0[0].apply_to_path(&elems[i], vars, &ipath, errors);
                        match ro {
                            Option::Some(applied) => {
                                let r2 = tail.apply_to_path(&applied, vars, &ipath, errors);
                                match r2 {
                                    Option::Some(v) => {
                                        let ghost gv = v@;
                                        out.push(v);
                                        proof {
                                            assert(vals_view(out@) =~= acc_before.push(gv));
                                        }
                                    },
                                    Option::None => {
                                        out.push(JsonValue::Null);
                                        proof {
                                            assert(vals_view(out@) =~= acc_before.push(
                                                SpecVal::Null,
                                            ));
                                        }
                                    },
                                }
                            },
                            Option::None => {
                                out.push(JsonValue::Null);
                                proof {
                                    assert(vals_view(out@) =~= acc_before.push(SpecVal::Null));
                                }
                            },
                        }
                        i = i + 1;
                    }
                    return Option::Some(JsonValue::Array(out));
                },
                _ => {
                    return m.0[0].apply_to_path(data, vars, input_path, errors);
                },
            }
        }
    }
    insert_method_err(method_name, " requires one argument", input_path, errors);
    Option::None
}

/// `eq`: whether the argument's value deep-equals the data; a failed
/// argument evaluation counts as not equal, not as an error. The
/// boolean goes to the tail. Any other arity is an error.
pub open spec fn spec_eq_method(
    name: Seq<char>,
    args: Option<MethodArgs>,
    data: SpecVal,
    vars: Seq<SpecVarEntry>,
    path: Seq<SpecSeg>,
    tail: PathList,
    errs: Seq<SpecErr>,
) -> (Option<SpecVal>, Seq<SpecErr>)
    decreases args_size(args) + path_size(tail), sval_size(data), arg_count(args) + 1,
{
    match args {
        Option::Some(m) => {
            if m.0@.len() == 1 {
                proof {
                    lemma_lit_seq_size_elem(m.0@, 0);
                }
                let r = spec_eval_lit(m.0@[0], data, vars, path, errs);
                let same = match r.0 {
                    Option::Some(v) => spec_json_eq(data, v),
                    Option::None => false,
                };
                spec_apply_path(tail, SpecVal::Bool(same), vars, path, r.1)
            } else {
                (
                    Option::None,
                    spec_insert_err(
                        errs,
                        SpecErr {
                            message: msg_method(name, " requires exactly one argument"@),
                            path,
                        },
                    ),
                )
            }
        },
        Option::None => (
            Option::None,
            spec_insert_err(
                errs,
                SpecErr { message: msg_method(name, " requires exactly one argument"@), path },
            ),
        ),
    }
}

/// `eq`: see `spec_eq_method`.
pub fn eq_method(
    method_name: &Vec<char>,
    method_args: &Option<MethodArgs>,
    data: &JsonValue,
    vars: &VarsWithPathsMap,
    input_path: &InputPath,
    tail: &PathList,
    errors: &mut ErrorAcc,
) -> (r: Option<JsonValue>)
    ensures
        ({
            let sr = spec_eq_method(
                method_name@,
                *method_args,
                data@,
                vars@,
                input_path@,
                *tail,
                old(errors)@,
            );
            opt_val_view(r) == sr.0 && final(errors)@ == sr.1
        }),
    decreases args_size(*method_args) + path_size(*tail), sval_size(data@), arg_count(
        *method_args,
    ) + 1,
{
    if let Option::Some(m) = method_args {
        if m.0.len() == 1 {
            proof {
                lemma_lit_seq_size_elem(m.0@, 0);
            }
            let ro = m.0[0].apply_to_path(data, vars, input_path, errors);
            let same: bool = match ro {
                Option::Some(v) => json_eq(data, &v),
                Option::None => false,
            };
            let bv = JsonValue::Bool(same);
            return tail.apply_to_path(&bv, vars, input_path, errors);
        }
    }
    insert_method_err(method_name, " requires exactly one argument", input_path, errors);
    Option::None
}

/// `match` over its `[candidate, value]` pairs, from position `i`: a
/// one-element pair is an unconditional default; a two-element pair
/// fires when its evaluated candidate deep-equals the data; anything
/// else is skipped. Errors from abandoned candidate evaluations are
/// kept. When no pair fires, "did not match" is reported.
pub open spec fn spec_match_pairs(
    name: Seq<char>,
    args: Seq<LitExpr>,
    i: int,
    data: SpecVal,
    vars: Seq<SpecVarEntry>,
    path: Seq<SpecSeg>,
    tail: PathList,
    errs: Seq<SpecErr>,
) -> (Option<SpecVal>, Seq<SpecErr>)
    decreases 1 + lit_seq_size(args) + path_size(tail), sval_size(data), args.len() - i,
{
    if !(0 <= i < args.len()) {
        (
            Option::None,
            spec_insert_err(
                errs,
                SpecErr {
                    message: msg_method(name, " did not match any [candidate, value] pair"@),
                    path,
                },
            ),
        )
    } else {
        match args[i] {
            LitExpr::Array(pair) => {
                if pair@.len() == 1 {
                    proof {
                        lemma_lit_seq_size_elem(args, i);
                        lemma_lit_seq_size_elem(pair@, 0);
                    }
                    let r = spec_eval_lit(pair@[0], data, vars, path, errs);
                    match r.0 {
                        Option::Some(v) => spec_apply_path(tail, v, vars, path, r.1),
                        Option::None => (Option::None, r.1),
                    }
                } else if pair@.len() == 2 {
                    proof {
                        lemma_lit_seq_size_elem(args, i);
                        lemma_lit_seq_size_elem(pair@, 0);
                        lemma_lit_seq_size_elem(pair@, 1);
                    }
                    let c = spec_eval_lit(pair@[0], data, vars, path, errs);
                    match c.0 {
                        Option::Some(cv) => {
                            if spec_json_eq(cv, data) {
                                let r2 = spec_eval_lit(pair@[1], data, vars, path, c.1);
                                match r2.0 {
                                    Option::Some(v) => spec_apply_path(tail, v, vars, path, r2.1),
                                    Option::None => (Option::None, r2.1),
                                }
                            } else {
                                spec_match_pairs(name, args, i + 1, data, vars, path, tail, c.1)
                            }
                        },
                        Option::None => spec_match_pairs(
                            name,
                            args,
                            i + 1,
                            data,
                            vars,
                            path,
                            tail,
                            c.1,
                        ),
                    }
                } else {
                    spec_match_pairs(name, args, i + 1, data, vars, path, tail, errs)
                }
            },
            _ => spec_match_pairs(name, args, i + 1, data, vars, path, tail, errs),
        }
    }
}

/// `match`: tries its pairs in order; with no arguments at all it
/// reports "did not match" at once.
pub open spec fn spec_match_method(
    name: Seq<char>,
    args: Option<MethodArgs>,
    data: SpecVal,
    vars: Seq<SpecVarEntry>,
    path: Seq<SpecSeg>,
    tail: PathList,
    errs: Seq<SpecErr>,
) -> (Option<SpecVal>, Seq<SpecErr>)
    decreases args_size(args) + path_size(tail), sval_size(data), arg_count(args) + 1,
{
    match args {
        Option::Some(m) => spec_match_pairs(name, m.0@, 0, data, vars, path, tail, errs),
        Option::None => (
            Option::None,
            spec_insert_err(
                errs,
                SpecErr {
                    message: msg_method(name, " did not match any [candidate, value] pair"@),
                    path,
                },
            ),
        ),
    }
}

/// `match`: see `spec_match_method`.
pub fn match_method(
    method_name: &Vec<char>,
    method_args: &Option<MethodArgs>,
    data: &JsonValue,
    vars: &VarsWithPathsMap,
    input_path: &InputPath,
    tail: &PathList,
    errors: &mut ErrorAcc,
) -> (r: Option<JsonValue>)
    ensures
        ({
            let sr = spec_match_method(
                method_name@,
                *method_args,
                data@,
                vars@,
                input_path@,
                *tail,
                old(errors)@,
            );
            opt_val_view(r) == sr.0 && final(errors)@ == sr.1
        }),
    decreases args_size(*method_args) + path_size(*tail), sval_size(data@), arg_count(
        *method_args,
    ) + 1,
{
    if let Option::Some(m) = method_args {
        let ghost errs0 = errors@;
        let mut i: usize = 0;
        while i < m.0.len()
            invariant
                errs0 == old(errors)@,
                0 <= i <= m.0@.len(),
                method_args == Option::Some(*m),
                spec_match_pairs(
                    method_name@,
                    m.0@,
                    0,
                    data@,
                    vars@,
                    input_path@,
                    *tail,
                    errs0,
                ) == spec_match_pairs(
                    method_name@,
                    m.0@,
                    i as int,
                    data@,
                    vars@,
                    input_path@,
                    *tail,
                    errors@,
                ),
            decreases m.0@.len() - i,
        {
            proof {
                lemma_lit_seq_size_elem(m.0@, i as int);
            }
            match &m.0[i] {
                LitExpr::Array(pair) => {
                    if pair.len() == 1 {
                        proof {
                            lemma_lit_seq_size_elem(pair@, 0);
                        }
                        let ro = pair[0].apply_to_path(data, vars, input_path, errors);
                        return match ro {
                            Option::Some(v) => tail.apply_to_path(&v, vars, input_path, errors),
                            Option::None => Option::None,
                        };
                    } else if pair.len() == 2 {
                        proof {
                            lemma_lit_seq_size_elem(pair@, 0);
                            lemma_lit_seq_size_elem(pair@, 1);
                        }
                        let co = pair[0].apply_to_path(data, vars, input_path, errors);
                        match co {
                            Option::Some(cv) => {
                                if json_eq(&cv, data) {
                                    let ro = pair[1].apply_to_path(data, vars, input_path, errors);
                                    return match ro {
                                        Option::Some(v) => tail.apply_to_path(
                                            &v,
                                            vars,
                                            input_path,
                                            errors,
                                        ),
                                        Option::None => Option::None,
                                    };
                                }
                            },
                            Option::None => {},
                        }
                    }
                },
                _ => {},
            }
            i = i + 1;
        }
        insert_method_err(
            method_name,
            " did not match any [candidate, value] pair",
            input_path,
            errors,
        );
        Option::None
    } else {
        insert_method_err(
            method_name,
            " did not match any [candidate, value] pair",
            input_path,
            errors,
        );
        Option::None
    }
}

/// `matchIf` over its `[condition, value]` pairs, from position `i`: a
/// two-element pair fires when its first element evaluates to exactly
/// the boolean true. Errors from abandoned condition evaluations are
/// kept. When no pair fires, "did not match" is reported.
pub open spec fn spec_match_if_pairs(
    name: Seq<char>,
    args: Seq<LitExpr>,
    i: int,
    data: SpecVal,
    vars: Seq<SpecVarEntry>,
    path: Seq<SpecSeg>,
    tail: PathList,
    errs: Seq<SpecErr>,
) -> (Option<SpecVal>, Seq<SpecErr>)
    decreases 1 + lit_seq_size(args) + path_size(tail), sval_size(data), args.len() - i,
{
    if !(0 <= i < args.len()) {
        (
            Option::None,
            spec_insert_err(
                errs,
                SpecErr {
                    message: msg_method(name, " did not match any [condition, value] pair"@),
                    path,
                },
            ),
        )
    } else {
        match args[i] {
            LitExpr::Array(pair) => {
                if pair@.len() == 2 {
                    proof {
                        lemma_lit_seq_size_elem(args, i);
                        lemma_lit_seq_size_elem(pair@, 0);
                        lemma_lit_seq_size_elem(pair@, 1);
                    }
                    let c = spec_eval_lit(pair@[0], data, vars, path, errs);
                    match c.0 {
                        Option::Some(cv) => {
                            if cv == SpecVal::Bool(true) {
                                let r2 = spec_eval_lit(pair@[1], data, vars, path, c.1);
                                match r2.0 {
                                    Option::Some(v) => spec_apply_path(tail, v, vars, path, r2.1),
                                    Option::None => (Option::None, r2.1),
                                }
                            } else {
                                spec_match_if_pairs(name, args, i + 1, data, vars, path, tail, c.1)
                            }
                        },
                        Option::None => spec_match_if_pairs(
                            name,
                            args,
                            i + 1,
                            data,
                            vars,
                            path,
                            tail,
                            c.1,
                        ),
                    }
                } else {
                    spec_match_if_pairs(name, args, i + 1, data, vars, path, tail, errs)
                }
            },
            _ => spec_match_if_pairs(name, args, i + 1, data, vars, path, tail, errs),
        }
    }
}

/// `matchIf` (alias `match_if`): tries its pairs in order; with no
/// arguments at all it reports "did not match" at once.
pub open spec fn spec_match_if_method(
    name: Seq<char>,
    args: Option<MethodArgs>,
    data: SpecVal,
    vars: Seq<SpecVarEntry>,
    path: Seq<SpecSeg>,
    tail: PathList,
    errs: Seq<SpecErr>,
) -> (Option<SpecVal>, Seq<SpecErr>)
    decreases args_size(args) + path_size(tail), sval_size(data), arg_count(args) + 1,
{
    match args {
        Option::Some(m) => spec_match_if_pairs(name, m.0@, 0, data, vars, path, tail, errs),
        Option::None => (
            Option::None,
            spec_insert_err(
                errs,
                SpecErr {
                    message: msg_method(name, " did not match any [condition, value] pair"@),
                    path,
                },
            ),
        ),
    }
}

/// `matchIf`: see `spec_match_if_method`.
pub fn match_if_method(
    method_name: &Vec<char>,
    method_args: &Option<MethodArgs>,
    data: &JsonValue,
    vars: &VarsWithPathsMap,
    input_path: &InputPath,
    tail: &PathList,
    errors: &mut ErrorAcc,
) -> (r: Option<JsonValue>)
    ensures
        ({
            let sr = spec_match_if_method(
                method_name@,
                *method_args,
                data@,
                vars@,
                input_path@,
                *tail,
                old(errors)@,
            );
            opt_val_view(r) == sr.0 && final(errors)@ == sr.1
        }),
    decreases args_size(*method_args) + path_size(*tail), sval_size(data@), arg_count(
        *method_args,
    ) + 1,
{
    if let Option::Some(m) = method_args {
        let ghost errs0 = errors@;
        let mut i: usize = 0;
        while i < m.0.len()
            invariant
                errs0 == old(errors)@,
                0 <= i <= m.0@.len(),
                method_args == Option::Some(*m),
                spec_match_if_pairs(
                    method_name@,
                    m.0@,
                    0,
                    data@,
                    vars@,
                    input_path@,
                    *tail,
                    errs0,
                ) == spec_match_if_pairs(
                    method_name@,
                    m.0@,
                    i as int,
                    data@,
                    vars@,
                    input_path@,
                    *tail,
                    errors@,
                ),
            decreases m.0@.len() - i,
        {
            proof {
                lemma_lit_seq_size_elem(m.0@, i as int);
            }
            match &m.0[i] {
                LitExpr::Array(pair) => {
                    if pair.len() == 2 {
                        proof {
                            lemma_lit_seq_size_elem(pair@, 0);
                            lemma_lit_seq_size_elem(pair@, 1);
                        }
                        let co = pair[0].apply_to_path(data, vars, input_path, errors);
                        let fire: bool = match &co {
                            Option::Some(cv) => matches!(cv, JsonValue::Bool(true)),
                            Option::None => false,
                        };
                        if fire {
                            let ro = pair[1].apply_to_path(data, vars, input_path, errors);
                            return match ro {
                                Option::Some(v) => tail.apply_to_path(&v, vars, input_path, errors),
                                Option::None => Option::None,
                            };
                        }
                    }
                },
                _ => {},
            }
            i = i + 1;
        }
        insert_method_err(
            method_name,
            " did not match any [condition, value] pair",
            input_path,
            errors,
        );
        Option::None
    } else {
        insert_method_err(
            method_name,
            " did not match any [condition, value] pair",
            input_path,
            errors,
        );
        Option::None
    }
}

/// The left fold of an arithmetic method over its arguments, from
/// position `i`: each argument is evaluated against the data and must
/// be a number; a step that cannot be represented reports "failed on
/// argument" with the argument's rendering; a non-numeric argument (or
/// one that fails to evaluate) reports "requires numeric arguments".
pub open spec fn spec_arith_fold(
    op: ArithOp,
    name: Seq<char>,
    args: Seq<LitExpr>,
    i: int,
    acc: SpecVal,
    data: SpecVal,
    vars: Seq<SpecVarEntry>,
    path: Seq<SpecSeg>,
    errs: Seq<SpecErr>,
) -> (Option<SpecVal>, Seq<SpecErr>)
    decreases lit_seq_size(args), sval_size(data), args.len() - i,
{
    if !(0 <= i < args.len()) {
        (Option::Some(acc), errs)
    } else {
        proof {
            lemma_lit_seq_size_elem(args, i);
        }
        let r = spec_eval_lit(args[i], data, vars, path, errs);
        match r.0 {
            Option::Some(v) => {
                if v is Int || v is Float {
                    match spec_arith_op(op, acc, v) {
                        Option::Some(acc2) => spec_arith_fold(
                            op,
                            name,
                            args,
                            i + 1,
                            acc2,
                            data,
                            vars,
                            path,
                            r.1,
                        ),
                        Option::None => (
                            Option::None,
                            spec_insert_err(
                                r.1,
                                SpecErr {
                                    message: msg_method(
                                        name,
                                        " failed on argument "@ + spec_num_display(v),
                                    ),
                                    path,
                                },
                            ),
                        ),
                    }
                } else {
                    (
                        Option::None,
                        spec_insert_err(
                            r.1,
                            SpecErr {
                                message: msg_method(name, " requires numeric arguments"@),
                                path,
                            },
                        ),
                    )
                }
            },
            Option::None => (
                Option::None,
                spec_insert_err(
                    r.1,
                    SpecErr { message: msg_method(name, " requires numeric arguments"@), path },
                ),
            ),
        }
    }
}

/// An arithmetic method without its tail: the left fold over the
/// arguments starting from the data's number. Non-numeric data is an
/// error; so is a missing argument list (`->add` with no parentheses).
pub open spec fn spec_arithmetic_method(
    op: ArithOp,
    name: Seq<char>,
    args: Option<MethodArgs>,
    data: SpecVal,
    vars: Seq<SpecVarEntry>,
    path: Seq<SpecSeg>,
    errs: Seq<SpecErr>,
) -> (Option<SpecVal>, Seq<SpecErr>)
    decreases args_size(args), sval_size(data), arg_count(args) + 1,
{
    match args {
        Option::Some(m) => {
            if data is Int || data is Float {
                spec_arith_fold(op, name, m.0@, 0, data, data, vars, path, errs)
            } else {
                (
                    Option::None,
                    spec_insert_err(
                        errs,
                        SpecErr {
                            message: msg_method(name, " requires numeric arguments"@),
                            path,
                        },
                    ),
                )
            }
        },
        Option::None => (
            Option::None,
            spec_insert_err(
                errs,
                SpecErr { message: msg_method(name, " requires at least one argument"@), path },
            ),
        ),
    }
}

/// An arithmetic method: the fold's number, handed to the tail.
pub open spec fn spec_infix_method(
    op: ArithOp,
    name: Seq<char>,
    args: Option<MethodArgs>,
    data: SpecVal,
    vars: Seq<SpecVarEntry>,
    path: Seq<SpecSeg>,
    tail: PathList,
    errs: Seq<SpecErr>,
) -> (Option<SpecVal>, Seq<SpecErr>)
    decreases args_size(args) + path_size(tail), sval_size(data), arg_count(args) + 1,
{
    let r = spec_arithmetic_method(op, name, args, data, vars, path, errs);
    match r.0 {
        Option::Some(v) => spec_apply_path(tail, v, vars, path, r.1),
        Option::None => (Option::None, r.1),
    }
}

/// The shared body of the five arithmetic methods, without the tail.
pub fn arithmetic_method(
    op: ArithOp,
    method_name: &Vec<char>,
    method_args: &Option<MethodArgs>,
    data: &JsonValue,
    vars: &VarsWithPathsMap,
    input_path: &InputPath,
    errors: &mut ErrorAcc,
) -> (r: Option<JsonValue>)
    ensures
        ({
            let sr = spec_arithmetic_method(
                op,
                method_name@,
                *method_args,
                data@,
                vars@,
                input_path@,
                old(errors)@,
            );
            opt_val_view(r) == sr.0 && final(errors)@ == sr.1
        }),
    decreases args_size(*method_args), sval_size(data@), arg_count(*method_args) + 1,
{
    if let Option::Some(m) = method_args {
        match data {
            JsonValue::Number(start) => {
                let ghost errs0 = errors@;
                let mut acc: JsonNum = crate::eval::clone_num(start);
                let mut i: usize = 0;
                while i < m.0.len()
                    invariant
                        errs0 == old(errors)@,
                        0 <= i <= m.0@.len(),
                        data == JsonValue::Number(*start),
                        method_args == Option::Some(*m),
                        num_view(acc) is Int || num_view(acc) is Float,
                        spec_arith_fold(
                            op,
                            method_name@,
                            m.0@,
                            0,
                            data@,
                            data@,
                            vars@,
                            input_path@,
                            errs0,
                        ) == spec_arith_fold(
                            op,
                            method_name@,
                            m.0@,
                            i as int,
                            num_view(acc),
                            data@,
                            vars@,
                            input_path@,
                            errors@,
                        ),
                    decreases m.0@.len() - i,
                {
                    proof {
                        lemma_lit_seq_size_elem(m.0@, i as int);
                    }
                    let ro = m.0[i].apply_to_path(data, vars, input_path, errors);
                    match ro {
                        Option::Some(v) => match v {
                            JsonValue::Number(n) => {
                                let stepped = num_arith_step(op, &acc, &n);
                                match stepped {
                                    Option::Some(acc2) => {
                                        acc = acc2;
                                    },
                                    Option::None => {
                                        let shown: Vec<char> = num_display(&n);
                                        let msg: Vec<char> = chars_concat(
                                            &wrap_chars(
                                                "Method ->",
                                                method_name,
                                                " failed on argument ",
                                            ),
                                            &shown,
                                        );
                                        proof {
                                            assert(msg@ =~= msg_method(
                                                method_name@,
                                                " failed on argument "@ + shown@,
                                            ));
                                        }
                                        errors.insert(ApplyToError::new(msg, input_path));
                                        return Option::None;
                                    },
                                }
                            },
                            _ => {
                                insert_method_err(
                                    method_name,
                                    " requires numeric arguments",
                                    input_path,
                                    errors,
                                );
                                return Option::None;
                            },
                        },
                        Option::None => {
                            insert_method_err(
                                method_name,
                                " requires numeric arguments",
                                input_path,
                                errors,
                            );
                            return Option::None;
                        },
                    }
                    i = i + 1;
                }
                Option::Some(JsonValue::Number(acc))
            },
            _ => {
                insert_method_err(method_name, " requires numeric arguments", input_path, errors);
                Option::None
            },
        }
    } else {
        insert_method_err(method_name, " requires at least one argument", input_path, errors);
        Option::None
    }
}

/// `add`: the left fold with addition, handed to the tail.
pub fn add_method(
    method_name: &Vec<char>,
    method_args: &Option<MethodArgs>,
    data: &JsonValue,
    vars: &VarsWithPathsMap,
    input_path: &InputPath,
    tail: &PathList,
    errors: &mut ErrorAcc,
) -> (r: Option<JsonValue>)
    ensures
        ({
            let sr = spec_infix_method(
                ArithOp::Add,
                method_name@,
                *method_args,
                data@,
                vars@,
                input_path@,
                *tail,
                old(errors)@,
            );
            opt_val_view(r) == sr.0 && final(errors)@ == sr.1
        }),
    decreases args_size(*method_args) + path_size(*tail), sval_size(data@), arg_count(
        *method_args,
    ) + 1,
{
    let ro = arithmetic_method(ArithOp::Add, method_name, method_args, data, vars, input_path, errors);
    match ro {
        Option::Some(v) => tail.apply_to_path(&v, vars, input_path, errors),
        Option::None => Option::None,
    }
}

/// `sub`: the left fold with subtraction, handed to the tail.
pub fn sub_method(
    method_name: &Vec<char>,
    method_args: &Option<MethodArgs>,
    data: &JsonValue,
    vars: &VarsWithPathsMap,
    input_path: &InputPath,
    tail: &PathList,
    errors: &mut ErrorAcc,
) -> (r: Option<JsonValue>)
    ensures
        ({
            let sr = spec_infix_method(
                ArithOp::Sub,
                method_name@,
                *method_args,
                data@,
                vars@,
                input_path@,
                *tail,
                old(errors)@,
            );
            opt_val_view(r) == sr.0 && final(errors)@ == sr.1
        }),
    decreases args_size(*method_args) + path_size(*tail), sval_size(data@), arg_count(
        *method_args,
    ) + 1,
{
    let ro = arithmetic_method(ArithOp::Sub, method_name, method_args, data, vars, input_path, errors);
    match ro {
        Option::Some(v) => tail.apply_to_path(&v, vars, input_path, errors),
        Option::None => Option::None,
    }
}

/// `mul`: the left fold with multiplication, handed to the tail.
pub fn mul_method(
    method_name: &Vec<char>,
    method_args: &Option<MethodArgs>,
    data: &JsonValue,
    vars: &VarsWithPathsMap,
    input_path: &InputPath,
    tail: &PathList,
    errors: &mut ErrorAcc,
) -> (r: Option<JsonValue>)
    ensures
        ({
            let sr = spec_infix_method(
                ArithOp::Mul,
                method_name@,
                *method_args,
                data@,
                vars@,
                input_path@,
                *tail,
                old(errors)@,
            );
            opt_val_view(r) == sr.0 && final(errors)@ == sr.1
        }),
    decreases args_size(*method_args) + path_size(*tail), sval_size(data@), arg_count(
        *method_args,
    ) + 1,
{
    let ro = arithmetic_method(ArithOp::Mul, method_name, method_args, data, vars, input_path, errors);
    match ro {
        Option::Some(v) => tail.apply_to_path(&v, vars, input_path, errors),
        Option::None => Option::None,
    }
}

/// `div`: the left fold with division, handed to the tail.
pub fn div_method(
    method_name: &Vec<char>,
    method_args: &Option<MethodArgs>,
    data: &JsonValue,
    vars: &VarsWithPathsMap,
    input_path: &InputPath,
    tail: &PathList,
    errors: &mut ErrorAcc,
) -> (r: Option<JsonValue>)
    ensures
        ({
            let sr = spec_infix_method(
                ArithOp::Div,
                method_name@,
                *method_args,
                data@,
                vars@,
                input_path@,
                *tail,
                old(errors)@,
            );
            opt_val_view(r) == sr.0 && final(errors)@ == sr.1
        }),
    decreases args_size(*method_args) + path_size(*tail), sval_size(data@), arg_count(
        *method_args,
    ) + 1,
{
    let ro = arithmetic_method(ArithOp::Div, method_name, method_args, data, vars, input_path, errors);
    match ro {
        Option::Some(v) => tail.apply_to_path(&v, vars, input_path, errors),
        Option::None => Option::None,
    }
}

/// `mod`: the left fold with remainder, handed to the tail.
pub fn mod_method(
    method_name: &Vec<char>,
    method_args: &Option<MethodArgs>,
    data: &JsonValue,
    vars: &VarsWithPathsMap,
    input_path: &InputPath,
    tail: &PathList,
    errors: &mut ErrorAcc,
) -> (r: Option<JsonValue>)
    ensures
        ({
            let sr = spec_infix_method(
                ArithOp::Mod,
                method_name@,
                *method_args,
                data@,
                vars@,
                input_path@,
                *tail,
                old(errors)@,
            );
            opt_val_view(r) == sr.0 && final(errors)@ == sr.1
        }),
    decreases args_size(*method_args) + path_size(*tail), sval_size(data@), arg_count(
        *method_args,
    ) + 1,
{
    let ro = arithmetic_method(ArithOp::Mod, method_name, method_args, data, vars, input_path, errors);
    match ro {
        Option::Some(v) => tail.apply_to_path(&v, vars, input_path, errors),
        Option::None => Option::None,
    }
}

/// `first`: on an array, the first element through the tail, or no
/// value (and no error) when the array is empty; on anything else, the
/// data itself through the tail. Any arguments are an error.
pub open spec fn spec_first_method(
    name: Seq<char>,
    args: Option<MethodArgs>,
    data: SpecVal,
    vars: Seq<SpecVarEntry>,
    path: Seq<SpecSeg>,
    tail: PathList,
    errs: Seq<SpecErr>,
) -> (Option<SpecVal>, Seq<SpecErr>)
    decreases args_size(args) + path_size(tail), sval_size(data), arg_count(args) + 1,
{
    match args {
        Option::Some(_) => (
            Option::None,
            spec_insert_err(
                errs,
                SpecErr { message: msg_method(name, " does not take any arguments"@), path },
            ),
        ),
        Option::None => match data {
            SpecVal::Arr(elems) => {
                if elems.len() == 0 {
                    (Option::None, errs)
                } else {
                    spec_apply_path(tail, elems[0], vars, path, errs)
                }
            },
            _ => spec_apply_path(tail, data, vars, path, errs),
        },
    }
}

/// `first`: see `spec_first_method`.
pub fn first_method(
    method_name: &Vec<char>,
    method_args: &Option<MethodArgs>,
    data: &JsonValue,
    vars: &VarsWithPathsMap,
    input_path: &InputPath,
    tail: &PathList,
    errors: &mut ErrorAcc,
) -> (r: Option<JsonValue>)
    ensures
        ({
            let sr = spec_first_method(
                method_name@,
                *method_args,
                data@,
                vars@,
                input_path@,
                *tail,
                old(errors)@,
            );
            opt_val_view(r) == sr.0 && final(errors)@ == sr.1
        }),
    decreases args_size(*method_args) + path_size(*tail), sval_size(data@), arg_count(
        *method_args,
    ) + 1,
{
    if method_args.is_some() {
        insert_method_err(method_name, " does not take any arguments", input_path, errors);
        return Option::None;
    }
    match data {
        JsonValue::Array(elems) => {
            if elems.len() == 0 {
                Option::None
            } else {
                proof {
                    assert(vals_view(elems@)[0] == elems@[0]@);
                }
                tail.apply_to_path(&elems[0], vars, input_path, errors)
            }
        },
        _ => tail.apply_to_path(data, vars, input_path, errors),
    }
}

/// `last`: symmetric to `first`, using the last element.
pub open spec fn spec_last_method(
    name: Seq<char>,
    args: Option<MethodArgs>,
    data: SpecVal,
    vars: Seq<SpecVarEntry>,
    path: Seq<SpecSeg>,
    tail: PathList,
    errs: Seq<SpecErr>,
) -> (Option<SpecVal>, Seq<SpecErr>)
    decreases args_size(args) + path_size(tail), sval_size(data), arg_count(args) + 1,
{
    match args {
        Option::Some(_) => (
            Option::None,
            spec_insert_err(
                errs,
                SpecErr { message: msg_method(name, " does not take any arguments"@), path },
            ),
        ),
        Option::None => match data {
            SpecVal::Arr(elems) => {
                if elems.len() == 0 {
                    (Option::None, errs)
                } else {
                    spec_apply_path(tail, elems[elems.len() - 1], vars, path, errs)
                }
            },
            _ => spec_apply_path(tail, data, vars, path, errs),
        },
    }
}

/// `last`: see `spec_last_method`.
pub fn last_method(
    method_name: &Vec<char>,
    method_args: &Option<MethodArgs>,
    data: &JsonValue,
    vars: &VarsWithPathsMap,
    input_path: &InputPath,
    tail: &PathList,
    errors: &mut ErrorAcc,
) -> (r: Option<JsonValue>)
    ensures
        ({
            let sr = spec_last_method(
                method_name@,
                *method_args,
                data@,
                vars@,
                input_path@,
                *tail,
                old(errors)@,
            );
            opt_val_view(r) == sr.0 && final(errors)@ == sr.1
        }),
    decreases args_size(*method_args) + path_size(*tail), sval_size(data@), arg_count(
        *method_args,
    ) + 1,
{
    if method_args.is_some() {
        insert_method_err(method_name, " does not take any arguments", input_path, errors);
        return Option::None;
    }
    match data {
        JsonValue::Array(elems) => {
            if elems.len() == 0 {
                Option::None
            } else {
                let k: usize = elems.len() - 1;
                proof {
                    assert(vals_view(elems@)[k as int] == elems@[k as int]@);
                }
                tail.apply_to_path(&elems[k], vars, input_path, errors)
            }
        },
        _ => tail.apply_to_path(data, vars, input_path, errors),
    }
}

/// An evaluated slice bound read as an integer; every other value
/// falls back to the bound's default.
pub open spec fn spec_as_int_bound(v: Option<SpecVal>) -> Option<i64> {
    match v {
        Option::Some(SpecVal::Int(i)) => Option::Some(i),
        _ => Option::None,
    }
}

/// A slice bound clamped to `[0, len]`.
pub open spec fn spec_clamp(v: int, len: int) -> int {
    if v < 0 {
        0
    } else if v > len {
        len
    } else {
        v
    }
}

/// `slice`: on an array or string of length `n`, the evaluated `start`
/// (default 0) and `end` (default `n`) are clamped to `[0, n]` and the
/// half-open range between them is handed to the tail; an empty range
/// is the empty array or string, never an error. A bound that does not
/// evaluate to an integer falls back to its default. Without an
/// argument list the data goes to the tail unchanged. Any other input
/// kind is an error.
pub open spec fn spec_slice_method(
    name: Seq<char>,
    args: Option<MethodArgs>,
    data: SpecVal,
    vars: Seq<SpecVarEntry>,
    path: Seq<SpecSeg>,
    tail: PathList,
    errs: Seq<SpecErr>,
) -> (Option<SpecVal>, Seq<SpecErr>)
    decreases args_size(args) + path_size(tail), sval_size(data), arg_count(args) + 1,
{
    if !(data is Arr || data is Str) {
        (
            Option::None,
            spec_insert_err(
                errs,
                SpecErr {
                    message: msg_method(name, " requires an array or string input"@),
                    path,
                },
            ),
        )
    } else {
        match args {
            Option::Some(m) => {
                let len: int = match data {
                    SpecVal::Arr(elems) => elems.len() as int,
                    SpecVal::Str(s) => s.len() as int,
                    _ => 0,
                };
                let r1 = if m.0@.len() >= 1 {
                    proof {
                        lemma_lit_seq_size_elem(m.0@, 0);
                    }
                    let r = spec_eval_lit(m.0@[0], data, vars, path, errs);
                    (spec_as_int_bound(r.0), r.1)
                } else {
                    (Option::None, errs)
                };
                let r2 = if m.0@.len() >= 2 {
                    proof {
                        lemma_lit_seq_size_elem(m.0@, 1);
                    }
                    let r = spec_eval_lit(m.0@[1], data, vars, path, r1.1);
                    (spec_as_int_bound(r.0), r.1)
                } else {
                    (Option::None, r1.1)
                };
                let start: int = spec_clamp(
                    match r1.0 {
                        Option::Some(s) => s as int,
                        Option::None => 0,
                    },
                    len,
                );
                let end: int = spec_clamp(
                    match r2.0 {
                        Option::Some(e) => e as int,
                        Option::None => len,
                    },
                    len,
                );
                let hi: int = if end > start {
                    end
                } else {
                    start
                };
                let sliced: SpecVal = match data {
                    SpecVal::Arr(elems) => SpecVal::Arr(elems.subrange(start, hi)),
                    SpecVal::Str(s) => SpecVal::Str(s.subrange(start, hi)),
                    _ => SpecVal::Null,
                };
                spec_apply_path(tail, sliced, vars, path, r2.1)
            },
            Option::None => spec_apply_path(tail, data, vars, path, errs),
        }
    }
}

/// A slice bound clamped to `[0, len]`.
fn clamp_bound(v: i64, len: usize) -> (r: usize)
    ensures
        r as int == spec_clamp(v as int, len as int),
{
    if v < 0 {
        0
    } else if v as u64 > len as u64 {
        len
    } else {
        v as usize
    }
}

/// `slice`: see `spec_slice_method`.
pub fn slice_method(
    method_name: &Vec<char>,
    method_args: &Option<MethodArgs>,
    data: &JsonValue,
    vars: &VarsWithPathsMap,
    input_path: &InputPath,
    tail: &PathList,
    errors: &mut ErrorAcc,
) -> (r: Option<JsonValue>)
    ensures
        ({
            let sr = spec_slice_method(
                method_name@,
                *method_args,
                data@,
                vars@,
                input_path@,
                *tail,
                old(errors)@,
            );
            opt_val_view(r) == sr.0 && final(errors)@ == sr.1
        }),
    decreases args_size(*method_args) + path_size(*tail), sval_size(data@), arg_count(
        *method_args,
    ) + 1,
{
    let len: usize = match data {
        JsonValue::Array(elems) => elems.len(),
        JsonValue::String(s) => s.len(),
        _ => {
            insert_method_err(method_name, " requires an array or string input", input_path, errors);
            return Option::None;
        },
    };
    match method_args {
        Option::Some(m) => {
            let b1: Option<i64> = if m.0.len() >= 1 {
                proof {
                    lemma_lit_seq_size_elem(m.0@, 0);
                }
                let ro = m.0[0].apply_to_path(data, vars, input_path, errors);
                match ro {
                    Option::Some(JsonValue::Number(JsonNum::Int(s))) => Option::Some(s),
                    _ => Option::None,
                }
            } else {
                Option::None
            };
            let b2: Option<i64> = if m.0.len() >= 2 {
                proof {
                    lemma_lit_seq_size_elem(m.0@, 1);
                }
                let ro = m.0[1].apply_to_path(data, vars, input_path, errors);
                match ro {
                    Option::Some(JsonValue::Number(JsonNum::Int(e))) => Option::Some(e),
                    _ => Option::None,
                }
            } else {
                Option::None
            };
            let start: usize = match b1 {
                Option::Some(s) => clamp_bound(s, len),
                Option::None => 0,
            };
            let end: usize = match b2 {
                Option::Some(e) => clamp_bound(e, len),
                Option::None => len,
            };
            let hi: usize = if end > start {
                end
            } else {
                start
            };
            let sliced: JsonValue = match data {
                JsonValue::Array(elems) => {
                    let mut out: Vec<JsonValue> = Vec::new();
                    let mut j: usize = start;
                    while j < hi
                        invariant
                            start <= j <= hi,
                            hi <= elems@.len(),
                            out@.len() == j - start,
                            forall|k: int|
                                0 <= k < out@.len() ==> out@[k]@ == elems@[start + k]@,
                        decreases hi - j,
                    {
                        let c: JsonValue = deep_clone(&elems[j]);
                        out.push(c);
                        j = j + 1;
                    }
                    proof {
                        assert(vals_view(out@) =~= vals_view(elems@).subrange(
                            start as int,
                            hi as int,
                        ));
                    }
                    JsonValue::Array(out)
                },
                JsonValue::String(s) => {
                    let mut out: Vec<char> = Vec::new();
                    let mut j: usize = start;
                    while j < hi
                        invariant
                            start <= j <= hi,
                            hi <= s@.len(),
                            out@.len() == j - start,
                            forall|k: int| 0 <= k < out@.len() ==> out@[k] == s@[start + k],
                        decreases hi - j,
                    {
                        out.push(s[j]);
                        j = j + 1;
                    }
                    proof {
                        assert(out@ =~= s@.subrange(start as int, hi as int));
                    }
                    JsonValue::String(out)
                },
                _ => JsonValue::Null,
            };
            tail.apply_to_path(&sliced, vars, input_path, errors)
        },
        Option::None => tail.apply_to_path(data, vars, input_path, errors),
    }
}

/// `not`: the negated truthiness of the data, handed to the tail. Any
/// arguments are an error.
pub open spec fn spec_not_method(
    name: Seq<char>,
    args: Option<MethodArgs>,
    data: SpecVal,
    vars: Seq<SpecVarEntry>,
    path: Seq<SpecSeg>,
    tail: PathList,
    errs: Seq<SpecErr>,
) -> (Option<SpecVal>, Seq<SpecErr>)
    decreases args_size(args) + path_size(tail), sval_size(data), arg_count(args) + 1,
{
    match args {
        Option::Some(_) => (
            Option::None,
            spec_insert_err(
                errs,
                SpecErr { message: msg_method(name, " does not take any arguments"@), path },
            ),
        ),
        Option::None => spec_apply_path(
            tail,
            SpecVal::Bool(!spec_truthy(data)),
            vars,
            path,
            errs,
        ),
    }
}

/// `not`: see `spec_not_method`.
pub fn not_method(
    method_name: &Vec<char>,
    method_args: &Option<MethodArgs>,
    data: &JsonValue,
    vars: &VarsWithPathsMap,
    input_path: &InputPath,
    tail: &PathList,
    errors: &mut ErrorAcc,
) -> (r: Option<JsonValue>)
    ensures
        ({
            let sr = spec_not_method(
                method_name@,
                *method_args,
                data@,
                vars@,
                input_path@,
                *tail,
                old(errors)@,
            );
            opt_val_view(r) == sr.0 && final(errors)@ == sr.1
        }),
    decreases args_size(*method_args) + path_size(*tail), sval_size(data@), arg_count(
        *method_args,
    ) + 1,
{
    if method_args.is_some() {
        insert_method_err(method_name, " does not take any arguments", input_path, errors);
        Option::None
    } else {
        let bv = JsonValue::Bool(!is_truthy(data));
        tail.apply_to_path(&bv, vars, input_path, errors)
    }
}

/// The short-circuit fold of `or`, from position `i`: once the running
/// result is true no further argument is evaluated (so no error from a
/// skipped argument can appear); an argument that fails to evaluate
/// counts as false.
pub open spec fn spec_or_fold(
    args: Seq<LitExpr>,
    i: int,
    acc: bool,
    data: SpecVal,
    vars: Seq<SpecVarEntry>,
    path: Seq<SpecSeg>,
    errs: Seq<SpecErr>,
) -> (bool, Seq<SpecErr>)
    decreases lit_seq_size(args), sval_size(data), args.len() - i,
{
    if !(0 <= i < args.len()) {
        (acc, errs)
    } else if acc {
        (acc, errs)
    } else {
        proof {
            lemma_lit_seq_size_elem(args, i);
        }
        let r = spec_eval_lit(args[i], data, vars, path, errs);
        let t = match r.0 {
            Option::Some(v) => spec_truthy(v),
            Option::None => false,
        };
        spec_or_fold(args, i + 1, t, data, vars, path, r.1)
    }
}

/// `or`: the short-circuit disjunction starting from the data's
/// truthiness, handed to the tail. A missing argument list is an error.
pub open spec fn spec_or_method(
    name: Seq<char>,
    args: Option<MethodArgs>,
    data: SpecVal,
    vars: Seq<SpecVarEntry>,
    path: Seq<SpecSeg>,
    tail: PathList,
    errs: Seq<SpecErr>,
) -> (Option<SpecVal>, Seq<SpecErr>)
    decreases args_size(args) + path_size(tail), sval_size(data), arg_count(args) + 1,
{
    match args {
        Option::Some(m) => {
            let r = spec_or_fold(m.0@, 0, spec_truthy(data), data, vars, path, errs);
            spec_apply_path(tail, SpecVal::Bool(r.0), vars, path, r.1)
        },
        Option::None => (
            Option::None,
            spec_insert_err(
                errs,
                SpecErr { message: msg_method(name, " requires arguments"@), path },
            ),
        ),
    }
}

/// `or`: see `spec_or_method`.
pub fn or_method(
    method_name: &Vec<char>,
    method_args: &Option<MethodArgs>,
    data: &JsonValue,
    vars: &VarsWithPathsMap,
    input_path: &InputPath,
    tail: &PathList,
    errors: &mut ErrorAcc,
) -> (r: Option<JsonValue>)
    ensures
        ({
            let sr = spec_or_method(
                method_name@,
                *method_args,
                data@,
                vars@,
                input_path@,
                *tail,
                old(errors)@,
            );
            opt_val_view(r) == sr.0 && final(errors)@ == sr.1
        }),
    decreases args_size(*method_args) + path_size(*tail), sval_size(data@), arg_count(
        *method_args,
    ) + 1,
{
    match method_args {
        Option::Some(m) => {
            let ghost errs0 = errors@;
            let mut acc: bool = is_truthy(data);
            let mut i: usize = 0;
            while i < m.0.len() && !acc
                invariant
                    errs0 == old(errors)@,
                    0 <= i <= m.0@.len(),
                    method_args == Option::Some(*m),
                    spec_or_fold(m.0@, 0, spec_truthy(data@), data@, vars@, input_path@, errs0)
                        == spec_or_fold(
                        m.0@,
                        i as int,
                        acc,
                        data@,
                        vars@,
                        input_path@,
                        errors@,
                    ),
                decreases m.0@.len() - i,
            {
                proof {
                    lemma_lit_seq_size_elem(m.0@, i as int);
                }
                let ro = m.0[i].apply_to_path(data, vars, input_path, errors);
                acc = match ro {
                    Option::Some(v) => is_truthy(&v),
                    Option::None => false,
                };
                i = i + 1;
            }
            let bv = JsonValue::Bool(acc);
            tail.apply_to_path(&bv, vars, input_path, errors)
        },
        Option::None => {
            insert_method_err(method_name, " requires arguments", input_path, errors);
            Option::None
        },
    }
}

/// The short-circuit fold of `and`, from position `i`: once the running
/// result is false no further argument is evaluated; an argument that
/// fails to evaluate counts as false.
pub open spec fn spec_and_fold(
    args: Seq<LitExpr>,
    i: int,
    acc: bool,
    data: SpecVal,
    vars: Seq<SpecVarEntry>,
    path: Seq<SpecSeg>,
    errs: Seq<SpecErr>,
) -> (bool, Seq<SpecErr>)
    decreases lit_seq_size(args), sval_size(data), args.len() - i,
{
    if !(0 <= i < args.len()) {
        (acc, errs)
    } else if !acc {
        (acc, errs)
    } else {
        proof {
            lemma_lit_seq_size_elem(args, i);
        }
        let r = spec_eval_lit(args[i], data, vars, path, errs);
        let t = match r.0 {
            Option::Some(v) => spec_truthy(v),
            Option::None => false,
        };
        spec_and_fold(args, i + 1, t, data, vars, path, r.1)
    }
}

/// `and`: the short-circuit conjunction starting from the data's
/// truthiness, handed to the tail. A missing argument list is an error.
pub open spec fn spec_and_method(
    name: Seq<char>,
    args: Option<MethodArgs>,
    data: SpecVal,
    vars: Seq<SpecVarEntry>,
    path: Seq<SpecSeg>,
    tail: PathList,
    errs: Seq<SpecErr>,
) -> (Option<SpecVal>, Seq<SpecErr>)
    decreases args_size(args) + path_size(tail), sval_size(data), arg_count(args) + 1,
{
    match args {
        Option::Some(m) => {
            let r = spec_and_fold(m.0@, 0, spec_truthy(data), data, vars, path, errs);
            spec_apply_path(tail, SpecVal::Bool(r.0), vars, path, r.1)
        },
        Option::None => (
            Option::None,
            spec_insert_err(
                errs,
                SpecErr { message: msg_method(name, " requires arguments"@), path },
            ),
        ),
    }
}

/// `and`: see `spec_and_method`.
pub fn and_method(
    method_name: &Vec<char>,
    method_args: &Option<MethodArgs>,
    data: &JsonValue,
    vars: &VarsWithPathsMap,
    input_path: &InputPath,
    tail: &PathList,
    errors: &mut ErrorAcc,
) -> (r: Option<JsonValue>)
    ensures
        ({
            let sr = spec_and_method(
                method_name@,
                *method_args,
                data@,
                vars@,
                input_path@,
                *tail,
                old(errors)@,
            );
            opt_val_view(r) == sr.0 && final(errors)@ == sr.1
        }),
    decreases args_size(*method_args) + path_size(*tail), sval_size(data@), arg_count(
        *method_args,
    ) + 1,
{
    match method_args {
        Option::Some(m) => {
            let ghost errs0 = errors@;
            let mut acc: bool = is_truthy(data);
            let mut i: usize = 0;
            while i < m.0.len() && acc
                invariant
                    errs0 == old(errors)@,
                    0 <= i <= m.0@.len(),
                    method_args == Option::Some(*m),
                    spec_and_fold(m.0@, 0, spec_truthy(data@), data@, vars@, input_path@, errs0)
                        == spec_and_fold(
                        m.0@,
                        i as int,
                        acc,
                        data@,
                        vars@,
                        input_path@,
                        errors@,
                    ),
                decreases m.0@.len() - i,
            {
                proof {
                    lemma_lit_seq_size_elem(m.0@, i as int);
                }
                let ro = m.0[i].apply_to_path(data, vars, input_path, errors);
                acc = match ro {
                    Option::Some(v) => is_truthy(&v),
                    Option::None => false,
                };
                i = i + 1;
            }
            let bv = JsonValue::Bool(acc);
            tail.apply_to_path(&bv, vars, input_path, errors)
        },
        Option::None => {
            insert_method_err(method_name, " requires arguments", input_path, errors);
            Option::None
        },
    }
}

} // verus!
