//! The literal and path-list evaluators.
//!
//! Evaluation reads a value, a variable environment and an input path,
//! and produces an optional result value while inserting zero or more
//! errors into the shared accumulator. The `spec_*` functions are the
//! evaluator's specification: each executable function is proved to
//! return exactly what its specification returns and to leave the
//! accumulator exactly as its specification says.

use vstd::prelude::*;

use crate::ast::JSONSelection;
use crate::ast::LitExpr;
use crate::ast::LitField;
use crate::ast::MethodArgs;
use crate::ast::NamedSelection;
use crate::ast::PathList;
use crate::ast::SubSelection;
use crate::ast::VarName;
use crate::ast::lemma_lit_fields_size_elem;
use crate::ast::lemma_lit_seq_size_elem;
use crate::ast::lemma_named_seq_size_elem;
use crate::ast::lit_fields_size;
use crate::ast::lit_seq_size;
use crate::ast::lit_size;
use crate::ast::named_seq_size;
use crate::ast::named_size;
use crate::ast::path_size;
use crate::ast::sub_size;
use crate::errors::ApplyToError;
use crate::errors::ErrorAcc;
use crate::errors::InputPath;
use crate::errors::PathSeg;
use crate::errors::SpecErr;
use crate::errors::SpecSeg;
use crate::errors::spec_insert_err;
use crate::methods::spec_apply_method;
use crate::methods::spec_lookup_method;
use crate::num::JsonNum;
use crate::num::num_clone;
use crate::value::JsonValue;
use crate::value::ObjField;
use crate::value::SpecField;
use crate::value::SpecVal;
use crate::value::chars_concat;
use crate::value::chars_eq;
use crate::value::clone_chars;
use crate::value::deep_clone;
use crate::value::fields_view;
use crate::value::json_type_name;
use crate::value::lemma_svals_size_elem;
use crate::value::num_view;
use crate::value::opt_val_view;
use crate::value::spec_type_name;
use crate::value::str_chars;
use crate::value::sval_size;
use crate::value::svals_size;
use crate::value::vals_view;
use crate::value::wrap_chars;

verus! {

/// One binding of the variable environment: a name, the bound value,
/// and the input path the value came from (for error attribution).
#[derive(Debug, PartialEq)]
pub struct VarEntry {
    pub name: Vec<char>,
    pub value: JsonValue,
    pub path: InputPath,
}

/// The specification model of a binding.
pub ghost struct SpecVarEntry {
    pub name: Seq<char>,
    pub value: SpecVal,
    pub path: Seq<SpecSeg>,
}

/// The variable environment: bindings looked up by name, first match
/// wins. `$` is bound at the top level and rebound by every
/// sub-selection; `@` is not held here, since it always means the value
/// the current path is being applied to.
#[derive(Debug, PartialEq)]
pub struct VarsWithPathsMap {
    pub entries: Vec<VarEntry>,
}

impl View for VarEntry {
    type V = SpecVarEntry;

    open spec fn view(&self) -> SpecVarEntry {
        SpecVarEntry { name: self.name@, value: self.value@, path: self.path@ }
    }
}

impl View for VarsWithPathsMap {
    type V = Seq<SpecVarEntry>;

    open spec fn view(&self) -> Seq<SpecVarEntry> {
        Seq::new(self.entries@.len(), |i: int| self.entries@[i]@)
    }
}

/// The first binding of the given name, if any.
pub open spec fn spec_lookup_var(entries: Seq<SpecVarEntry>, name: Seq<char>) -> Option<
    SpecVarEntry,
>
    decreases entries.len(),
{
    if entries.len() == 0 {
        Option::None
    } else if entries[0].name == name {
        Option::Some(entries[0])
    } else {
        spec_lookup_var(entries.drop_first(), name)
    }
}

impl VarsWithPathsMap {
    /// The environment a top-level application starts from: `$` bound
    /// to the whole input at the root path.
    pub fn root(data: &JsonValue) -> (r: VarsWithPathsMap)
        ensures
            r@ == seq![
                SpecVarEntry { name: "$"@, value: data@, path: Seq::<SpecSeg>::empty() },
            ],
    {
        let entry = VarEntry {
            name: str_chars("$"),
            value: deep_clone(data),
            path: InputPath::empty(),
        };
        let mut entries: Vec<VarEntry> = Vec::new();
        entries.push(entry);
        let r = VarsWithPathsMap { entries };
        proof {
            assert(r@ =~= seq![
                SpecVarEntry { name: "$"@, value: data@, path: Seq::<SpecSeg>::empty() },
            ]);
        }
        r
    }

    /// A new environment with one more binding in front; this
    /// environment is unchanged.
    pub fn with_var(&self, name: Vec<char>, value: &JsonValue, path: &InputPath) -> (r:
        VarsWithPathsMap)
        ensures
            r@ == seq![SpecVarEntry { name: name@, value: value@, path: path@ }] + self@,
    {
        let mut entries: Vec<VarEntry> = Vec::new();
        entries.push(
            VarEntry { name, value: deep_clone(value), path: path.duplicate() },
        );
        let mut i: usize = 0;
        while i < self.entries.len()
            invariant
                0 <= i <= self.entries@.len(),
                entries@.len() == i + 1,
                forall|j: int| 0 <= j < i ==> entries@[j + 1]@ == self@[j],
                entries@[0]@.name == name@,
                entries@[0]@.value == value@,
                entries@[0]@.path == path@,
            decreases self.entries@.len() - i,
        {
            let e = &self.entries[i];
            entries.push(
                VarEntry {
                    name: clone_chars(&e.name),
                    value: deep_clone(&e.value),
                    path: e.path.duplicate(),
                },
            );
            i = i + 1;
        }
        let r = VarsWithPathsMap { entries };
        proof {
            assert(r@ =~= seq![SpecVarEntry { name: name@, value: value@, path: path@ }]
                + self@);
        }
        r
    }

    /// Looks a variable up by name, returning a copy of its value and
    /// origin path.
    pub fn lookup(&self, name: &Vec<char>) -> (r: Option<(JsonValue, InputPath)>)
        ensures
            match r {
                Option::Some(p) => spec_lookup_var(self@, name@) matches Option::Some(e)
                    && p.0@ == e.value && p.1@ == e.path,
                Option::None => spec_lookup_var(self@, name@) is None,
            },
    {
        proof {
            assert(self@.skip(0) =~= self@);
        }
        let mut i: usize = 0;
        while i < self.entries.len()
            invariant
                0 <= i <= self.entries@.len(),
                spec_lookup_var(self@, name@) == spec_lookup_var(
                    self@.skip(i as int),
                    name@,
                ),
            decreases self.entries@.len() - i,
        {
            proof {
                assert(self@.skip(i as int)[0] == self@[i as int]);
                assert(self@.skip(i as int).drop_first() =~= self@.skip(i as int + 1));
            }
            if chars_eq(&self.entries[i].name, name) {
                let e = &self.entries[i];
                return Option::Some((deep_clone(&e.value), e.path.duplicate()));
            }
            i = i + 1;
        }
        proof {
            assert(self@.skip(self.entries@.len() as int).len() == 0);
        }
        Option::None
    }
}

/// The message reported for a variable that is not bound.
pub open spec fn msg_var_not_found(name: Seq<char>) -> Seq<char> {
    "Variable "@ + name + " not found"@
}

/// The message reported for a key that is absent, or applied to a value
/// of the wrong kind.
pub open spec fn msg_property_not_found(key: Seq<char>, tyname: Seq<char>) -> Seq<char> {
    "Property ."@ + key + " not found in "@ + tyname
}

/// The message reported for an unknown method name.
pub open spec fn msg_method_not_found(name: Seq<char>) -> Seq<char> {
    "Method ->"@ + name + " not found"@
}

/// The first field of the given key, if any.
pub open spec fn spec_find_field(fields: Seq<SpecField>, key: Seq<char>) -> Option<SpecVal>
    decreases fields.len(),
{
    if fields.len() == 0 {
        Option::None
    } else if fields[0].key == key {
        Option::Some(fields[0].value)
    } else {
        spec_find_field(fields.drop_first(), key)
    }
}

/// The position of the first field of the given key, if any.
pub fn find_field_idx(fields: &Vec<ObjField>, key: &Vec<char>) -> (r: Option<usize>)
    ensures
        match r {
            Option::Some(i) => i < fields@.len() && spec_find_field(fields_view(fields@), key@)
                == Option::Some(fields@[i as int].value@),
            Option::None => spec_find_field(fields_view(fields@), key@) is None,
        },
{
    let ghost whole = fields_view(fields@);
    proof {
        assert(whole.skip(0) =~= whole);
    }
    let mut i: usize = 0;
    while i < fields.len()
        invariant
            0 <= i <= fields@.len(),
            whole == fields_view(fields@),
            spec_find_field(whole, key@) == spec_find_field(whole.skip(i as int), key@),
        decreases fields@.len() - i,
    {
        proof {
            assert(whole.skip(i as int)[0] == whole[i as int]);
            assert(whole.skip(i as int).drop_first() =~= whole.skip(i as int + 1));
        }
        if chars_eq(&fields[i].key, key) {
            return Option::Some(i);
        }
        i = i + 1;
    }
    proof {
        assert(whole.skip(whole.len() as int).len() == 0);
    }
    Option::None
}

/// Evaluation of a literal argument expression against the current
/// value. A scalar literal is itself; an array or object literal
/// evaluates every element or field value and fails as a whole when any
/// of them fails; an embedded path is applied to the current value.
pub open spec fn spec_eval_lit(
    e: LitExpr,
    data: SpecVal,
    vars: Seq<SpecVarEntry>,
    path: Seq<SpecSeg>,
    errs: Seq<SpecErr>,
) -> (Option<SpecVal>, Seq<SpecErr>)
    decreases lit_size(e), sval_size(data), 0nat,
{
    match e {
        LitExpr::Null => (Option::Some(SpecVal::Null), errs),
        LitExpr::Bool(b) => (Option::Some(SpecVal::Bool(b)), errs),
        LitExpr::Number(n) => (Option::Some(num_view(n)), errs),
        LitExpr::String(s) => (Option::Some(SpecVal::Str(s@)), errs),
        LitExpr::Array(elems) => {
            let r = spec_eval_lits(elems@, 0, Seq::empty(), data, vars, path, errs);
            match r.0 {
                Option::Some(vals) => (Option::Some(SpecVal::Arr(vals)), r.1),
                Option::None => (Option::None, r.1),
            }
        },
        LitExpr::Object(fields) => {
            let r = spec_eval_lit_fields(fields@, 0, Seq::empty(), data, vars, path, errs);
            match r.0 {
                Option::Some(fs) => (Option::Some(SpecVal::Obj(fs)), r.1),
                Option::None => (Option::None, r.1),
            }
        },
        LitExpr::Path(p) => spec_apply_path(p, data, vars, path, errs),
    }
}

/// Evaluation of the elements of an array literal, from position `i`.
pub open spec fn spec_eval_lits(
    elems: Seq<LitExpr>,
    i: int,
    acc: Seq<SpecVal>,
    data: SpecVal,
    vars: Seq<SpecVarEntry>,
    path: Seq<SpecSeg>,
    errs: Seq<SpecErr>,
) -> (Option<Seq<SpecVal>>, Seq<SpecErr>)
    decreases lit_seq_size(elems), sval_size(data), elems.len() - i,
{
    if !(0 <= i < elems.len()) {
        (Option::Some(acc), errs)
    } else {
        proof {
            lemma_lit_seq_size_elem(elems, i);
        }
        let r = spec_eval_lit(elems[i], data, vars, path, errs);
        match r.0 {
            Option::Some(v) => spec_eval_lits(elems, i + 1, acc.push(v), data, vars, path, r.1),
            Option::None => (Option::None, r.1),
        }
    }
}

/// Evaluation of the fields of an object literal, from position `i`.
pub open spec fn spec_eval_lit_fields(
    fields: Seq<LitField>,
    i: int,
    acc: Seq<SpecField>,
    data: SpecVal,
    vars: Seq<SpecVarEntry>,
    path: Seq<SpecSeg>,
    errs: Seq<SpecErr>,
) -> (Option<Seq<SpecField>>, Seq<SpecErr>)
    decreases lit_fields_size(fields), sval_size(data), fields.len() - i,
{
    if !(0 <= i < fields.len()) {
        (Option::Some(acc), errs)
    } else {
        proof {
            lemma_lit_fields_size_elem(fields, i);
        }
        let r = spec_eval_lit(fields[i].value, data, vars, path, errs);
        match r.0 {
            Option::Some(v) => spec_eval_lit_fields(
                fields,
                i + 1,
                acc.push(SpecField { key: fields[i].key@, value: v }),
                data,
                vars,
                path,
                r.1,
            ),
            Option::None => (Option::None, r.1),
        }
    }
}

/// Application of a path to the current value: the specification of
/// `PathList::apply_to_path`.
pub open spec fn spec_apply_path(
    p: PathList,
    data: SpecVal,
    vars: Seq<SpecVarEntry>,
    path: Seq<SpecSeg>,
    errs: Seq<SpecErr>,
) -> (Option<SpecVal>, Seq<SpecErr>)
    decreases path_size(p), sval_size(data), 0nat,
{
    match p {
        PathList::Empty => (Option::Some(data), errs),
        PathList::Var(v, tail) => match v {
            VarName::At => spec_apply_path(*tail, data, vars, path, errs),
            VarName::Named(name) => match spec_lookup_var(vars, name@) {
                Option::Some(entry) => spec_apply_path(*tail, entry.value, vars, entry.path, errs),
                Option::None => (
                    Option::None,
                    spec_insert_err(errs, SpecErr { message: msg_var_not_found(name@), path }),
                ),
            },
        },
        PathList::Key(key, tail) => {
            let keyed = path.push(SpecSeg::Key(key@));
            match data {
                SpecVal::Obj(fields) => match spec_find_field(fields, key@) {
                    Option::Some(v) => spec_apply_path(*tail, v, vars, keyed, errs),
                    Option::None => (
                        Option::None,
                        spec_insert_err(
                            errs,
                            SpecErr {
                                message: msg_property_not_found(key@, "object"@),
                                path: keyed,
                            },
                        ),
                    ),
                },
                _ => (
                    Option::None,
                    spec_insert_err(
                        errs,
                        SpecErr {
                            message: msg_property_not_found(key@, spec_type_name(data)),
                            path: keyed,
                        },
                    ),
                ),
            }
        },
        PathList::Method(name, args, tail) => match spec_lookup_method(name@) {
            Option::Some(kind) => spec_apply_method(
                kind,
                name@,
                args,
                data,
                vars,
                path,
                *tail,
                errs,
            ),
            Option::None => (
                Option::None,
                spec_insert_err(errs, SpecErr { message: msg_method_not_found(name@), path }),
            ),
        },
        PathList::Selection(sub) => spec_apply_sub(sub, data, vars, path, errs),
    }
}

/// Application of a sub-selection: over an array it distributes to the
/// elements (a failed element becomes null, so the result keeps the
/// array's length); over anything else it rebinds `$` to the current
/// value and builds the selected object.
pub open spec fn spec_apply_sub(
    sub: SubSelection,
    data: SpecVal,
    vars: Seq<SpecVarEntry>,
    path: Seq<SpecSeg>,
    errs: Seq<SpecErr>,
) -> (Option<SpecVal>, Seq<SpecErr>)
    decreases sub_size(sub), sval_size(data), 0nat,
{
    match data {
        SpecVal::Arr(elems) => {
            let r = spec_sub_elems(sub, elems, 0, Seq::empty(), vars, path, errs);
            (Option::Some(SpecVal::Arr(r.0)), r.1)
        },
        _ => {
            let vars2 = seq![SpecVarEntry { name: "$"@, value: data, path }] + vars;
            let r = spec_named_seq(sub.selections@, 0, Seq::empty(), data, vars2, path, errs);
            (Option::Some(SpecVal::Obj(r.0)), r.1)
        },
    }
}

/// Distribution of a sub-selection over array elements, from position
/// `i`, with the element index appended to the path.
pub open spec fn spec_sub_elems(
    sub: SubSelection,
    elems: Seq<SpecVal>,
    i: int,
    acc: Seq<SpecVal>,
    vars: Seq<SpecVarEntry>,
    path: Seq<SpecSeg>,
    errs: Seq<SpecErr>,
) -> (Seq<SpecVal>, Seq<SpecErr>)
    decreases sub_size(sub), svals_size(elems), elems.len() - i,
{
    if !(0 <= i < elems.len()) {
        (acc, errs)
    } else {
        proof {
            lemma_svals_size_elem(elems, i);
        }
        let r = spec_apply_sub(sub, elems[i], vars, path.push(SpecSeg::Index(i)), errs);
        match r.0 {
            Option::Some(v) => spec_sub_elems(sub, elems, i + 1, acc.push(v), vars, path, r.1),
            Option::None => spec_sub_elems(
                sub,
                elems,
                i + 1,
                acc.push(SpecVal::Null),
                vars,
                path,
                r.1,
            ),
        }
    }
}

/// Evaluation of the named selections of a sub-selection, from position
/// `i`, each appending its output fields to `acc`.
pub open spec fn spec_named_seq(
    sels: Seq<NamedSelection>,
    i: int,
    acc: Seq<SpecField>,
    data: SpecVal,
    vars: Seq<SpecVarEntry>,
    path: Seq<SpecSeg>,
    errs: Seq<SpecErr>,
) -> (Seq<SpecField>, Seq<SpecErr>)
    decreases named_seq_size(sels), sval_size(data), sels.len() - i,
{
    if !(0 <= i < sels.len()) {
        (acc, errs)
    } else {
        proof {
            lemma_named_seq_size_elem(sels, i);
        }
        let r = spec_apply_named(sels[i], acc, data, vars, path, errs);
        spec_named_seq(sels, i + 1, r.0, data, vars, path, r.1)
    }
}

/// Evaluation of one named selection. A failure leaves its output field
/// out but never fails the surrounding object.
pub open spec fn spec_apply_named(
    n: NamedSelection,
    acc: Seq<SpecField>,
    data: SpecVal,
    vars: Seq<SpecVarEntry>,
    path: Seq<SpecSeg>,
    errs: Seq<SpecErr>,
) -> (Seq<SpecField>, Seq<SpecErr>)
    decreases named_size(n), sval_size(data), 0nat,
{
    match n {
        NamedSelection::Field(alias, key, sub_opt) => {
            let out_key = match alias {
                Option::Some(a) => a@,
                Option::None => key@,
            };
            let keyed = path.push(SpecSeg::Key(key@));
            match data {
                SpecVal::Obj(fields) => match spec_find_field(fields, key@) {
                    Option::Some(v) => match sub_opt {
                        Option::Some(sub) => {
                            let r = spec_apply_sub(sub, v, vars, keyed, errs);
                            match r.0 {
                                Option::Some(v2) => (
                                    acc.push(SpecField { key: out_key, value: v2 }),
                                    r.1,
                                ),
                                Option::None => (acc, r.1),
                            }
                        },
                        Option::None => (acc.push(SpecField { key: out_key, value: v }), errs),
                    },
                    Option::None => (
                        acc,
                        spec_insert_err(
                            errs,
                            SpecErr {
                                message: msg_property_not_found(key@, "object"@),
                                path: keyed,
                            },
                        ),
                    ),
                },
                _ => (
                    acc,
                    spec_insert_err(
                        errs,
                        SpecErr {
                            message: msg_property_not_found(key@, spec_type_name(data)),
                            path: keyed,
                        },
                    ),
                ),
            }
        },
        NamedSelection::Path(alias, p) => {
            let r = spec_apply_path(p, data, vars, path, errs);
            match r.0 {
                Option::Some(v) => (acc.push(SpecField { key: alias@, value: v }), r.1),
                Option::None => (acc, r.1),
            }
        },
    }
}

/// Application of a whole selection to an input value, starting from an
/// empty path, an empty error set, and `$` bound to the input.
pub open spec fn spec_apply_selection(sel: JSONSelection, data: SpecVal) -> (
    Option<SpecVal>,
    Seq<SpecErr>,
) {
    let vars = seq![
        SpecVarEntry { name: "$"@, value: data, path: Seq::<SpecSeg>::empty() },
    ];
    match sel {
        JSONSelection::Named(sub) => spec_apply_sub(
            sub,
            data,
            vars,
            Seq::empty(),
            Seq::empty(),
        ),
        JSONSelection::Path(p) => spec_apply_path(p, data, vars, Seq::empty(), Seq::empty()),
    }
}

impl LitExpr {
    /// Evaluates this literal expression against `data`.
    pub fn apply_to_path(
        &self,
        data: &JsonValue,
        vars: &VarsWithPathsMap,
        input_path: &InputPath,
        errors: &mut ErrorAcc,
    ) -> (r: Option<JsonValue>)
        ensures
            ({
                let sr = spec_eval_lit(*self, data@, vars@, input_path@, old(errors)@);
                opt_val_view(r) == sr.0 && final(errors)@ == sr.1
            }),
        decreases lit_size(*self), sval_size(data@), 0nat,
    {
        match self {
            LitExpr::Null => Option::Some(JsonValue::Null),
            LitExpr::Bool(b) => Option::Some(JsonValue::Bool(*b)),
            LitExpr::Number(n) => Option::Some(JsonValue::Number(clone_num(n))),
            LitExpr::String(s) => Option::Some(JsonValue::String(clone_chars(s))),
            LitExpr::Array(elems) => {
                let ghost errs0 = errors@;
                let mut out: Vec<JsonValue> = Vec::new();
                proof {
                    assert(vals_view(out@) =~= Seq::<SpecVal>::empty());
                }
                let mut i: usize = 0;
                while i < elems.len()
                    invariant
                        errs0 == old(errors)@,
                        0 <= i <= elems@.len(),
                        self == LitExpr::Array(*elems),
                        out@.len() == i,
                        spec_eval_lits(elems@, 0, Seq::empty(), data@, vars@, input_path@, errs0)
                            == spec_eval_lits(
                            elems@,
                            i as int,
                            vals_view(out@),
                            data@,
                            vars@,
                            input_path@,
                            errors@,
                        ),
                    decreases elems@.len() - i,
                {
                    proof {
                        lemma_lit_seq_size_elem(elems@, i as int);
                    }
                    let ghost acc_before = vals_view(out@);
                    let ro = elems[i].apply_to_path(data, vars, input_path, errors);
                    match ro {
                        Option::Some(v) => {
                            let ghost gv = v@;
                            out.push(v);
                            proof {
                                assert(vals_view(out@) =~= acc_before.push(gv));
                            }
                        },
                        Option::None => {
                            return Option::None;
                        },
                    }
                    i = i + 1;
                }
                proof {
                    assert(vals_view(out@) == spec_eval_lits(
                        elems@,
                        0,
                        Seq::empty(),
                        data@,
                        vars@,
                        input_path@,
                        errs0,
                    ).0->Some_0);
                }
                Option::Some(JsonValue::Array(out))
            },
            LitExpr::Object(fields) => {
                let ghost errs0 = errors@;
                let mut out: Vec<ObjField> = Vec::new();
                proof {
                    assert(fields_view(out@) =~= Seq::<SpecField>::empty());
                }
                let mut i: usize = 0;
                while i < fields.len()
                    invariant
                        errs0 == old(errors)@,
                        0 <= i <= fields@.len(),
                        self == LitExpr::Object(*fields),
                        out@.len() == i,
                        spec_eval_lit_fields(
                            fields@,
                            0,
                            Seq::empty(),
                            data@,
                            vars@,
                            input_path@,
                            errs0,
                        ) == spec_eval_lit_fields(
                            fields@,
                            i as int,
                            fields_view(out@),
                            data@,
                            vars@,
                            input_path@,
                            errors@,
                        ),
                    decreases fields@.len() - i,
                {
                    proof {
                        lemma_lit_fields_size_elem(fields@, i as int);
                    }
                    let ghost acc_before = fields_view(out@);
                    let ro = fields[i].value.apply_to_path(data, vars, input_path, errors);
                    match ro {
                        Option::Some(v) => {
                            let k: Vec<char> = clone_chars(&fields[i].key);
                            let ghost gv = v@;
                            out.push(ObjField { key: k, value: v });
                            proof {
                                assert(fields_view(out@) =~= acc_before.push(
                                    SpecField { key: fields@[i as int].key@, value: gv },
                                ));
                            }
                        },
                        Option::None => {
                            return Option::None;
                        },
                    }
                    i = i + 1;
                }
                proof {
                    assert(fields_view(out@) == spec_eval_lit_fields(
                        fields@,
                        0,
                        Seq::empty(),
                        data@,
                        vars@,
                        input_path@,
                        errs0,
                    ).0->Some_0);
                }
                Option::Some(JsonValue::Object(out))
            },
            LitExpr::Path(p) => p.apply_to_path(data, vars, input_path, errors),
        }
    }
}

/// A copy of a number, equal in the model.
pub fn clone_num(n: &JsonNum) -> (r: JsonNum)
    ensures
        num_view(r) == num_view(*n),
{
    match n {
        JsonNum::Int(i) => JsonNum::Int(*i),
        JsonNum::Float(m) => JsonNum::Float(num_clone(m)),
    }
}

impl PathList {
    /// Applies this path to `data`: the recursive evaluation form.
    pub fn apply_to_path(
        &self,
        data: &JsonValue,
        vars: &VarsWithPathsMap,
        input_path: &InputPath,
        errors: &mut ErrorAcc,
    ) -> (r: Option<JsonValue>)
        ensures
            ({
                let sr = spec_apply_path(*self, data@, vars@, input_path@, old(errors)@);
                opt_val_view(r) == sr.0 && final(errors)@ == sr.1
            }),
        decreases path_size(*self), sval_size(data@), 0nat,
    {
        match self {
            PathList::Empty => Option::Some(deep_clone(data)),
            PathList::Var(v, tail) => match v {
                VarName::At => tail.apply_to_path(data, vars, input_path, errors),
                VarName::Named(name) => match vars.lookup(name) {
                    Option::Some(found) => tail.apply_to_path(&found.0, vars, &found.1, errors),
                    Option::None => {
                        let msg: Vec<char> = wrap_chars("Variable ", name, " not found");
                        errors.insert(ApplyToError::new(msg, input_path));
                        Option::None
                    },
                },
            },
            PathList::Key(key, tail) => {
                let keyed: InputPath = input_path.append(PathSeg::Key(clone_chars(key)));
                match data {
                    JsonValue::Object(fields) => match find_field_idx(fields, key) {
                        Option::Some(idx) => tail.apply_to_path(
                            &fields[idx].value,
                            vars,
                            &keyed,
                            errors,
                        ),
                        Option::None => {
                            let tyname: Vec<char> = str_chars("object");
                            let msg: Vec<char> = chars_concat(
                                &wrap_chars("Property .", key, " not found in "),
                                &tyname,
                            );
                            errors.insert(ApplyToError::new(msg, &keyed));
                            Option::None
                        },
                    },
                    _ => {
                        let tyname: Vec<char> = json_type_name(data);
                        let msg: Vec<char> = chars_concat(
                            &wrap_chars("Property .", key, " not found in "),
                            &tyname,
                        );
                        errors.insert(ApplyToError::new(msg, &keyed));
                        Option::None
                    },
                }
            },
            PathList::Method(name, args, tail) => match crate::methods::lookup_method(name) {
                Option::Some(kind) => crate::methods::apply_method(
                    kind,
                    name,
                    args,
                    data,
                    vars,
                    input_path,
                    tail,
                    errors,
                ),
                Option::None => {
                    let msg: Vec<char> = wrap_chars("Method ->", name, " not found");
                    errors.insert(ApplyToError::new(msg, input_path));
                    Option::None
                },
            },
            PathList::Selection(sub) => sub.apply_to_path(data, vars, input_path, errors),
        }
    }
}

impl SubSelection {
    /// Applies this sub-selection to `data`.
    pub fn apply_to_path(
        &self,
        data: &JsonValue,
        vars: &VarsWithPathsMap,
        input_path: &InputPath,
        errors: &mut ErrorAcc,
    ) -> (r: Option<JsonValue>)
        ensures
            ({
                let sr = spec_apply_sub(*self, data@, vars@, input_path@, old(errors)@);
                opt_val_view(r) == sr.0 && final(errors)@ == sr.1
            }),
        decreases sub_size(*self), sval_size(data@), 0nat,
    {
        match data {
            JsonValue::Array(elems) => {
                let ghost errs0 = errors@;
                let ghost gelems = vals_view(elems@);
                let mut out: Vec<JsonValue> = Vec::new();
                proof {
                    assert(vals_view(out@) =~= Seq::<SpecVal>::empty());
                }
                let mut i: usize = 0;
                while i < elems.len()
                    invariant
                        errs0 == old(errors)@,
                        0 <= i <= elems@.len(),
                        data == JsonValue::Array(*elems),
                        gelems == vals_view(elems@),
                        out@.len() == i,
                        spec_sub_elems(*self, gelems, 0, Seq::empty(), vars@, input_path@, errs0)
                            == spec_sub_elems(
                            *self,
                            gelems,
                            i as int,
                            vals_view(out@),
                            vars@,
                            input_path@,
                            errors@,
                        ),
                    decreases elems@.len() - i,
                {
                    proof {
                        lemma_svals_size_elem(gelems, i as int);
                        assert(gelems[i as int] == elems@[i as int]@);
                    }
                    let ghost acc_before = vals_view(out@);
                    let idx_path: InputPath = input_path.append(PathSeg::Index(i));
                    let ro = self.apply_to_path(&elems[i], vars, &idx_path, errors);
                    match ro {
                        Option::Some(v) => {
                            let ghost gv = v@;
                            out.push(v);
                            proof {
                                assert(vals_view(out@) =~= acc_before.push(gv));
                            }
                        },
                        Option::None => {
                            out.push(JsonValue::Null);
                            proof {
                                assert(vals_view(out@) =~= acc_before.push(SpecVal::Null));
                            }
                        },
                    }
                    i = i + 1;
                }
                Option::Some(JsonValue::Array(out))
            },
            _ => {
                let ghost errs0 = errors@;
                let vars2: VarsWithPathsMap = vars.with_var(str_chars("$"), data, input_path);
                let mut out: Vec<ObjField> = Vec::new();
                proof {
                    assert(fields_view(out@) =~= Seq::<SpecField>::empty());
                }
                let mut i: usize = 0;
                while i < self.selections.len()
                    invariant
                        errs0 == old(errors)@,
                        0 <= i <= self.selections@.len(),
                        !(data@ is Arr),
                        vars2@ == seq![
                            SpecVarEntry { name: "$"@, value: data@, path: input_path@ },
                        ] + vars@,
                        spec_named_seq(
                            self.selections@,
                            0,
                            Seq::empty(),
                            data@,
                            vars2@,
                            input_path@,
                            errs0,
                        ) == spec_named_seq(
                            self.selections@,
                            i as int,
                            fields_view(out@),
                            data@,
                            vars2@,
                            input_path@,
                            errors@,
                        ),
                    decreases self.selections@.len() - i,
                {
                    proof {
                        lemma_named_seq_size_elem(self.selections@, i as int);
                    }
                    apply_named(&self.selections[i], &mut out, data, &vars2, input_path, errors);
                    i = i + 1;
                }
                Option::Some(JsonValue::Object(out))
            },
        }
    }
}

/// Evaluates one named selection, appending its output fields (if any)
/// to `out`.
pub fn apply_named(
    n: &NamedSelection,
    out: &mut Vec<ObjField>,
    data: &JsonValue,
    vars: &VarsWithPathsMap,
    input_path: &InputPath,
    errors: &mut ErrorAcc,
)
    ensures
        ({
            let sr = spec_apply_named(
                *n,
                fields_view(old(out)@),
                data@,
                vars@,
                input_path@,
                old(errors)@,
            );
            fields_view(final(out)@) == sr.0 && final(errors)@ == sr.1
        }),
    decreases named_size(*n), sval_size(data@), 0nat,
{
    match n {
        NamedSelection::Field(alias, key, sub_opt) => {
            let keyed: InputPath = input_path.append(PathSeg::Key(clone_chars(key)));
            match data {
                JsonValue::Object(fields) => match find_field_idx(fields, key) {
                    Option::Some(idx) => {
                        let out_key: Vec<char> = match alias {
                            Option::Some(a) => clone_chars(a),
                            Option::None => clone_chars(key),
                        };
                        let ghost gkey = out_key@;
                        match sub_opt {
                            Option::Some(sub) => {
                                let ghost acc_before = fields_view(out@);
                                let ro = sub.apply_to_path(&fields[idx].value, vars, &keyed, errors);
                                match ro {
                                    Option::Some(v) => {
                                        let ghost gv = v@;
                                        out.push(ObjField { key: out_key, value: v });
                                        proof {
                                            assert(fields_view(out@) =~= acc_before.push(
                                                SpecField { key: gkey, value: gv },
                                            ));
                                        }
                                    },
                                    Option::None => {},
                                }
                            },
                            Option::None => {
                                let ghost acc_before = fields_view(out@);
                                let v: JsonValue = deep_clone(&fields[idx].value);
                                let ghost gv = v@;
                                out.push(ObjField { key: out_key, value: v });
                                proof {
                                    assert(fields_view(out@) =~= acc_before.push(
                                        SpecField { key: gkey, value: gv },
                                    ));
                                }
                            },
                        }
                    },
                    Option::None => {
                        let tyname: Vec<char> = str_chars("object");
                        let msg: Vec<char> = chars_concat(
                            &wrap_chars("Property .", key, " not found in "),
                            &tyname,
                        );
                        errors.insert(ApplyToError::new(msg, &keyed));
                    },
                },
                _ => {
                    let tyname: Vec<char> = json_type_name(data);
                    let msg: Vec<char> = chars_concat(
                        &wrap_chars("Property .", key, " not found in "),
                        &tyname,
                    );
                    errors.insert(ApplyToError::new(msg, &keyed));
                },
            }
        },
        NamedSelection::Path(alias, p) => {
            let ghost acc_before = fields_view(out@);
            let ro = p.apply_to_path(data, vars, input_path, errors);
            match ro {
                Option::Some(v) => {
                    let out_key: Vec<char> = clone_chars(alias);
                    let ghost gv = v@;
                    out.push(ObjField { key: out_key, value: v });
                    proof {
                        assert(fields_view(out@) =~= acc_before.push(
                            SpecField { key: alias@, value: gv },
                        ));
                    }
                },
                Option::None => {},
            }
        },
    }
}

impl JSONSelection {
    /// Applies this selection to an input value: the top-level entry
    /// point. Starts from an empty path and an empty error set, with
    /// `$` bound to the input, and returns the optional result together
    /// with every error the evaluation accumulated.
    pub fn apply_to(&self, data: &JsonValue) -> (r: (Option<JsonValue>, ErrorAcc))
        ensures
            ({
                let sr = spec_apply_selection(*self, data@);
                opt_val_view(r.0) == sr.0 && r.1@ == sr.1
            }),
    {
        let vars: VarsWithPathsMap = VarsWithPathsMap::root(data);
        let root_path: InputPath = InputPath::empty();
        let mut errors: ErrorAcc = ErrorAcc::empty();
        let ro: Option<JsonValue> = match self {
            JSONSelection::Named(sub) => sub.apply_to_path(data, &vars, &root_path, &mut errors),
            JSONSelection::Path(p) => p.apply_to_path(data, &vars, &root_path, &mut errors),
        };
        (ro, errors)
    }
}

} // verus!
