//! The JSON value type the evaluator works on, and its specification
//! model.
//!
//! A value is null, a boolean, a number, a string (held as its sequence
//! of characters), an array, or an object (an insertion-ordered list of
//! key/value fields). The model type `SpecVal` mirrors it with `Seq` in
//! place of `Vec` and with floating-point numbers reduced to their IEEE
//! 754 bit patterns.

use vstd::prelude::*;

use crate::num::JsonNum;
use crate::num::f64_bits_eq;
use crate::num::f64_bits_eq_exec;
use crate::num::f64_bits_is_zero;
use crate::num::num_clone;
use crate::num::num_f64_bits;
use crate::num::num_to_f64_bits;

verus! {

/// A JSON value.
#[derive(Debug, PartialEq)]
pub enum JsonValue {
    Null,
    Bool(bool),
    Number(JsonNum),
    String(Vec<char>),
    Array(Vec<JsonValue>),
    Object(Vec<ObjField>),
}

/// One key/value field of a JSON object.
#[derive(Debug, PartialEq)]
pub struct ObjField {
    pub key: Vec<char>,
    pub value: JsonValue,
}

/// The specification model of a JSON value.
pub ghost enum SpecVal {
    Null,
    Bool(bool),
    Int(i64),
    Float(u64),
    Str(Seq<char>),
    Arr(Seq<SpecVal>),
    Obj(Seq<SpecField>),
}

/// The specification model of one object field.
pub ghost struct SpecField {
    pub key: Seq<char>,
    pub value: SpecVal,
}

/// The model of a JSON number.
pub open spec fn num_view(n: JsonNum) -> SpecVal {
    match n {
        JsonNum::Int(i) => SpecVal::Int(i),
        JsonNum::Float(m) => SpecVal::Float(num_f64_bits(m)),
    }
}

/// The model of a JSON value.
pub open spec fn val_view(v: JsonValue) -> SpecVal
    decreases v,
{
    match v {
        JsonValue::Null => SpecVal::Null,
        JsonValue::Bool(b) => SpecVal::Bool(b),
        JsonValue::Number(n) => match n {
            JsonNum::Int(i) => SpecVal::Int(i),
            JsonNum::Float(m) => SpecVal::Float(num_f64_bits(m)),
        },
        JsonValue::String(s) => SpecVal::Str(s@),
        JsonValue::Array(elems) => SpecVal::Arr(vals_view(elems@)),
        JsonValue::Object(fields) => SpecVal::Obj(fields_view(fields@)),
    }
}

/// The models of a sequence of JSON values, elementwise.
pub open spec fn vals_view(s: Seq<JsonValue>) -> Seq<SpecVal>
    decreases s,
{
    Seq::new(
        s.len(),
        |i: int|
            if 0 <= i < s.len() {
                val_view(s[i])
            } else {
                SpecVal::Null
            },
    )
}

/// The models of a sequence of object fields, elementwise.
pub open spec fn fields_view(s: Seq<ObjField>) -> Seq<SpecField>
    decreases s,
{
    Seq::new(
        s.len(),
        |i: int|
            if 0 <= i < s.len() {
                SpecField { key: s[i].key@, value: val_view(s[i].value) }
            } else {
                SpecField { key: Seq::empty(), value: SpecVal::Null }
            },
    )
}

impl View for JsonValue {
    type V = SpecVal;

    open spec fn view(&self) -> SpecVal {
        val_view(*self)
    }
}

/// The size of a value, used as a termination measure.
pub open spec fn val_size(v: JsonValue) -> nat
    decreases v,
{
    match v {
        JsonValue::Array(elems) => 1 + vals_size(elems@),
        JsonValue::Object(fields) => 1 + fields_size(fields@),
        _ => 1,
    }
}

/// The combined size of a sequence of values.
pub open spec fn vals_size(s: Seq<JsonValue>) -> nat
    decreases s,
{
    if s.len() == 0 {
        1
    } else {
        1 + val_size(s[0]) + vals_size(s.drop_first())
    }
}

/// The combined size of a sequence of object fields.
pub open spec fn fields_size(s: Seq<ObjField>) -> nat
    decreases s,
{
    if s.len() == 0 {
        1
    } else {
        1 + val_size(s[0].value) + fields_size(s.drop_first())
    }
}

/// Each element of a sequence of values is smaller than the whole.
pub proof fn lemma_vals_size_elem(s: Seq<JsonValue>, i: int)
    requires
        0 <= i < s.len(),
    ensures
        val_size(s[i]) < vals_size(s),
    decreases i,
{
    if i == 0 {
    } else {
        lemma_vals_size_elem(s.drop_first(), i - 1);
    }
}

/// Each field value of a sequence of fields is smaller than the whole.
pub proof fn lemma_fields_size_elem(s: Seq<ObjField>, i: int)
    requires
        0 <= i < s.len(),
    ensures
        val_size(s[i].value) < fields_size(s),
    decreases i,
{
    if i == 0 {
    } else {
        lemma_fields_size_elem(s.drop_first(), i - 1);
    }
}

/// The size of a model value, used as a termination measure when a
/// sub-selection distributes over the elements of an array.
pub open spec fn sval_size(v: SpecVal) -> nat
    decreases v,
{
    match v {
        SpecVal::Arr(s) => 1 + svals_size(s),
        _ => 1,
    }
}

/// The combined size of a sequence of model values.
pub open spec fn svals_size(s: Seq<SpecVal>) -> nat
    decreases s,
{
    if s.len() == 0 {
        1
    } else {
        1 + sval_size(s[0]) + svals_size(s.drop_first())
    }
}

/// Each element of a sequence of model values is smaller than the
/// whole.
pub proof fn lemma_svals_size_elem(s: Seq<SpecVal>, i: int)
    requires
        0 <= i < s.len(),
    ensures
        sval_size(s[i]) < svals_size(s),
    decreases i,
{
    if i == 0 {
    } else {
        lemma_svals_size_elem(s.drop_first(), i - 1);
    }
}

/// The model of an optional value.
pub open spec fn opt_val_view(r: Option<JsonValue>) -> Option<SpecVal> {
    match r {
        Option::Some(v) => Option::Some(val_view(v)),
        Option::None => Option::None,
    }
}

/// Relies on `str::chars`: yields exactly the string's characters, in
/// order.
#[verifier::external_body]
pub fn str_chars(s: &str) -> (r: Vec<char>)
    ensures
        r@ == s@,
{
    s.chars().collect()
}

/// Character-for-character equality of two strings.
pub fn chars_eq(a: &Vec<char>, b: &Vec<char>) -> (r: bool)
    ensures
        r == (a@ == b@),
{
    if a.len() != b.len() {
        return false;
    }
    let mut i: usize = 0;
    while i < a.len()
        invariant
            0 <= i <= a.len(),
            a.len() == b.len(),
            forall|j: int| 0 <= j < i ==> a@[j] == b@[j],
        decreases a.len() - i,
    {
        if a[i] != b[i] {
            return false;
        }
        i = i + 1;
    }
    proof {
        assert(a@ =~= b@);
    }
    true
}

/// A copy of a string.
pub fn clone_chars(a: &Vec<char>) -> (r: Vec<char>)
    ensures
        r@ == a@,
{
    let mut out: Vec<char> = Vec::new();
    let mut i: usize = 0;
    while i < a.len()
        invariant
            0 <= i <= a.len(),
            out@.len() == i,
            forall|j: int| 0 <= j < i ==> out@[j] == a@[j],
        decreases a.len() - i,
    {
        out.push(a[i]);
        i = i + 1;
    }
    proof {
        assert(out@ =~= a@);
    }
    out
}

/// The concatenation of two strings.
pub fn chars_concat(a: &Vec<char>, b: &Vec<char>) -> (r: Vec<char>)
    ensures
        r@ == a@ + b@,
{
    let mut out: Vec<char> = clone_chars(a);
    let mut i: usize = 0;
    while i < b.len()
        invariant
            0 <= i <= b@.len(),
            out@ == a@ + b@.subrange(0, i as int),
        decreases b@.len() - i,
    {
        out.push(b[i]);
        proof {
            assert(out@ =~= a@ + b@.subrange(0, i as int + 1));
        }
        i = i + 1;
    }
    proof {
        assert(b@.subrange(0, b@.len() as int) =~= b@);
    }
    out
}

/// A string of the shape `prefix` + `mid` + `suffix`, the shape of
/// every evaluation error message.
pub fn wrap_chars(prefix: &str, mid: &Vec<char>, suffix: &str) -> (r: Vec<char>)
    ensures
        r@ == prefix@ + mid@ + suffix@,
{
    let a: Vec<char> = str_chars(prefix);
    let b: Vec<char> = chars_concat(&a, mid);
    let c: Vec<char> = str_chars(suffix);
    chars_concat(&b, &c)
}

/// The name of a value's runtime kind. Note that null is reported as
/// "null", not "object".
pub open spec fn spec_type_name(v: SpecVal) -> Seq<char> {
    match v {
        SpecVal::Null => "null"@,
        SpecVal::Bool(_) => "boolean"@,
        SpecVal::Int(_) => "number"@,
        SpecVal::Float(_) => "number"@,
        SpecVal::Str(_) => "string"@,
        SpecVal::Arr(_) => "array"@,
        SpecVal::Obj(_) => "object"@,
    }
}

/// The name of a value's runtime kind.
pub fn json_type_name(v: &JsonValue) -> (r: Vec<char>)
    ensures
        r@ == spec_type_name(v@),
{
    match v {
        JsonValue::Null => str_chars("null"),
        JsonValue::Bool(_) => str_chars("boolean"),
        JsonValue::Number(_) => str_chars("number"),
        JsonValue::String(_) => str_chars("string"),
        JsonValue::Array(_) => str_chars("array"),
        JsonValue::Object(_) => str_chars("object"),
    }
}

/// The truthiness rule: `false`, a zero number, `null` and the empty
/// string are falsy; every other value, including every array and
/// object, is truthy.
pub open spec fn spec_truthy(v: SpecVal) -> bool {
    match v {
        SpecVal::Null => false,
        SpecVal::Bool(b) => b,
        SpecVal::Int(i) => i != 0,
        SpecVal::Float(bits) => !f64_bits_is_zero(bits),
        SpecVal::Str(s) => s.len() != 0,
        SpecVal::Arr(_) => true,
        SpecVal::Obj(_) => true,
    }
}

/// The truthiness of a value.
pub fn is_truthy(data: &JsonValue) -> (r: bool)
    ensures
        r == spec_truthy(data@),
{
    match data {
        JsonValue::Null => false,
        JsonValue::Bool(b) => *b,
        JsonValue::Number(n) => match n {
            JsonNum::Int(i) => *i != 0,
            JsonNum::Float(m) => {
                let bits: u64 = num_to_f64_bits(m);
                !(bits == 0 || bits == 0x8000_0000_0000_0000)
            },
        },
        JsonValue::String(s) => s.len() != 0,
        JsonValue::Array(_) => true,
        JsonValue::Object(_) => true,
    }
}

/// Deep, value-based equality of two JSON values: structural on arrays,
/// objects and strings, IEEE 754 equality on floating-point numbers, and
/// never true across kinds (an integer never equals a float).
pub open spec fn spec_json_eq(a: SpecVal, b: SpecVal) -> bool
    decreases a,
{
    match (a, b) {
        (SpecVal::Null, SpecVal::Null) => true,
        (SpecVal::Bool(x), SpecVal::Bool(y)) => x == y,
        (SpecVal::Int(x), SpecVal::Int(y)) => x == y,
        (SpecVal::Float(x), SpecVal::Float(y)) => f64_bits_eq(x, y),
        (SpecVal::Str(x), SpecVal::Str(y)) => x == y,
        (SpecVal::Arr(x), SpecVal::Arr(y)) => x.len() == y.len() && (forall|i: int|
            0 <= i < x.len() ==> spec_json_eq(x[i], y[i])),
        (SpecVal::Obj(x), SpecVal::Obj(y)) => x.len() == y.len() && (forall|i: int|
            0 <= i < x.len() ==> x[i].key == y[i].key && spec_json_eq(x[i].value, y[i].value)),
        _ => false,
    }
}

/// Deep equality of two JSON values.
pub fn json_eq(a: &JsonValue, b: &JsonValue) -> (r: bool)
    ensures
        r == spec_json_eq(a@, b@),
    decreases val_size(*a),
{
    match (a, b) {
        (JsonValue::Null, JsonValue::Null) => true,
        (JsonValue::Bool(x), JsonValue::Bool(y)) => *x == *y,
        (JsonValue::Number(x), JsonValue::Number(y)) => match (x, y) {
            (JsonNum::Int(i), JsonNum::Int(j)) => *i == *j,
            (JsonNum::Float(m), JsonNum::Float(n)) => f64_bits_eq_exec(
                num_to_f64_bits(m),
                num_to_f64_bits(n),
            ),
            _ => false,
        },
        (JsonValue::String(x), JsonValue::String(y)) => chars_eq(x, y),
        (JsonValue::Array(x), JsonValue::Array(y)) => {
            if x.len() != y.len() {
                return false;
            }
            let mut i: usize = 0;
            while i < x.len()
                invariant
                    0 <= i <= x@.len(),
                    x@.len() == y@.len(),
                    a == JsonValue::Array(*x),
                    b == JsonValue::Array(*y),
                    forall|j: int| 0 <= j < i ==> spec_json_eq(x@[j]@, y@[j]@),
                decreases x@.len() - i,
            {
                proof {
                    lemma_vals_size_elem(x@, i as int);
                }
                if !json_eq(&x[i], &y[i]) {
                    proof {
                        let gi = i as int;
                        assert(!spec_json_eq(a@, b@)) by {
                            if spec_json_eq(a@, b@) {
                                let sx = vals_view(x@);
                                let sy = vals_view(y@);
                                assert(a@ == SpecVal::Arr(sx));
                                assert(b@ == SpecVal::Arr(sy));
                                assert(forall|k: int|
                                    0 <= k < sx.len() ==> spec_json_eq(sx[k], sy[k]));
                                assert(spec_json_eq(sx[gi], sy[gi]));
                            }
                        }
                    }
                    return false;
                }
                i = i + 1;
            }
            proof {
                assert forall|j: int| 0 <= j < vals_view(x@).len() implies spec_json_eq(
                    vals_view(x@)[j],
                    vals_view(y@)[j],
                ) by {
                    assert(vals_view(x@)[j] == x@[j]@);
                    assert(vals_view(y@)[j] == y@[j]@);
                }
            }
            true
        },
        (JsonValue::Object(x), JsonValue::Object(y)) => {
            if x.len() != y.len() {
                return false;
            }
            let mut i: usize = 0;
            while i < x.len()
                invariant
                    0 <= i <= x@.len(),
                    x@.len() == y@.len(),
                    a == JsonValue::Object(*x),
                    b == JsonValue::Object(*y),
                    forall|j: int|
                        0 <= j < i ==> x@[j].key@ == y@[j].key@ && spec_json_eq(
                            x@[j].value@,
                            y@[j].value@,
                        ),
                decreases x@.len() - i,
            {
                if !chars_eq(&x[i].key, &y[i].key) {
                    proof {
                        let gi = i as int;
                        assert(!spec_json_eq(a@, b@)) by {
                            if spec_json_eq(a@, b@) {
                                let sx = fields_view(x@);
                                let sy = fields_view(y@);
                                assert(a@ == SpecVal::Obj(sx));
                                assert(b@ == SpecVal::Obj(sy));
                                assert(forall|k: int|
                                    0 <= k < sx.len() ==> sx[k].key == sy[k].key && spec_json_eq(
                                        sx[k].value,
                                        sy[k].value,
                                    ));
                                assert(sx[gi].key == sy[gi].key);
                            }
                        }
                    }
                    return false;
                }
                proof {
                    lemma_fields_size_elem(x@, i as int);
                }
                if !json_eq(&x[i].value, &y[i].value) {
                    proof {
                        let gi = i as int;
                        assert(!spec_json_eq(a@, b@)) by {
                            if spec_json_eq(a@, b@) {
                                let sx = fields_view(x@);
                                let sy = fields_view(y@);
                                assert(a@ == SpecVal::Obj(sx));
                                assert(b@ == SpecVal::Obj(sy));
                                assert(forall|k: int|
                                    0 <= k < sx.len() ==> sx[k].key == sy[k].key && spec_json_eq(
                                        sx[k].value,
                                        sy[k].value,
                                    ));
                                assert(spec_json_eq(sx[gi].value, sy[gi].value));
                            }
                        }
                    }
                    return false;
                }
                i = i + 1;
            }
            proof {
                assert forall|j: int| 0 <= j < fields_view(x@).len() implies fields_view(x@)[j].key
                    == fields_view(y@)[j].key && spec_json_eq(
                    fields_view(x@)[j].value,
                    fields_view(y@)[j].value,
                ) by {
                    assert(fields_view(x@)[j].value == x@[j].value@);
                    assert(fields_view(y@)[j].value == y@[j].value@);
                }
            }
            true
        },
        _ => false,
    }
}

/// A copy of a value, equal to the original in the model.
pub fn deep_clone(v: &JsonValue) -> (r: JsonValue)
    ensures
        r@ == v@,
    decreases val_size(*v),
{
    match v {
        JsonValue::Null => JsonValue::Null,
        JsonValue::Bool(b) => JsonValue::Bool(*b),
        JsonValue::Number(n) => match n {
            JsonNum::Int(i) => JsonValue::Number(JsonNum::Int(*i)),
            JsonNum::Float(m) => JsonValue::Number(JsonNum::Float(num_clone(m))),
        },
        JsonValue::String(s) => JsonValue::String(clone_chars(s)),
        JsonValue::Array(elems) => {
            let mut out: Vec<JsonValue> = Vec::new();
            let mut i: usize = 0;
            while i < elems.len()
                invariant
                    0 <= i <= elems@.len(),
                    v == JsonValue::Array(*elems),
                    out@.len() == i,
                    forall|j: int| 0 <= j < i ==> out@[j]@ == elems@[j]@,
                decreases elems@.len() - i,
            {
                proof {
                    lemma_vals_size_elem(elems@, i as int);
                }
                let c: JsonValue = deep_clone(&elems[i]);
                out.push(c);
                i = i + 1;
            }
            proof {
                assert forall|j: int| 0 <= j < out@.len() implies vals_view(out@)[j] == vals_view(
                    elems@,
                )[j] by {
                    assert(vals_view(out@)[j] == out@[j]@);
                    assert(vals_view(elems@)[j] == elems@[j]@);
                }
                assert(vals_view(out@) =~= vals_view(elems@));
            }
            JsonValue::Array(out)
        },
        JsonValue::Object(fields) => {
            let mut out: Vec<ObjField> = Vec::new();
            let mut i: usize = 0;
            while i < fields.len()
                invariant
                    0 <= i <= fields@.len(),
                    v == JsonValue::Object(*fields),
                    out@.len() == i,
                    forall|j: int|
                        0 <= j < i ==> out@[j].key@ == fields@[j].key@ && out@[j].value@
                            == fields@[j].value@,
                decreases fields@.len() - i,
            {
                proof {
                    lemma_fields_size_elem(fields@, i as int);
                }
                let k: Vec<char> = clone_chars(&fields[i].key);
                let c: JsonValue = deep_clone(&fields[i].value);
                out.push(ObjField { key: k, value: c });
                i = i + 1;
            }
            proof {
                assert forall|j: int| 0 <= j < out@.len() implies fields_view(out@)[j]
                    == fields_view(fields@)[j] by {
                    assert(fields_view(out@)[j].value == out@[j].value@);
                    assert(fields_view(fields@)[j].value == fields@[j].value@);
                }
                assert(fields_view(out@) =~= fields_view(fields@));
            }
            JsonValue::Object(out)
        },
    }
}

} // verus!
