//! Input paths and the error accumulator.
//!
//! An input path names where in the original input the value currently
//! being evaluated came from; it exists only for error attribution. An
//! error couples a message with such a path, and the accumulator is an
//! insertion-ordered collection of errors that deduplicates on insert
//! and only ever grows.

use vstd::prelude::*;

use crate::value::JsonValue;
use crate::value::ObjField;
use crate::value::SpecField;
use crate::value::SpecVal;
use crate::value::chars_eq;
use crate::value::clone_chars;
use crate::value::str_chars;

verus! {

/// One segment of an input path: an object key or an array index.
#[derive(Debug, PartialEq)]
pub enum PathSeg {
    Key(Vec<char>),
    Index(usize),
}

/// The specification model of a path segment.
pub ghost enum SpecSeg {
    Key(Seq<char>),
    Index(int),
}

/// The model of a path segment.
pub open spec fn seg_view(s: PathSeg) -> SpecSeg {
    match s {
        PathSeg::Key(k) => SpecSeg::Key(k@),
        PathSeg::Index(i) => SpecSeg::Index(i as int),
    }
}

/// The models of a sequence of path segments, elementwise.
pub open spec fn segs_view(s: Seq<PathSeg>) -> Seq<SpecSeg> {
    Seq::new(s.len(), |i: int| seg_view(s[i]))
}

/// An immutable, append-only input path. Appending yields a new path
/// and never changes the path appended to.
#[derive(Debug, PartialEq)]
pub struct InputPath {
    pub segs: Vec<PathSeg>,
}

impl View for InputPath {
    type V = Seq<SpecSeg>;

    open spec fn view(&self) -> Seq<SpecSeg> {
        segs_view(self.segs@)
    }
}

/// A copy of a path segment.
pub fn clone_seg(s: &PathSeg) -> (r: PathSeg)
    ensures
        seg_view(r) == seg_view(*s),
{
    match s {
        PathSeg::Key(k) => PathSeg::Key(clone_chars(k)),
        PathSeg::Index(i) => PathSeg::Index(*i),
    }
}

/// Equality of two path segments, in the model.
pub fn seg_eq(a: &PathSeg, b: &PathSeg) -> (r: bool)
    ensures
        r == (seg_view(*a) == seg_view(*b)),
{
    match (a, b) {
        (PathSeg::Key(x), PathSeg::Key(y)) => chars_eq(x, y),
        (PathSeg::Index(x), PathSeg::Index(y)) => *x == *y,
        _ => false,
    }
}

/// A copy of a whole segment list.
pub fn clone_segs(a: &Vec<PathSeg>) -> (r: Vec<PathSeg>)
    ensures
        segs_view(r@) == segs_view(a@),
{
    let mut out: Vec<PathSeg> = Vec::new();
    let mut i: usize = 0;
    while i < a.len()
        invariant
            0 <= i <= a@.len(),
            out@.len() == i,
            forall|j: int| 0 <= j < i ==> seg_view(out@[j]) == seg_view(a@[j]),
        decreases a@.len() - i,
    {
        let s: PathSeg = clone_seg(&a[i]);
        out.push(s);
        i = i + 1;
    }
    proof {
        assert(segs_view(out@) =~= segs_view(a@));
    }
    out
}

/// Elementwise equality of two segment lists, in the model.
pub fn segs_eq(a: &Vec<PathSeg>, b: &Vec<PathSeg>) -> (r: bool)
    ensures
        r == (segs_view(a@) == segs_view(b@)),
{
    if a.len() != b.len() {
        proof {
            assert(segs_view(a@).len() != segs_view(b@).len());
        }
        return false;
    }
    let mut i: usize = 0;
    while i < a.len()
        invariant
            0 <= i <= a@.len(),
            a@.len() == b@.len(),
            forall|j: int| 0 <= j < i ==> seg_view(a@[j]) == seg_view(b@[j]),
        decreases a@.len() - i,
    {
        if !seg_eq(&a[i], &b[i]) {
            proof {
                let gi = i as int;
                assert(segs_view(a@)[gi] != segs_view(b@)[gi]);
            }
            return false;
        }
        i = i + 1;
    }
    proof {
        assert(segs_view(a@) =~= segs_view(b@));
    }
    true
}

impl InputPath {
    /// The empty path, naming the root of the input.
    pub fn empty() -> (r: InputPath)
        ensures
            r@ == Seq::<SpecSeg>::empty(),
    {
        let r = InputPath { segs: Vec::new() };
        proof {
            assert(r@ =~= Seq::<SpecSeg>::empty());
        }
        r
    }

    /// A copy of this path.
    pub fn duplicate(&self) -> (r: InputPath)
        ensures
            r@ == self@,
    {
        InputPath { segs: clone_segs(&self.segs) }
    }

    /// A new path extending this one by one segment; this path is
    /// unchanged.
    pub fn append(&self, seg: PathSeg) -> (r: InputPath)
        ensures
            r@ == self@.push(seg_view(seg)),
    {
        let mut segs: Vec<PathSeg> = clone_segs(&self.segs);
        proof {
            let ghost old_segs = segs@;
            assert(segs_view(old_segs.push(seg)) =~= segs_view(old_segs).push(seg_view(seg)));
        }
        segs.push(seg);
        InputPath { segs }
    }
}

/// A structured evaluation error: a human-readable message and the
/// input path at which it occurred. Two errors are the same exactly
/// when both parts are equal.
#[derive(Debug, PartialEq)]
pub struct ApplyToError {
    pub message: Vec<char>,
    pub path: Vec<PathSeg>,
}

/// The specification model of an error.
pub ghost struct SpecErr {
    pub message: Seq<char>,
    pub path: Seq<SpecSeg>,
}

impl View for ApplyToError {
    type V = SpecErr;

    open spec fn view(&self) -> SpecErr {
        SpecErr { message: self.message@, path: segs_view(self.path@) }
    }
}

impl ApplyToError {
    /// A new error at the given path.
    pub fn new(message: Vec<char>, path: &InputPath) -> (r: ApplyToError)
        ensures
            r@ == (SpecErr { message: message@, path: path@ }),
    {
        ApplyToError { message, path: clone_segs(&path.segs) }
    }

    /// The error in its serialized shape: an object with a `message`
    /// string field and a `path` field holding the path's segments.
    pub fn to_value(&self) -> (r: JsonValue)
        ensures
            r@ == spec_err_value(self@),
    {
        let mut path_vals: Vec<JsonValue> = Vec::new();
        let mut i: usize = 0;
        while i < self.path.len()
            invariant
                0 <= i <= self.path@.len(),
                path_vals@.len() == i,
                forall|j: int|
                    0 <= j < i ==> path_vals@[j]@ == spec_seg_value(seg_view(self.path@[j])),
            decreases self.path@.len() - i,
        {
            let v: JsonValue = match &self.path[i] {
                PathSeg::Key(k) => JsonValue::String(clone_chars(k)),
                PathSeg::Index(n) => JsonValue::Number(
                    crate::num::JsonNum::Int(#[verifier::truncate] (*n as i64)),
                ),
            };
            path_vals.push(v);
            i = i + 1;
        }
        proof {
            let m = self@;
            assert(crate::value::vals_view(path_vals@) =~= Seq::new(
                m.path.len(),
                |i: int| spec_seg_value(m.path[i]),
            ));
        }
        let mut fields: Vec<ObjField> = Vec::new();
        fields.push(
            ObjField { key: str_chars("message"), value: JsonValue::String(clone_chars(&self.message)) },
        );
        fields.push(ObjField { key: str_chars("path"), value: JsonValue::Array(path_vals) });
        proof {
            assert(crate::value::fields_view(fields@) =~= spec_err_value(self@)->Obj_0);
        }
        JsonValue::Object(fields)
    }
}

/// One path segment in its serialized shape: a string or a number.
pub open spec fn spec_seg_value(s: SpecSeg) -> SpecVal {
    match s {
        SpecSeg::Key(k) => SpecVal::Str(k),
        SpecSeg::Index(i) => SpecVal::Int(i as i64),
    }
}

/// An error in its serialized shape.
pub open spec fn spec_err_value(e: SpecErr) -> SpecVal {
    SpecVal::Obj(
        seq![
            SpecField { key: "message"@, value: SpecVal::Str(e.message) },
            SpecField {
                key: "path"@,
                value: SpecVal::Arr(Seq::new(e.path.len(), |i: int| spec_seg_value(e.path[i]))),
            },
        ],
    )
}

/// Inserting into the accumulator: a new error is appended, one already
/// present (same message and path) leaves the collection unchanged.
pub open spec fn spec_insert_err(s: Seq<SpecErr>, e: SpecErr) -> Seq<SpecErr> {
    if exists|i: int| 0 <= i < s.len() && s[i] == e {
        s
    } else {
        s.push(e)
    }
}

/// The ordered, duplicate-eliminating error accumulator.
#[derive(Debug, PartialEq)]
pub struct ErrorAcc {
    pub errs: Vec<ApplyToError>,
}

impl View for ErrorAcc {
    type V = Seq<SpecErr>;

    open spec fn view(&self) -> Seq<SpecErr> {
        Seq::new(self.errs@.len(), |i: int| self.errs@[i]@)
    }
}

impl ErrorAcc {
    /// An empty accumulator.
    pub fn empty() -> (r: ErrorAcc)
        ensures
            r@ == Seq::<SpecErr>::empty(),
    {
        let r = ErrorAcc { errs: Vec::new() };
        proof {
            assert(r@ =~= Seq::<SpecErr>::empty());
        }
        r
    }

    /// How many distinct errors have accumulated.
    pub fn len(&self) -> (r: usize)
        ensures
            r == self@.len(),
    {
        self.errs.len()
    }

    /// Inserts an error, deduplicating by message and path.
    pub fn insert(&mut self, e: ApplyToError)
        ensures
            final(self)@ == spec_insert_err(old(self)@, e@),
    {
        let mut i: usize = 0;
        while i < self.errs.len()
            invariant
                0 <= i <= self.errs@.len(),
                forall|j: int| 0 <= j < i ==> self@[j] != e@,
                self == old(self),
            decreases self.errs@.len() - i,
        {
            let same: bool = chars_eq(&self.errs[i].message, &e.message) && segs_eq(
                &self.errs[i].path,
                &e.path,
            );
            if same {
                proof {
                    let gi = i as int;
                    assert(self@[gi] == e@);
                    assert(spec_insert_err(old(self)@, e@) == old(self)@);
                }
                return;
            }
            i = i + 1;
        }
        proof {
            assert(forall|j: int| 0 <= j < self@.len() ==> self@[j] != e@);
            let ghost before = self@;
            assert(!(exists|i: int| 0 <= i < before.len() && before[i] == e@));
        }
        self.errs.push(e);
        proof {
            assert(self@ =~= old(self)@.push(e@));
        }
    }
}

} // verus!
