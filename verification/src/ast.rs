//! The expression tree the evaluator walks.
//!
//! A selection is either a set of named selections (an output object to
//! build) or a single path. A path is a chain of variable references,
//! key accesses and arrow-method calls, ending either empty or in a
//! sub-selection. Method arguments are literal expressions, which may
//! themselves embed paths. The tree is immutable once built; the parser
//! that builds it from source text is outside this crate.
//!
//! The `*_size` functions are termination measures for the mutually
//! recursive evaluators; every node counts at least one.

use vstd::prelude::*;

use crate::num::JsonNum;

verus! {

/// A variable reference: `@` is the value the current path expression
/// is being applied to; any other variable (`$` included) is looked up
/// by name in the variable map.
#[derive(Debug, PartialEq)]
pub enum VarName {
    At,
    Named(Vec<char>),
}

/// A literal argument expression: a JSON-shaped literal whose array
/// elements and object values are again expressions, or an embedded
/// path.
#[derive(Debug, PartialEq)]
pub enum LitExpr {
    Null,
    Bool(bool),
    Number(JsonNum),
    String(Vec<char>),
    Array(Vec<LitExpr>),
    Object(Vec<LitField>),
    Path(PathList),
}

/// One key/value entry of an object literal.
#[derive(Debug, PartialEq)]
pub struct LitField {
    pub key: Vec<char>,
    pub value: LitExpr,
}

/// The arguments syntactically supplied to a method invocation. A
/// method referenced without parentheses carries no `MethodArgs` at
/// all, which is distinct from empty parentheses.
#[derive(Debug, PartialEq)]
pub struct MethodArgs(pub Vec<LitExpr>);

/// The not-yet-evaluated remainder of a path expression.
#[derive(Debug, PartialEq)]
pub enum PathList {
    /// A variable reference followed by the rest of the path.
    Var(VarName, Box<PathList>),
    /// An object key access followed by the rest of the path.
    Key(Vec<char>, Box<PathList>),
    /// An arrow-method invocation; the rest of the path is the tail the
    /// method hands its result to.
    Method(Vec<char>, Option<MethodArgs>, Box<PathList>),
    /// A trailing sub-selection applied to the current value.
    Selection(SubSelection),
    /// The end of the path: the current value is the result.
    Empty,
}

/// A braced set of named selections, building an output object (and
/// distributing over arrays).
#[derive(Debug, PartialEq)]
pub struct SubSelection {
    pub selections: Vec<NamedSelection>,
}

/// One entry of a sub-selection.
#[derive(Debug, PartialEq)]
pub enum NamedSelection {
    /// A field taken from the current object: an optional output alias,
    /// the key, and an optional sub-selection applied to the field's
    /// value. Without an alias the output key is the field key itself.
    Field(Option<Vec<char>>, Vec<char>, Option<SubSelection>),
    /// An aliased path evaluated against the current value.
    Path(Vec<char>, PathList),
}

/// A whole selection expression.
#[derive(Debug, PartialEq)]
pub enum JSONSelection {
    Named(SubSelection),
    Path(PathList),
}

/// The size of a literal expression.
pub open spec fn lit_size(e: LitExpr) -> nat
    decreases e,
{
    match e {
        LitExpr::Array(elems) => 1 + lit_seq_size(elems@),
        LitExpr::Object(fields) => 1 + lit_fields_size(fields@),
        LitExpr::Path(p) => 1 + path_size(p),
        _ => 1,
    }
}

/// The combined size of a sequence of literal expressions.
pub open spec fn lit_seq_size(s: Seq<LitExpr>) -> nat
    decreases s,
{
    if s.len() == 0 {
        1
    } else {
        1 + lit_size(s[0]) + lit_seq_size(s.drop_first())
    }
}

/// The combined size of a sequence of object-literal fields.
pub open spec fn lit_fields_size(s: Seq<LitField>) -> nat
    decreases s,
{
    if s.len() == 0 {
        1
    } else {
        1 + lit_size(s[0].value) + lit_fields_size(s.drop_first())
    }
}

/// The size of an optional argument list.
pub open spec fn args_size(args: Option<MethodArgs>) -> nat
    decreases args,
{
    match args {
        Option::None => 1,
        Option::Some(m) => 1 + lit_seq_size(m.0@),
    }
}

/// The size of a path.
pub open spec fn path_size(p: PathList) -> nat
    decreases p,
{
    match p {
        PathList::Var(_, tail) => 1 + path_size(*tail),
        PathList::Key(_, tail) => 1 + path_size(*tail),
        PathList::Method(_, args, tail) => 1 + args_size(args) + path_size(*tail),
        PathList::Selection(sub) => 1 + sub_size(sub),
        PathList::Empty => 1,
    }
}

/// The size of a sub-selection.
pub open spec fn sub_size(sub: SubSelection) -> nat
    decreases sub,
{
    1 + named_seq_size(sub.selections@)
}

/// The combined size of a sequence of named selections.
pub open spec fn named_seq_size(s: Seq<NamedSelection>) -> nat
    decreases s,
{
    if s.len() == 0 {
        1
    } else {
        1 + named_size(s[0]) + named_seq_size(s.drop_first())
    }
}

/// The size of one named selection.
pub open spec fn named_size(n: NamedSelection) -> nat
    decreases n,
{
    match n {
        NamedSelection::Field(_, _, sub) => match sub {
            Option::Some(s) => 1 + sub_size(s),
            Option::None => 1,
        },
        NamedSelection::Path(_, p) => 1 + path_size(p),
    }
}

/// Each element of a sequence of literal expressions is smaller than
/// the whole.
pub proof fn lemma_lit_seq_size_elem(s: Seq<LitExpr>, i: int)
    requires
        0 <= i < s.len(),
    ensures
        lit_size(s[i]) < lit_seq_size(s),
    decreases i,
{
    if i == 0 {
    } else {
        lemma_lit_seq_size_elem(s.drop_first(), i - 1);
    }
}

/// Each field value of an object literal is smaller than the whole.
pub proof fn lemma_lit_fields_size_elem(s: Seq<LitField>, i: int)
    requires
        0 <= i < s.len(),
    ensures
        lit_size(s[i].value) < lit_fields_size(s),
    decreases i,
{
    if i == 0 {
    } else {
        lemma_lit_fields_size_elem(s.drop_first(), i - 1);
    }
}

/// Each named selection of a sequence is smaller than the whole.
pub proof fn lemma_named_seq_size_elem(s: Seq<NamedSelection>, i: int)
    requires
        0 <= i < s.len(),
    ensures
        named_size(s[i]) < named_seq_size(s),
    decreases i,
{
    if i == 0 {
    } else {
        lemma_named_seq_size_elem(s.drop_first(), i - 1);
    }
}

} // verus!
