//! The statement and expression model the engine works on.
//!
//! Each statement carries a caller-chosen identity so that pruning
//! decisions made here can be replayed on whatever concrete syntax tree
//! the statements were read from. Statement and expression kinds that the
//! engine never inspects are folded into `Other`, which still records the
//! child expressions and nested statement bodies that must be walked.

use vstd::prelude::*;

verus! {

/// One name bound by an `import` or `import from` statement.
pub struct PyAlias {
    /// Caller-chosen identity of this alias entry.
    pub id: u64,
    /// The imported (dotted) name.
    pub name: String,
    /// The local binding when the alias has an `as` clause.
    pub asname: Option<String>,
}

/// Comparison operators of a comparison expression.
pub enum PyCmpOp {
    Eq,
    NotEq,
    Lt,
    LtE,
    Gt,
    GtE,
    Is,
    IsNot,
    In,
    NotIn,
}

/// An expression, reduced to the shapes the engine distinguishes.
pub enum PyExpr {
    /// A plain name lookup or binding.
    Name { id: String },
    /// `value.attr`.
    Attribute { value: Box<PyExpr>, attr: String },
    /// A call; `args` covers positional and keyword argument values.
    Call { func: Box<PyExpr>, args: Vec<PyExpr> },
    /// `value[slice]`.
    Subscript { value: Box<PyExpr>, slice: Box<PyExpr> },
    /// A named (walrus) expression `target := value`.
    Named { target: Box<PyExpr>, value: Box<PyExpr> },
    /// A tuple display.
    Tuple { elts: Vec<PyExpr> },
    /// A string literal.
    StringLiteral { value: String },
    /// A comparison chain.
    Compare { left: Box<PyExpr>, ops: Vec<PyCmpOp>, comparators: Vec<PyExpr> },
    /// Any other expression; `children` are its sub-expressions in source
    /// order.
    Other { children: Vec<PyExpr> },
}

/// A statement: an identity plus its kind.
pub struct PyStmt {
    /// Caller-chosen identity of this statement.
    pub id: u64,
    pub kind: PyStmtKind,
}

/// A statement, reduced to the shapes the engine distinguishes.
pub enum PyStmtKind {
    /// `def name(...)` (or its async form); `params` holds parameter
    /// annotations and defaults together with the return annotation.
    FunctionDef {
        name: String,
        decorators: Vec<PyExpr>,
        params: Vec<PyExpr>,
        body: Vec<PyStmt>,
    },
    /// `class name(...)`.
    ClassDef {
        name: String,
        decorators: Vec<PyExpr>,
        bases: Vec<PyExpr>,
        keywords: Vec<PyExpr>,
        class_body: Vec<PyStmt>,
    },
    /// `targets = value` (possibly chained targets).
    Assign { targets: Vec<PyExpr>, value: PyExpr },
    /// `target op= value`.
    AugAssign { target: PyExpr, value: PyExpr },
    /// `target: annotation [= value]`.
    AnnAssign { target: PyExpr, annotation: PyExpr, value: Option<PyExpr> },
    /// `import names`.
    Import { names: Vec<PyAlias> },
    /// `from module import names`, with `level` leading dots.
    ImportFrom { module: Option<String>, names: Vec<PyAlias>, level: u32 },
    /// A bare expression statement.
    ExprStmt { value: PyExpr },
    /// `if test: ... else: ...` (elif chains flattened into the else
    /// branch).
    If { test: PyExpr, then_body: Vec<PyStmt>, else_body: Vec<PyStmt> },
    /// `for target in iter: ... else: ...` (or its async form).
    For { target: PyExpr, iter: PyExpr, loop_body: Vec<PyStmt>, loop_else: Vec<PyStmt> },
    /// `global names`.
    Global { names: Vec<String> },
    /// `nonlocal names`.
    Nonlocal { names: Vec<String> },
    /// `type name = value`.
    TypeAlias { name: PyExpr, value: PyExpr },
    /// Any other statement; `values` are its immediate child expressions
    /// and `nested` its nested statements, in source order.
    Other { values: Vec<PyExpr>, nested: Vec<PyStmt> },
}

impl PyAlias {
    /// The local name this alias binds: the `as` name when present, the
    /// imported name otherwise.
    pub open spec fn bound_name(self) -> Seq<char> {
        match self.asname {
            Some(a) => a@,
            None => self.name@,
        }
    }

    /// A field-wise copy.
    pub fn duplicate(&self) -> (r: Self)
        ensures
            r == *self,
    {
        PyAlias {
            id: self.id,
            name: self.name.clone(),
            asname: match &self.asname {
                Some(a) => Some(a.clone()),
                None => None,
            },
        }
    }
}

} // verus!
