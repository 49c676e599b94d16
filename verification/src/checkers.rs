//! Recognisers for the import-related statement and expression shapes
//! the engine treats specially: bindings of the reflection import
//! module, dynamic (call-based) imports, and the entry-point guard.

use vstd::prelude::*;

verus! {

use crate::strings::concat_str;
use crate::strings::str_eq;
use crate::ast::PyAlias;
use crate::ast::PyCmpOp;
use crate::ast::PyExpr;
use crate::ast::PyStmt;
use crate::ast::PyStmtKind;
use crate::full_name::expr_full_names;
use crate::full_name::get_full_name_for_expr;

/// The binding the last `import importlib [as x]` alias of `ns`
/// establishes, if any.
pub open spec fn importlib_alias_in(ns: Seq<PyAlias>) -> Option<Seq<char>>
    decreases ns.len(),
{
    if ns.len() == 0 {
        None
    } else if ns.last().name@ == "importlib"@ {
        Some(ns.last().bound_name())
    } else {
        importlib_alias_in(ns.drop_last())
    }
}

/// The local name under which `stmt` makes the reflection import module
/// available: the bound alias of `import importlib [as x]`, or the
/// module name itself for a level-zero `from importlib import ...`.
pub open spec fn importlib_alias_of(kind: PyStmtKind) -> Option<Seq<char>> {
    match kind {
        PyStmtKind::Import { names } => importlib_alias_in(names@),
        PyStmtKind::ImportFrom { module, names, level } => {
            if level == 0 && (module matches Some(m) && m@ == "importlib"@) {
                Some("importlib"@)
            } else {
                None
            }
        },
        _ => None,
    }
}

/// Reports the local name `stmt` binds the reflection import module to.
pub fn is_importlib_import(stmt: &PyStmt) -> (r: Option<String>)
    ensures
        match (r, importlib_alias_of(stmt.kind)) {
            (Some(a), Some(b)) => a@ == b,
            (None, None) => true,
            _ => false,
        },
{
    proof {
        reveal_strlit("importlib");
    }
    match &stmt.kind {
        PyStmtKind::Import { names } => {
            let mut result: Option<String> = None;
            let mut i: usize = 0;
            while i < names.len()
                invariant
                    i <= names.len(),
                    match (result, importlib_alias_in(names@.take(i as int))) {
                        (Some(a), Some(b)) => a@ == b,
                        (None, None) => true,
                        _ => false,
                    },
                decreases names.len() - i,
            {
                proof {
                    assert(names@.take(i + 1).drop_last() =~= names@.take(i as int));
                    assert(names@.take(i + 1).last() == names@[i as int]);
                }
                if str_eq(names[i].name.as_str(), "importlib") {
                    result = match &names[i].asname {
                        Some(a) => Some(a.clone()),
                        None => Some(names[i].name.clone()),
                    };
                }
                i += 1;
            }
            proof {
                assert(names@.take(names@.len() as int) =~= names@);
            }
            result
        },
        PyStmtKind::ImportFrom { module, names, level } => {
            if *level == 0 {
                match module {
                    Some(m) => {
                        if str_eq(m.as_str(), "importlib") {
                            Some(String::from_str("importlib"))
                        } else {
                            None
                        }
                    },
                    None => None,
                }
            } else {
                None
            }
        },
        _ => None,
    }
}

/// Whether `n` names the reflection import entry point: the builtin
/// `__import__`, or `alias.import_module` for the current importlib
/// binding.
pub open spec fn names_dynamic_import(n: Seq<char>, alias: Option<Seq<char>>) -> bool {
    n == "__import__"@ || (alias matches Some(a) && n == a + ".import_module"@)
}

/// Whether `e` is a call whose callee resolves to a reflection import.
pub open spec fn is_dynamic_call(e: PyExpr, alias: Option<Seq<char>>) -> bool {
    &&& e matches PyExpr::Call { func, args }
    &&& exists|i: int|
        0 <= i < expr_full_names(e).len() && names_dynamic_import(expr_full_names(e)[i], alias)
}

/// The first positional argument of a call, if any.
pub open spec fn call_first_arg(e: PyExpr) -> Option<PyExpr> {
    match e {
        PyExpr::Call { func, args } => {
            if args.len() > 0 {
                Some(args[0])
            } else {
                None
            }
        },
        _ => None,
    }
}

/// When `expr` is a dynamic import with at least one argument, hands the
/// module argument back.
pub fn is_dynamic_import<'a>(expr: &'a PyExpr, importlib_module_alias: Option<&String>) -> (r:
    Option<&'a PyExpr>)
    ensures
        match r {
            Some(a) => is_dynamic_call(*expr, importlib_module_alias.deep_view())
                && call_first_arg(*expr) == Some(*a),
            None => !is_dynamic_call(*expr, importlib_module_alias.deep_view()) || call_first_arg(
                *expr,
            ) is None,
        },
{
    proof {
        reveal_strlit("__import__");
        reveal_strlit(".import_module");
    }
    let ghost alias_view = importlib_module_alias.deep_view();
    match expr {
        PyExpr::Call { func, args } => {
            let full_names = get_full_name_for_expr(expr);
            let ghost fns = full_names.deep_view();
            let mut found: bool = false;
            let mut i: usize = 0;
            while i < full_names.len()
                invariant
                    i <= full_names.len(),
                    fns == full_names.deep_view(),
                    fns == expr_full_names(*expr),
                    alias_view == importlib_module_alias.deep_view(),
                    found <==> exists|j: int|
                        0 <= j < i && names_dynamic_import(fns[j], alias_view),
                decreases full_names.len() - i,
            {
                let n = &full_names[i];
                if str_eq(n.as_str(), "__import__") {
                    found = true;
                    proof {
                        assert(names_dynamic_import(fns[i as int], alias_view));
                    }
                } else {
                    match importlib_module_alias {
                        Some(a) => {
                            let candidate = concat_str(a.as_str(), ".import_module");
                            if str_eq(n.as_str(), candidate.as_str()) {
                                found = true;
                                proof {
                                    assert(names_dynamic_import(fns[i as int], alias_view));
                                }
                            }
                        },
                        None => {},
                    }
                }
                i += 1;
            }
            if found && args.len() > 0 {
                Some(&args[0])
            } else {
                None
            }
        },
        _ => None,
    }
}

/// The literal module path a dynamic-import call names, when its first
/// argument is a string literal.
pub open spec fn dynamic_import_literal(v: PyExpr, alias: Option<Seq<char>>) -> Option<Seq<char>> {
    if is_dynamic_call(v, alias) {
        match call_first_arg(v) {
            Some(PyExpr::StringLiteral { value }) => Some(value@),
            _ => None,
        }
    } else {
        None
    }
}

/// Every extracted name paired with the same module path.
pub open spec fn paired_with(ns: Seq<Seq<char>>, m: Seq<char>) -> Seq<(Seq<char>, Seq<char>)>
    decreases ns.len(),
{
    if ns.len() == 0 {
        Seq::empty()
    } else {
        paired_with(ns.drop_last(), m) + seq![(ns.last(), m)]
    }
}

/// The `(bound name, module path)` pairs a statement's dynamic imports
/// establish: an assignment whose value is a reflection import of a
/// literal string binds each of its target names to that module path.
pub open spec fn dynamic_imports_of(kind: PyStmtKind, alias: Option<Seq<char>>) -> Seq<
    (Seq<char>, Seq<char>),
> {
    match kind {
        PyStmtKind::Assign { targets, value } => {
            match dynamic_import_literal(value, alias) {
                Some(m) => paired_with(crate::full_name::exprs_full_names(targets@), m),
                None => Seq::empty(),
            }
        },
        PyStmtKind::AnnAssign { target, annotation, value } => {
            match value {
                Some(v) => match dynamic_import_literal(v, alias) {
                    Some(m) => paired_with(expr_full_names(target), m),
                    None => Seq::empty(),
                },
                None => Seq::empty(),
            }
        },
        _ => Seq::empty(),
    }
}

/// Pairs every target name of a dynamic-import assignment in `stmt` with
/// the imported module path.
pub fn find_dynamic_import(stmt: &PyStmt, importlib_module_alias: Option<&String>) -> (r: Vec<
    (String, String),
>)
    ensures
        r.deep_view() == dynamic_imports_of(stmt.kind, importlib_module_alias.deep_view()),
{
    let ghost alias_view = importlib_module_alias.deep_view();
    match &stmt.kind {
        PyStmtKind::Assign { targets, value } => {
            match is_dynamic_import(value, importlib_module_alias) {
                Some(arg) => {
                    match arg {
                        PyExpr::StringLiteral { value: lit } => {
                            let mut names: Vec<String> = Vec::new();
                            let mut i: usize = 0;
                            while i < targets.len()
                                invariant
                                    i <= targets.len(),
                                    names.deep_view() == crate::full_name::exprs_full_names(
                                        targets@.take(i as int),
                                    ),
                                decreases targets.len() - i,
                            {
                                proof {
                                    assert(targets@.take(i + 1).drop_last() =~= targets@.take(
                                        i as int,
                                    ));
                                    assert(targets@.take(i + 1).last() == targets@[i as int]);
                                }
                                let ghost old_deep = names.deep_view();
                                let mut sub = get_full_name_for_expr(&targets[i]);
                                let ghost subd = sub.deep_view();
                                names.append(&mut sub);
                                proof {
                                    assert(names.deep_view() =~~= old_deep + subd);
                                    assert(names.deep_view() =~~= crate::full_name::exprs_full_names(
                                        targets@.take(i + 1),
                                    ));
                                }
                                i += 1;
                            }
                            proof {
                                assert(targets@.take(targets@.len() as int) =~= targets@);
                            }
                            pair_all(names, lit)
                        },
                        _ => {
                            let r: Vec<(String, String)> = Vec::new();
                            proof {
                                assert(r.deep_view() =~~= Seq::<(Seq<char>, Seq<char>)>::empty());
                            }
                            r
                        },
                    }
                },
                None => {
                    let r: Vec<(String, String)> = Vec::new();
                    proof {
                        assert(r.deep_view() =~~= Seq::<(Seq<char>, Seq<char>)>::empty());
                    }
                    r
                },
            }
        },
        PyStmtKind::AnnAssign { target, annotation, value } => {
            match value {
                Some(v) => {
                    match is_dynamic_import(v, importlib_module_alias) {
                        Some(arg) => {
                            match arg {
                                PyExpr::StringLiteral { value: lit } => {
                                    let names = get_full_name_for_expr(target);
                                    pair_all(names, lit)
                                },
                                _ => {
                                    let r: Vec<(String, String)> = Vec::new();
                                    proof {
                                        assert(r.deep_view() =~~= Seq::<
                                            (Seq<char>, Seq<char>),
                                        >::empty());
                                    }
                                    r
                                },
                            }
                        },
                        None => {
                            let r: Vec<(String, String)> = Vec::new();
                            proof {
                                assert(r.deep_view() =~~= Seq::<(Seq<char>, Seq<char>)>::empty());
                            }
                            r
                        },
                    }
                },
                None => {
                    let r: Vec<(String, String)> = Vec::new();
                    proof {
                        assert(r.deep_view() =~~= Seq::<(Seq<char>, Seq<char>)>::empty());
                    }
                    r
                },
            }
        },
        _ => {
            let r: Vec<(String, String)> = Vec::new();
            proof {
                assert(r.deep_view() =~~= Seq::<(Seq<char>, Seq<char>)>::empty());
            }
            r
        },
    }
}

/// Pairs every name with the same module path.
fn pair_all(names: Vec<String>, m: &String) -> (r: Vec<(String, String)>)
    ensures
        r.deep_view() == paired_with(names.deep_view(), m@),
{
    let ghost nd = names.deep_view();
    let mut out: Vec<(String, String)> = Vec::new();
    proof {
        assert(out.deep_view() =~~= paired_with(nd.take(0), m@));
    }
    let mut i: usize = 0;
    while i < names.len()
        invariant
            i <= names.len(),
            nd == names.deep_view(),
            out.deep_view() == paired_with(nd.take(i as int), m@),
        decreases names.len() - i,
    {
        proof {
            assert(nd.take(i + 1).drop_last() =~= nd.take(i as int));
            assert(nd.take(i + 1).last() == nd[i as int]);
        }
        let ghost old_deep = out.deep_view();
        out.push((names[i].clone(), m.clone()));
        proof {
            assert(out.deep_view() =~~= old_deep + seq![(nd[i as int], m@)]);
            assert(out.deep_view() =~~= paired_with(nd.take(i + 1), m@));
        }
        i += 1;
    }
    proof {
        assert(nd.take(nd.len() as int) =~= nd);
    }
    out
}

/// Whether `e` is the structural pattern `__name__ == "__main__"` (in
/// either argument order).
pub open spec fn is_name_main_test(e: PyExpr) -> bool {
    match e {
        PyExpr::Compare { left, ops, comparators } => {
            &&& ops.len() == 1
            &&& ops[0] matches PyCmpOp::Eq
            &&& comparators.len() == 1
            &&& {
                ||| ((*left matches PyExpr::Name { id } && id@ == "__name__"@) && (comparators[0]
                    matches PyExpr::StringLiteral { value } && value@ == "__main__"@))
                ||| ((comparators[0] matches PyExpr::Name { id } && id@ == "__name__"@) && (*left
                    matches PyExpr::StringLiteral { value } && value@ == "__main__"@))
            }
        },
        _ => false,
    }
}

/// Recognises the module entry-point guard `if __name__ == "__main__":`.
pub fn is_if_name_main(expr: &PyExpr) -> (r: bool)
    ensures
        r == is_name_main_test(*expr),
{
    proof {
        reveal_strlit("__name__");
        reveal_strlit("__main__");
    }
    match expr {
        PyExpr::Compare { left, ops, comparators } => {
            if ops.len() != 1 || comparators.len() != 1 {
                return false;
            }
            let is_eq = match &ops[0] {
                PyCmpOp::Eq => true,
                _ => false,
            };
            if !is_eq {
                return false;
            }
            let left_is_name = match &**left {
                PyExpr::Name { id } => str_eq(id.as_str(), "__name__"),
                _ => false,
            };
            let left_is_main = match &**left {
                PyExpr::StringLiteral { value } => str_eq(value.as_str(), "__main__"),
                _ => false,
            };
            let right_is_name = match &comparators[0] {
                PyExpr::Name { id } => str_eq(id.as_str(), "__name__"),
                _ => false,
            };
            let right_is_main = match &comparators[0] {
                PyExpr::StringLiteral { value } => str_eq(value.as_str(), "__main__"),
                _ => false,
            };
            (left_is_name && right_is_main) || (right_is_name && left_is_main)
        },
        _ => false,
    }
}

} // verus!
