//! Extraction of the local dotted name(s) a node defines or references:
//! assignment targets, definition names, attribute chains (every
//! suffix-rooted partial chain), import aliases and declarations.

use vstd::prelude::*;

verus! {

use crate::strings::concat_dot;
use crate::ast::PyAlias;
use crate::ast::PyExpr;
use crate::ast::PyStmt;
use crate::ast::PyStmtKind;
use crate::import_resolution::import_from_targets_of;

/// For every chain prefix `v`, both `v` itself and `v.attr`: a later
/// reference may point at an intermediate segment of a dotted chain.
pub open spec fn attr_expand(vs: Seq<Seq<char>>, attr: Seq<char>) -> Seq<Seq<char>>
    decreases vs.len(),
{
    if vs.len() == 0 {
        Seq::empty()
    } else {
        attr_expand(vs.drop_last(), attr) + seq![vs.last(), vs.last() + seq!['.'] + attr]
    }
}

/// The local names an expression mentions, in extraction order.
pub open spec fn expr_full_names(e: PyExpr) -> Seq<Seq<char>>
    decreases e,
{
    match e {
        PyExpr::Name { id } => seq![id@],
        PyExpr::Attribute { value, attr } => attr_expand(expr_full_names(*value), attr@),
        PyExpr::Call { func, args } => expr_full_names(*func),
        PyExpr::Subscript { value, slice } => expr_full_names(*value),
        PyExpr::Named { target, value } => expr_full_names(*target),
        PyExpr::Tuple { elts } => exprs_full_names(elts@),
        _ => Seq::empty(),
    }
}

/// The local names of a sequence of expressions, concatenated.
pub open spec fn exprs_full_names(es: Seq<PyExpr>) -> Seq<Seq<char>>
    decreases es,
{
    if es.len() == 0 {
        Seq::empty()
    } else {
        exprs_full_names(es.drop_last()) + expr_full_names(es.last())
    }
}

/// The imported names of a list of aliases.
pub open spec fn alias_names(ns: Seq<PyAlias>) -> Seq<Seq<char>>
    decreases ns.len(),
{
    if ns.len() == 0 {
        Seq::empty()
    } else {
        alias_names(ns.drop_last()) + seq![ns.last().name@]
    }
}

/// `target.name` for every alias of an `import from` statement.
pub open spec fn prefixed_alias_names(target: Seq<char>, ns: Seq<PyAlias>) -> Seq<Seq<char>>
    decreases ns.len(),
{
    if ns.len() == 0 {
        Seq::empty()
    } else {
        prefixed_alias_names(target, ns.drop_last()) + seq![
            target + seq!['.'] + ns.last().name@,
        ]
    }
}

/// `prefixed_alias_names` over every resolved target module.
pub open spec fn cross_alias_names(targets: Seq<Seq<char>>, ns: Seq<PyAlias>) -> Seq<Seq<char>>
    decreases targets.len(),
{
    if targets.len() == 0 {
        Seq::empty()
    } else {
        cross_alias_names(targets.drop_last(), ns) + prefixed_alias_names(targets.last(), ns)
    }
}

/// The local names a statement defines or references, in extraction
/// order. An unresolvable `import from` yields no names.
pub open spec fn stmt_full_names(s: PyStmtKind, parent: Seq<char>) -> Seq<Seq<char>> {
    match s {
        PyStmtKind::Assign { targets, value } => exprs_full_names(targets@),
        PyStmtKind::AugAssign { target, value } => expr_full_names(target),
        PyStmtKind::AnnAssign { target, annotation, value } => expr_full_names(target),
        PyStmtKind::ClassDef { name, decorators, bases, keywords, class_body } => seq![name@],
        PyStmtKind::FunctionDef { name, decorators, params, body } => seq![name@],
        PyStmtKind::ExprStmt { value } => expr_full_names(value),
        PyStmtKind::Nonlocal { names } => names.deep_view(),
        PyStmtKind::Global { names } => names.deep_view(),
        PyStmtKind::Import { names } => alias_names(names@),
        PyStmtKind::ImportFrom { module, names, level } => {
            match import_from_targets_of(module, names@, level, parent, false) {
                Ok(targets) => cross_alias_names(targets, names@),
                Err(_) => Seq::empty(),
            }
        },
        PyStmtKind::TypeAlias { name, value } => expr_full_names(name),
        _ => Seq::empty(),
    }
}

/// The local names `expr` mentions: a plain name; every prefix of an
/// attribute chain and the chain itself; through the callee of a call,
/// the value of a subscript, the target of a walrus; all elements of a
/// tuple. Other expressions yield none.
#[verifier::loop_isolation(false)]
pub fn get_full_name_for_expr(expr: &PyExpr) -> (r: Vec<String>)
    ensures
        r.deep_view() == expr_full_names(*expr),
    decreases *expr,
{
    broadcast use vstd::std_specs::vec::axiom_vec_decreases_to_view;

    match expr {
        PyExpr::Name { id } => {
            let mut out: Vec<String> = Vec::new();
            out.push(id.clone());
            proof {
                assert(out.deep_view() =~~= seq![id@]);
            }
            out
        },
        PyExpr::Attribute { value, attr } => {
            let vs = get_full_name_for_expr(value);
            let ghost vsd = vs.deep_view();
            let mut out: Vec<String> = Vec::new();
            proof {
                assert(out.deep_view() =~~= attr_expand(vsd.take(0), attr@));
            }
            let mut i: usize = 0;
            while i < vs.len()
                invariant
                    i <= vs.len(),
                    vsd == vs.deep_view(),
                    out.deep_view() == attr_expand(vsd.take(i as int), attr@),
                decreases vs.len() - i,
            {
                proof {
                    assert(vsd.take(i + 1).drop_last() =~= vsd.take(i as int));
                    assert(vsd.take(i + 1).last() == vsd[i as int]);
                }
                let ghost old_deep = out.deep_view();
                out.push(vs[i].clone());
                let appended = concat_dot(vs[i].as_str(), attr.as_str());
                out.push(appended);
                proof {
                    assert(out.deep_view() =~~= old_deep + seq![
                        vsd[i as int],
                        vsd[i as int] + seq!['.'] + attr@,
                    ]);
                    assert(out.deep_view() =~~= attr_expand(vsd.take(i + 1), attr@));
                }
                i += 1;
            }
            proof {
                assert(vsd.take(vsd.len() as int) =~= vsd);
            }
            out
        },
        PyExpr::Call { func, args } => get_full_name_for_expr(func),
        PyExpr::Subscript { value, slice } => get_full_name_for_expr(value),
        PyExpr::Named { target, value } => get_full_name_for_expr(target),
        PyExpr::Tuple { elts } => {
            let mut out: Vec<String> = Vec::new();
            proof {
                assert(out.deep_view() =~~= exprs_full_names(elts@.take(0)));
            }
            let mut i: usize = 0;
            while i < elts.len()
                invariant
                    i <= elts.len(),
                    out.deep_view() == exprs_full_names(elts@.take(i as int)),
                decreases elts.len() - i,
            {
                proof {
                    assert(elts@.take(i + 1).drop_last() =~= elts@.take(i as int));
                    assert(elts@.take(i + 1).last() == elts@[i as int]);
                }
                let ghost old_deep = out.deep_view();
                proof {
                    assert(decreases_to!(*expr => expr->elts));
                    assert(decreases_to!(expr->elts => elts@));
                    assert(decreases_to!(elts@ => elts@[i as int]));
                    assert(decreases_to!(*expr => elts@[i as int]));
                }
                let mut sub = get_full_name_for_expr(&elts[i]);
                let ghost subd = sub.deep_view();
                out.append(&mut sub);
                proof {
                    assert(out.deep_view() =~~= old_deep + subd);
                    assert(out.deep_view() =~~= exprs_full_names(elts@.take(i + 1)));
                }
                i += 1;
            }
            proof {
                assert(elts@.take(elts@.len() as int) =~= elts@);
            }
            out
        },
        _ => {
            let out: Vec<String> = Vec::new();
            proof {
                assert(out.deep_view() =~~= Seq::<Seq<char>>::empty());
                assert(expr_full_names(*expr) =~~= Seq::<Seq<char>>::empty());
            }
            out
        },
    }
}

/// The local names `stmt` defines or references, seen from
/// `parent_package` (which only `import from` statements consult).
pub fn get_full_name_for_stmt(stmt: &PyStmt, parent_package: &str) -> (r: Vec<String>)
    ensures
        r.deep_view() == stmt_full_names(stmt.kind, parent_package@),
{
    match &stmt.kind {
        PyStmtKind::Assign { targets, value } => {
            let mut out: Vec<String> = Vec::new();
            proof {
                assert(out.deep_view() =~~= exprs_full_names(targets@.take(0)));
            }
            let mut i: usize = 0;
            while i < targets.len()
                invariant
                    i <= targets.len(),
                    out.deep_view() == exprs_full_names(targets@.take(i as int)),
                decreases targets.len() - i,
            {
                proof {
                    assert(targets@.take(i + 1).drop_last() =~= targets@.take(i as int));
                    assert(targets@.take(i + 1).last() == targets@[i as int]);
                }
                let ghost old_deep = out.deep_view();
                let mut sub = get_full_name_for_expr(&targets[i]);
                let ghost subd = sub.deep_view();
                out.append(&mut sub);
                proof {
                    assert(out.deep_view() =~~= old_deep + subd);
                    assert(out.deep_view() =~~= exprs_full_names(targets@.take(i + 1)));
                }
                i += 1;
            }
            proof {
                assert(targets@.take(targets@.len() as int) =~= targets@);
            }
            out
        },
        PyStmtKind::AugAssign { target, value } => get_full_name_for_expr(target),
        PyStmtKind::AnnAssign { target, annotation, value } => get_full_name_for_expr(target),
        PyStmtKind::ClassDef { name, .. } => {
            let mut out: Vec<String> = Vec::new();
            out.push(name.clone());
            proof {
                assert(out.deep_view() =~~= seq![name@]);
            }
            out
        },
        PyStmtKind::FunctionDef { name, .. } => {
            let mut out: Vec<String> = Vec::new();
            out.push(name.clone());
            proof {
                assert(out.deep_view() =~~= seq![name@]);
            }
            out
        },
        PyStmtKind::ExprStmt { value } => get_full_name_for_expr(value),
        PyStmtKind::Nonlocal { names } => {
            let r = clone_string_vec(names);
            proof {
                assert(r.deep_view() =~~= names.deep_view());
            }
            r
        },
        PyStmtKind::Global { names } => {
            let r = clone_string_vec(names);
            proof {
                assert(r.deep_view() =~~= names.deep_view());
            }
            r
        },
        PyStmtKind::Import { names } => {
            let mut out: Vec<String> = Vec::new();
            proof {
                assert(out.deep_view() =~~= alias_names(names@.take(0)));
            }
            let mut i: usize = 0;
            while i < names.len()
                invariant
                    i <= names.len(),
                    out.deep_view() == alias_names(names@.take(i as int)),
                decreases names.len() - i,
            {
                proof {
                    assert(names@.take(i + 1).drop_last() =~= names@.take(i as int));
                    assert(names@.take(i + 1).last() == names@[i as int]);
                }
                let ghost old_deep = out.deep_view();
                out.push(names[i].name.clone());
                proof {
                    assert(out.deep_view() =~~= old_deep + seq![names@[i as int].name@]);
                    assert(out.deep_view() =~~= alias_names(names@.take(i + 1)));
                }
                i += 1;
            }
            proof {
                assert(names@.take(names@.len() as int) =~= names@);
            }
            out
        },
        PyStmtKind::ImportFrom { module, names, level } => {
            match crate::import_resolution::get_import_from_absolute_module_spec(
                module,
                names,
                *level,
                parent_package,
                false,
            ) {
                Err(_) => {
                    let out: Vec<String> = Vec::new();
                    proof {
                        assert(out.deep_view() =~~= Seq::<Seq<char>>::empty());
                    }
                    out
                },
                Ok(targets) => {
                    let ghost td = targets.deep_view();
                    let mut out: Vec<String> = Vec::new();
                    proof {
                        assert(out.deep_view() =~~= cross_alias_names(td.take(0), names@));
                    }
                    let mut i: usize = 0;
                    while i < targets.len()
                        invariant
                            i <= targets.len(),
                            td == targets.deep_view(),
                            out.deep_view() == cross_alias_names(td.take(i as int), names@),
                        decreases targets.len() - i,
                    {
                        proof {
                            assert(td.take(i + 1).drop_last() =~= td.take(i as int));
                            assert(td.take(i + 1).last() == td[i as int]);
                        }
                        let ghost outer_old = out.deep_view();
                        let mut j: usize = 0;
                        while j < names.len()
                            invariant
                                j <= names.len(),
                                i < targets.len(),
                                td == targets.deep_view(),
                                out.deep_view() == outer_old + prefixed_alias_names(
                                    td[i as int],
                                    names@.take(j as int),
                                ),
                            decreases names.len() - j,
                        {
                            proof {
                                assert(names@.take(j + 1).drop_last() =~= names@.take(j as int));
                                assert(names@.take(j + 1).last() == names@[j as int]);
                            }
                            let ghost old_deep = out.deep_view();
                            out.push(concat_dot(targets[i].as_str(), names[j].name.as_str()));
                            proof {
                                assert(out.deep_view() =~~= old_deep + seq![
                                    td[i as int] + seq!['.'] + names@[j as int].name@,
                                ]);
                                assert(out.deep_view() =~~= outer_old + prefixed_alias_names(
                                    td[i as int],
                                    names@.take(j + 1),
                                ));
                            }
                            j += 1;
                        }
                        proof {
                            assert(names@.take(names@.len() as int) =~= names@);
                            assert(out.deep_view() =~~= cross_alias_names(td.take(i + 1), names@));
                        }
                        i += 1;
                    }
                    proof {
                        assert(td.take(td.len() as int) =~= td);
                    }
                    out
                },
            }
        },
        PyStmtKind::TypeAlias { name, value } => get_full_name_for_expr(name),
        _ => {
            let out: Vec<String> = Vec::new();
            proof {
                assert(out.deep_view() =~~= Seq::<Seq<char>>::empty());
                assert(stmt_full_names(stmt.kind, parent_package@) =~~= Seq::<Seq<char>>::empty());
            }
            out
        },
    }
}

/// An element-wise copy of a vector of strings.
fn clone_string_vec(v: &Vec<String>) -> (r: Vec<String>)
    ensures
        r.deep_view() == v.deep_view(),
{
    let mut out: Vec<String> = Vec::new();
    let mut i: usize = 0;
    while i < v.len()
        invariant
            i <= v.len(),
            out.deep_view() == v.deep_view().take(i as int),
        decreases v.len() - i,
    {
        let ghost old_deep = out.deep_view();
        out.push(v[i].clone());
        proof {
            assert(out.deep_view() =~~= old_deep.push(v.deep_view()[i as int]));
            assert(out.deep_view() =~~= v.deep_view().take(i + 1));
        }
        i += 1;
    }
    proof {
        assert(v.deep_view().take(v.deep_view().len() as int) =~= v.deep_view());
    }
    out
}

} // verus!
