//! Module discovery decisions: which candidate module paths a statement
//! makes the collector probe, which files are recorded as source or as
//! opaque leaves, and the per-module visiting state. The surrounding
//! driver resolves candidates to files, reads them, and recurses.

use vstd::prelude::*;

verus! {

use crate::strings::concat_dot;
use crate::strings::str_eq;
use crate::ast::PyAlias;
use crate::ast::PyExpr;
use crate::ast::PyStmt;
use crate::ast::PyStmtKind;
use crate::checkers::call_first_arg;
use crate::checkers::is_dynamic_call;
use crate::checkers::is_dynamic_import;
use crate::checkers::is_importlib_import;
use crate::import_resolution::get_import_from_absolute_module_spec;
use crate::import_resolution::import_from_targets_of;
use crate::imports_provider::importlib_after;
use crate::imports_provider::parent_package_context;
use crate::tables::StrMap;

/// One discovered file: its dotted module name, its path, and its text
/// for source files; opaque third-party files carry no text.
pub struct CollectedFile {
    pub module_name: String,
    pub path: String,
    pub content: Option<String>,
}

/// The module paths named by dynamic-import calls anywhere under an
/// expression, in source order.
pub open spec fn expr_dynamic_modules(e: PyExpr, alias: Option<Seq<char>>) -> Seq<Seq<char>>
    decreases e, 1int,
{
    (if is_dynamic_call(e, alias) {
        match call_first_arg(e) {
            Some(PyExpr::StringLiteral { value }) => seq![value@],
            _ => Seq::<Seq<char>>::empty(),
        }
    } else {
        Seq::<Seq<char>>::empty()
    }) + match e {
        PyExpr::Attribute { value, attr } => expr_dynamic_modules(*value, alias),
        PyExpr::Call { func, args } => expr_dynamic_modules(*func, alias) + exprs_dynamic_modules(
            args@,
            alias,
        ),
        PyExpr::Subscript { value, slice } => expr_dynamic_modules(*value, alias)
            + expr_dynamic_modules(*slice, alias),
        PyExpr::Named { target, value } => expr_dynamic_modules(*target, alias)
            + expr_dynamic_modules(*value, alias),
        PyExpr::Tuple { elts } => exprs_dynamic_modules(elts@, alias),
        PyExpr::Compare { left, ops, comparators } => expr_dynamic_modules(*left, alias)
            + exprs_dynamic_modules(comparators@, alias),
        PyExpr::Other { children } => exprs_dynamic_modules(children@, alias),
        _ => Seq::<Seq<char>>::empty(),
    }
}

/// `expr_dynamic_modules` concatenated over an expression list.
pub open spec fn exprs_dynamic_modules(es: Seq<PyExpr>, alias: Option<Seq<char>>) -> Seq<Seq<char>>
    decreases es, 0int,
{
    if es.len() == 0 {
        Seq::empty()
    } else {
        exprs_dynamic_modules(es.drop_last(), alias) + expr_dynamic_modules(es.last(), alias)
    }
}

/// The replacement modules a multi-valued module-alias table offers.
pub open spec fn module_alias_values(
    pairs: Seq<(Seq<char>, Seq<char>)>,
    key: Seq<char>,
) -> Seq<Seq<char>>
    decreases pairs.len(),
{
    if pairs.len() == 0 {
        Seq::empty()
    } else {
        module_alias_values(pairs.drop_last(), key) + if pairs.last().0 == key {
            seq![pairs.last().1]
        } else {
            Seq::<Seq<char>>::empty()
        }
    }
}

/// The candidates a plain `import` contributes: each imported dotted
/// name, and every module-alias replacement of it.
pub open spec fn import_candidates(
    malias: Seq<(Seq<char>, Seq<char>)>,
    names: Seq<PyAlias>,
) -> Seq<Seq<char>>
    decreases names.len(),
{
    if names.len() == 0 {
        Seq::empty()
    } else {
        import_candidates(malias, names.drop_last()) + seq![names.last().name@]
            + module_alias_values(malias, names.last().name@)
    }
}

/// The candidates one resolved target of an `import from` contributes:
/// the target, its alias replacement, and for every non-wildcard name
/// the `target.name` submodule reading with its replacements.
pub open spec fn from_target_candidates(
    ialias: Map<Seq<char>, Seq<char>>,
    malias: Seq<(Seq<char>, Seq<char>)>,
    target: Seq<char>,
    names: Seq<PyAlias>,
) -> Seq<Seq<char>>
    decreases names.len(),
{
    if names.len() == 0 {
        Seq::empty()
    } else {
        from_target_candidates(ialias, malias, target, names.drop_last()) + if names.last().name@
            == "*"@ {
            Seq::<Seq<char>>::empty()
        } else {
            let sub = target + seq!['.'] + names.last().name@;
            seq![sub] + (if ialias.contains_key(sub) {
                seq![ialias[sub]]
            } else {
                Seq::<Seq<char>>::empty()
            }) + module_alias_values(malias, sub)
        }
    }
}

/// `from_target_candidates` over every resolved target, each preceded by
/// the target itself and its alias replacement.
pub open spec fn from_candidates(
    ialias: Map<Seq<char>, Seq<char>>,
    malias: Seq<(Seq<char>, Seq<char>)>,
    targets: Seq<Seq<char>>,
    names: Seq<PyAlias>,
) -> Seq<Seq<char>>
    decreases targets.len(),
{
    if targets.len() == 0 {
        Seq::empty()
    } else {
        from_candidates(ialias, malias, targets.drop_last(), names) + seq![targets.last()] + (
        if ialias.contains_key(targets.last()) {
            seq![ialias[targets.last()]]
        } else {
            Seq::<Seq<char>>::empty()
        }) + from_target_candidates(ialias, malias, targets.last(), names)
    }
}

/// Collects first-party files by following import statements from an
/// entry module; third-party and unreadable files stay opaque leaves.
/// This type owns the decisions; the driver around it owns the file
/// system and the recursion.
pub struct FileCollector {
    pub package: String,
    pub collected_files: Vec<CollectedFile>,
    pub importlib_package_alias: Option<String>,
    pub import_aliases: StrMap,
    pub module_aliases: Vec<(String, String)>,
}

impl FileCollector {
    pub open spec fn wf(&self) -> bool {
        self.import_aliases.wf()
    }

    /// The multi-valued module-alias pairs, in insertion order.
    pub open spec fn malias_pairs(&self) -> Seq<(Seq<char>, Seq<char>)> {
        self.module_aliases@.map_values(|p: (String, String)| (p.0@, p.1@))
    }

    /// The current importlib binding, as a sequence view.
    pub open spec fn importlib_view(&self) -> Option<Seq<char>> {
        self.importlib_package_alias.deep_view()
    }

    /// Builds a collector rooted at `package`: each alias pair also
    /// contributes the parent-package pair, since an aliased import may
    /// secretly point at a package.
    #[verifier::loop_isolation(false)]
    pub fn new(package: String, import_aliases: StrMap) -> (r: Self)
        requires
            import_aliases.wf(),
        ensures
            r.wf(),
            r.package@ == package@,
            r.collected_files@.len() == 0,
            r.importlib_view() is None,
            r.import_aliases == import_aliases,
            r.malias_pairs().len() == import_aliases.pairs().len(),
            forall|i: int|
                0 <= i < r.malias_pairs().len() ==> #[trigger] r.malias_pairs()[i]
                    == (
                crate::module_spec::parent_package_of(import_aliases.pairs()[i].0),
                crate::module_spec::parent_package_of(import_aliases.pairs()[i].1),
                ),
    {
        let mut module_aliases: Vec<(String, String)> = Vec::new();
        let n = import_aliases.len();
        let mut i: usize = 0;
        while i < n
            invariant
                i <= n,
                module_aliases@.len() == i,
                forall|j: int|
                    0 <= j < i ==> (#[trigger] module_aliases@[j].0@, module_aliases@[j].1@) == (
                    crate::module_spec::parent_package_of(import_aliases.pairs()[j].0),
                    crate::module_spec::parent_package_of(import_aliases.pairs()[j].1),
                    ),
            decreases n - i,
        {
            let search_module = crate::module_spec::get_parent_package(
                import_aliases.key_at(i).as_str(),
            );
            let replacement_module = crate::module_spec::get_parent_package(
                import_aliases.value_at(i).as_str(),
            );
            module_aliases.push((search_module, replacement_module));
            i += 1;
        }
        let r = FileCollector {
            package,
            collected_files: Vec::new(),
            importlib_package_alias: None,
            import_aliases,
            module_aliases,
        };
        proof {
            assert forall|i2: int| 0 <= i2 < r.malias_pairs().len() implies #[trigger] r
                .malias_pairs()[i2] == (
            crate::module_spec::parent_package_of(r.import_aliases.pairs()[i2].0),
            crate::module_spec::parent_package_of(r.import_aliases.pairs()[i2].1),
            ) by {
                assert(r.malias_pairs()[i2] == (r.module_aliases@[i2].0@, r.module_aliases@[
                    i2
                ].1@));
            }
        }
        r
    }

    /// Whether the keyed file was already collected: the sole guard
    /// against cycles in the import graph.
    pub fn is_collected(&self, module_name: &str, path: &str) -> (r: bool)
        ensures
            r == (exists|i: int|
                0 <= i < self.collected_files@.len() && (#[trigger] self.collected_files@[
                    i
                ].module_name)@ == module_name@ && self.collected_files@[i].path@ == path@),
    {
        let mut i: usize = 0;
        while i < self.collected_files.len()
            invariant
                i <= self.collected_files@.len(),
                forall|j: int|
                    0 <= j < i ==> !((#[trigger] self.collected_files@[j].module_name)@
                        == module_name@ && self.collected_files@[j].path@ == path@),
            decreases self.collected_files@.len() - i,
        {
            if str_eq(self.collected_files[i].module_name.as_str(), module_name) && str_eq(
                self.collected_files[i].path.as_str(),
                path,
            ) {
                return true;
            }
            i += 1;
        }
        false
    }

    /// Records a first-party source file with its text.
    pub fn record_source(&mut self, module_name: String, path: String, content: String)
        ensures
            final(self).collected_files@ == old(self).collected_files@.push(
                CollectedFile { module_name, path, content: Some(content) },
            ),
            final(self).package == old(self).package,
            final(self).importlib_package_alias == old(self).importlib_package_alias,
            final(self).import_aliases == old(self).import_aliases,
            final(self).module_aliases == old(self).module_aliases,
    {
        self.collected_files.push(CollectedFile { module_name, path, content: Some(content) });
    }

    /// Records an opaque (non-source) file by its path alone.
    pub fn record_opaque(&mut self, module_name: String, path: String)
        ensures
            final(self).collected_files@ == old(self).collected_files@.push(
                CollectedFile { module_name, path, content: None },
            ),
            final(self).package == old(self).package,
            final(self).importlib_package_alias == old(self).importlib_package_alias,
            final(self).import_aliases == old(self).import_aliases,
            final(self).module_aliases == old(self).module_aliases,
    {
        self.collected_files.push(CollectedFile { module_name, path, content: None });
    }

    /// The parent-package context a discovered module hands to the
    /// collection of its own imports: the module itself for a package
    /// entry file, its parent package otherwise.
    pub fn next_parent_package(module_name: &str, source_path: &str) -> (r: String)
        ensures
            r@ == parent_package_context(module_name@, source_path@),
    {
        let provider = crate::imports_provider::ImportsTrackingProvider::new(
            module_name,
            source_path,
        );
        provider.get_parent_package()
    }

    /// The visiting state a driver saves before descending into a newly
    /// discovered module: the package context and the importlib binding.
    pub fn save_visit_state(&self) -> (r: (String, Option<String>))
        ensures
            r.0@ == self.package@,
            r.1.deep_view() == self.importlib_view(),
    {
        let alias = match &self.importlib_package_alias {
            Some(a) => Some(a.clone()),
            None => None,
        };
        (self.package.clone(), alias)
    }

    /// Restores the saved visiting state and enters `next_package` for
    /// the module about to be visited.
    pub fn enter_package(&mut self, next_package: String)
        ensures
            final(self).package@ == next_package@,
            final(self).importlib_view() is None,
            final(self).collected_files == old(self).collected_files,
            final(self).import_aliases == old(self).import_aliases,
            final(self).module_aliases == old(self).module_aliases,
    {
        self.package = next_package;
        self.importlib_package_alias = None;
    }

    /// Puts back the state saved by `save_visit_state`.
    pub fn restore_visit_state(&mut self, saved: (String, Option<String>))
        ensures
            final(self).package@ == saved.0@,
            final(self).importlib_view() == saved.1.deep_view(),
            final(self).collected_files == old(self).collected_files,
            final(self).import_aliases == old(self).import_aliases,
            final(self).module_aliases == old(self).module_aliases,
    {
        let (package, alias) = saved;
        self.package = package;
        self.importlib_package_alias = alias;
    }

    /// All replacement modules the module-alias table offers for `key`.
    #[verifier::loop_isolation(false)]
    fn module_alias_lookups(&self, key: &str) -> (r: Vec<String>)
        ensures
            r.deep_view() == module_alias_values(self.malias_pairs(), key@),
    {
        let mut out: Vec<String> = Vec::new();
        proof {
            assert(out.deep_view() =~~= module_alias_values(self.malias_pairs().take(0), key@));
        }
        let mut i: usize = 0;
        while i < self.module_aliases.len()
            invariant
                i <= self.module_aliases.len(),
                out.deep_view() == module_alias_values(self.malias_pairs().take(i as int), key@),
            decreases self.module_aliases.len() - i,
        {
            proof {
                assert(self.malias_pairs().take(i + 1).drop_last() =~= self.malias_pairs().take(
                    i as int,
                ));
                assert(self.malias_pairs().take(i + 1).last() == self.malias_pairs()[i as int]);
            }
            let ghost old_deep = out.deep_view();
            if str_eq(self.module_aliases[i].0.as_str(), key) {
                out.push(self.module_aliases[i].1.clone());
                proof {
                    assert(out.deep_view() =~~= old_deep + seq![self.malias_pairs()[i as int].1]);
                }
            }
            proof {
                assert(out.deep_view() =~~= module_alias_values(
                    self.malias_pairs().take(i + 1),
                    key@,
                ));
            }
            i += 1;
        }
        proof {
            assert(self.malias_pairs().take(self.malias_pairs().len() as int)
                =~= self.malias_pairs());
        }
        out
    }
}

/// The candidates and importlib binding a statement leaves behind:
/// import statements contribute their resolved module paths with alias
/// expansions, every other statement contributes the dynamic imports
/// found in its expressions and nested bodies, in source order.
pub open spec fn stmt_candidates(
    ialias: Map<Seq<char>, Seq<char>>,
    malias: Seq<(Seq<char>, Seq<char>)>,
    package: Seq<char>,
    stmt: PyStmt,
    alias: Option<Seq<char>>,
) -> (Seq<Seq<char>>, Option<Seq<char>>)
    decreases stmt, 1int,
{
    let alias1 = importlib_after(alias, stmt.kind);
    match stmt.kind {
        PyStmtKind::Import { names } => (import_candidates(malias, names@), alias1),
        PyStmtKind::ImportFrom { module, names, level } => {
            let targets = match import_from_targets_of(module, names@, level, package, true) {
                Ok(t) => t,
                Err(_) => Seq::empty(),
            };
            (from_candidates(ialias, malias, targets, names@), alias1)
        },
        PyStmtKind::FunctionDef { name, decorators, params, body } => {
            let pre = exprs_dynamic_modules(decorators@, alias1) + exprs_dynamic_modules(
                params@,
                alias1,
            );
            let (cs, a2) = body_candidates(ialias, malias, package, body@, alias1);
            (pre + cs, a2)
        },
        PyStmtKind::ClassDef { name, decorators, bases, keywords, class_body } => {
            let pre = exprs_dynamic_modules(decorators@, alias1) + exprs_dynamic_modules(
                bases@,
                alias1,
            ) + exprs_dynamic_modules(keywords@, alias1);
            let (cs, a2) = body_candidates(ialias, malias, package, class_body@, alias1);
            (pre + cs, a2)
        },
        PyStmtKind::Assign { targets, value } => (
            exprs_dynamic_modules(targets@, alias1) + expr_dynamic_modules(value, alias1),
            alias1,
        ),
        PyStmtKind::AugAssign { target, value } => (
            expr_dynamic_modules(target, alias1) + expr_dynamic_modules(value, alias1),
            alias1,
        ),
        PyStmtKind::AnnAssign { target, annotation, value } => (
            expr_dynamic_modules(target, alias1) + expr_dynamic_modules(annotation, alias1)
                + match value {
                Some(v) => expr_dynamic_modules(v, alias1),
                None => Seq::<Seq<char>>::empty(),
            },
            alias1,
        ),
        PyStmtKind::ExprStmt { value } => (expr_dynamic_modules(value, alias1), alias1),
        PyStmtKind::If { test, then_body, else_body } => {
            let pre = expr_dynamic_modules(test, alias1);
            let (cs1, a2) = body_candidates(ialias, malias, package, then_body@, alias1);
            let (cs2, a3) = body_candidates(ialias, malias, package, else_body@, a2);
            (pre + cs1 + cs2, a3)
        },
        PyStmtKind::For { target, iter, loop_body, loop_else } => {
            let pre = expr_dynamic_modules(target, alias1) + expr_dynamic_modules(iter, alias1);
            let (cs1, a2) = body_candidates(ialias, malias, package, loop_body@, alias1);
            let (cs2, a3) = body_candidates(ialias, malias, package, loop_else@, a2);
            (pre + cs1 + cs2, a3)
        },
        PyStmtKind::TypeAlias { name, value } => (
            expr_dynamic_modules(name, alias1) + expr_dynamic_modules(value, alias1),
            alias1,
        ),
        PyStmtKind::Other { values, nested } => {
            let pre = exprs_dynamic_modules(values@, alias1);
            let (cs, a2) = body_candidates(ialias, malias, package, nested@, alias1);
            (pre + cs, a2)
        },
        _ => (Seq::<Seq<char>>::empty(), alias1),
    }
}

/// `stmt_candidates` threaded through a statement list in order.
pub open spec fn body_candidates(
    ialias: Map<Seq<char>, Seq<char>>,
    malias: Seq<(Seq<char>, Seq<char>)>,
    package: Seq<char>,
    body: Seq<PyStmt>,
    alias: Option<Seq<char>>,
) -> (Seq<Seq<char>>, Option<Seq<char>>)
    decreases body, 0int,
{
    if body.len() == 0 {
        (Seq::empty(), alias)
    } else {
        let (c1, a1) = body_candidates(ialias, malias, package, body.drop_last(), alias);
        let (c2, a2) = stmt_candidates(ialias, malias, package, body.last(), a1);
        (c1 + c2, a2)
    }
}

impl FileCollector {
    /// The dynamic-import module paths anywhere under `e`.
    #[verifier::loop_isolation(false)]
    fn collect_expr_dynamic(&self, e: &PyExpr) -> (r: Vec<String>)
        ensures
            r.deep_view() == expr_dynamic_modules(*e, self.importlib_view()),
        decreases *e, 1int,
    {
        let mut out: Vec<String> = Vec::new();
        match is_dynamic_import(e, self.importlib_package_alias.as_ref()) {
            Some(arg) => {
                match arg {
                    PyExpr::StringLiteral { value } => {
                        out.push(value.clone());
                    },
                    _ => {},
                }
            },
            None => {},
        }
        let ghost head = out.deep_view();
        proof {
            assert(head =~~= (if is_dynamic_call(*e, self.importlib_view()) {
                match call_first_arg(*e) {
                    Some(PyExpr::StringLiteral { value }) => seq![value@],
                    _ => Seq::<Seq<char>>::empty(),
                }
            } else {
                Seq::<Seq<char>>::empty()
            }));
        }
        match e {
            PyExpr::Attribute { value, attr } => {
                let mut sub = self.collect_expr_dynamic(value);
                let ghost subd = sub.deep_view();
                out.append(&mut sub);
                proof {
                    assert(out.deep_view() =~~= head + subd);
                }
            },
            PyExpr::Call { func, args } => {
                let mut sub = self.collect_expr_dynamic(func);
                let ghost subd = sub.deep_view();
                out.append(&mut sub);
                proof {
                    assert(out.deep_view() =~~= head + subd);
                }
                let ghost base = out.deep_view();
                let mut i: usize = 0;
                while i < args.len()
                    invariant
                        i <= args.len(),
                        out.deep_view() == base + exprs_dynamic_modules(
                            args@.take(i as int),
                            self.importlib_view(),
                        ),
                    decreases args.len() - i,
                {
                    proof {
                        assert(args@.take(i + 1).drop_last() =~= args@.take(i as int));
                        assert(args@.take(i + 1).last() == args@[i as int]);
                        assert(decreases_to!(*e => e->args));
                        assert(decreases_to!(e->args => args@));
                        assert(decreases_to!(args@ => args@[i as int]));
                        assert(decreases_to!(*e => args@[i as int]));
                    }
                    let ghost old_deep = out.deep_view();
                    let mut sub2 = self.collect_expr_dynamic(&args[i]);
                    let ghost sub2d = sub2.deep_view();
                    out.append(&mut sub2);
                    proof {
                        assert(out.deep_view() =~~= old_deep + sub2d);
                        assert(out.deep_view() =~~= base + exprs_dynamic_modules(
                            args@.take(i + 1),
                            self.importlib_view(),
                        ));
                    }
                    i += 1;
                }
                proof {
                    assert(args@.take(args@.len() as int) =~= args@);
                }
            },
            PyExpr::Subscript { value, slice } => {
                let mut sub = self.collect_expr_dynamic(value);
                let ghost subd = sub.deep_view();
                out.append(&mut sub);
                let mut sub2 = self.collect_expr_dynamic(slice);
                let ghost sub2d = sub2.deep_view();
                out.append(&mut sub2);
                proof {
                    assert(out.deep_view() =~~= head + subd + sub2d);
                }
            },
            PyExpr::Named { target, value } => {
                let mut sub = self.collect_expr_dynamic(target);
                let ghost subd = sub.deep_view();
                out.append(&mut sub);
                let mut sub2 = self.collect_expr_dynamic(value);
                let ghost sub2d = sub2.deep_view();
                out.append(&mut sub2);
                proof {
                    assert(out.deep_view() =~~= head + subd + sub2d);
                }
            },
            PyExpr::Tuple { elts } => {
                let ghost base = out.deep_view();
                let mut i: usize = 0;
                while i < elts.len()
                    invariant
                        i <= elts.len(),
                        out.deep_view() == base + exprs_dynamic_modules(
                            elts@.take(i as int),
                            self.importlib_view(),
                        ),
                    decreases elts.len() - i,
                {
                    proof {
                        assert(elts@.take(i + 1).drop_last() =~= elts@.take(i as int));
                        assert(elts@.take(i + 1).last() == elts@[i as int]);
                        assert(decreases_to!(*e => e->elts));
                        assert(decreases_to!(e->elts => elts@));
                        assert(decreases_to!(elts@ => elts@[i as int]));
                        assert(decreases_to!(*e => elts@[i as int]));
                    }
                    let ghost old_deep = out.deep_view();
                    let mut sub2 = self.collect_expr_dynamic(&elts[i]);
                    let ghost sub2d = sub2.deep_view();
                    out.append(&mut sub2);
                    proof {
                        assert(out.deep_view() =~~= old_deep + sub2d);
                        assert(out.deep_view() =~~= base + exprs_dynamic_modules(
                            elts@.take(i + 1),
                            self.importlib_view(),
                        ));
                    }
                    i += 1;
                }
                proof {
                    assert(elts@.take(elts@.len() as int) =~= elts@);
                }
            },
            PyExpr::Compare { left, ops, comparators } => {
                let mut sub = self.collect_expr_dynamic(left);
                let ghost subd = sub.deep_view();
                out.append(&mut sub);
                proof {
                    assert(out.deep_view() =~~= head + subd);
                }
                let ghost base = out.deep_view();
                let mut i: usize = 0;
                while i < comparators.len()
                    invariant
                        i <= comparators.len(),
                        out.deep_view() == base + exprs_dynamic_modules(
                            comparators@.take(i as int),
                            self.importlib_view(),
                        ),
                    decreases comparators.len() - i,
                {
                    proof {
                        assert(comparators@.take(i + 1).drop_last() =~= comparators@.take(
                            i as int,
                        ));
                        assert(comparators@.take(i + 1).last() == comparators@[i as int]);
                        assert(decreases_to!(*e => e->comparators));
                        assert(decreases_to!(e->comparators => comparators@));
                        assert(decreases_to!(comparators@ => comparators@[i as int]));
                        assert(decreases_to!(*e => comparators@[i as int]));
                    }
                    let ghost old_deep = out.deep_view();
                    let mut sub2 = self.collect_expr_dynamic(&comparators[i]);
                    let ghost sub2d = sub2.deep_view();
                    out.append(&mut sub2);
                    proof {
                        assert(out.deep_view() =~~= old_deep + sub2d);
                        assert(out.deep_view() =~~= base + exprs_dynamic_modules(
                            comparators@.take(i + 1),
                            self.importlib_view(),
                        ));
                    }
                    i += 1;
                }
                proof {
                    assert(comparators@.take(comparators@.len() as int) =~= comparators@);
                }
            },
            PyExpr::Other { children } => {
                let ghost base = out.deep_view();
                let mut i: usize = 0;
                while i < children.len()
                    invariant
                        i <= children.len(),
                        out.deep_view() == base + exprs_dynamic_modules(
                            children@.take(i as int),
                            self.importlib_view(),
                        ),
                    decreases children.len() - i,
                {
                    proof {
                        assert(children@.take(i + 1).drop_last() =~= children@.take(i as int));
                        assert(children@.take(i + 1).last() == children@[i as int]);
                        assert(decreases_to!(*e => e->children));
                        assert(decreases_to!(e->children => children@));
                        assert(decreases_to!(children@ => children@[i as int]));
                        assert(decreases_to!(*e => children@[i as int]));
                    }
                    let ghost old_deep = out.deep_view();
                    let mut sub2 = self.collect_expr_dynamic(&children[i]);
                    let ghost sub2d = sub2.deep_view();
                    out.append(&mut sub2);
                    proof {
                        assert(out.deep_view() =~~= old_deep + sub2d);
                        assert(out.deep_view() =~~= base + exprs_dynamic_modules(
                            children@.take(i + 1),
                            self.importlib_view(),
                        ));
                    }
                    i += 1;
                }
                proof {
                    assert(children@.take(children@.len() as int) =~= children@);
                }
            },
            _ => {
                proof {
                    assert(out.deep_view() =~~= expr_dynamic_modules(*e, self.importlib_view()));
                }
            },
        }
        proof {
            assert(out.deep_view() =~~= expr_dynamic_modules(*e, self.importlib_view()));
        }
        out
    }

    /// The candidate module paths `stmt` makes the collector probe, in
    /// order, updating the importlib binding as the statement is seen.
    #[verifier::loop_isolation(false)]
    #[verifier::rlimit(80)]
    pub fn candidates_for_stmt(&mut self, stmt: &PyStmt) -> (r: Vec<String>)
        requires
            old(self).wf(),
        ensures
            final(self).wf(),
            final(self).package == old(self).package,
            final(self).collected_files == old(self).collected_files,
            final(self).import_aliases == old(self).import_aliases,
            final(self).module_aliases == old(self).module_aliases,
            (r.deep_view(), final(self).importlib_view()) == stmt_candidates(
                old(self).import_aliases@,
                old(self).malias_pairs(),
                old(self).package@,
                *stmt,
                old(self).importlib_view(),
            ),
        decreases *stmt, 1int,
    {
        if let Some(a) = is_importlib_import(stmt) {
            self.importlib_package_alias = Some(a);
        }
        match &stmt.kind {
            PyStmtKind::Import { names } => {
                let mut out: Vec<String> = Vec::new();
                proof {
                    assert(out.deep_view() =~~= import_candidates(
                        self.malias_pairs(),
                        names@.take(0),
                    ));
                }
                let mut i: usize = 0;
                while i < names.len()
                    invariant
                        i <= names.len(),
                        out.deep_view() == import_candidates(
                            self.malias_pairs(),
                            names@.take(i as int),
                        ),
                    decreases names.len() - i,
                {
                    proof {
                        assert(names@.take(i + 1).drop_last() =~= names@.take(i as int));
                        assert(names@.take(i + 1).last() == names@[i as int]);
                    }
                    let ghost old_deep = out.deep_view();
                    out.push(names[i].name.clone());
                    let mut expansions = self.module_alias_lookups(names[i].name.as_str());
                    let ghost expd = expansions.deep_view();
                    out.append(&mut expansions);
                    proof {
                        assert(out.deep_view() =~~= old_deep + seq![names@[i as int].name@]
                            + expd);
                        assert(out.deep_view() =~~= import_candidates(
                            self.malias_pairs(),
                            names@.take(i + 1),
                        ));
                    }
                    i += 1;
                }
                proof {
                    assert(names@.take(names@.len() as int) =~= names@);
                }
                out
            },
            PyStmtKind::ImportFrom { module, names, level } => {
                proof {
                    reveal_strlit("*");
                }
                let targets = match get_import_from_absolute_module_spec(
                    module,
                    names,
                    *level,
                    self.package.as_str(),
                    true,
                ) {
                    Ok(t) => t,
                    Err(_) => Vec::new(),
                };
                let ghost tviews = targets.deep_view();
                let mut out: Vec<String> = Vec::new();
                proof {
                    assert(out.deep_view() =~~= from_candidates(
                        self.import_aliases@,
                        self.malias_pairs(),
                        tviews.take(0),
                        names@,
                    ));
                }
                let mut ti: usize = 0;
                while ti < targets.len()
                    invariant
                        ti <= targets.len(),
                        tviews == targets.deep_view(),
                        out.deep_view() == from_candidates(
                            self.import_aliases@,
                            self.malias_pairs(),
                            tviews.take(ti as int),
                            names@,
                        ),
                    decreases targets.len() - ti,
                {
                    proof {
                        assert(tviews.take(ti + 1).drop_last() =~= tviews.take(ti as int));
                        assert(tviews.take(ti + 1).last() == tviews[ti as int]);
                    }
                    let ghost outer_old = out.deep_view();
                    out.push(targets[ti].clone());
                    match self.import_aliases.get(targets[ti].as_str()) {
                        Some(v) => {
                            out.push(v.clone());
                        },
                        None => {},
                    }
                    let ghost after_target = out.deep_view();
                    proof {
                        assert(after_target =~~= outer_old + seq![tviews[ti as int]] + (
                        if self.import_aliases@.contains_key(tviews[ti as int]) {
                            seq![self.import_aliases@[tviews[ti as int]]]
                        } else {
                            Seq::<Seq<char>>::empty()
                        }));
                    }
                    let mut j: usize = 0;
                    while j < names.len()
                        invariant
                            j <= names.len(),
                            ti < targets.len(),
                            tviews == targets.deep_view(),
                            out.deep_view() == after_target + from_target_candidates(
                                self.import_aliases@,
                                self.malias_pairs(),
                                tviews[ti as int],
                                names@.take(j as int),
                            ),
                        decreases names.len() - j,
                    {
                        proof {
                            assert(names@.take(j + 1).drop_last() =~= names@.take(j as int));
                            assert(names@.take(j + 1).last() == names@[j as int]);
                        }
                        let ghost old_deep = out.deep_view();
                        if !str_eq(names[j].name.as_str(), "*") {
                            let sub = concat_dot(targets[ti].as_str(), names[j].name.as_str());
                            out.push(sub.clone());
                            match self.import_aliases.get(sub.as_str()) {
                                Some(v) => {
                                    out.push(v.clone());
                                },
                                None => {},
                            }
                            let mut expansions = self.module_alias_lookups(sub.as_str());
                            let ghost expd = expansions.deep_view();
                            out.append(&mut expansions);
                            proof {
                                let ghost subv = tviews[ti as int] + seq!['.'] + names@[
                                    j as int
                                ].name@;
                                assert(out.deep_view() =~~= old_deep + seq![subv] + (
                                if self.import_aliases@.contains_key(subv) {
                                    seq![self.import_aliases@[subv]]
                                } else {
                                    Seq::<Seq<char>>::empty()
                                }) + expd);
                            }
                        }
                        proof {
                            assert(out.deep_view() =~~= after_target + from_target_candidates(
                                self.import_aliases@,
                                self.malias_pairs(),
                                tviews[ti as int],
                                names@.take(j + 1),
                            ));
                        }
                        j += 1;
                    }
                    proof {
                        assert(names@.take(names@.len() as int) =~= names@);
                        assert(out.deep_view() =~~= from_candidates(
                            self.import_aliases@,
                            self.malias_pairs(),
                            tviews.take(ti + 1),
                            names@,
                        ));
                    }
                    ti += 1;
                }
                proof {
                    assert(tviews.take(tviews.len() as int) =~= tviews);
                }
                out
            },
            PyStmtKind::FunctionDef { name, decorators, params, body } => {
                let mut out = self.collect_exprs_dynamic(decorators);
                let mut more = self.collect_exprs_dynamic(params);
                let ghost outd = out.deep_view();
                let ghost mored = more.deep_view();
                out.append(&mut more);
                proof {
                    assert(out.deep_view() =~~= outd + mored);
                    assert(decreases_to!(*stmt => stmt.kind));
                    assert(decreases_to!(stmt.kind => stmt.kind->body));
                    assert(decreases_to!(stmt.kind->body => body@));
                    assert(decreases_to!(*stmt => body@));
                }
                let ghost pre = out.deep_view();
                let mut nested = self.candidates_for_body(body, Ghost(*stmt));
                let ghost nestedd = nested.deep_view();
                out.append(&mut nested);
                proof {
                    assert(out.deep_view() =~~= pre + nestedd);
                }
                out
            },
            PyStmtKind::ClassDef { name, decorators, bases, keywords, class_body } => {
                let mut out = self.collect_exprs_dynamic(decorators);
                let mut more = self.collect_exprs_dynamic(bases);
                let ghost outd = out.deep_view();
                let ghost mored = more.deep_view();
                out.append(&mut more);
                let mut more2 = self.collect_exprs_dynamic(keywords);
                let ghost more2d = more2.deep_view();
                out.append(&mut more2);
                proof {
                    assert(out.deep_view() =~~= outd + mored + more2d);
                    assert(decreases_to!(*stmt => stmt.kind));
                    assert(decreases_to!(stmt.kind => stmt.kind->class_body));
                    assert(decreases_to!(stmt.kind->class_body => class_body@));
                    assert(decreases_to!(*stmt => class_body@));
                }
                let ghost pre = out.deep_view();
                let mut nested = self.candidates_for_body(class_body, Ghost(*stmt));
                let ghost nestedd = nested.deep_view();
                out.append(&mut nested);
                proof {
                    assert(out.deep_view() =~~= pre + nestedd);
                }
                out
            },
            PyStmtKind::Assign { targets, value } => {
                let mut out = self.collect_exprs_dynamic(targets);
                let mut more = self.collect_expr_dynamic(value);
                let ghost outd = out.deep_view();
                let ghost mored = more.deep_view();
                out.append(&mut more);
                proof {
                    assert(out.deep_view() =~~= outd + mored);
                }
                out
            },
            PyStmtKind::AugAssign { target, value } => {
                let mut out = self.collect_expr_dynamic(target);
                let mut more = self.collect_expr_dynamic(value);
                let ghost outd = out.deep_view();
                let ghost mored = more.deep_view();
                out.append(&mut more);
                proof {
                    assert(out.deep_view() =~~= outd + mored);
                }
                out
            },
            PyStmtKind::AnnAssign { target, annotation, value } => {
                let mut out = self.collect_expr_dynamic(target);
                let mut more = self.collect_expr_dynamic(annotation);
                let ghost outd = out.deep_view();
                let ghost mored = more.deep_view();
                out.append(&mut more);
                proof {
                    assert(out.deep_view() =~~= outd + mored);
                }
                match value {
                    Some(v) => {
                        let ghost pre = out.deep_view();
                        let mut more2 = self.collect_expr_dynamic(v);
                        let ghost more2d = more2.deep_view();
                        out.append(&mut more2);
                        proof {
                            assert(out.deep_view() =~~= pre + more2d);
                        }
                    },
                    None => {},
                }
                out
            },
            PyStmtKind::ExprStmt { value } => self.collect_expr_dynamic(value),
            PyStmtKind::If { test, then_body, else_body } => {
                let mut out = self.collect_expr_dynamic(test);
                proof {
                    assert(decreases_to!(*stmt => stmt.kind));
                    assert(decreases_to!(stmt.kind => stmt.kind->then_body));
                    assert(decreases_to!(stmt.kind->then_body => then_body@));
                    assert(decreases_to!(*stmt => then_body@));
                    assert(decreases_to!(stmt.kind => stmt.kind->else_body));
                    assert(decreases_to!(stmt.kind->else_body => else_body@));
                    assert(decreases_to!(*stmt => else_body@));
                }
                let ghost pre = out.deep_view();
                let mut cs1 = self.candidates_for_body(then_body, Ghost(*stmt));
                let ghost cs1d = cs1.deep_view();
                out.append(&mut cs1);
                let mut cs2 = self.candidates_for_body(else_body, Ghost(*stmt));
                let ghost cs2d = cs2.deep_view();
                out.append(&mut cs2);
                proof {
                    assert(out.deep_view() =~~= pre + cs1d + cs2d);
                }
                out
            },
            PyStmtKind::For { target, iter, loop_body, loop_else } => {
                let mut out = self.collect_expr_dynamic(target);
                let mut more = self.collect_expr_dynamic(iter);
                let ghost outd = out.deep_view();
                let ghost mored = more.deep_view();
                out.append(&mut more);
                proof {
                    assert(out.deep_view() =~~= outd + mored);
                    assert(decreases_to!(*stmt => stmt.kind));
                    assert(decreases_to!(stmt.kind => stmt.kind->loop_body));
                    assert(decreases_to!(stmt.kind->loop_body => loop_body@));
                    assert(decreases_to!(*stmt => loop_body@));
                    assert(decreases_to!(stmt.kind => stmt.kind->loop_else));
                    assert(decreases_to!(stmt.kind->loop_else => loop_else@));
                    assert(decreases_to!(*stmt => loop_else@));
                }
                let ghost pre = out.deep_view();
                let mut cs1 = self.candidates_for_body(loop_body, Ghost(*stmt));
                let ghost cs1d = cs1.deep_view();
                out.append(&mut cs1);
                let mut cs2 = self.candidates_for_body(loop_else, Ghost(*stmt));
                let ghost cs2d = cs2.deep_view();
                out.append(&mut cs2);
                proof {
                    assert(out.deep_view() =~~= pre + cs1d + cs2d);
                }
                out
            },
            PyStmtKind::TypeAlias { name, value } => {
                let mut out = self.collect_expr_dynamic(name);
                let mut more = self.collect_expr_dynamic(value);
                let ghost outd = out.deep_view();
                let ghost mored = more.deep_view();
                out.append(&mut more);
                proof {
                    assert(out.deep_view() =~~= outd + mored);
                }
                out
            },
            PyStmtKind::Other { values, nested } => {
                let mut out = self.collect_exprs_dynamic(values);
                proof {
                    assert(decreases_to!(*stmt => stmt.kind));
                    assert(decreases_to!(stmt.kind => stmt.kind->nested));
                    assert(decreases_to!(stmt.kind->nested => nested@));
                    assert(decreases_to!(*stmt => nested@));
                }
                let ghost pre = out.deep_view();
                let mut cs = self.candidates_for_body(nested, Ghost(*stmt));
                let ghost csd = cs.deep_view();
                out.append(&mut cs);
                proof {
                    assert(out.deep_view() =~~= pre + csd);
                }
                out
            },
            _ => {
                let out: Vec<String> = Vec::new();
                proof {
                    assert(out.deep_view() =~~= Seq::<Seq<char>>::empty());
                }
                out
            },
        }
    }

    /// `candidates_for_stmt` threaded through a nested statement list.
    #[verifier::loop_isolation(false)]
    fn candidates_for_body(&mut self, body: &Vec<PyStmt>, parent: Ghost<PyStmt>) -> (r: Vec<
        String,
    >)
        requires
            old(self).wf(),
            decreases_to!(parent@ => body@),
        ensures
            final(self).wf(),
            final(self).package == old(self).package,
            final(self).collected_files == old(self).collected_files,
            final(self).import_aliases == old(self).import_aliases,
            final(self).module_aliases == old(self).module_aliases,
            (r.deep_view(), final(self).importlib_view()) == body_candidates(
                old(self).import_aliases@,
                old(self).malias_pairs(),
                old(self).package@,
                body@,
                old(self).importlib_view(),
            ),
        decreases parent@, 0int,
    {
        let mut out: Vec<String> = Vec::new();
        let mut i: usize = 0;
        proof {
            assert((out.deep_view(), self.importlib_view()) == body_candidates(
                self.import_aliases@,
                self.malias_pairs(),
                self.package@,
                body@.take(0),
                self.importlib_view(),
            ));
        }
        while i < body.len()
            invariant
                i <= body.len(),
                self.wf(),
                self.package == old(self).package,
                self.collected_files == old(self).collected_files,
                self.import_aliases == old(self).import_aliases,
                self.module_aliases == old(self).module_aliases,
                (out.deep_view(), self.importlib_view()) == body_candidates(
                    old(self).import_aliases@,
                    old(self).malias_pairs(),
                    old(self).package@,
                    body@.take(i as int),
                    old(self).importlib_view(),
                ),
            decreases body.len() - i,
        {
            proof {
                assert(body@.take(i + 1).drop_last() =~= body@.take(i as int));
                assert(body@.take(i + 1).last() == body@[i as int]);
                assert(decreases_to!(body@ => body@[i as int]));
                assert(decreases_to!(parent@ => body@[i as int]));
            }
            let ghost old_deep = out.deep_view();
            let mut cs = self.candidates_for_stmt(&body[i]);
            let ghost csd = cs.deep_view();
            out.append(&mut cs);
            proof {
                assert(out.deep_view() =~~= old_deep + csd);
            }
            i += 1;
        }
        proof {
            assert(body@.take(body@.len() as int) =~= body@);
        }
        out
    }

    /// The dynamic-import module paths under each expression of `es`.
    #[verifier::loop_isolation(false)]
    fn collect_exprs_dynamic(&self, es: &Vec<PyExpr>) -> (r: Vec<String>)
        ensures
            r.deep_view() == exprs_dynamic_modules(es@, self.importlib_view()),
    {
        let mut out: Vec<String> = Vec::new();
        let mut i: usize = 0;
        proof {
            assert(out.deep_view() =~~= exprs_dynamic_modules(
                es@.take(0),
                self.importlib_view(),
            ));
        }
        while i < es.len()
            invariant
                i <= es.len(),
                out.deep_view() == exprs_dynamic_modules(es@.take(i as int), self.importlib_view()),
            decreases es.len() - i,
        {
            proof {
                assert(es@.take(i + 1).drop_last() =~= es@.take(i as int));
                assert(es@.take(i + 1).last() == es@[i as int]);
            }
            let ghost old_deep = out.deep_view();
            let mut sub = self.collect_expr_dynamic(&es[i]);
            let ghost subd = sub.deep_view();
            out.append(&mut sub);
            proof {
                assert(out.deep_view() =~~= old_deep + subd);
                assert(out.deep_view() =~~= exprs_dynamic_modules(
                    es@.take(i + 1),
                    self.importlib_view(),
                ));
            }
            i += 1;
        }
        proof {
            assert(es@.take(es@.len() as int) =~= es@);
        }
        out
    }
}

} // verus!
