//! The per-module table of active import bindings: local alias to
//! absolute dotted path, plus the set of active star-import sources,
//! with clone-and-restore scoping for class and function bodies.

use vstd::prelude::*;

verus! {

use vstd::string::StrSliceExecFns;
use vstd::string::StringExecFns;
use crate::strings::contains_char;
use crate::strings::last_index_of;
use crate::strings::find_last_slash;
use crate::strings::str_eq;
use crate::strings::str_skip;
use crate::strings::concat_dot;
use crate::module_spec::parent_package_of;
use crate::module_spec::get_parent_package;
use crate::ast::PyAlias;
use crate::ast::PyStmt;
use crate::ast::PyStmtKind;
use crate::checkers::importlib_alias_of;
use crate::checkers::dynamic_imports_of;
use crate::checkers::find_dynamic_import;
use crate::import_resolution::import_from_targets_of;
use crate::import_resolution::get_import_from_absolute_module_spec;
use crate::tables::StrMap;
use crate::tables::StrSet;

/// The final path component of `p`.
pub open spec fn file_name_of(p: Seq<char>) -> Seq<char> {
    if contains_char(p, '/') {
        p.skip(last_index_of(p, '/') + 1)
    } else {
        p
    }
}

/// Whether `p` is a package entry file (`__init__.py` or `__main__.py`).
pub open spec fn is_package_file(p: Seq<char>) -> bool {
    file_name_of(p) == "__init__.py"@ || file_name_of(p) == "__main__.py"@
}

/// The parent-package context of a module: the module itself for a
/// package entry file, its parent package otherwise.
pub open spec fn parent_package_context(module_spec: Seq<char>, source_path: Seq<char>) -> Seq<
    char,
> {
    if is_package_file(source_path) {
        module_spec
    } else {
        parent_package_of(module_spec)
    }
}

/// Whether `kind` opens a nested lexical scope.
pub open spec fn is_scope_stmt(kind: PyStmtKind) -> bool {
    kind matches PyStmtKind::ClassDef { .. } || kind matches PyStmtKind::FunctionDef { .. }
}

/// The alias table after an `import` statement: each alias binds its
/// local name to the imported dotted name.
pub open spec fn bind_import_aliases(
    m: Map<Seq<char>, Seq<char>>,
    ns: Seq<PyAlias>,
) -> Map<Seq<char>, Seq<char>>
    decreases ns.len(),
{
    if ns.len() == 0 {
        m
    } else {
        bind_import_aliases(m, ns.drop_last()).insert(ns.last().bound_name(), ns.last().name@)
    }
}

/// The alias table and star-import set after binding the names of an
/// `import from` statement against one resolved target module.
pub open spec fn bind_from_target(
    m: Map<Seq<char>, Seq<char>>,
    s: Set<Seq<char>>,
    target: Seq<char>,
    ns: Seq<PyAlias>,
) -> (Map<Seq<char>, Seq<char>>, Set<Seq<char>>)
    decreases ns.len(),
{
    if ns.len() == 0 {
        (m, s)
    } else {
        let (m1, s1) = bind_from_target(m, s, target, ns.drop_last());
        let a = ns.last();
        if a.name@ == "*"@ {
            (m1, s1.insert(target))
        } else {
            (m1.insert(a.bound_name(), target + seq!['.'] + a.name@), s1)
        }
    }
}

/// `bind_from_target` folded over every resolved target module.
pub open spec fn bind_from_targets(
    m: Map<Seq<char>, Seq<char>>,
    s: Set<Seq<char>>,
    targets: Seq<Seq<char>>,
    ns: Seq<PyAlias>,
) -> (Map<Seq<char>, Seq<char>>, Set<Seq<char>>)
    decreases targets.len(),
{
    if targets.len() == 0 {
        (m, s)
    } else {
        let (m1, s1) = bind_from_targets(m, s, targets.drop_last(), ns);
        bind_from_target(m1, s1, targets.last(), ns)
    }
}

/// The alias table extended by dynamically imported bindings.
pub open spec fn bind_pairs(
    m: Map<Seq<char>, Seq<char>>,
    ps: Seq<(Seq<char>, Seq<char>)>,
) -> Map<Seq<char>, Seq<char>>
    decreases ps.len(),
{
    if ps.len() == 0 {
        m
    } else {
        bind_pairs(m, ps.drop_last()).insert(ps.last().0, ps.last().1)
    }
}

/// The importlib binding after seeing a statement: a new binding wins,
/// otherwise the old one stays.
pub open spec fn importlib_after(old_alias: Option<Seq<char>>, kind: PyStmtKind) -> Option<
    Seq<char>,
> {
    match importlib_alias_of(kind) {
        Some(a) => Some(a),
        None => old_alias,
    }
}

/// The saved tables a scope entry hands back for restoration on exit.
pub struct ImportTrackingProviderScope {
    pub active_imports: Option<StrMap>,
    pub active_star_imports: Option<StrSet>,
}

impl ImportTrackingProviderScope {
    pub open spec fn wf(&self) -> bool {
        &&& match self.active_imports {
            Some(m) => m.wf(),
            None => true,
        }
        &&& match self.active_star_imports {
            Some(s) => s.wf(),
            None => true,
        }
    }
}

/// Tracks, per module, which local names are bound to which absolute
/// dotted paths at the cursor, and which star imports are active.
pub struct ImportsTrackingProvider {
    pub active_imports: StrMap,
    pub active_star_imports: StrSet,
    pub module_spec: String,
    pub source_path: String,
    pub importlib_module_alias: Option<String>,
}

impl ImportsTrackingProvider {
    pub open spec fn wf(&self) -> bool {
        self.active_imports.wf() && self.active_star_imports.wf()
    }

    /// The current importlib binding, as a sequence view.
    pub open spec fn importlib_view(&self) -> Option<Seq<char>> {
        self.importlib_module_alias.deep_view()
    }

    pub fn new(module_spec: &str, source_path: &str) -> (r: Self)
        ensures
            r.wf(),
            r.active_imports@ =~= Map::<Seq<char>, Seq<char>>::empty(),
            r.active_star_imports@ =~= Set::<Seq<char>>::empty(),
            r.active_imports.pairs() =~= Seq::<(Seq<char>, Seq<char>)>::empty(),
            r.active_star_imports.items_seq() =~= Seq::<Seq<char>>::empty(),
            r.module_spec@ == module_spec@,
            r.source_path@ == source_path@,
            r.importlib_view() is None,
    {
        ImportsTrackingProvider {
            active_imports: StrMap::new(),
            active_star_imports: StrSet::new(),
            module_spec: String::from_str(module_spec),
            source_path: String::from_str(source_path),
            importlib_module_alias: None,
        }
    }

    /// Whether this module's file is a package entry file.
    pub fn is_in_package(&self) -> (r: bool)
        ensures
            r == is_package_file(self.source_path@),
    {
        proof {
            reveal_strlit("__init__.py");
            reveal_strlit("__main__.py");
            crate::strings::lemma_last_index_of(self.source_path@, '/');
        }
        // binds the character length so the slicing below stays in bounds
        let _path_len = self.source_path.as_str().unicode_len();
        let file_name = match find_last_slash(self.source_path.as_str()) {
            Some(i) => str_skip(self.source_path.as_str(), i + 1),
            None => self.source_path.as_str(),
        };
        str_eq(file_name, "__init__.py") || str_eq(file_name, "__main__.py")
    }

    /// The parent-package context against which relative imports of this
    /// module resolve.
    pub fn get_parent_package(&self) -> (r: String)
        ensures
            r@ == parent_package_context(self.module_spec@, self.source_path@),
    {
        if self.is_in_package() {
            self.module_spec.clone()
        } else {
            get_parent_package(self.module_spec.as_str())
        }
    }

    /// Entering a class or function body snapshots both tables, so that
    /// imports made inside do not leak to the siblings that follow.
    pub fn enter_scope(&self, stmt: &PyStmt) -> (r: ImportTrackingProviderScope)
        requires
            self.wf(),
        ensures
            r.wf(),
            is_scope_stmt(stmt.kind) ==> (r.active_imports matches Some(m) && m@
                == self.active_imports@ && m.pairs() == self.active_imports.pairs()) && (
            r.active_star_imports matches Some(s) && s@ == self.active_star_imports@
                && s.items_seq() == self.active_star_imports.items_seq()),
            !is_scope_stmt(stmt.kind) ==> r.active_imports is None && r.active_star_imports is None,
    {
        match &stmt.kind {
            PyStmtKind::ClassDef { .. } | PyStmtKind::FunctionDef { .. } => {
                ImportTrackingProviderScope {
                    active_imports: Some(self.active_imports.duplicate()),
                    active_star_imports: Some(self.active_star_imports.duplicate()),
                }
            },
            _ => ImportTrackingProviderScope { active_imports: None, active_star_imports: None },
        }
    }

    /// Restores the snapshot taken by `enter_scope`.
    pub fn exit_scope(&mut self, scope: ImportTrackingProviderScope)
        requires
            old(self).wf(),
            scope.wf(),
        ensures
            final(self).wf(),
            final(self).active_imports@ == match scope.active_imports {
                Some(m) => m@,
                None => old(self).active_imports@,
            },
            final(self).active_star_imports@ == match scope.active_star_imports {
                Some(s) => s@,
                None => old(self).active_star_imports@,
            },
            final(self).active_imports.pairs() == match scope.active_imports {
                Some(m) => m.pairs(),
                None => old(self).active_imports.pairs(),
            },
            final(self).active_star_imports.items_seq() == match scope.active_star_imports {
                Some(s) => s.items_seq(),
                None => old(self).active_star_imports.items_seq(),
            },
            final(self).module_spec@ == old(self).module_spec@,
            final(self).source_path@ == old(self).source_path@,
            final(self).importlib_view() == old(self).importlib_view(),
    {
        let ImportTrackingProviderScope { active_imports, active_star_imports } = scope;
        if let Some(m) = active_imports {
            self.active_imports = m;
        }
        if let Some(s) = active_star_imports {
            self.active_star_imports = s;
        }
    }

    /// Records the bindings of an `import` statement.
    fn visit_import(&mut self, names: &Vec<PyAlias>)
        requires
            old(self).wf(),
        ensures
            final(self).wf(),
            final(self).active_imports@ == bind_import_aliases(old(self).active_imports@, names@),
            final(self).active_star_imports@ == old(self).active_star_imports@,
            final(self).module_spec@ == old(self).module_spec@,
            final(self).source_path@ == old(self).source_path@,
            final(self).importlib_view() == match importlib_alias_in_spec(names@) {
                Some(a) => Some(a),
                None => old(self).importlib_view(),
            },
    {
        proof {
            reveal_strlit("importlib");
        }
        let mut i: usize = 0;
        while i < names.len()
            invariant
                self.wf(),
                i <= names.len(),
                self.active_imports@ == bind_import_aliases(
                    old(self).active_imports@,
                    names@.take(i as int),
                ),
                self.active_star_imports@ == old(self).active_star_imports@,
                self.module_spec@ == old(self).module_spec@,
                self.source_path@ == old(self).source_path@,
                self.importlib_view() == match importlib_alias_in_spec(names@.take(i as int)) {
                    Some(a) => Some(a),
                    None => old(self).importlib_view(),
                },
            decreases names.len() - i,
        {
            proof {
                assert(names@.take(i + 1).drop_last() =~= names@.take(i as int));
                assert(names@.take(i + 1).last() == names@[i as int]);
            }
            let bound = match &names[i].asname {
                Some(a) => a.clone(),
                None => names[i].name.clone(),
            };
            self.active_imports.insert(bound, names[i].name.clone());
            if str_eq(names[i].name.as_str(), "importlib") {
                self.importlib_module_alias = match &names[i].asname {
                    Some(a) => Some(a.clone()),
                    None => Some(names[i].name.clone()),
                };
            }
            i += 1;
        }
        proof {
            assert(names@.take(names@.len() as int) =~= names@);
        }
    }

    /// Records the bindings of an `import from` statement: each name
    /// binds to `target.name`, and a wildcard adds the target to the
    /// star-import set.
    fn visit_import_from(&mut self, module: &Option<String>, names: &Vec<PyAlias>, level: u32)
        requires
            old(self).wf(),
        ensures
            final(self).wf(),
            ({
                let targets = match import_from_targets_of(
                    *module,
                    names@,
                    level,
                    parent_package_context(old(self).module_spec@, old(self).source_path@),
                    false,
                ) {
                    Ok(t) => t,
                    Err(_) => Seq::empty(),
                };
                let (m2, s2) = bind_from_targets(
                    old(self).active_imports@,
                    old(self).active_star_imports@,
                    targets,
                    names@,
                );
                final(self).active_imports@ == m2 && final(self).active_star_imports@ == s2
            }),
            final(self).module_spec@ == old(self).module_spec@,
            final(self).source_path@ == old(self).source_path@,
            final(self).importlib_view() == importlib_after(
                old(self).importlib_view(),
                (PyStmtKind::ImportFrom {
                    module: *module,
                    names: *names,
                    level,
                }),
            ),
    {
        proof {
            reveal_strlit("importlib");
        }
        if level == 0 {
            if let Some(m) = module {
                if str_eq(m.as_str(), "importlib") {
                    self.importlib_module_alias = Some(String::from_str("importlib"));
                }
            }
        }
        let parent = self.get_parent_package();
        let targets = match get_import_from_absolute_module_spec(
            module,
            names,
            level,
            parent.as_str(),
            false,
        ) {
            Ok(t) => t,
            Err(_) => Vec::new(),
        };
        let ghost tviews = targets.deep_view();
        let ghost m0 = self.active_imports@;
        let ghost s0 = self.active_star_imports@;
        let ghost alias_set = self.importlib_module_alias;
        let mut i: usize = 0;
        while i < targets.len()
            invariant
                self.wf(),
                i <= targets.len(),
                tviews == targets.deep_view(),
                (self.active_imports@, self.active_star_imports@) == bind_from_targets(
                    m0,
                    s0,
                    tviews.take(i as int),
                    names@,
                ),
                self.module_spec@ == old(self).module_spec@,
                self.source_path@ == old(self).source_path@,
                self.importlib_module_alias == alias_set,
            decreases targets.len() - i,
        {
            proof {
                assert(tviews.take(i + 1).drop_last() =~= tviews.take(i as int));
                assert(tviews.take(i + 1).last() == tviews[i as int]);
            }
            let ghost mi = self.active_imports@;
            let ghost si = self.active_star_imports@;
            let mut j: usize = 0;
            while j < names.len()
                invariant
                    self.wf(),
                    j <= names.len(),
                    i < targets.len(),
                    tviews == targets.deep_view(),
                    (self.active_imports@, self.active_star_imports@) == bind_from_target(
                        mi,
                        si,
                        tviews[i as int],
                        names@.take(j as int),
                    ),
                    self.module_spec@ == old(self).module_spec@,
                    self.source_path@ == old(self).source_path@,
                    self.importlib_module_alias == alias_set,
                decreases names.len() - j,
            {
                proof {
                    assert(names@.take(j + 1).drop_last() =~= names@.take(j as int));
                    assert(names@.take(j + 1).last() == names@[j as int]);
                }
                if str_eq(names[j].name.as_str(), "*") {
                    proof {
                        reveal_strlit("*");
                    }
                    self.active_star_imports.insert(targets[i].clone());
                } else {
                    proof {
                        reveal_strlit("*");
                    }
                    let bound = match &names[j].asname {
                        Some(a) => a.clone(),
                        None => names[j].name.clone(),
                    };
                    self.active_imports.insert(
                        bound,
                        concat_dot(targets[i].as_str(), names[j].name.as_str()),
                    );
                }
                j += 1;
            }
            proof {
                assert(names@.take(names@.len() as int) =~= names@);
            }
            i += 1;
        }
        proof {
            assert(tviews.take(tviews.len() as int) =~= tviews);
        }
    }

    /// Records whatever bindings `stmt` establishes: import aliases,
    /// star-import sources, or dynamic-import assignments.
    /// How one statement transforms the tracked tables: the relation that
    /// `visit_stmt` establishes between the provider before and after.
    pub open spec fn imports_transition(pre: Self, post: Self, kind: PyStmtKind) -> bool {
        match kind {
            PyStmtKind::Import { names } => {
                &&& post.active_imports@ == bind_import_aliases(pre.active_imports@, names@)
                &&& post.active_star_imports@ == pre.active_star_imports@
                &&& post.importlib_view() == importlib_after(pre.importlib_view(), kind)
            },
            PyStmtKind::ImportFrom { module, names, level } => {
                let targets = match import_from_targets_of(
                    module,
                    names@,
                    level,
                    parent_package_context(pre.module_spec@, pre.source_path@),
                    false,
                ) {
                    Ok(t) => t,
                    Err(_) => Seq::empty(),
                };
                let (m2, s2) = bind_from_targets(
                    pre.active_imports@,
                    pre.active_star_imports@,
                    targets,
                    names@,
                );
                &&& post.active_imports@ == m2
                &&& post.active_star_imports@ == s2
                &&& post.importlib_view() == importlib_after(pre.importlib_view(), kind)
            },
            _ => {
                &&& post.active_imports@ == bind_pairs(
                    pre.active_imports@,
                    dynamic_imports_of(kind, pre.importlib_view()),
                )
                &&& post.active_star_imports@ == pre.active_star_imports@
                &&& post.importlib_view() == pre.importlib_view()
            },
        }
    }

    pub fn visit_stmt(&mut self, stmt: &PyStmt)
        requires
            old(self).wf(),
        ensures
            final(self).wf(),
            final(self).module_spec@ == old(self).module_spec@,
            final(self).source_path@ == old(self).source_path@,
            Self::imports_transition(*old(self), *final(self), stmt.kind),
            (!(stmt.kind matches PyStmtKind::Import { .. }) && !(stmt.kind
                matches PyStmtKind::ImportFrom { .. }) && dynamic_imports_of(
                stmt.kind,
                old(self).importlib_view(),
            ).len() == 0) ==> *final(self) == *old(self),
    {
        match &stmt.kind {
            PyStmtKind::Import { names } => {
                self.visit_import(names);
            },
            PyStmtKind::ImportFrom { module, names, level } => {
                self.visit_import_from(module, names, *level);
            },
            _ => {
                let pairs = find_dynamic_import(stmt, self.importlib_module_alias.as_ref());
                let ghost pviews = pairs.deep_view();
                let ghost m0 = self.active_imports@;
                let mut i: usize = 0;
                while i < pairs.len()
                    invariant
                        self.wf(),
                        i <= pairs.len(),
                        pviews == pairs.deep_view(),
                        pviews.len() == 0 ==> *self == *old(self),
                        self.active_imports@ == bind_pairs(m0, pviews.take(i as int)),
                        self.active_star_imports@ == old(self).active_star_imports@,
                        self.module_spec@ == old(self).module_spec@,
                        self.source_path@ == old(self).source_path@,
                        self.importlib_module_alias == old(self).importlib_module_alias,
                    decreases pairs.len() - i,
                {
                    proof {
                        assert(pviews.take(i + 1).drop_last() =~= pviews.take(i as int));
                        assert(pviews.take(i + 1).last() == pviews[i as int]);
                    }
                    self.active_imports.insert(pairs[i].0.clone(), pairs[i].1.clone());
                    i += 1;
                }
                proof {
                    assert(pviews.take(pviews.len() as int) =~= pviews);
                }
            },
        }
    }
}

/// `importlib_alias_in` of the checkers module, re-exported for the
/// contracts above.
pub open spec fn importlib_alias_in_spec(ns: Seq<PyAlias>) -> Option<Seq<char>> {
    crate::checkers::importlib_alias_in(ns)
}

} // verus!
