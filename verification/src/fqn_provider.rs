//! Resolution of local names to fully-qualified candidates: wraps the
//! import tables with the current scope prefix, and makes resolution
//! multi-valued where star imports leave it genuinely ambiguous.

use vstd::prelude::*;

verus! {

use vstd::string::StrSliceExecFns;
use vstd::string::StringExecFns;
use crate::strings::concat_dot;
use crate::strings::concat_str;
use crate::strings::str_eq;
use crate::strings::str_skip;
use crate::strings::str_starts_with;
use crate::ast::PyExpr;
use crate::ast::PyStmt;
use crate::ast::PyStmtKind;
use crate::full_name::expr_full_names;
use crate::full_name::stmt_full_names;
use crate::full_name::get_full_name_for_expr;
use crate::full_name::get_full_name_for_stmt;
use crate::imports_provider::ImportTrackingProviderScope;
use crate::imports_provider::ImportsTrackingProvider;
use crate::imports_provider::is_scope_stmt;
use crate::imports_provider::parent_package_context;

/// `name` prefixed by the scope context, when one is active.
pub open spec fn scope_qualified(ctx: Seq<char>, name: Seq<char>) -> Seq<char> {
    if ctx.len() > 0 {
        ctx + seq!['.'] + name
    } else {
        name
    }
}

/// Each name qualified by the scope context.
pub open spec fn qualify_each(ns: Seq<Seq<char>>, ctx: Seq<char>) -> Seq<Seq<char>>
    decreases ns.len(),
{
    if ns.len() == 0 {
        Seq::empty()
    } else {
        qualify_each(ns.drop_last(), ctx) + seq![scope_qualified(ctx, ns.last())]
    }
}

/// Each name both qualified and left as it is.
pub open spec fn qualify_both(ns: Seq<Seq<char>>, ctx: Seq<char>) -> Seq<Seq<char>>
    decreases ns.len(),
{
    if ns.len() == 0 {
        Seq::empty()
    } else {
        qualify_both(ns.drop_last(), ctx) + seq![scope_qualified(ctx, ns.last()), ns.last()]
    }
}

/// The scope-qualified local names of an expression: a walrus target is
/// a definition and is qualified; a name or attribute chain may be
/// either a definition or a reference, so both readings are kept; other
/// shapes are plain references.
pub open spec fn expr_qualified_names(e: PyExpr, ctx: Seq<char>) -> Seq<Seq<char>> {
    match e {
        PyExpr::Named { target, value } => qualify_each(expr_full_names(e), ctx),
        PyExpr::Name { id } => qualify_both(expr_full_names(e), ctx),
        PyExpr::Attribute { value, attr } => qualify_both(expr_full_names(e), ctx),
        _ => expr_full_names(e),
    }
}

/// The scope-qualified local names of a statement: definitions
/// (assignments, class and function names) are qualified, the rest are
/// left as extracted.
pub open spec fn stmt_qualified_names(kind: PyStmtKind, parent: Seq<char>, ctx: Seq<char>) -> Seq<
    Seq<char>,
> {
    match kind {
        PyStmtKind::Assign { .. } | PyStmtKind::AnnAssign { .. } | PyStmtKind::AugAssign {
            ..
        } | PyStmtKind::ClassDef { .. } | PyStmtKind::FunctionDef { .. } => qualify_each(
            stmt_full_names(kind, parent),
            ctx,
        ),
        _ => stmt_full_names(kind, parent),
    }
}

/// Whether alias `key` captures `q`: exactly, or as a dotted prefix.
pub open spec fn alias_key_matches(key: Seq<char>, q: Seq<char>) -> bool {
    q == key || (key + seq!['.']).is_prefix_of(q)
}

/// The substitutions the alias table offers for `q`, in table order:
/// for every matching key, the key prefix replaced by its target.
pub open spec fn alias_substitutions(ps: Seq<(Seq<char>, Seq<char>)>, q: Seq<char>) -> Seq<
    Seq<char>,
>
    decreases ps.len(),
{
    if ps.len() == 0 {
        Seq::empty()
    } else {
        alias_substitutions(ps.drop_last(), q) + if alias_key_matches(ps.last().0, q) {
            seq![ps.last().1 + q.skip(ps.last().0.len() as int)]
        } else {
            Seq::<Seq<char>>::empty()
        }
    }
}

/// `source.q` for every active star-import source, in set order.
pub open spec fn star_suffixed(items: Seq<Seq<char>>, q: Seq<char>) -> Seq<Seq<char>>
    decreases items.len(),
{
    if items.len() == 0 {
        Seq::empty()
    } else {
        star_suffixed(items.drop_last(), q) + seq![items.last() + seq!['.'] + q]
    }
}

/// With no matching alias key, the alias table offers no substitution.
pub proof fn lemma_alias_substitutions_none(ps: Seq<(Seq<char>, Seq<char>)>, q: Seq<char>)
    requires
        forall|i: int| 0 <= i < ps.len() ==> !alias_key_matches(#[trigger] ps[i].0, q),
    ensures
        alias_substitutions(ps, q).len() == 0,
    decreases ps.len(),
{
    if ps.len() > 0 {
        lemma_alias_substitutions_none(ps.drop_last(), q);
    }
}

/// `star_suffixed` maps each source to `source.q`, position by position.
pub proof fn lemma_star_suffixed_at(items: Seq<Seq<char>>, q: Seq<char>, j: int)
    requires
        0 <= j < items.len(),
    ensures
        star_suffixed(items, q).len() == items.len(),
        star_suffixed(items, q)[j] == items[j] + seq!['.'] + q,
    decreases items.len(),
{
    if items.len() > 0 {
        if j < items.len() - 1 {
            lemma_star_suffixed_at(items.drop_last(), q, j);
        } else if items.len() > 1 {
            lemma_star_suffixed_at(items.drop_last(), q, 0);
        }
        assert(star_suffixed(items, q).len() == star_suffixed(items.drop_last(), q).len() + 1);
        if star_suffixed(items.drop_last(), q).len() != items.drop_last().len() {
            lemma_star_suffixed_len(items.drop_last(), q);
        }
    }
}

/// `star_suffixed` keeps the length of its source list.
pub proof fn lemma_star_suffixed_len(items: Seq<Seq<char>>, q: Seq<char>)
    ensures
        star_suffixed(items, q).len() == items.len(),
    decreases items.len(),
{
    if items.len() > 0 {
        lemma_star_suffixed_len(items.drop_last(), q);
    }
}

/// Star-import multi-resolution: resolving a local name always offers
/// `source.name` for every active star-import source, and, when no
/// import alias captures the name, the module-qualified reading as
/// well — so a name such as `x` in module `pkg.a` with
/// `from pkg.b import *` active resolves to both `pkg.a.x` and
/// `pkg.b.x`.
pub proof fn lemma_star_import_multi_resolution(
    p: FullyQualifiedNameProvider,
    q: Seq<char>,
    star: Seq<char>,
)
    requires
        p.imports_provider.active_star_imports.items_seq().contains(star),
        forall|i: int|
            0 <= i < p.imports_provider.active_imports.pairs().len() ==> !alias_key_matches(
                #[trigger] p.imports_provider.active_imports.pairs()[i].0,
                q,
            ),
    ensures
        p.candidates(q).contains(star + seq!['.'] + q),
        p.candidates(q).contains(p.module_spec@ + seq!['.'] + q),
{
    let pairs = p.imports_provider.active_imports.pairs();
    let items = p.imports_provider.active_star_imports.items_seq();
    lemma_alias_substitutions_none(pairs, q);
    let fallback = seq![p.module_spec@ + seq!['.'] + q];
    assert(p.candidates(q) == fallback + star_suffixed(items, q));
    assert(p.candidates(q)[0] == p.module_spec@ + seq!['.'] + q);
    let j = choose|j: int| 0 <= j < items.len() && items[j] == star;
    lemma_star_suffixed_at(items, q, j);
    assert(p.candidates(q)[1 + j] == star_suffixed(items, q)[j]);
}

/// The saved scope prefix and import tables restored on scope exit.
pub struct FullyQualifiedNameProviderScope {
    pub name_context: Option<String>,
    pub import_scope: ImportTrackingProviderScope,
}

impl FullyQualifiedNameProviderScope {
    pub open spec fn wf(&self) -> bool {
        self.import_scope.wf()
    }
}

/// Resolves local names to their plausible fully-qualified names,
/// combining the current scope prefix, the active import aliases and
/// the active star-import sources.
pub struct FullyQualifiedNameProvider {
    pub name_context: String,
    pub module_spec: String,
    pub parent_package: String,
    pub imports_provider: ImportsTrackingProvider,
}

impl FullyQualifiedNameProvider {
    pub open spec fn wf(&self) -> bool {
        self.imports_provider.wf()
    }

    /// The candidate fully-qualified names of a scope-qualified local
    /// name: every alias substitution, or the module-qualified fallback
    /// when no alias matches, and `source.q` for every star import.
    pub open spec fn candidates(&self, q: Seq<char>) -> Seq<Seq<char>> {
        let subs = alias_substitutions(self.imports_provider.active_imports.pairs(), q);
        (if subs.len() == 0 {
            seq![self.module_spec@ + seq!['.'] + q]
        } else {
            subs
        }) + star_suffixed(self.imports_provider.active_star_imports.items_seq(), q)
    }

    /// `candidates` folded over a list of qualified names.
    pub open spec fn candidates_of_each(&self, ns: Seq<Seq<char>>) -> Seq<Seq<char>>
        decreases ns.len(),
    {
        if ns.len() == 0 {
            Seq::empty()
        } else {
            self.candidates_of_each(ns.drop_last()) + self.candidates(ns.last())
        }
    }

    /// The fully-qualified candidates an expression refers to.
    pub open spec fn expr_fqns(&self, e: PyExpr) -> Seq<Seq<char>> {
        self.candidates_of_each(expr_qualified_names(e, self.name_context@))
    }

    /// The fully-qualified candidates a statement defines or refers to.
    /// Import statements keep their extracted names unresolved.
    pub open spec fn stmt_fqns(&self, kind: PyStmtKind) -> Seq<Seq<char>> {
        match kind {
            PyStmtKind::Import { .. } | PyStmtKind::ImportFrom { .. } => stmt_full_names(
                kind,
                self.parent_package@,
            ),
            _ => self.candidates_of_each(
                stmt_qualified_names(kind, self.parent_package@, self.name_context@),
            ),
        }
    }

    pub fn new(module_spec: &str, source_path: &str) -> (r: Self)
        ensures
            r.wf(),
            r.name_context@ == Seq::<char>::empty(),
            r.module_spec@ == module_spec@,
            r.parent_package@ == parent_package_context(module_spec@, source_path@),
            r.imports_provider.active_imports@ =~= Map::<Seq<char>, Seq<char>>::empty(),
            r.imports_provider.active_star_imports@ =~= Set::<Seq<char>>::empty(),
            r.imports_provider.active_imports.pairs() =~= Seq::<(Seq<char>, Seq<char>)>::empty(),
            r.imports_provider.active_star_imports.items_seq() =~= Seq::<Seq<char>>::empty(),
            r.imports_provider.module_spec@ == module_spec@,
            r.imports_provider.source_path@ == source_path@,
            r.imports_provider.importlib_view() is None,
    {
        let imports_provider = ImportsTrackingProvider::new(module_spec, source_path);
        let parent_package = imports_provider.get_parent_package();
        FullyQualifiedNameProvider {
            name_context: String::new(),
            module_spec: String::from_str(module_spec),
            parent_package,
            imports_provider,
        }
    }

    /// The wrapped import-tracking provider.
    pub fn get_imports_provider(&self) -> (r: &ImportsTrackingProvider)
        ensures
            r == &self.imports_provider,
    {
        &self.imports_provider
    }

    /// Prefixes `name` with the current scope context.
    pub fn resolve_qualified_name(&self, name: &str) -> (r: String)
        ensures
            r@ == scope_qualified(self.name_context@, name@),
    {
        if self.name_context.as_str().unicode_len() > 0 {
            concat_dot(self.name_context.as_str(), name)
        } else {
            String::from_str(name)
        }
    }

    /// Resolves one scope-qualified name to all its candidate
    /// fully-qualified names.
    #[verifier::loop_isolation(false)]
    pub fn resolve_fully_qualified_name(&self, qualified_name: &str) -> (r: Vec<String>)
        requires
            self.wf(),
        ensures
            r.deep_view() == self.candidates(qualified_name@),
    {
        proof {
            reveal_strlit(".");
        }
        let ghost pairs = self.imports_provider.active_imports.pairs();
        let ghost q = qualified_name@;
        let mut out: Vec<String> = Vec::new();
        proof {
            assert(out.deep_view() =~~= alias_substitutions(pairs.take(0), q));
        }
        let n = self.imports_provider.active_imports.len();
        let mut i: usize = 0;
        while i < n
            invariant
                i <= n,
                n == pairs.len(),
                pairs == self.imports_provider.active_imports.pairs(),
                q == qualified_name@,
                out.deep_view() == alias_substitutions(pairs.take(i as int), q),
            decreases n - i,
        {
            proof {
                assert(pairs.take(i + 1).drop_last() =~= pairs.take(i as int));
                assert(pairs.take(i + 1).last() == pairs[i as int]);
            }
            let key = self.imports_provider.active_imports.key_at(i);
            let key_len = key.as_str().unicode_len();
            let key_dot = concat_str(key.as_str(), ".");
            let ghost old_deep = out.deep_view();
            if str_eq(qualified_name, key.as_str()) || str_starts_with(
                qualified_name,
                key_dot.as_str(),
            ) {
                proof {
                    assert(key_dot@ == pairs[i as int].0 + seq!['.']);
                    assert(alias_key_matches(pairs[i as int].0, q));
                }
                let value = self.imports_provider.active_imports.value_at(i);
                out.push(concat_str(value.as_str(), str_skip(qualified_name, key_len)));
                proof {
                    assert(out.deep_view() =~~= old_deep + seq![
                        pairs[i as int].1 + q.skip(pairs[i as int].0.len() as int),
                    ]);
                }
            } else {
                proof {
                    assert(key_dot@ == pairs[i as int].0 + seq!['.']);
                    assert(!alias_key_matches(pairs[i as int].0, q));
                }
            }
            proof {
                assert(out.deep_view() =~~= alias_substitutions(pairs.take(i + 1), q));
            }
            i += 1;
        }
        proof {
            assert(pairs.take(pairs.len() as int) =~= pairs);
        }
        if out.len() == 0 {
            out.push(concat_dot(self.module_spec.as_str(), qualified_name));
            proof {
                assert(out.deep_view() =~~= seq![self.module_spec@ + seq!['.'] + q]);
            }
        }
        let ghost base = out.deep_view();
        let ghost stars = self.imports_provider.active_star_imports.items_seq();
        let m = self.imports_provider.active_star_imports.len();
        let mut j: usize = 0;
        proof {
            assert(base + star_suffixed(stars.take(0), q) =~~= base);
        }
        while j < m
            invariant
                j <= m,
                m == stars.len(),
                stars == self.imports_provider.active_star_imports.items_seq(),
                q == qualified_name@,
                out.deep_view() == base + star_suffixed(stars.take(j as int), q),
            decreases m - j,
        {
            proof {
                assert(stars.take(j + 1).drop_last() =~= stars.take(j as int));
                assert(stars.take(j + 1).last() == stars[j as int]);
            }
            let ghost old_deep = out.deep_view();
            let star = self.imports_provider.active_star_imports.item_at(j);
            out.push(concat_dot(star.as_str(), qualified_name));
            proof {
                assert(out.deep_view() =~~= old_deep + seq![stars[j as int] + seq!['.'] + q]);
                assert(out.deep_view() =~~= base + star_suffixed(stars.take(j + 1), q));
            }
            j += 1;
        }
        proof {
            assert(stars.take(stars.len() as int) =~= stars);
            assert(out.deep_view() =~~= self.candidates(q));
        }
        out
    }

    /// Resolves every qualified name in `ns` and concatenates the
    /// candidate lists.
    #[verifier::loop_isolation(false)]
    fn resolve_each(&self, ns: &Vec<String>) -> (r: Vec<String>)
        requires
            self.wf(),
        ensures
            r.deep_view() == self.candidates_of_each(ns.deep_view()),
    {
        let ghost nd = ns.deep_view();
        let mut out: Vec<String> = Vec::new();
        proof {
            assert(out.deep_view() =~~= self.candidates_of_each(nd.take(0)));
        }
        let mut i: usize = 0;
        while i < ns.len()
            invariant
                i <= ns.len(),
                nd == ns.deep_view(),
                out.deep_view() == self.candidates_of_each(nd.take(i as int)),
            decreases ns.len() - i,
        {
            proof {
                assert(nd.take(i + 1).drop_last() =~= nd.take(i as int));
                assert(nd.take(i + 1).last() == nd[i as int]);
            }
            let ghost old_deep = out.deep_view();
            let mut sub = self.resolve_fully_qualified_name(ns[i].as_str());
            let ghost subd = sub.deep_view();
            out.append(&mut sub);
            proof {
                assert(out.deep_view() =~~= old_deep + subd);
                assert(out.deep_view() =~~= self.candidates_of_each(nd.take(i + 1)));
            }
            i += 1;
        }
        proof {
            assert(nd.take(nd.len() as int) =~= nd);
        }
        out
    }

    /// The scope-qualified local names of `expr`.
    #[verifier::loop_isolation(false)]
    fn get_expr_qualified_name(&self, expr: &PyExpr) -> (r: Vec<String>)
        ensures
            r.deep_view() == expr_qualified_names(*expr, self.name_context@),
    {
        let names = get_full_name_for_expr(expr);
        let ghost nd = names.deep_view();
        match expr {
            PyExpr::Named { .. } => {
                let mut out: Vec<String> = Vec::new();
                proof {
                    assert(out.deep_view() =~~= qualify_each(nd.take(0), self.name_context@));
                }
                let mut i: usize = 0;
                while i < names.len()
                    invariant
                        i <= names.len(),
                        nd == names.deep_view(),
                        out.deep_view() == qualify_each(nd.take(i as int), self.name_context@),
                    decreases names.len() - i,
                {
                    proof {
                        assert(nd.take(i + 1).drop_last() =~= nd.take(i as int));
                        assert(nd.take(i + 1).last() == nd[i as int]);
                    }
                    let ghost old_deep = out.deep_view();
                    out.push(self.resolve_qualified_name(names[i].as_str()));
                    proof {
                        assert(out.deep_view() =~~= old_deep + seq![
                            scope_qualified(self.name_context@, nd[i as int]),
                        ]);
                        assert(out.deep_view() =~~= qualify_each(
                            nd.take(i + 1),
                            self.name_context@,
                        ));
                    }
                    i += 1;
                }
                proof {
                    assert(nd.take(nd.len() as int) =~= nd);
                }
                out
            },
            PyExpr::Name { .. } | PyExpr::Attribute { .. } => {
                let mut out: Vec<String> = Vec::new();
                proof {
                    assert(out.deep_view() =~~= qualify_both(nd.take(0), self.name_context@));
                }
                let mut i: usize = 0;
                while i < names.len()
                    invariant
                        i <= names.len(),
                        nd == names.deep_view(),
                        out.deep_view() == qualify_both(nd.take(i as int), self.name_context@),
                    decreases names.len() - i,
                {
                    proof {
                        assert(nd.take(i + 1).drop_last() =~= nd.take(i as int));
                        assert(nd.take(i + 1).last() == nd[i as int]);
                    }
                    let ghost old_deep = out.deep_view();
                    out.push(self.resolve_qualified_name(names[i].as_str()));
                    out.push(names[i].clone());
                    proof {
                        assert(out.deep_view() =~~= old_deep + seq![
                            scope_qualified(self.name_context@, nd[i as int]),
                            nd[i as int],
                        ]);
                        assert(out.deep_view() =~~= qualify_both(
                            nd.take(i + 1),
                            self.name_context@,
                        ));
                    }
                    i += 1;
                }
                proof {
                    assert(nd.take(nd.len() as int) =~= nd);
                }
                out
            },
            _ => names,
        }
    }

    /// The scope-qualified local names of `stmt`.
    #[verifier::loop_isolation(false)]
    fn get_stmt_qualified_name(&self, stmt: &PyStmt) -> (r: Vec<String>)
        ensures
            r.deep_view() == stmt_qualified_names(
                stmt.kind,
                self.parent_package@,
                self.name_context@,
            ),
    {
        let names = get_full_name_for_stmt(stmt, self.parent_package.as_str());
        let ghost nd = names.deep_view();
        let is_definition = match &stmt.kind {
            PyStmtKind::Assign { .. } | PyStmtKind::AnnAssign { .. } | PyStmtKind::AugAssign {
                ..
            } | PyStmtKind::ClassDef { .. } | PyStmtKind::FunctionDef { .. } => true,
            _ => false,
        };
        if is_definition {
            let mut out: Vec<String> = Vec::new();
            proof {
                assert(out.deep_view() =~~= qualify_each(nd.take(0), self.name_context@));
            }
            let mut i: usize = 0;
            while i < names.len()
                invariant
                    i <= names.len(),
                    nd == names.deep_view(),
                    out.deep_view() == qualify_each(nd.take(i as int), self.name_context@),
                decreases names.len() - i,
            {
                proof {
                    assert(nd.take(i + 1).drop_last() =~= nd.take(i as int));
                    assert(nd.take(i + 1).last() == nd[i as int]);
                }
                let ghost old_deep = out.deep_view();
                out.push(self.resolve_qualified_name(names[i].as_str()));
                proof {
                    assert(out.deep_view() =~~= old_deep + seq![
                        scope_qualified(self.name_context@, nd[i as int]),
                    ]);
                    assert(out.deep_view() =~~= qualify_each(nd.take(i + 1), self.name_context@));
                }
                i += 1;
            }
            proof {
                assert(nd.take(nd.len() as int) =~= nd);
            }
            out
        } else {
            names
        }
    }

    /// All candidate fully-qualified names `expr` may refer to.
    pub fn get_expr_fully_qualified_name(&self, expr: &PyExpr) -> (r: Vec<String>)
        requires
            self.wf(),
        ensures
            r.deep_view() == self.expr_fqns(*expr),
    {
        let qualified = self.get_expr_qualified_name(expr);
        self.resolve_each(&qualified)
    }

    /// All candidate fully-qualified names `stmt` defines or refers to.
    pub fn get_stmt_fully_qualified_name(&self, stmt: &PyStmt) -> (r: Vec<String>)
        requires
            self.wf(),
        ensures
            r.deep_view() == self.stmt_fqns(stmt.kind),
    {
        match &stmt.kind {
            PyStmtKind::Import { .. } | PyStmtKind::ImportFrom { .. } => {
                get_full_name_for_stmt(stmt, self.parent_package.as_str())
            },
            _ => {
                let qualified = self.get_stmt_qualified_name(stmt);
                self.resolve_each(&qualified)
            },
        }
    }

    /// Forwards import bindings to the tracking provider.
    pub fn visit_stmt(&mut self, stmt: &PyStmt)
        requires
            old(self).wf(),
        ensures
            final(self).wf(),
            final(self).name_context@ == old(self).name_context@,
            final(self).module_spec@ == old(self).module_spec@,
            final(self).parent_package@ == old(self).parent_package@,
            final(self).imports_provider.module_spec@ == old(
                self,
            ).imports_provider.module_spec@,
            final(self).imports_provider.source_path@ == old(self).imports_provider.source_path@,
            ImportsTrackingProvider::imports_transition(
                old(self).imports_provider,
                final(self).imports_provider,
                stmt.kind,
            ),
            (!(stmt.kind matches PyStmtKind::Import { .. }) && !(stmt.kind
                matches PyStmtKind::ImportFrom { .. })
                && crate::checkers::dynamic_imports_of(
                stmt.kind,
                old(self).imports_provider.importlib_view(),
            ).len() == 0) ==> *final(self) == *old(self),
    {
        self.imports_provider.visit_stmt(stmt);
    }

    /// Entering a class or function definition extends the scope prefix
    /// with its name and snapshots the import tables.
    pub fn enter_scope(&mut self, stmt: &PyStmt) -> (r: FullyQualifiedNameProviderScope)
        requires
            old(self).wf(),
        ensures
            final(self).wf(),
            r.wf(),
            final(self).module_spec@ == old(self).module_spec@,
            final(self).parent_package@ == old(self).parent_package@,
            final(self).imports_provider == old(self).imports_provider,
            ({
                let names = stmt_full_names(stmt.kind, old(self).parent_package@);
                if is_scope_stmt(stmt.kind) && names.len() == 1 {
                    &&& (r.name_context matches Some(c) && c@ == old(self).name_context@)
                    &&& final(self).name_context@ == scope_qualified(
                        old(self).name_context@,
                        names[0],
                    )
                } else {
                    &&& r.name_context is None
                    &&& final(self).name_context@ == old(self).name_context@
                }
            }),
            is_scope_stmt(stmt.kind) ==> (r.import_scope.active_imports matches Some(m) && m@
                == old(self).imports_provider.active_imports@ && m.pairs() == old(
                self,
            ).imports_provider.active_imports.pairs()) && (
            r.import_scope.active_star_imports matches Some(s) && s@ == old(
                self,
            ).imports_provider.active_star_imports@ && s.items_seq() == old(
                self,
            ).imports_provider.active_star_imports.items_seq()),
            !is_scope_stmt(stmt.kind) ==> r.import_scope.active_imports is None
                && r.import_scope.active_star_imports is None,
            !is_scope_stmt(stmt.kind) ==> *final(self) == *old(self),
    {
        let is_scope = match &stmt.kind {
            PyStmtKind::ClassDef { .. } | PyStmtKind::FunctionDef { .. } => true,
            _ => false,
        };
        let mut old_name_context: Option<String> = None;
        if is_scope {
            let full_names = get_full_name_for_stmt(stmt, self.parent_package.as_str());
            if full_names.len() == 1 {
                old_name_context = Some(self.name_context.clone());
                self.name_context = self.resolve_qualified_name(full_names[0].as_str());
            }
            proof {
                assert(stmt_full_names(stmt.kind, self.parent_package@).len() == 1);
            }
        }
        FullyQualifiedNameProviderScope {
            name_context: old_name_context,
            import_scope: self.imports_provider.enter_scope(stmt),
        }
    }

    /// Restores the scope prefix and import tables saved by
    /// `enter_scope`.
    pub fn exit_scope(&mut self, scope: FullyQualifiedNameProviderScope)
        requires
            old(self).wf(),
            scope.wf(),
        ensures
            final(self).wf(),
            final(self).module_spec@ == old(self).module_spec@,
            final(self).parent_package@ == old(self).parent_package@,
            final(self).name_context@ == match scope.name_context {
                Some(c) => c@,
                None => old(self).name_context@,
            },
            final(self).imports_provider.active_imports@ == match scope.import_scope.active_imports {
                Some(m) => m@,
                None => old(self).imports_provider.active_imports@,
            },
            final(self).imports_provider.active_star_imports@ == match scope
                .import_scope
                .active_star_imports {
                Some(s) => s@,
                None => old(self).imports_provider.active_star_imports@,
            },
            final(self).imports_provider.active_imports.pairs() == match scope
                .import_scope
                .active_imports {
                Some(m) => m.pairs(),
                None => old(self).imports_provider.active_imports.pairs(),
            },
            final(self).imports_provider.active_star_imports.items_seq() == match scope
                .import_scope
                .active_star_imports {
                Some(s) => s.items_seq(),
                None => old(self).imports_provider.active_star_imports.items_seq(),
            },
            final(self).imports_provider.module_spec@ == old(
                self,
            ).imports_provider.module_spec@,
            final(self).imports_provider.source_path@ == old(self).imports_provider.source_path@,
            final(self).imports_provider.importlib_view() == old(
                self,
            ).imports_provider.importlib_view(),
    {
        let FullyQualifiedNameProviderScope { name_context, import_scope } = scope;
        if let Some(c) = name_context {
            self.name_context = c;
        }
        self.imports_provider.exit_scope(import_scope);
    }
}

} // verus!
