//! The liveness engine: walks every statement and expression of a
//! module, attributes reference events to fully-qualified names, and
//! accumulates them in the shared reference-count table. The driver
//! sweeps all modules repeatedly until the new-reference counter stays
//! zero.

use vstd::prelude::*;

verus! {

use vstd::string::StrSliceExecFns;
use vstd::string::StringExecFns;
use crate::strings::concat_dot;
use crate::strings::str_eq;
use crate::strings::str_ends_with;
use crate::strings::str_skip;
use crate::strings::str_starts_with;
use crate::ast::PyAlias;
use crate::ast::PyExpr;
use crate::ast::PyStmt;
use crate::ast::PyStmtKind;
use crate::checkers::dynamic_imports_of;
use crate::checkers::is_if_name_main;
use crate::checkers::is_name_main_test;
use crate::fqn_provider::FullyQualifiedNameProvider;
use crate::fqn_provider::scope_qualified;
use crate::import_resolution::get_import_from_absolute_module_spec;
use crate::import_resolution::import_from_targets_of;
use crate::imports_provider::file_name_of;
use crate::imports_provider::parent_package_context;
use crate::tables::CountTable;
use crate::tables::StrMap;
use crate::tables::StrSet;

/// A name is referenced when it is known with a positive count.
pub open spec fn has_refs(counts: Map<Seq<char>, u64>, k: Seq<char>) -> bool {
    counts.contains_key(k) && counts[k] > 0
}

/// Some name of `ns` is referenced.
pub open spec fn seq_any_has_refs(counts: Map<Seq<char>, u64>, ns: Seq<Seq<char>>) -> bool {
    exists|i: int| 0 <= i < ns.len() && has_refs(counts, ns[i])
}

/// Some name under the module's dotted prefix is referenced.
pub open spec fn module_has_refs(counts: Map<Seq<char>, u64>, module_spec: Seq<char>) -> bool {
    exists|k: Seq<char>|
        counts.contains_key(k) && module_spec.is_prefix_of(k) && #[trigger] counts[k] > 0
}

/// `b` extends `a`: every known name stays known and no count drops.
pub open spec fn counts_monotone(a: Map<Seq<char>, u64>, b: Map<Seq<char>, u64>) -> bool {
    forall|k: Seq<char>|
        #![trigger a.contains_key(k)]
        #![trigger b.contains_key(k)]
        a.contains_key(k) ==> b.contains_key(k) && b[k] >= a[k]
}

/// A count after one more reference; saturating, so it never wraps.
pub open spec fn bumped(c: u64) -> u64 {
    if c == u64::MAX {
        c
    } else {
        (c + 1) as u64
    }
}

/// Whether `k` lies on the alias chain that starts at `start`, following
/// at most `fuel` hops through the alias table.
pub open spec fn in_alias_chain(
    aliases: Map<Seq<char>, Seq<char>>,
    start: Seq<char>,
    k: Seq<char>,
    fuel: nat,
) -> bool
    decreases fuel,
{
    k == start || (fuel > 0 && aliases.contains_key(start) && in_alias_chain(
        aliases,
        aliases[start],
        k,
        (fuel - 1) as nat,
    ))
}

/// Counts references by visiting statements; `new_references_count`
/// reports how many references a run newly discovered, the driver's
/// fixed-point convergence signal.
pub struct ReferencesCounter {
    pub names_provider: FullyQualifiedNameProvider,
    pub module_spec: String,
    pub references_counts: CountTable,
    pub new_references_count: u64,
    pub always_bump_context: bool,
    pub source_path: String,
    pub import_aliases: StrMap,
    pub safe_decorators: StrSet,
}

impl ReferencesCounter {
    pub open spec fn wf(&self) -> bool {
        &&& self.references_counts.wf()
        &&& self.import_aliases.wf()
        &&& self.safe_decorators.wf()
        &&& self.names_provider.wf()
        &&& self.new_references_count <= self.references_counts.size()
    }

    /// What any single counting action guarantees: the count table only
    /// grows, counts never drop, the new-reference counter never falls
    /// and never rises faster than the table grows, and the module
    /// identity and configuration stay untouched. Reference discoveries
    /// (`increase` on an absent name) move the counter in exact lockstep
    /// with the table; bookkeeping insertions (`make_known`) grow the
    /// table without touching the counter.
    pub open spec fn counting_step(pre: Self, post: Self) -> bool {
        &&& post.wf()
        &&& counts_monotone(pre.references_counts@, post.references_counts@)
        &&& post.new_references_count - pre.new_references_count
            <= post.references_counts.size() - pre.references_counts.size()
        &&& post.new_references_count >= pre.new_references_count
        &&& post.module_spec@ == pre.module_spec@
        &&& post.source_path@ == pre.source_path@
        &&& post.import_aliases == pre.import_aliases
        &&& post.safe_decorators == pre.safe_decorators
        &&& post.names_provider.module_spec@ == pre.names_provider.module_spec@
        &&& post.names_provider.parent_package@ == pre.names_provider.parent_package@
        &&& post.names_provider.imports_provider.module_spec@
            == pre.names_provider.imports_provider.module_spec@
        &&& post.names_provider.imports_provider.source_path@
            == pre.names_provider.imports_provider.source_path@
    }

    /// The names a liveness query for a statement consults: a lone
    /// wildcard `import from` asks for its greedily resolved source
    /// modules; everything else asks for its fully-qualified names.
    pub open spec fn stmt_query_names(&self, kind: PyStmtKind) -> Seq<Seq<char>> {
        match kind {
            PyStmtKind::ImportFrom { module, names, level } => {
                if names@.len() == 1 && names@[0].name@ == "*"@ {
                    match import_from_targets_of(
                        module,
                        names@,
                        level,
                        parent_package_context(
                            self.names_provider.imports_provider.module_spec@,
                            self.names_provider.imports_provider.source_path@,
                        ),
                        true,
                    ) {
                        Ok(t) => t,
                        Err(_) => Seq::empty(),
                    }
                } else {
                    self.names_provider.stmt_fqns(kind)
                }
            },
            _ => self.names_provider.stmt_fqns(kind),
        }
    }

    /// The candidate resolutions of the local name one import alias
    /// binds, as the per-alias liveness rules probe them.
    pub open spec fn alias_probe(&self, a: PyAlias) -> Seq<Seq<char>> {
        self.names_provider.candidates(
            scope_qualified(self.names_provider.name_context@, a.bound_name()),
        )
    }

    /// Whether some probed resolution of the alias is referenced in
    /// `counts`; `skip_builtin` leaves interpreter-builtin paths out, as
    /// the `import from` rule does.
    pub open spec fn alias_probe_live(
        &self,
        counts: Map<Seq<char>, u64>,
        a: PyAlias,
        skip_builtin: bool,
    ) -> bool {
        exists|c: int|
            0 <= c < self.alias_probe(a).len() && !(skip_builtin && "__builtin__"@.is_prefix_of(
                #[trigger] self.alias_probe(a)[c],
            )) && has_refs(counts, self.alias_probe(a)[c])
    }

    /// What every statement visit establishes up front, stated of a
    /// count table `counts`: each extracted name becomes known, and an
    /// active bump context or the module entry file forces every
    /// extracted name to be referenced.
    pub open spec fn stmt_entry_facts(pre: Self, stmt: PyStmt, counts: Map<Seq<char>, u64>) -> bool {
        let fqns = pre.names_provider.stmt_fqns(stmt.kind);
        &&& forall|i: int| 0 <= i < fqns.len() ==> counts.contains_key(#[trigger] fqns[i])
        &&& pre.always_bump_context ==> forall|i: int|
            0 <= i < fqns.len() ==> has_refs(counts, #[trigger] fqns[i])
        &&& file_name_of(pre.source_path@) == "__main__.py"@ ==> forall|i: int|
            0 <= i < fqns.len() ==> has_refs(counts, #[trigger] fqns[i])
    }

    /// What one expression visit guarantees of the final table: an
    /// active bump context, the module entry file, and a module-scope
    /// call in a referenced module all force every candidate name of
    /// the expression to be referenced.
    pub open spec fn expr_visit_facts(pre: Self, e: PyExpr, counts: Map<Seq<char>, u64>) -> bool {
        let fqns = pre.names_provider.expr_fqns(e);
        &&& pre.always_bump_context ==> forall|i: int|
            0 <= i < fqns.len() ==> has_refs(counts, #[trigger] fqns[i])
        &&& file_name_of(pre.source_path@) == "__main__.py"@ ==> forall|i: int|
            0 <= i < fqns.len() ==> has_refs(counts, #[trigger] fqns[i])
        &&& (e matches PyExpr::Call { .. } && pre.names_provider.name_context@.len() == 0
            && module_has_refs(pre.references_counts@, pre.module_spec@)) ==> forall|i: int|
            0 <= i < fqns.len() ==> has_refs(counts, #[trigger] fqns[i])
    }

    /// The expression facts survive monotone growth of the table.
    pub proof fn lemma_expr_visit_facts_monotone(
        pre: Self,
        e: PyExpr,
        a: Map<Seq<char>, u64>,
        b: Map<Seq<char>, u64>,
    )
        requires
            Self::expr_visit_facts(pre, e, a),
            counts_monotone(a, b),
        ensures
            Self::expr_visit_facts(pre, e, b),
    {
        let fqns = pre.names_provider.expr_fqns(e);
        assert forall|i: int| 0 <= i < fqns.len() && has_refs(a, #[trigger] fqns[i]) implies
        has_refs(b, fqns[i]) by {}
    }

    /// The per-kind liveness rules one statement visit applies, stated
    /// of a count table `counts` in terms of the counter state `pre` at
    /// entry: a referenced assignment, a referenced or unsafely
    /// decorated definition, and a module-level `__getattr__` or
    /// `__dir__` hook in a referenced module all have every extracted
    /// name referenced afterwards; a live import alias keeps the names
    /// it binds referenced entry by entry; and a module-scope lone
    /// wildcard import makes every re-exported twin known and bumps the
    /// source module's referenced definitions.
    pub open spec fn stmt_visit_facts(pre: Self, stmt: PyStmt, counts: Map<Seq<char>, u64>) -> bool {
        let fqns = pre.names_provider.stmt_fqns(stmt.kind);
        &&& Self::stmt_entry_facts(pre, stmt, counts)
        &&& ((stmt.kind matches PyStmtKind::Assign { .. } || stmt.kind
            matches PyStmtKind::AnnAssign { .. } || stmt.kind matches PyStmtKind::AugAssign {
            ..
        }) && seq_any_has_refs(pre.references_counts@, pre.stmt_query_names(stmt.kind))
            ==> forall|i: int| 0 <= i < fqns.len() ==> has_refs(counts, #[trigger] fqns[i]))
        &&& (match stmt.kind {
            PyStmtKind::ClassDef { decorators, .. } => (seq_any_has_refs(
                pre.references_counts@,
                pre.stmt_query_names(stmt.kind),
            ) || exists|j: int|
                0 <= j < decorators@.len() && !pre.decorator_is_safe(#[trigger] decorators@[j]))
                ==> forall|i: int| 0 <= i < fqns.len() ==> has_refs(counts, #[trigger] fqns[i]),
            _ => true,
        })
        &&& (match stmt.kind {
            PyStmtKind::FunctionDef { decorators, .. } => (seq_any_has_refs(
                pre.references_counts@,
                pre.stmt_query_names(stmt.kind),
            ) || exists|j: int|
                0 <= j < decorators@.len() && !pre.decorator_is_safe(#[trigger] decorators@[j]))
                ==> forall|i: int| 0 <= i < fqns.len() ==> has_refs(counts, #[trigger] fqns[i]),
            _ => true,
        })
        &&& (match stmt.kind {
            PyStmtKind::FunctionDef { name, .. } => (pre.names_provider.name_context@.len() == 0
                && (name@ == "__getattr__"@ || name@ == "__dir__"@) && module_has_refs(
                pre.references_counts@,
                pre.module_spec@,
            )) ==> forall|i: int| 0 <= i < fqns.len() ==> has_refs(counts, #[trigger] fqns[i]),
            _ => true,
        })
        &&& (match stmt.kind {
            PyStmtKind::Import { names } => Self::import_alias_facts(pre, stmt, names@, counts),
            _ => true,
        })
        &&& (match stmt.kind {
            PyStmtKind::ImportFrom { module, names, level } => Self::from_alias_facts(
                pre,
                stmt,
                names@,
                counts,
            ),
            _ => true,
        })
        &&& (match stmt.kind {
            PyStmtKind::ImportFrom { module, names, level } => (
            pre.names_provider.name_context@.len() == 0 && names@.len() == 1 && names@[0].name@
                == "*"@) ==> match import_from_targets_of(
                module,
                names@,
                level,
                parent_package_context(
                    pre.names_provider.imports_provider.module_spec@,
                    pre.names_provider.imports_provider.source_path@,
                ),
                true,
            ) {
                Ok(ts) => Self::star_export_facts(pre, ts, ts.len() as int, counts),
                Err(_) => true,
            },
            _ => true,
        })
    }

    /// The per-alias rule of a plain `import`: an alias whose bound
    /// name resolves to something referenced keeps the names it binds
    /// referenced.
    pub open spec fn import_alias_facts(
        pre: Self,
        stmt: PyStmt,
        names: Seq<PyAlias>,
        counts: Map<Seq<char>, u64>,
    ) -> bool {
        let fqns = pre.names_provider.stmt_fqns(stmt.kind);
        forall|j: int|
            0 <= j < names.len() && pre.alias_probe_live(
                pre.references_counts@,
                #[trigger] names[j],
                false,
            ) ==> forall|i: int|
                0 <= i < fqns.len() && #[trigger] fqns[i] == names[j].name@ ==> has_refs(
                    counts,
                    fqns[i],
                )
    }

    /// The per-alias rule of an `import from`: a live alias (builtin
    /// resolutions excluded) keeps every extracted name ending in its
    /// imported name referenced.
    pub open spec fn from_alias_facts(
        pre: Self,
        stmt: PyStmt,
        names: Seq<PyAlias>,
        counts: Map<Seq<char>, u64>,
    ) -> bool {
        let fqns = pre.names_provider.stmt_fqns(stmt.kind);
        forall|j: int|
            0 <= j < names.len() && pre.alias_probe_live(
                pre.references_counts@,
                #[trigger] names[j],
                true,
            ) ==> forall|i: int|
                0 <= i < fqns.len() && names[j].name@.is_suffix_of(#[trigger] fqns[i])
                    ==> has_refs(counts, fqns[i])
    }

    /// The wildcard back-propagation rule, for the first `upto` resolved
    /// source modules: every already-known name under a source module
    /// has its re-exported twin made known, and when the twin is
    /// referenced the original defining name's count is bumped.
    pub open spec fn star_export_facts(
        pre: Self,
        ts: Seq<Seq<char>>,
        upto: int,
        counts: Map<Seq<char>, u64>,
    ) -> bool {
        forall|t: int, k: Seq<char>|
            #![trigger ts[t], pre.references_counts@.contains_key(k)]
            0 <= t < upto && t < ts.len() && pre.references_counts@.contains_key(k) && k.len()
                > ts[t].len() && ts[t].is_prefix_of(k) ==> counts.contains_key(
                pre.module_spec@ + seq!['.'] + k.skip(ts[t].len() as int + 1),
            ) && (has_refs(
                pre.references_counts@,
                pre.module_spec@ + seq!['.'] + k.skip(ts[t].len() as int + 1),
            ) ==> counts.contains_key(k) && counts[k] >= bumped(pre.references_counts@[k]))
    }

    /// The import-alias rule survives monotone growth of the table.
    pub proof fn lemma_import_alias_facts_monotone(
        pre: Self,
        stmt: PyStmt,
        names: Seq<PyAlias>,
        a: Map<Seq<char>, u64>,
        b: Map<Seq<char>, u64>,
    )
        requires
            Self::import_alias_facts(pre, stmt, names, a),
            counts_monotone(a, b),
        ensures
            Self::import_alias_facts(pre, stmt, names, b),
    {
        let fqns = pre.names_provider.stmt_fqns(stmt.kind);
        assert forall|j: int|
            0 <= j < names.len() && pre.alias_probe_live(
                pre.references_counts@,
                #[trigger] names[j],
                false,
            ) implies forall|i: int|
            0 <= i < fqns.len() && #[trigger] fqns[i] == names[j].name@ ==> has_refs(
                b,
                fqns[i],
            ) by {
            assert forall|i: int|
                0 <= i < fqns.len() && #[trigger] fqns[i] == names[j].name@ implies has_refs(
                b,
                fqns[i],
            ) by {
                assert(has_refs(a, fqns[i]));
            }
        }
    }

    /// The `import from` alias rule survives monotone growth.
    pub proof fn lemma_from_alias_facts_monotone(
        pre: Self,
        stmt: PyStmt,
        names: Seq<PyAlias>,
        a: Map<Seq<char>, u64>,
        b: Map<Seq<char>, u64>,
    )
        requires
            Self::from_alias_facts(pre, stmt, names, a),
            counts_monotone(a, b),
        ensures
            Self::from_alias_facts(pre, stmt, names, b),
    {
        let fqns = pre.names_provider.stmt_fqns(stmt.kind);
        assert forall|j: int|
            0 <= j < names.len() && pre.alias_probe_live(
                pre.references_counts@,
                #[trigger] names[j],
                true,
            ) implies forall|i: int|
            0 <= i < fqns.len() && names[j].name@.is_suffix_of(#[trigger] fqns[i]) ==> has_refs(
                b,
                fqns[i],
            ) by {
            assert forall|i: int|
                0 <= i < fqns.len() && names[j].name@.is_suffix_of(#[trigger] fqns[i]) implies
            has_refs(b, fqns[i]) by {
                assert(has_refs(a, fqns[i]));
            }
        }
    }

    /// The wildcard back-propagation facts survive monotone growth.
    pub proof fn lemma_star_export_facts_monotone(
        pre: Self,
        ts: Seq<Seq<char>>,
        upto: int,
        a: Map<Seq<char>, u64>,
        b: Map<Seq<char>, u64>,
    )
        requires
            Self::star_export_facts(pre, ts, upto, a),
            counts_monotone(a, b),
        ensures
            Self::star_export_facts(pre, ts, upto, b),
    {
        assert forall|t: int, k: Seq<char>|
            #![trigger ts[t], pre.references_counts@.contains_key(k)]
            0 <= t < upto && t < ts.len() && pre.references_counts@.contains_key(k) && k.len()
                > ts[t].len() && ts[t].is_prefix_of(k) implies b.contains_key(
            pre.module_spec@ + seq!['.'] + k.skip(ts[t].len() as int + 1),
        ) && (has_refs(
            pre.references_counts@,
            pre.module_spec@ + seq!['.'] + k.skip(ts[t].len() as int + 1),
        ) ==> b.contains_key(k) && b[k] >= bumped(pre.references_counts@[k])) by {
            assert(a.contains_key(pre.module_spec@ + seq!['.'] + k.skip(ts[t].len() as int + 1)));
            if has_refs(
                pre.references_counts@,
                pre.module_spec@ + seq!['.'] + k.skip(ts[t].len() as int + 1),
            ) {
                assert(a.contains_key(k) && a[k] >= bumped(pre.references_counts@[k]));
            }
        }
    }

    /// The entry facts survive any monotone growth of the table.
    pub proof fn lemma_stmt_entry_facts_monotone(
        pre: Self,
        stmt: PyStmt,
        a: Map<Seq<char>, u64>,
        b: Map<Seq<char>, u64>,
    )
        requires
            Self::stmt_entry_facts(pre, stmt, a),
            counts_monotone(a, b),
        ensures
            Self::stmt_entry_facts(pre, stmt, b),
    {
        let fqns = pre.names_provider.stmt_fqns(stmt.kind);
        assert forall|i: int| 0 <= i < fqns.len() implies b.contains_key(#[trigger] fqns[i]) by {
            assert(a.contains_key(fqns[i]));
        }
        if pre.always_bump_context {
            assert forall|i: int| 0 <= i < fqns.len() implies has_refs(b, #[trigger] fqns[i]) by {
                assert(has_refs(a, fqns[i]));
            }
        }
        if file_name_of(pre.source_path@) == "__main__.py"@ {
            assert forall|i: int| 0 <= i < fqns.len() implies has_refs(b, #[trigger] fqns[i]) by {
                assert(has_refs(a, fqns[i]));
            }
        }
    }

    /// The full per-statement facts survive any monotone growth of the
    /// table.
    pub proof fn lemma_stmt_visit_facts_monotone(
        pre: Self,
        stmt: PyStmt,
        a: Map<Seq<char>, u64>,
        b: Map<Seq<char>, u64>,
    )
        requires
            Self::stmt_visit_facts(pre, stmt, a),
            counts_monotone(a, b),
        ensures
            Self::stmt_visit_facts(pre, stmt, b),
    {
        let fqns = pre.names_provider.stmt_fqns(stmt.kind);
        Self::lemma_stmt_entry_facts_monotone(pre, stmt, a, b);
        assert forall|i: int| 0 <= i < fqns.len() && has_refs(a, #[trigger] fqns[i]) implies
        has_refs(b, fqns[i]) by {}
        match stmt.kind {
            PyStmtKind::Import { names } => {
                Self::lemma_import_alias_facts_monotone(pre, stmt, names@, a, b);
            },
            PyStmtKind::ImportFrom { module, names, level } => {
                Self::lemma_from_alias_facts_monotone(pre, stmt, names@, a, b);
                if pre.names_provider.name_context@.len() == 0 && names@.len() == 1 && names@[
                    0
                ].name@ == "*"@ {
                    match import_from_targets_of(
                        module,
                        names@,
                        level,
                        parent_package_context(
                            pre.names_provider.imports_provider.module_spec@,
                            pre.names_provider.imports_provider.source_path@,
                        ),
                        true,
                    ) {
                        Ok(ts) => {
                            Self::lemma_star_export_facts_monotone(
                                pre,
                                ts,
                                ts.len() as int,
                                a,
                                b,
                            );
                        },
                        Err(_) => {},
                    }
                }
            },
            _ => {},
        }
    }

    pub fn new(
        references_counts: CountTable,
        import_aliases: StrMap,
        safe_decorators: StrSet,
    ) -> (r: Self)
        requires
            references_counts.wf(),
            import_aliases.wf(),
            safe_decorators.wf(),
        ensures
            r.wf(),
            r.references_counts == references_counts,
            r.import_aliases == import_aliases,
            r.safe_decorators == safe_decorators,
            r.new_references_count == 0,
            r.always_bump_context == false,
            r.module_spec@ == Seq::<char>::empty(),
    {
        ReferencesCounter {
            names_provider: FullyQualifiedNameProvider::new("", ""),
            module_spec: String::new(),
            references_counts,
            new_references_count: 0,
            always_bump_context: false,
            source_path: String::new(),
            import_aliases,
            safe_decorators,
        }
    }

    /// Zeroes the convergence signal before a new sweep.
    pub fn reset_counter(&mut self)
        requires
            old(self).wf(),
        ensures
            final(self).wf(),
            final(self).new_references_count == 0,
            final(self).references_counts == old(self).references_counts,
            final(self).import_aliases == old(self).import_aliases,
            final(self).safe_decorators == old(self).safe_decorators,
            final(self).module_spec@ == old(self).module_spec@,
            final(self).source_path@ == old(self).source_path@,
            final(self).names_provider == old(self).names_provider,
            final(self).always_bump_context == old(self).always_bump_context,
    {
        self.new_references_count = 0;
    }

    /// Counting steps compose.
    pub proof fn lemma_counting_step_trans(a: Self, b: Self, c: Self)
        requires
            Self::counting_step(a, b),
            Self::counting_step(b, c),
        ensures
            Self::counting_step(a, c),
    {
        assert forall|k: Seq<char>| a.references_counts@.contains_key(k) implies c
            .references_counts@.contains_key(k) && c.references_counts@[k]
            >= #[trigger] a.references_counts@[k] by {
            assert(b.references_counts@.contains_key(k) && b.references_counts@[k]
                >= a.references_counts@[k]);
        }
    }

    /// A step that left the table's size unchanged discovered no new
    /// reference: once the table stops growing, the convergence signal
    /// stays at zero.
    pub proof fn lemma_converged_step_counts_nothing(pre: Self, post: Self)
        requires
            Self::counting_step(pre, post),
            post.references_counts.size() == pre.references_counts.size(),
        ensures
            post.new_references_count == pre.new_references_count,
    {
    }

    /// Records one reference to `fqn`, creating the entry when the name
    /// was unknown, and propagates the reference through the supplied
    /// import-alias table: every name on the alias chain is referenced
    /// afterwards, `fqn`'s own count rises, nothing off the chain moves,
    /// and the convergence signal rises exactly with the newly known
    /// names. Chains are followed for at most one hop per table entry,
    /// so a cyclic table cannot loop forever.
    pub fn increase(&mut self, fqn: &str)
        requires
            old(self).wf(),
        ensures
            Self::counting_step(*old(self), *final(self)),
            final(self).names_provider == old(self).names_provider,
            final(self).always_bump_context == old(self).always_bump_context,
            final(self).new_references_count - old(self).new_references_count
                == final(self).references_counts.size() - old(self).references_counts.size(),
            has_refs(final(self).references_counts@, fqn@),
            old(self).references_counts@.contains_key(fqn@) ==> final(self).references_counts@[
                fqn@
            ] >= bumped(old(self).references_counts@[fqn@]),
            old(self).import_aliases@.contains_key(fqn@) ==> has_refs(
                final(self).references_counts@,
                old(self).import_aliases@[fqn@],
            ),
            forall|k: Seq<char>|
                #[trigger] in_alias_chain(
                    old(self).import_aliases@,
                    fqn@,
                    k,
                    old(self).import_aliases.pairs().len() as nat,
                ) ==> has_refs(final(self).references_counts@, k),
            forall|k: Seq<char>|
                #[trigger] final(self).references_counts@.contains_key(k) ==> old(
                    self,
                ).references_counts@.contains_key(k) || in_alias_chain(
                    old(self).import_aliases@,
                    fqn@,
                    k,
                    old(self).import_aliases.pairs().len() as nat,
                ),
            forall|k: Seq<char>|
                #[trigger] old(self).references_counts@.contains_key(k) && !in_alias_chain(
                    old(self).import_aliases@,
                    fqn@,
                    k,
                    old(self).import_aliases.pairs().len() as nat,
                ) ==> final(self).references_counts@[k] == old(self).references_counts@[k],
    {
        let fuel = self.import_aliases.len();
        self.increase_fuel(fqn, fuel);
        proof {
            if old(self).import_aliases@.contains_key(fqn@) {
                crate::tables::lemma_alist_dom(old(self).import_aliases.pairs(), fqn@);
                let w = choose|i: int|
                    0 <= i < old(self).import_aliases.pairs().len() && old(
                        self,
                    ).import_aliases.pairs()[i].0 == fqn@;
                assert(old(self).import_aliases.pairs().len() >= 1);
                let target = old(self).import_aliases@[fqn@];
                let len = old(self).import_aliases.pairs().len() as nat;
                assert(in_alias_chain(old(self).import_aliases@, target, target, (len - 1) as nat));
                assert(in_alias_chain(old(self).import_aliases@, fqn@, target, len));
            }
        }
    }

    /// `increase` with an explicit bound on how many alias hops may
    /// still be taken.
    fn increase_fuel(&mut self, fqn: &str, fuel: usize)
        requires
            old(self).wf(),
        ensures
            Self::counting_step(*old(self), *final(self)),
            final(self).names_provider == old(self).names_provider,
            final(self).always_bump_context == old(self).always_bump_context,
            final(self).new_references_count - old(self).new_references_count
                == final(self).references_counts.size() - old(self).references_counts.size(),
            has_refs(final(self).references_counts@, fqn@),
            old(self).references_counts@.contains_key(fqn@) ==> final(self).references_counts@[
                fqn@
            ] >= bumped(old(self).references_counts@[fqn@]),
            forall|k: Seq<char>|
                #[trigger] in_alias_chain(old(self).import_aliases@, fqn@, k, fuel as nat)
                    ==> has_refs(final(self).references_counts@, k),
            forall|k: Seq<char>|
                #[trigger] final(self).references_counts@.contains_key(k) ==> old(
                    self,
                ).references_counts@.contains_key(k) || in_alias_chain(
                    old(self).import_aliases@,
                    fqn@,
                    k,
                    fuel as nat,
                ),
            forall|k: Seq<char>|
                #[trigger] old(self).references_counts@.contains_key(k) && !in_alias_chain(
                    old(self).import_aliases@,
                    fqn@,
                    k,
                    fuel as nat,
                ) ==> final(self).references_counts@[k] == old(self).references_counts@[k],
        decreases fuel,
    {
        let old_count = self.references_counts.get(fqn);
        match old_count {
            Some(c) => {
                let bumped_c = if c == u64::MAX {
                    c
                } else {
                    c + 1
                };
                self.references_counts.insert(String::from_str(fqn), bumped_c);
            },
            None => {
                self.references_counts.insert(String::from_str(fqn), 1);
                let n = self.references_counts.len();
                proof {
                    assert(self.new_references_count < n);
                }
                self.new_references_count = self.new_references_count + 1;
            },
        }
        let ghost mid = *self;
        proof {
            assert(Self::counting_step(*old(self), mid));
            assert(has_refs(mid.references_counts@, fqn@));
            assert(mid.new_references_count - old(self).new_references_count
                == mid.references_counts.size() - old(self).references_counts.size());
            assert forall|k: Seq<char>|
                #[trigger] mid.references_counts@.contains_key(k) && k != fqn@ implies old(
                self,
            ).references_counts@.contains_key(k) && mid.references_counts@[k] == old(
                self,
            ).references_counts@[k] by {}
        }
        let alias_target: Option<String> = match self.import_aliases.get(fqn) {
            Some(a) => Some(a.clone()),
            None => None,
        };
        match alias_target {
            Some(alias) => {
                if fuel > 0 {
                    let ghost before = *self;
                    self.increase_fuel(alias.as_str(), fuel - 1);
                    proof {
                        Self::lemma_counting_step_trans(*old(self), before, *self);
                        assert(before.references_counts@.contains_key(fqn@));
                        assert(has_refs(self.references_counts@, fqn@));
                        let aliases = old(self).import_aliases@;
                        assert(alias@ == aliases[fqn@]);
                        assert forall|k: Seq<char>|
                            #[trigger] in_alias_chain(aliases, fqn@, k, fuel as nat) implies
                        has_refs(self.references_counts@, k) by {
                            if k == fqn@ {
                            } else {
                                assert(in_alias_chain(aliases, alias@, k, (fuel - 1) as nat));
                            }
                        }
                        assert forall|k: Seq<char>|
                            #[trigger] self.references_counts@.contains_key(k) implies old(
                            self,
                        ).references_counts@.contains_key(k) || in_alias_chain(
                            aliases,
                            fqn@,
                            k,
                            fuel as nat,
                        ) by {
                            if !before.references_counts@.contains_key(k) {
                                assert(in_alias_chain(aliases, alias@, k, (fuel - 1) as nat));
                            }
                        }
                        assert forall|k: Seq<char>|
                            #[trigger] old(self).references_counts@.contains_key(k)
                                && !in_alias_chain(aliases, fqn@, k, fuel as nat) implies
                        self.references_counts@[k] == old(self).references_counts@[k] by {
                            assert(k != fqn@);
                            assert(!in_alias_chain(aliases, alias@, k, (fuel - 1) as nat));
                            assert(before.references_counts@[k] == old(
                                self,
                            ).references_counts@[k]);
                        }
                    }
                } else {
                    proof {
                        assert forall|k: Seq<char>|
                            #[trigger] in_alias_chain(
                                old(self).import_aliases@,
                                fqn@,
                                k,
                                fuel as nat,
                            ) implies has_refs(self.references_counts@, k) by {}
                    }
                }
            },
            None => {
                proof {
                    assert(!old(self).import_aliases@.contains_key(fqn@));
                    assert forall|k: Seq<char>|
                        #[trigger] in_alias_chain(
                            old(self).import_aliases@,
                            fqn@,
                            k,
                            fuel as nat,
                        ) implies has_refs(self.references_counts@, k) by {}
                }
            },
        }
    }

    /// Makes `fqn` known with a zero count when it is absent, so a later
    /// pruning pass can tell "confirmed dead" from "never analyzed". An
    /// existing entry is left alone, and the convergence signal never
    /// moves: making a name known discovers no reference.
    pub fn make_known(&mut self, fqn: &str)
        requires
            old(self).wf(),
        ensures
            Self::counting_step(*old(self), *final(self)),
            final(self).names_provider == old(self).names_provider,
            final(self).always_bump_context == old(self).always_bump_context,
            final(self).new_references_count == old(self).new_references_count,
            final(self).references_counts@.contains_key(fqn@),
            final(self).references_counts@ =~= if old(self).references_counts@.contains_key(
                fqn@,
            ) {
                old(self).references_counts@
            } else {
                old(self).references_counts@.insert(fqn@, 0)
            },
            old(self).references_counts@.contains_key(fqn@) ==> final(self).references_counts
                == old(self).references_counts,
    {
        if !self.references_counts.contains_key(fqn) {
            self.references_counts.insert(String::from_str(fqn), 0);
        }
    }

    /// Whether any name under this module's prefix is referenced.
    pub fn module_spec_has_references(&self) -> (r: bool)
        requires
            self.wf(),
        ensures
            r == module_has_refs(self.references_counts@, self.module_spec@),
    {
        let n = self.references_counts.len();
        let mut i: usize = 0;
        while i < n
            invariant
                self.wf(),
                i <= n,
                n == self.references_counts.size(),
                forall|j: int|
                    0 <= j < i ==> !(self.module_spec@.is_prefix_of(
                        #[trigger] self.references_counts.pairs()[j].0,
                    ) && self.references_counts.pairs()[j].1 > 0),
            decreases n - i,
        {
            let key = self.references_counts.key_at(i);
            let count = self.references_counts.count_at(i);
            if count > 0 && str_starts_with(key.as_str(), self.module_spec.as_str()) {
                proof {
                    self.references_counts.lemma_pair_in_view(i as int);
                }
                return true;
            }
            i += 1;
        }
        proof {
            if module_has_refs(self.references_counts@, self.module_spec@) {
                let k = choose|k: Seq<char>|
                    self.references_counts@.contains_key(k) && self.module_spec@.is_prefix_of(k)
                        && #[trigger] self.references_counts@[k] > 0;
                self.references_counts.lemma_key_listed(k);
                let j = choose|j: int|
                    0 <= j < self.references_counts.size() && self.references_counts.pairs()[j].0
                        == k;
                self.references_counts.lemma_pair_in_view(j);
            }
        }
        false
    }

    /// Whether `fqn` is referenced; an absent name counts as zero.
    pub fn has_references_for_str(&self, fqn: &str) -> (r: bool)
        requires
            self.wf(),
        ensures
            r == has_refs(self.references_counts@, fqn@),
    {
        match self.references_counts.get(fqn) {
            Some(c) => c > 0,
            None => false,
        }
    }

    /// Whether any fully-qualified reading of `expr` is referenced.
    pub fn has_references_for_expr(&self, expr: &PyExpr) -> (r: bool)
        requires
            self.wf(),
        ensures
            r == seq_any_has_refs(self.references_counts@, self.names_provider.expr_fqns(*expr)),
    {
        let fqns = self.names_provider.get_expr_fully_qualified_name(expr);
        self.any_has_refs(&fqns)
    }

    /// Whether any of the statement's query names is referenced.
    pub fn has_references_for_stmt(&self, stmt: &PyStmt) -> (r: bool)
        requires
            self.wf(),
        ensures
            r == seq_any_has_refs(self.references_counts@, self.stmt_query_names(stmt.kind)),
    {
        match &stmt.kind {
            PyStmtKind::ImportFrom { module, names, level } => {
                proof {
                    reveal_strlit("*");
                }
                if names.len() == 1 && str_eq(names[0].name.as_str(), "*") {
                    let parent = self.names_provider.get_imports_provider().get_parent_package();
                    match get_import_from_absolute_module_spec(
                        module,
                        names,
                        *level,
                        parent.as_str(),
                        true,
                    ) {
                        Ok(targets) => self.any_has_refs(&targets),
                        Err(_) => {
                            proof {
                                assert(self.stmt_query_names(stmt.kind) =~~= Seq::<
                                    Seq<char>,
                                >::empty());
                            }
                            false
                        },
                    }
                } else {
                    let fqns = self.names_provider.get_stmt_fully_qualified_name(stmt);
                    self.any_has_refs(&fqns)
                }
            },
            _ => {
                let fqns = self.names_provider.get_stmt_fully_qualified_name(stmt);
                self.any_has_refs(&fqns)
            },
        }
    }

    /// Whether any name of `ns` is referenced.
    fn any_has_refs(&self, ns: &Vec<String>) -> (r: bool)
        requires
            self.wf(),
        ensures
            r == seq_any_has_refs(self.references_counts@, ns.deep_view()),
    {
        let mut i: usize = 0;
        while i < ns.len()
            invariant
                self.wf(),
                i <= ns.len(),
                forall|j: int|
                    0 <= j < i ==> !has_refs(
                        self.references_counts@,
                        #[trigger] ns.deep_view()[j],
                    ),
            decreases ns.len() - i,
        {
            if self.has_references_for_str(ns[i].as_str()) {
                proof {
                    assert(has_refs(self.references_counts@, ns.deep_view()[i as int]));
                }
                return true;
            }
            i += 1;
        }
        false
    }

    /// Whether the cursor stands at module scope.
    pub fn is_global_scope(&self) -> (r: bool)
        ensures
            r == (self.names_provider.name_context@.len() == 0),
    {
        self.names_provider.name_context.as_str().unicode_len() == 0
    }

    /// Whether this module's file is the package entry file, whose
    /// statements are never pruned.
    fn is_entry_file(&self) -> (r: bool)
        ensures
            r == (file_name_of(self.source_path@) == "__main__.py"@),
    {
        proof {
            reveal_strlit("__main__.py");
            crate::strings::lemma_last_index_of(self.source_path@, '/');
        }
        // binds the character length so the slicing below stays in bounds
        let _path_len = self.source_path.as_str().unicode_len();
        let file_name = match crate::strings::find_last_slash(self.source_path.as_str()) {
            Some(i) => str_skip(self.source_path.as_str(), i + 1),
            None => self.source_path.as_str(),
        };
        str_eq(file_name, "__main__.py")
    }

    /// Whether some fully-qualified reading of decorator `d` is in the
    /// configured side-effect-free allow-list.
    pub open spec fn decorator_is_safe(&self, d: PyExpr) -> bool {
        exists|j: int|
            0 <= j < self.names_provider.expr_fqns(d).len() && self.safe_decorators@.contains(
                #[trigger] self.names_provider.expr_fqns(d)[j],
            )
    }

    /// Whether every reading of the decorator is in the configured
    /// side-effect-free allow-list.
    fn is_safe_decorator(&self, decorator: &PyExpr) -> (r: bool)
        requires
            self.wf(),
        ensures
            r == self.decorator_is_safe(*decorator),
    {
        let fqns = self.names_provider.get_expr_fully_qualified_name(decorator);
        let ghost fd = fqns.deep_view();
        let mut i: usize = 0;
        while i < fqns.len()
            invariant
                self.wf(),
                i <= fqns.len(),
                fd == fqns.deep_view(),
                fd == self.names_provider.expr_fqns(*decorator),
                forall|j: int| 0 <= j < i ==> !self.safe_decorators@.contains(#[trigger] fd[j]),
            decreases fqns.len() - i,
        {
            if self.safe_decorators.contains(fqns[i].as_str()) {
                proof {
                    assert(self.safe_decorators@.contains(fd[i as int]));
                }
                return true;
            }
            i += 1;
        }
        false
    }

    /// Whether some decorator falls outside the allow-list; such a
    /// decorator can have definition-time side effects, so the decorated
    /// definition must be kept.
    fn has_unsafe_decorator(&self, decorators: &Vec<PyExpr>) -> (r: bool)
        requires
            self.wf(),
        ensures
            r == (exists|i: int|
                0 <= i < decorators@.len() && !self.decorator_is_safe(
                    #[trigger] decorators@[i],
                )),
    {
        let mut i: usize = 0;
        while i < decorators.len()
            invariant
                self.wf(),
                i <= decorators.len(),
                forall|k: int| 0 <= k < i ==> self.decorator_is_safe(#[trigger] decorators@[k]),
            decreases decorators.len() - i,
        {
            if !self.is_safe_decorator(&decorators[i]) {
                proof {
                    assert(!self.decorator_is_safe(decorators@[i as int]));
                }
                return true;
            }
            i += 1;
        }
        false
    }

    /// Counts a reference to every fully-qualified name of `stmt`.
    fn maybe_increase_stmt(&mut self, stmt: &PyStmt)
        requires
            old(self).wf(),
        ensures
            Self::counting_step(*old(self), *final(self)),
            final(self).names_provider == old(self).names_provider,
            final(self).always_bump_context == old(self).always_bump_context,
            forall|i: int|
                0 <= i < old(self).names_provider.stmt_fqns(stmt.kind).len() ==> has_refs(
                    final(self).references_counts@,
                    #[trigger] old(self).names_provider.stmt_fqns(stmt.kind)[i],
                ),
    {
        let fqns = self.names_provider.get_stmt_fully_qualified_name(stmt);
        self.increase_all(&fqns);
    }

    /// Counts a reference to every fully-qualified name of `expr`.
    fn maybe_increase_expr(&mut self, expr: &PyExpr)
        requires
            old(self).wf(),
        ensures
            Self::counting_step(*old(self), *final(self)),
            final(self).names_provider == old(self).names_provider,
            final(self).always_bump_context == old(self).always_bump_context,
            forall|i: int|
                0 <= i < old(self).names_provider.expr_fqns(*expr).len() ==> has_refs(
                    final(self).references_counts@,
                    #[trigger] old(self).names_provider.expr_fqns(*expr)[i],
                ),
    {
        let fqns = self.names_provider.get_expr_fully_qualified_name(expr);
        self.increase_all(&fqns);
    }

    /// Counts a reference to every name of `ns`.
    fn increase_all(&mut self, ns: &Vec<String>)
        requires
            old(self).wf(),
        ensures
            Self::counting_step(*old(self), *final(self)),
            final(self).names_provider == old(self).names_provider,
            final(self).always_bump_context == old(self).always_bump_context,
            forall|i: int|
                0 <= i < ns.deep_view().len() ==> has_refs(
                    final(self).references_counts@,
                    #[trigger] ns.deep_view()[i],
                ),
    {
        let ghost nd = ns.deep_view();
        let mut i: usize = 0;
        while i < ns.len()
            invariant
                i <= ns.len(),
                nd == ns.deep_view(),
                Self::counting_step(*old(self), *self),
                self.names_provider == old(self).names_provider,
                self.always_bump_context == old(self).always_bump_context,
                forall|j: int|
                    0 <= j < i ==> has_refs(self.references_counts@, #[trigger] nd[j]),
            decreases ns.len() - i,
        {
            let ghost before = *self;
            self.increase(ns[i].as_str());
            proof {
                Self::lemma_counting_step_trans(*old(self), before, *self);
                assert forall|j: int| 0 <= j < i + 1 implies has_refs(
                    self.references_counts@,
                    #[trigger] nd[j],
                ) by {
                    if j < i {
                        assert(has_refs(before.references_counts@, nd[j]));
                    }
                }
            }
            i += 1;
        }
    }

    /// Counts a reference to the names of `stmt` equal to `needle`.
    fn maybe_increase_stmt_eq(&mut self, stmt: &PyStmt, needle: &str)
        requires
            old(self).wf(),
        ensures
            Self::counting_step(*old(self), *final(self)),
            final(self).names_provider == old(self).names_provider,
            final(self).always_bump_context == old(self).always_bump_context,
            forall|i: int|
                0 <= i < old(self).names_provider.stmt_fqns(stmt.kind).len()
                    && #[trigger] old(self).names_provider.stmt_fqns(stmt.kind)[i] == needle@
                    ==> has_refs(
                    final(self).references_counts@,
                    old(self).names_provider.stmt_fqns(stmt.kind)[i],
                ),
    {
        let fqns = self.names_provider.get_stmt_fully_qualified_name(stmt);
        let ghost fd = fqns.deep_view();
        let mut i: usize = 0;
        while i < fqns.len()
            invariant
                i <= fqns.len(),
                fd == fqns.deep_view(),
                fd == old(self).names_provider.stmt_fqns(stmt.kind),
                Self::counting_step(*old(self), *self),
                self.names_provider == old(self).names_provider,
                self.always_bump_context == old(self).always_bump_context,
                forall|j: int|
                    0 <= j < i && #[trigger] fd[j] == needle@ ==> has_refs(
                        self.references_counts@,
                        fd[j],
                    ),
            decreases fqns.len() - i,
        {
            let ghost before = *self;
            if str_eq(fqns[i].as_str(), needle) {
                self.increase(fqns[i].as_str());
                proof {
                    Self::lemma_counting_step_trans(*old(self), before, *self);
                    assert forall|j: int| 0 <= j < i + 1 && #[trigger] fd[j] == needle@ implies
                    has_refs(self.references_counts@, fd[j]) by {
                        if j < i {
                            assert(has_refs(before.references_counts@, fd[j]));
                        }
                    }
                }
            }
            i += 1;
        }
    }

    /// Counts a reference to the names of `stmt` ending in `needle`.
    fn maybe_increase_stmt_suffix(&mut self, stmt: &PyStmt, needle: &str)
        requires
            old(self).wf(),
        ensures
            Self::counting_step(*old(self), *final(self)),
            final(self).names_provider == old(self).names_provider,
            final(self).always_bump_context == old(self).always_bump_context,
            forall|i: int|
                0 <= i < old(self).names_provider.stmt_fqns(stmt.kind).len()
                    && needle@.is_suffix_of(
                    #[trigger] old(self).names_provider.stmt_fqns(stmt.kind)[i],
                ) ==> has_refs(
                    final(self).references_counts@,
                    old(self).names_provider.stmt_fqns(stmt.kind)[i],
                ),
    {
        let fqns = self.names_provider.get_stmt_fully_qualified_name(stmt);
        let ghost fd = fqns.deep_view();
        let mut i: usize = 0;
        while i < fqns.len()
            invariant
                i <= fqns.len(),
                fd == fqns.deep_view(),
                fd == old(self).names_provider.stmt_fqns(stmt.kind),
                Self::counting_step(*old(self), *self),
                self.names_provider == old(self).names_provider,
                self.always_bump_context == old(self).always_bump_context,
                forall|j: int|
                    0 <= j < i && needle@.is_suffix_of(#[trigger] fd[j]) ==> has_refs(
                        self.references_counts@,
                        fd[j],
                    ),
            decreases fqns.len() - i,
        {
            let ghost before = *self;
            if str_ends_with(fqns[i].as_str(), needle) {
                self.increase(fqns[i].as_str());
                proof {
                    Self::lemma_counting_step_trans(*old(self), before, *self);
                    assert forall|j: int|
                        0 <= j < i + 1 && needle@.is_suffix_of(#[trigger] fd[j]) implies has_refs(
                        self.references_counts@,
                        fd[j],
                    ) by {
                        if j < i {
                            assert(has_refs(before.references_counts@, fd[j]));
                        }
                    }
                }
            }
            i += 1;
        }
    }

    /// Makes every fully-qualified name of `stmt` known, without
    /// touching the convergence signal.
    fn make_known_stmt(&mut self, stmt: &PyStmt)
        requires
            old(self).wf(),
        ensures
            Self::counting_step(*old(self), *final(self)),
            final(self).names_provider == old(self).names_provider,
            final(self).always_bump_context == old(self).always_bump_context,
            final(self).new_references_count == old(self).new_references_count,
            forall|i: int|
                0 <= i < old(self).names_provider.stmt_fqns(stmt.kind).len()
                    ==> final(self).references_counts@.contains_key(
                    #[trigger] old(self).names_provider.stmt_fqns(stmt.kind)[i],
                ),
    {
        let fqns = self.names_provider.get_stmt_fully_qualified_name(stmt);
        let ghost fd = fqns.deep_view();
        let mut i: usize = 0;
        while i < fqns.len()
            invariant
                i <= fqns.len(),
                fd == fqns.deep_view(),
                fd == old(self).names_provider.stmt_fqns(stmt.kind),
                Self::counting_step(*old(self), *self),
                self.names_provider == old(self).names_provider,
                self.always_bump_context == old(self).always_bump_context,
                self.new_references_count == old(self).new_references_count,
                forall|j: int|
                    0 <= j < i ==> self.references_counts@.contains_key(#[trigger] fd[j]),
            decreases fqns.len() - i,
        {
            let ghost before = *self;
            self.make_known(fqns[i].as_str());
            proof {
                Self::lemma_counting_step_trans(*old(self), before, *self);
                assert forall|j: int|
                    0 <= j < i + 1 implies self.references_counts@.contains_key(
                    #[trigger] fd[j],
                ) by {
                    if j < i {
                        assert(before.references_counts@.contains_key(fd[j]));
                    }
                }
            }
            i += 1;
        }
    }

    /// The root object under a target's attribute chain, when the target
    /// is an attribute chain at all.
    fn deepest_attribute_value<'a>(target: &'a PyExpr) -> (r: Option<&'a PyExpr>)
        decreases *target,
    {
        match target {
            PyExpr::Attribute { value, attr } => {
                match &**value {
                    PyExpr::Attribute { .. } => Self::deepest_attribute_value(value),
                    _ => Some(value),
                }
            },
            _ => None,
        }
    }

    /// Counts references in an expression: everything in the entry file
    /// and under an active bump context is counted, and a module-scope
    /// call in a referenced module starts bumping itself, since a
    /// top-level call is a side effect that runs when the module runs.
    #[verifier::loop_isolation(false)]
    pub fn visit_expr(&mut self, expr: &PyExpr)
        requires
            old(self).wf(),
        ensures
            Self::counting_step(*old(self), *final(self)),
            final(self).names_provider == old(self).names_provider,
            final(self).always_bump_context == old(self).always_bump_context,
            Self::expr_visit_facts(*old(self), *expr, final(self).references_counts@),
        decreases *expr, 1int,
    {
        let ghost pre = *old(self);
        let ghost ofqns = pre.names_provider.expr_fqns(*expr);
        if self.is_entry_file() {
            self.maybe_increase_expr(expr);
        }
        let ghost base = *self;
        let can_reset_context = !self.always_bump_context;
        if self.always_bump_context {
            let ghost before = *self;
            self.maybe_increase_expr(expr);
            proof {
                Self::lemma_counting_step_trans(*old(self), before, *self);
            }
        }
        match expr {
            PyExpr::Call { .. } => {
                if self.is_global_scope() && self.module_spec_has_references() {
                    let ghost before = *self;
                    self.maybe_increase_expr(expr);
                    proof {
                        Self::lemma_counting_step_trans(*old(self), before, *self);
                    }
                    self.always_bump_context = true;
                } else {
                    proof {
                        if module_has_refs(pre.references_counts@, pre.module_spec@) {
                            let w = choose|k: Seq<char>|
                                pre.references_counts@.contains_key(k) && pre.module_spec@
                                    .is_prefix_of(k) && #[trigger] pre.references_counts@[k] > 0;
                            assert(base.references_counts@.contains_key(w)
                                && base.references_counts@[w] > 0);
                            assert(self.references_counts@.contains_key(w)
                                && self.references_counts@[w] > 0);
                            assert(module_has_refs(self.references_counts@, self.module_spec@));
                        }
                    }
                }
            },
            _ => {},
        }
        let ghost after_rules = *self;
        proof {
            assert(Self::expr_visit_facts(pre, *expr, after_rules.references_counts@)) by {
                if pre.always_bump_context {
                    assert forall|i: int| 0 <= i < ofqns.len() implies has_refs(
                        after_rules.references_counts@,
                        #[trigger] ofqns[i],
                    ) by {}
                }
                if file_name_of(pre.source_path@) == "__main__.py"@ {
                    assert forall|i: int| 0 <= i < ofqns.len() implies has_refs(
                        after_rules.references_counts@,
                        #[trigger] ofqns[i],
                    ) by {
                        assert(has_refs(base.references_counts@, ofqns[i]));
                    }
                }
            }
        }
        self.walk_expr_children(expr);
        proof {
            Self::lemma_counting_step_trans(*old(self), after_rules, *self);
            Self::lemma_expr_visit_facts_monotone(
                pre,
                *expr,
                after_rules.references_counts@,
                self.references_counts@,
            );
        }
        if can_reset_context {
            self.always_bump_context = false;
        }
    }

    /// Visits the sub-expressions of `expr` in source order.
    #[verifier::loop_isolation(false)]
    fn walk_expr_children(&mut self, expr: &PyExpr)
        requires
            old(self).wf(),
        ensures
            Self::counting_step(*old(self), *final(self)),
            final(self).names_provider == old(self).names_provider,
            final(self).always_bump_context == old(self).always_bump_context,
        decreases *expr, 0int,
    {
        match expr {
            PyExpr::Attribute { value, attr } => {
                self.visit_expr(value);
            },
            PyExpr::Call { func, args } => {
                self.visit_expr(func);
                let mut i: usize = 0;
                while i < args.len()
                    invariant
                        i <= args.len(),
                        Self::counting_step(*old(self), *self),
                        self.names_provider == old(self).names_provider,
                        self.always_bump_context == old(self).always_bump_context,
                    decreases args.len() - i,
                {
                    proof {
                        assert(decreases_to!(*expr => expr->args));
                        assert(decreases_to!(expr->args => args@));
                        assert(decreases_to!(args@ => args@[i as int]));
                        assert(decreases_to!(*expr => args@[i as int]));
                    }
                    let ghost before = *self;
                    self.visit_expr(&args[i]);
                    proof {
                        Self::lemma_counting_step_trans(*old(self), before, *self);
                    }
                    i += 1;
                }
            },
            PyExpr::Subscript { value, slice } => {
                self.visit_expr(value);
                let ghost before = *self;
                self.visit_expr(slice);
                proof {
                    Self::lemma_counting_step_trans(*old(self), before, *self);
                }
            },
            PyExpr::Named { target, value } => {
                self.visit_expr(target);
                let ghost before = *self;
                self.visit_expr(value);
                proof {
                    Self::lemma_counting_step_trans(*old(self), before, *self);
                }
            },
            PyExpr::Tuple { elts } => {
                let mut i: usize = 0;
                while i < elts.len()
                    invariant
                        i <= elts.len(),
                        Self::counting_step(*old(self), *self),
                        self.names_provider == old(self).names_provider,
                        self.always_bump_context == old(self).always_bump_context,
                    decreases elts.len() - i,
                {
                    proof {
                        assert(decreases_to!(*expr => expr->elts));
                        assert(decreases_to!(expr->elts => elts@));
                        assert(decreases_to!(elts@ => elts@[i as int]));
                        assert(decreases_to!(*expr => elts@[i as int]));
                    }
                    let ghost before = *self;
                    self.visit_expr(&elts[i]);
                    proof {
                        Self::lemma_counting_step_trans(*old(self), before, *self);
                    }
                    i += 1;
                }
            },
            PyExpr::Compare { left, ops, comparators } => {
                self.visit_expr(left);
                let mut i: usize = 0;
                while i < comparators.len()
                    invariant
                        i <= comparators.len(),
                        Self::counting_step(*old(self), *self),
                        self.names_provider == old(self).names_provider,
                        self.always_bump_context == old(self).always_bump_context,
                    decreases comparators.len() - i,
                {
                    proof {
                        assert(decreases_to!(*expr => expr->comparators));
                        assert(decreases_to!(expr->comparators => comparators@));
                        assert(decreases_to!(comparators@ => comparators@[i as int]));
                        assert(decreases_to!(*expr => comparators@[i as int]));
                    }
                    let ghost before = *self;
                    self.visit_expr(&comparators[i]);
                    proof {
                        Self::lemma_counting_step_trans(*old(self), before, *self);
                    }
                    i += 1;
                }
            },
            PyExpr::Other { children } => {
                let mut i: usize = 0;
                while i < children.len()
                    invariant
                        i <= children.len(),
                        Self::counting_step(*old(self), *self),
                        self.names_provider == old(self).names_provider,
                        self.always_bump_context == old(self).always_bump_context,
                    decreases children.len() - i,
                {
                    proof {
                        assert(decreases_to!(*expr => expr->children));
                        assert(decreases_to!(expr->children => children@));
                        assert(decreases_to!(children@ => children@[i as int]));
                        assert(decreases_to!(*expr => children@[i as int]));
                    }
                    let ghost before = *self;
                    self.visit_expr(&children[i]);
                    proof {
                        Self::lemma_counting_step_trans(*old(self), before, *self);
                    }
                    i += 1;
                }
            },
            _ => {},
        }
    }

    /// Visits a list of expressions in order.
    #[verifier::loop_isolation(false)]
    fn visit_exprs(&mut self, exprs: &Vec<PyExpr>)
        requires
            old(self).wf(),
        ensures
            Self::counting_step(*old(self), *final(self)),
            final(self).names_provider == old(self).names_provider,
            final(self).always_bump_context == old(self).always_bump_context,
    {
        let mut i: usize = 0;
        while i < exprs.len()
            invariant
                i <= exprs.len(),
                Self::counting_step(*old(self), *self),
                self.names_provider == old(self).names_provider,
                self.always_bump_context == old(self).always_bump_context,
            decreases exprs.len() - i,
        {
            let ghost before = *self;
            self.visit_expr(&exprs[i]);
            proof {
                Self::lemma_counting_step_trans(*old(self), before, *self);
            }
            i += 1;
        }
    }
}

impl ReferencesCounter {
    /// Counts references in a statement, applying the per-kind liveness
    /// rules before descending into its children. The contract pins the
    /// rules down through `stmt_visit_facts`: every extracted name
    /// becomes known; an active bump context, the entry file, a
    /// referenced assignment, a referenced or unsafely decorated
    /// definition, a module-level attribute hook in a referenced module
    /// and live import aliases all force their names to be referenced;
    /// and a module-scope lone wildcard import propagates references
    /// back onto the source module's definitions.
    #[verifier::loop_isolation(false)]
    #[verifier::rlimit(100)]
    pub fn visit_stmt(&mut self, stmt: &PyStmt)
        requires
            old(self).wf(),
        ensures
            Self::counting_step(*old(self), *final(self)),
            final(self).names_provider.name_context@ == old(self).names_provider.name_context@,
            final(self).always_bump_context == old(self).always_bump_context,
            Self::stmt_visit_facts(*old(self), *stmt, final(self).references_counts@),
            (match stmt.kind {
                PyStmtKind::If { test, then_body, else_body } => (old(
                    self,
                ).names_provider.name_context@.len() == 0 && is_name_main_test(test)
                    && then_body@.len() > 0) ==> forall|j: int|
                    0 <= j < old(self).names_provider.stmt_fqns(then_body@[0].kind).len()
                        ==> has_refs(
                        final(self).references_counts@,
                        #[trigger] old(self).names_provider.stmt_fqns(then_body@[0].kind)[j],
                    ),
                _ => true,
            }),
        decreases *stmt, 2int,
    {
        let ghost pre = *old(self);
        let ghost ofqns = pre.names_provider.stmt_fqns(stmt.kind);
        if self.is_entry_file() {
            self.maybe_increase_stmt(stmt);
        }
        let ghost base = *self;
        proof {
            assert(Self::counting_step(*old(self), base));
        }
        let can_reset_context = !self.always_bump_context;
        if self.always_bump_context {
            let ghost before = *self;
            self.maybe_increase_stmt(stmt);
            proof {
                Self::lemma_counting_step_trans(base, before, *self);
            }
        }
        let ghost before_known = *self;
        self.make_known_stmt(stmt);
        proof {
            Self::lemma_counting_step_trans(base, before_known, *self);
            assert forall|i: int| 0 <= i < ofqns.len() implies self
                .references_counts@.contains_key(#[trigger] ofqns[i]) by {}
            if pre.always_bump_context {
                assert forall|i: int| 0 <= i < ofqns.len() implies has_refs(
                    self.references_counts@,
                    #[trigger] ofqns[i],
                ) by {
                    assert(has_refs(before_known.references_counts@, ofqns[i]));
                }
            }
            if file_name_of(pre.source_path@) == "__main__.py"@ {
                assert forall|i: int| 0 <= i < ofqns.len() implies has_refs(
                    self.references_counts@,
                    #[trigger] ofqns[i],
                ) by {
                    assert(has_refs(base.references_counts@, ofqns[i]));
                    assert(has_refs(before_known.references_counts@, ofqns[i]));
                }
            }
            assert(Self::stmt_entry_facts(pre, *stmt, self.references_counts@));
        }
        match &stmt.kind {
            PyStmtKind::AnnAssign { .. } | PyStmtKind::AugAssign { .. } => {
                let ghost s2 = *self;
                if self.has_references_for_stmt(stmt) {
                    let ghost before = *self;
                    self.maybe_increase_stmt(stmt);
                    proof {
                        Self::lemma_counting_step_trans(base, before, *self);
                        Self::lemma_stmt_entry_facts_monotone(
                            pre,
                            *stmt,
                            before.references_counts@,
                            self.references_counts@,
                        );
                    }
                    self.always_bump_context = true;
                }
                proof {
                    if seq_any_has_refs(pre.references_counts@, pre.stmt_query_names(stmt.kind)) {
                        let w = choose|w: int|
                            0 <= w < pre.stmt_query_names(stmt.kind).len() && has_refs(
                                pre.references_counts@,
                                pre.stmt_query_names(stmt.kind)[w],
                            );
                        assert(has_refs(
                            base.references_counts@,
                            pre.stmt_query_names(stmt.kind)[w],
                        ));
                        assert(has_refs(
                            s2.references_counts@,
                            pre.stmt_query_names(stmt.kind)[w],
                        ));
                        assert(seq_any_has_refs(
                            s2.references_counts@,
                            s2.stmt_query_names(stmt.kind),
                        ));
                        assert forall|i: int| 0 <= i < ofqns.len() implies has_refs(
                            self.references_counts@,
                            #[trigger] ofqns[i],
                        ) by {}
                    }
                    assert(Self::stmt_visit_facts(pre, *stmt, self.references_counts@));
                }
            },
            PyStmtKind::Assign { targets, value } => {
                let ghost s2 = *self;
                let mut should_bump_stmt_assign = false;
                if self.is_global_scope() && self.module_spec_has_references() {
                    let mut ti: usize = 0;
                    while ti < targets.len()
                        invariant
                            ti <= targets.len(),
                        decreases targets.len() - ti,
                    {
                        if let Some(root) = Self::deepest_attribute_value(&targets[ti]) {
                            if self.has_references_for_expr(root) {
                                should_bump_stmt_assign = true;
                            }
                        }
                        ti += 1;
                    }
                }
                if self.has_references_for_stmt(stmt) || should_bump_stmt_assign {
                    let ghost before = *self;
                    self.maybe_increase_stmt(stmt);
                    proof {
                        Self::lemma_counting_step_trans(base, before, *self);
                        Self::lemma_stmt_entry_facts_monotone(
                            pre,
                            *stmt,
                            before.references_counts@,
                            self.references_counts@,
                        );
                    }
                    self.always_bump_context = true;
                }
                proof {
                    if seq_any_has_refs(pre.references_counts@, pre.stmt_query_names(stmt.kind)) {
                        let w = choose|w: int|
                            0 <= w < pre.stmt_query_names(stmt.kind).len() && has_refs(
                                pre.references_counts@,
                                pre.stmt_query_names(stmt.kind)[w],
                            );
                        assert(has_refs(
                            base.references_counts@,
                            pre.stmt_query_names(stmt.kind)[w],
                        ));
                        assert(has_refs(
                            s2.references_counts@,
                            pre.stmt_query_names(stmt.kind)[w],
                        ));
                        assert(seq_any_has_refs(
                            s2.references_counts@,
                            s2.stmt_query_names(stmt.kind),
                        ));
                        assert forall|i: int| 0 <= i < ofqns.len() implies has_refs(
                            self.references_counts@,
                            #[trigger] ofqns[i],
                        ) by {}
                    }
                    assert(Self::stmt_visit_facts(pre, *stmt, self.references_counts@));
                }
            },
            PyStmtKind::ClassDef { name, decorators, bases, keywords, class_body } => {
                let ghost s2 = *self;
                if self.has_unsafe_decorator(decorators) || self.has_references_for_stmt(stmt) {
                    let ghost before = *self;
                    self.maybe_increase_stmt(stmt);
                    proof {
                        Self::lemma_counting_step_trans(base, before, *self);
                        Self::lemma_stmt_entry_facts_monotone(
                            pre,
                            *stmt,
                            before.references_counts@,
                            self.references_counts@,
                        );
                    }
                    self.always_bump_context = true;
                }
                proof {
                    let live = seq_any_has_refs(
                        pre.references_counts@,
                        pre.stmt_query_names(stmt.kind),
                    ) || exists|j: int|
                        0 <= j < decorators@.len() && !pre.decorator_is_safe(
                            #[trigger] decorators@[j],
                        );
                    if live {
                        if seq_any_has_refs(
                            pre.references_counts@,
                            pre.stmt_query_names(stmt.kind),
                        ) {
                            let w = choose|w: int|
                                0 <= w < pre.stmt_query_names(stmt.kind).len() && has_refs(
                                    pre.references_counts@,
                                    pre.stmt_query_names(stmt.kind)[w],
                                );
                            assert(has_refs(
                                base.references_counts@,
                                pre.stmt_query_names(stmt.kind)[w],
                            ));
                            assert(has_refs(
                                s2.references_counts@,
                                pre.stmt_query_names(stmt.kind)[w],
                            ));
                            assert(seq_any_has_refs(
                                s2.references_counts@,
                                s2.stmt_query_names(stmt.kind),
                            ));
                        } else {
                            let j = choose|j: int|
                                0 <= j < decorators@.len() && !pre.decorator_is_safe(
                                    #[trigger] decorators@[j],
                                );
                            assert(!s2.decorator_is_safe(decorators@[j]));
                        }
                        assert forall|i: int| 0 <= i < ofqns.len() implies has_refs(
                            self.references_counts@,
                            #[trigger] ofqns[i],
                        ) by {}
                    }
                }
                let ghost after_rule = *self;
                // decorators, bases and keywords run in the enclosing
                // scope, so they are counted before the class scope opens
                let ghost before_pre = *self;
                self.visit_exprs(decorators);
                proof {
                    Self::lemma_counting_step_trans(base, before_pre, *self);
                }
                let ghost before_bases = *self;
                self.visit_exprs(bases);
                proof {
                    Self::lemma_counting_step_trans(base, before_bases, *self);
                }
                let ghost before_kw = *self;
                self.visit_exprs(keywords);
                proof {
                    Self::lemma_counting_step_trans(base, before_kw, *self);
                    assert(counts_monotone(
                        after_rule.references_counts@,
                        self.references_counts@,
                    )) by {
                        assert forall|k: Seq<char>|
                            after_rule.references_counts@.contains_key(k) implies self
                            .references_counts@.contains_key(k) && self.references_counts@[k]
                            >= after_rule.references_counts@[k] by {
                            assert(before_bases.references_counts@.contains_key(k)
                                && before_bases.references_counts@[k]
                                >= after_rule.references_counts@[k]);
                            assert(before_kw.references_counts@.contains_key(k)
                                && before_kw.references_counts@[k]
                                >= before_bases.references_counts@[k]);
                        }
                    }
                    Self::lemma_stmt_entry_facts_monotone(
                        pre,
                        *stmt,
                        after_rule.references_counts@,
                        self.references_counts@,
                    );
                    let live = seq_any_has_refs(
                        pre.references_counts@,
                        pre.stmt_query_names(stmt.kind),
                    ) || exists|j: int|
                        0 <= j < decorators@.len() && !pre.decorator_is_safe(
                            #[trigger] decorators@[j],
                        );
                    if live {
                        assert forall|i: int| 0 <= i < ofqns.len() implies has_refs(
                            self.references_counts@,
                            #[trigger] ofqns[i],
                        ) by {
                            assert(has_refs(after_rule.references_counts@, ofqns[i]));
                        }
                    }
                    assert(Self::stmt_visit_facts(pre, *stmt, self.references_counts@));
                }
            },
            PyStmtKind::For { .. } => {
                if self.is_global_scope() && self.module_spec_has_references() {
                    self.always_bump_context = true;
                }
                proof {
                    assert(Self::stmt_visit_facts(pre, *stmt, self.references_counts@));
                }
            },
            PyStmtKind::FunctionDef { name, decorators, params, body } => {
                let ghost s2 = *self;
                if self.has_unsafe_decorator(decorators) || self.has_references_for_stmt(stmt) {
                    let ghost before = *self;
                    self.maybe_increase_stmt(stmt);
                    proof {
                        Self::lemma_counting_step_trans(base, before, *self);
                        Self::lemma_stmt_entry_facts_monotone(
                            pre,
                            *stmt,
                            before.references_counts@,
                            self.references_counts@,
                        );
                    }
                    self.always_bump_context = true;
                    // decorators run in the enclosing scope
                    let ghost before_pre = *self;
                    self.visit_exprs(decorators);
                    proof {
                        Self::lemma_counting_step_trans(base, before_pre, *self);
                        Self::lemma_stmt_entry_facts_monotone(
                            pre,
                            *stmt,
                            before_pre.references_counts@,
                            self.references_counts@,
                        );
                    }
                }
                let ghost after_rule = *self;
                proof {
                    let live = seq_any_has_refs(
                        pre.references_counts@,
                        pre.stmt_query_names(stmt.kind),
                    ) || exists|j: int|
                        0 <= j < decorators@.len() && !pre.decorator_is_safe(
                            #[trigger] decorators@[j],
                        );
                    if live {
                        if seq_any_has_refs(
                            pre.references_counts@,
                            pre.stmt_query_names(stmt.kind),
                        ) {
                            let w = choose|w: int|
                                0 <= w < pre.stmt_query_names(stmt.kind).len() && has_refs(
                                    pre.references_counts@,
                                    pre.stmt_query_names(stmt.kind)[w],
                                );
                            assert(has_refs(
                                base.references_counts@,
                                pre.stmt_query_names(stmt.kind)[w],
                            ));
                            assert(has_refs(
                                s2.references_counts@,
                                pre.stmt_query_names(stmt.kind)[w],
                            ));
                            assert(seq_any_has_refs(
                                s2.references_counts@,
                                s2.stmt_query_names(stmt.kind),
                            ));
                        } else {
                            let j = choose|j: int|
                                0 <= j < decorators@.len() && !pre.decorator_is_safe(
                                    #[trigger] decorators@[j],
                                );
                            assert(!s2.decorator_is_safe(decorators@[j]));
                        }
                        assert forall|i: int| 0 <= i < ofqns.len() implies has_refs(
                            after_rule.references_counts@,
                            #[trigger] ofqns[i],
                        ) by {}
                    }
                }
                // module-level __getattr__ / __dir__ hooks must survive
                // whenever the module itself is referenced
                proof {
                    reveal_strlit("__dir__");
                    reveal_strlit("__getattr__");
                }
                if self.is_global_scope() && (str_eq(name.as_str(), "__dir__") || str_eq(
                    name.as_str(),
                    "__getattr__",
                )) {
                    if self.module_spec_has_references() {
                        let ghost before = *self;
                        self.maybe_increase_stmt(stmt);
                        proof {
                            Self::lemma_counting_step_trans(base, before, *self);
                            Self::lemma_stmt_entry_facts_monotone(
                                pre,
                                *stmt,
                                before.references_counts@,
                                self.references_counts@,
                            );
                        }
                        self.always_bump_context = true;
                    }
                }
                proof {
                    let live = seq_any_has_refs(
                        pre.references_counts@,
                        pre.stmt_query_names(stmt.kind),
                    ) || exists|j: int|
                        0 <= j < decorators@.len() && !pre.decorator_is_safe(
                            #[trigger] decorators@[j],
                        );
                    if live {
                        assert forall|i: int| 0 <= i < ofqns.len() implies has_refs(
                            self.references_counts@,
                            #[trigger] ofqns[i],
                        ) by {
                            assert(has_refs(after_rule.references_counts@, ofqns[i]));
                        }
                    }
                    if pre.names_provider.name_context@.len() == 0 && (name@ == "__getattr__"@
                        || name@ == "__dir__"@) && module_has_refs(
                        pre.references_counts@,
                        pre.module_spec@,
                    ) {
                        let w = choose|k: Seq<char>|
                            pre.references_counts@.contains_key(k) && pre.module_spec@
                                .is_prefix_of(k) && #[trigger] pre.references_counts@[k] > 0;
                        assert(after_rule.references_counts@.contains_key(w)
                            && after_rule.references_counts@[w] > 0);
                        assert(module_has_refs(after_rule.references_counts@, pre.module_spec@));
                        assert forall|i: int| 0 <= i < ofqns.len() implies has_refs(
                            self.references_counts@,
                            #[trigger] ofqns[i],
                        ) by {}
                    }
                    assert(Self::stmt_visit_facts(pre, *stmt, self.references_counts@));
                }
            },
            PyStmtKind::If { test, then_body, else_body } => {
                if self.is_global_scope() && is_if_name_main(test) {
                    let ghost before = *self;
                    self.maybe_increase_stmt(stmt);
                    proof {
                        Self::lemma_counting_step_trans(base, before, *self);
                        Self::lemma_stmt_entry_facts_monotone(
                            pre,
                            *stmt,
                            before.references_counts@,
                            self.references_counts@,
                        );
                    }
                    self.always_bump_context = true;
                } else if self.is_global_scope() && self.module_spec_has_references() {
                    // side effects of the condition must be preserved
                    // even when the branches stay subject to liveness;
                    // an inherited bump context is restored, not cleared
                    let saved_bump = self.always_bump_context;
                    self.always_bump_context = true;
                    let ghost before = *self;
                    self.visit_expr(test);
                    proof {
                        Self::lemma_counting_step_trans(base, before, *self);
                        Self::lemma_stmt_entry_facts_monotone(
                            pre,
                            *stmt,
                            before.references_counts@,
                            self.references_counts@,
                        );
                    }
                    self.always_bump_context = saved_bump;
                }
                proof {
                    assert(Self::stmt_visit_facts(pre, *stmt, self.references_counts@));
                }
            },
            PyStmtKind::Import { names } => {
                // an alias stays when the name it binds is referenced
                // somewhere under any of its resolutions
                let mut ai: usize = 0;
                while ai < names.len()
                    invariant
                        ai <= names.len(),
                        Self::counting_step(base, *self),
                        self.names_provider == old(self).names_provider,
                        self.always_bump_context == old(self).always_bump_context,
                        Self::stmt_entry_facts(pre, *stmt, self.references_counts@),
                        forall|jj: int|
                            0 <= jj < ai && pre.alias_probe_live(
                                pre.references_counts@,
                                #[trigger] names@[jj],
                                false,
                            ) ==> forall|i: int|
                                0 <= i < ofqns.len() && #[trigger] ofqns[i] == names@[jj].name@
                                    ==> has_refs(self.references_counts@, ofqns[i]),
                    decreases names.len() - ai,
                {
                    let defined = match &names[ai].asname {
                        Some(a) => a.clone(),
                        None => names[ai].name.clone(),
                    };
                    let qualified = self.names_provider.resolve_qualified_name(defined.as_str());
                    let fqns = self.names_provider.resolve_fully_qualified_name(
                        qualified.as_str(),
                    );
                    let ghost probe = pre.alias_probe(names@[ai as int]);
                    proof {
                        assert(defined@ == names@[ai as int].bound_name());
                        assert(fqns.deep_view() == probe);
                    }
                    let mut fi: usize = 0;
                    while fi < fqns.len()
                        invariant
                            fi <= fqns.len(),
                            ai < names.len(),
                            probe == pre.alias_probe(names@[ai as int]),
                            fqns.deep_view() == probe,
                            Self::counting_step(base, *self),
                            self.names_provider == old(self).names_provider,
                            self.always_bump_context == old(self).always_bump_context,
                            Self::stmt_entry_facts(pre, *stmt, self.references_counts@),
                            forall|jj: int|
                                0 <= jj < ai && pre.alias_probe_live(
                                    pre.references_counts@,
                                    #[trigger] names@[jj],
                                    false,
                                ) ==> forall|i: int|
                                    0 <= i < ofqns.len() && #[trigger] ofqns[i] == names@[
                                        jj
                                    ].name@ ==> has_refs(self.references_counts@, ofqns[i]),
                            (forall|c: int|
                                0 <= c < fi ==> !has_refs(
                                    pre.references_counts@,
                                    #[trigger] probe[c],
                                )) || (forall|i: int|
                                0 <= i < ofqns.len() && #[trigger] ofqns[i] == names@[
                                    ai as int
                                ].name@ ==> has_refs(self.references_counts@, ofqns[i])),
                        decreases fqns.len() - fi,
                    {
                        if self.has_references_for_str(fqns[fi].as_str()) {
                            let ghost before = *self;
                            self.maybe_increase_stmt_eq(stmt, names[ai].name.as_str());
                            proof {
                                Self::lemma_counting_step_trans(base, before, *self);
                                Self::lemma_stmt_entry_facts_monotone(
                                    pre,
                                    *stmt,
                                    before.references_counts@,
                                    self.references_counts@,
                                );
                                assert forall|jj: int|
                                    0 <= jj < ai && pre.alias_probe_live(
                                        pre.references_counts@,
                                        #[trigger] names@[jj],
                                        false,
                                    ) implies forall|i: int|
                                    0 <= i < ofqns.len() && #[trigger] ofqns[i] == names@[
                                        jj
                                    ].name@ ==> has_refs(self.references_counts@, ofqns[i]) by {
                                    assert forall|i: int|
                                        0 <= i < ofqns.len() && #[trigger] ofqns[i] == names@[
                                            jj
                                        ].name@ implies has_refs(
                                        self.references_counts@,
                                        ofqns[i],
                                    ) by {
                                        assert(has_refs(before.references_counts@, ofqns[i]));
                                    }
                                }
                                assert forall|i: int|
                                    0 <= i < ofqns.len() && #[trigger] ofqns[i] == names@[
                                        ai as int
                                    ].name@ implies has_refs(
                                    self.references_counts@,
                                    ofqns[i],
                                ) by {}
                            }
                        } else {
                            proof {
                                if has_refs(pre.references_counts@, probe[fi as int]) {
                                    assert(has_refs(base.references_counts@, probe[fi as int]));
                                    assert(has_refs(self.references_counts@, probe[fi as int]));
                                }
                            }
                        }
                        fi += 1;
                    }
                    proof {
                        if pre.alias_probe_live(pre.references_counts@, names@[ai as int], false) {
                            let c = choose|c: int|
                                0 <= c < pre.alias_probe(names@[ai as int]).len() && !(false
                                    && "__builtin__"@.is_prefix_of(
                                    #[trigger] pre.alias_probe(names@[ai as int])[c],
                                )) && has_refs(
                                    pre.references_counts@,
                                    pre.alias_probe(names@[ai as int])[c],
                                );
                            assert(has_refs(pre.references_counts@, probe[c]));
                        }
                    }
                    ai += 1;
                }
                proof {
                    assert(names@.take(names@.len() as int) =~= names@);
                    assert(Self::import_alias_facts(pre, *stmt, names@, self.references_counts@));
                    assert(Self::stmt_visit_facts(pre, *stmt, self.references_counts@));
                }
            },
            PyStmtKind::ImportFrom { module, names, level } => {
                proof {
                    reveal_strlit("__builtin__");
                    reveal_strlit("*");
                }
                let mut ai: usize = 0;
                while ai < names.len()
                    invariant
                        ai <= names.len(),
                        Self::counting_step(base, *self),
                        self.names_provider == old(self).names_provider,
                        self.always_bump_context == old(self).always_bump_context,
                        Self::stmt_entry_facts(pre, *stmt, self.references_counts@),
                        forall|jj: int|
                            0 <= jj < ai && pre.alias_probe_live(
                                pre.references_counts@,
                                #[trigger] names@[jj],
                                true,
                            ) ==> forall|i: int|
                                0 <= i < ofqns.len() && names@[jj].name@.is_suffix_of(
                                    #[trigger] ofqns[i],
                                ) ==> has_refs(self.references_counts@, ofqns[i]),
                    decreases names.len() - ai,
                {
                    let defined = match &names[ai].asname {
                        Some(a) => a.clone(),
                        None => names[ai].name.clone(),
                    };
                    let qualified = self.names_provider.resolve_qualified_name(defined.as_str());
                    let fqns = self.names_provider.resolve_fully_qualified_name(
                        qualified.as_str(),
                    );
                    let ghost probe = pre.alias_probe(names@[ai as int]);
                    proof {
                        assert(defined@ == names@[ai as int].bound_name());
                        assert(fqns.deep_view() == probe);
                    }
                    let mut fi: usize = 0;
                    while fi < fqns.len()
                        invariant
                            fi <= fqns.len(),
                            ai < names.len(),
                            probe == pre.alias_probe(names@[ai as int]),
                            fqns.deep_view() == probe,
                            Self::counting_step(base, *self),
                            self.names_provider == old(self).names_provider,
                            self.always_bump_context == old(self).always_bump_context,
                            Self::stmt_entry_facts(pre, *stmt, self.references_counts@),
                            forall|jj: int|
                                0 <= jj < ai && pre.alias_probe_live(
                                    pre.references_counts@,
                                    #[trigger] names@[jj],
                                    true,
                                ) ==> forall|i: int|
                                    0 <= i < ofqns.len() && names@[jj].name@.is_suffix_of(
                                        #[trigger] ofqns[i],
                                    ) ==> has_refs(self.references_counts@, ofqns[i]),
                            (forall|c: int|
                                0 <= c < fi ==> !(!"__builtin__"@.is_prefix_of(
                                    #[trigger] probe[c],
                                ) && has_refs(pre.references_counts@, probe[c]))) || (forall|
                                i: int,
                            |
                                0 <= i < ofqns.len() && names@[ai as int].name@.is_suffix_of(
                                    #[trigger] ofqns[i],
                                ) ==> has_refs(self.references_counts@, ofqns[i])),
                        decreases fqns.len() - fi,
                    {
                        if !str_starts_with(fqns[fi].as_str(), "__builtin__")
                            && self.has_references_for_str(fqns[fi].as_str()) {
                            let ghost before = *self;
                            self.maybe_increase_stmt_suffix(stmt, names[ai].name.as_str());
                            proof {
                                Self::lemma_counting_step_trans(base, before, *self);
                                Self::lemma_stmt_entry_facts_monotone(
                                    pre,
                                    *stmt,
                                    before.references_counts@,
                                    self.references_counts@,
                                );
                                assert forall|jj: int|
                                    0 <= jj < ai && pre.alias_probe_live(
                                        pre.references_counts@,
                                        #[trigger] names@[jj],
                                        true,
                                    ) implies forall|i: int|
                                    0 <= i < ofqns.len() && names@[jj].name@.is_suffix_of(
                                        #[trigger] ofqns[i],
                                    ) ==> has_refs(self.references_counts@, ofqns[i]) by {
                                    assert forall|i: int|
                                        0 <= i < ofqns.len() && names@[jj].name@.is_suffix_of(
                                            #[trigger] ofqns[i],
                                        ) implies has_refs(self.references_counts@, ofqns[i]) by {
                                        assert(has_refs(before.references_counts@, ofqns[i]));
                                    }
                                }
                                assert forall|i: int|
                                    0 <= i < ofqns.len() && names@[ai as int].name@.is_suffix_of(
                                        #[trigger] ofqns[i],
                                    ) implies has_refs(self.references_counts@, ofqns[i]) by {}
                            }
                        } else {
                            proof {
                                if !"__builtin__"@.is_prefix_of(probe[fi as int]) && has_refs(
                                    pre.references_counts@,
                                    probe[fi as int],
                                ) {
                                    assert(has_refs(base.references_counts@, probe[fi as int]));
                                    assert(has_refs(self.references_counts@, probe[fi as int]));
                                }
                            }
                        }
                        fi += 1;
                    }
                    proof {
                        if pre.alias_probe_live(pre.references_counts@, names@[ai as int], true) {
                            let c = choose|c: int|
                                0 <= c < pre.alias_probe(names@[ai as int]).len() && !(true
                                    && "__builtin__"@.is_prefix_of(
                                    #[trigger] pre.alias_probe(names@[ai as int])[c],
                                )) && has_refs(
                                    pre.references_counts@,
                                    pre.alias_probe(names@[ai as int])[c],
                                );
                            assert(!"__builtin__"@.is_prefix_of(probe[c]) && has_refs(
                                pre.references_counts@,
                                probe[c],
                            ));
                        }
                    }
                    ai += 1;
                }
                let ghost after_aliases = *self;
                proof {
                    assert(Self::from_alias_facts(pre, *stmt, names@, self.references_counts@));
                }
                // a module-scope lone wildcard: names referenced under
                // this module that exist under the wildcard source keep
                // the source's original definition alive
                if self.is_global_scope() && names.len() == 1 && str_eq(
                    names[0].name.as_str(),
                    "*",
                ) {
                    let parent = self.names_provider.get_imports_provider().get_parent_package();
                    match get_import_from_absolute_module_spec(
                        module,
                        names,
                        *level,
                        parent.as_str(),
                        true,
                    ) {
                        Err(_) => {},
                        Ok(targets) => {
                            let ghost tsv = targets.deep_view();
                            let mut ti: usize = 0;
                            proof {
                                assert(Self::star_export_facts(
                                    pre,
                                    tsv,
                                    0,
                                    self.references_counts@,
                                ));
                            }
                            while ti < targets.len()
                                invariant
                                    ti <= targets.len(),
                                    tsv == targets.deep_view(),
                                    Self::counting_step(base, *self),
                                    self.names_provider == old(self).names_provider,
                                    self.always_bump_context == old(self).always_bump_context,
                                    Self::stmt_entry_facts(pre, *stmt, self.references_counts@),
                                    Self::from_alias_facts(
                                        pre,
                                        *stmt,
                                        names@,
                                        self.references_counts@,
                                    ),
                                    Self::star_export_facts(
                                        pre,
                                        tsv,
                                        ti as int,
                                        self.references_counts@,
                                    ),
                                decreases targets.len() - ti,
                            {
                                let target_len = targets[ti].as_str().unicode_len();
                                let mut new_names: Vec<String> = Vec::new();
                                let mut bump_names: Vec<String> = Vec::new();
                                let ghost scan_pairs = self.references_counts.pairs();
                                let n = self.references_counts.len();
                                let mut ri: usize = 0;
                                while ri < n
                                    invariant
                                        ri <= n,
                                        ti < targets.len(),
                                        tsv == targets.deep_view(),
                                        n == self.references_counts.size(),
                                        scan_pairs == self.references_counts.pairs(),
                                        target_len == tsv[ti as int].len(),
                                        Self::counting_step(base, *self),
                                        forall|j: int|
                                            0 <= j < ri && (#[trigger] scan_pairs[j].0).len()
                                                > tsv[ti as int].len() && tsv[ti as int]
                                                .is_prefix_of(scan_pairs[j].0) ==> new_names
                                                .deep_view().contains(
                                                pre.module_spec@ + seq!['.'] + scan_pairs[
                                                    j
                                                ].0.skip(tsv[ti as int].len() as int + 1),
                                            ) && (has_refs(
                                                pre.references_counts@,
                                                pre.module_spec@ + seq!['.'] + scan_pairs[
                                                    j
                                                ].0.skip(tsv[ti as int].len() as int + 1),
                                            ) ==> bump_names.deep_view().contains(
                                                scan_pairs[j].0,
                                            )),
                                    decreases n - ri,
                                {
                                    let reference = self.references_counts.key_at(ri);
                                    let ref_len = reference.as_str().unicode_len();
                                    if ref_len > target_len && str_starts_with(
                                        reference.as_str(),
                                        targets[ti].as_str(),
                                    ) {
                                        let imported_name = str_skip(
                                            reference.as_str(),
                                            target_len + 1,
                                        );
                                        let exported_name = concat_dot(
                                            self.module_spec.as_str(),
                                            imported_name,
                                        );
                                        let bump = match self.references_counts.get(
                                            exported_name.as_str(),
                                        ) {
                                            Some(c) => c > 0,
                                            None => false,
                                        };
                                        let ghost old_new = new_names.deep_view();
                                        let ghost old_bump = bump_names.deep_view();
                                        if bump {
                                            bump_names.push(
                                                String::from_str(
                                                    self.references_counts.key_at(ri).as_str(),
                                                ),
                                            );
                                        }
                                        new_names.push(exported_name);
                                        proof {
                                            assert forall|m: int|
                                                0 <= m < old_new.len() implies new_names
                                                .deep_view().contains(#[trigger] old_new[m]) by {
                                                assert(new_names.deep_view()[m] == old_new[m]);
                                            }
                                            assert forall|m: int|
                                                0 <= m < old_bump.len() implies bump_names
                                                .deep_view().contains(#[trigger] old_bump[m]) by {
                                                assert(bump_names.deep_view()[m] == old_bump[m]);
                                            }
                                            assert(new_names.deep_view().contains(
                                                pre.module_spec@ + seq!['.'] + scan_pairs[
                                                    ri as int
                                                ].0.skip(tsv[ti as int].len() as int + 1),
                                            )) by {
                                                assert(new_names.deep_view().last()
                                                    == pre.module_spec@ + seq!['.'] + scan_pairs[
                                                    ri as int
                                                ].0.skip(tsv[ti as int].len() as int + 1));
                                            }
                                            if has_refs(
                                                pre.references_counts@,
                                                pre.module_spec@ + seq!['.'] + scan_pairs[
                                                    ri as int
                                                ].0.skip(tsv[ti as int].len() as int + 1),
                                            ) {
                                                assert(has_refs(
                                                    base.references_counts@,
                                                    pre.module_spec@ + seq!['.'] + scan_pairs[
                                                        ri as int
                                                    ].0.skip(tsv[ti as int].len() as int + 1),
                                                ));
                                                assert(has_refs(
                                                    self.references_counts@,
                                                    pre.module_spec@ + seq!['.'] + scan_pairs[
                                                        ri as int
                                                    ].0.skip(tsv[ti as int].len() as int + 1),
                                                ));
                                                assert(bump);
                                                assert(bump_names.deep_view().contains(
                                                    scan_pairs[ri as int].0,
                                                )) by {
                                                    assert(bump_names.deep_view().last()
                                                        == scan_pairs[ri as int].0);
                                                }
                                            }
                                        }
                                    }
                                    ri += 1;
                                }
                                let ghost before_known_loop = *self;
                                let mut ni: usize = 0;
                                while ni < new_names.len()
                                    invariant
                                        ni <= new_names.len(),
                                        Self::counting_step(base, *self),
                                        self.names_provider == old(self).names_provider,
                                        self.always_bump_context == old(self).always_bump_context,
                                        Self::stmt_entry_facts(
                                            pre,
                                            *stmt,
                                            self.references_counts@,
                                        ),
                                        Self::from_alias_facts(
                                            pre,
                                            *stmt,
                                            names@,
                                            self.references_counts@,
                                        ),
                                        Self::star_export_facts(
                                            pre,
                                            tsv,
                                            ti as int,
                                            self.references_counts@,
                                        ),
                                        counts_monotone(
                                            before_known_loop.references_counts@,
                                            self.references_counts@,
                                        ),
                                        forall|m: int|
                                            0 <= m < ni ==> self.references_counts@.contains_key(
                                                #[trigger] new_names.deep_view()[m],
                                            ),
                                    decreases new_names.len() - ni,
                                {
                                    let ghost before = *self;
                                    self.make_known(new_names[ni].as_str());
                                    proof {
                                        Self::lemma_counting_step_trans(base, before, *self);
                                        Self::lemma_stmt_entry_facts_monotone(
                                            pre,
                                            *stmt,
                                            before.references_counts@,
                                            self.references_counts@,
                                        );
                                        Self::lemma_from_alias_facts_monotone(
                                            pre,
                                            *stmt,
                                            names@,
                                            before.references_counts@,
                                            self.references_counts@,
                                        );
                                        Self::lemma_star_export_facts_monotone(
                                            pre,
                                            tsv,
                                            ti as int,
                                            before.references_counts@,
                                            self.references_counts@,
                                        );
                                        assert forall|m: int| 0 <= m < ni + 1 implies self
                                            .references_counts@.contains_key(
                                            #[trigger] new_names.deep_view()[m],
                                        ) by {
                                            if m < ni {
                                                assert(before.references_counts@.contains_key(
                                                    new_names.deep_view()[m],
                                                ));
                                            }
                                        }
                                    }
                                    ni += 1;
                                }
                                let ghost before_bump_loop = *self;
                                let mut bi: usize = 0;
                                while bi < bump_names.len()
                                    invariant
                                        bi <= bump_names.len(),
                                        Self::counting_step(base, *self),
                                        self.names_provider == old(self).names_provider,
                                        self.always_bump_context == old(self).always_bump_context,
                                        Self::stmt_entry_facts(
                                            pre,
                                            *stmt,
                                            self.references_counts@,
                                        ),
                                        Self::from_alias_facts(
                                            pre,
                                            *stmt,
                                            names@,
                                            self.references_counts@,
                                        ),
                                        Self::star_export_facts(
                                            pre,
                                            tsv,
                                            ti as int,
                                            self.references_counts@,
                                        ),
                                        counts_monotone(
                                            before_bump_loop.references_counts@,
                                            self.references_counts@,
                                        ),
                                        forall|b0: int|
                                            0 <= b0 < bi ==> self.references_counts@.contains_key(
                                                #[trigger] bump_names.deep_view()[b0],
                                            ) && (pre.references_counts@.contains_key(
                                                bump_names.deep_view()[b0],
                                            ) ==> self.references_counts@[bump_names.deep_view()[
                                                b0
                                            ]] >= bumped(
                                                pre.references_counts@[bump_names.deep_view()[
                                                    b0
                                                ]],
                                            )),
                                    decreases bump_names.len() - bi,
                                {
                                    let ghost before = *self;
                                    self.increase(bump_names[bi].as_str());
                                    proof {
                                        Self::lemma_counting_step_trans(base, before, *self);
                                        Self::lemma_stmt_entry_facts_monotone(
                                            pre,
                                            *stmt,
                                            before.references_counts@,
                                            self.references_counts@,
                                        );
                                        Self::lemma_from_alias_facts_monotone(
                                            pre,
                                            *stmt,
                                            names@,
                                            before.references_counts@,
                                            self.references_counts@,
                                        );
                                        Self::lemma_star_export_facts_monotone(
                                            pre,
                                            tsv,
                                            ti as int,
                                            before.references_counts@,
                                            self.references_counts@,
                                        );
                                        assert forall|b0: int| 0 <= b0 < bi + 1 implies self
                                            .references_counts@.contains_key(
                                            #[trigger] bump_names.deep_view()[b0],
                                        ) && (pre.references_counts@.contains_key(
                                            bump_names.deep_view()[b0],
                                        ) ==> self.references_counts@[bump_names.deep_view()[
                                            b0
                                        ]] >= bumped(
                                            pre.references_counts@[bump_names.deep_view()[b0]],
                                        )) by {
                                            if b0 < bi {
                                                assert(before.references_counts@.contains_key(
                                                    bump_names.deep_view()[b0],
                                                ));
                                            } else {
                                                if pre.references_counts@.contains_key(
                                                    bump_names.deep_view()[b0],
                                                ) {
                                                    assert(before.references_counts@.contains_key(
                                                        bump_names.deep_view()[b0],
                                                    ) && before.references_counts@[
                                                        bump_names.deep_view()[b0]
                                                    ] >= pre.references_counts@[
                                                        bump_names.deep_view()[b0]
                                                    ]);
                                                }
                                            }
                                        }
                                    }
                                    bi += 1;
                                }
                                proof {
                                    assert(Self::star_export_facts(
                                        pre,
                                        tsv,
                                        ti + 1,
                                        self.references_counts@,
                                    )) by {
                                        assert forall|t: int, k: Seq<char>|
                                            #![trigger tsv[t], pre.references_counts@.contains_key(k)]
                                            0 <= t < ti + 1 && t < tsv.len()
                                                && pre.references_counts@.contains_key(k)
                                                && k.len() > tsv[t].len() && tsv[t].is_prefix_of(
                                                k,
                                            ) implies self.references_counts@.contains_key(
                                            pre.module_spec@ + seq!['.'] + k.skip(
                                                tsv[t].len() as int + 1,
                                            ),
                                        ) && (has_refs(
                                            pre.references_counts@,
                                            pre.module_spec@ + seq!['.'] + k.skip(
                                                tsv[t].len() as int + 1,
                                            ),
                                        ) ==> self.references_counts@.contains_key(k)
                                            && self.references_counts@[k] >= bumped(
                                            pre.references_counts@[k],
                                        )) by {
                                            if t < ti {
                                            } else {
                                                assert(has_refs(
                                                    base.references_counts@,
                                                    k,
                                                ) || base.references_counts@.contains_key(k));
                                                assert(before_known_loop
                                                    .references_counts@.contains_key(k));
                                                before_known_loop.references_counts
                                                    .lemma_key_listed(k);
                                                let j = choose|j: int|
                                                    0 <= j < before_known_loop
                                                        .references_counts.size()
                                                        && before_known_loop
                                                        .references_counts.pairs()[j].0 == k;
                                                assert(scan_pairs[j].0 == k);
                                                assert(new_names.deep_view().contains(
                                                    pre.module_spec@ + seq!['.'] + k.skip(
                                                        tsv[t].len() as int + 1,
                                                    ),
                                                ));
                                                let m = choose|m: int|
                                                    0 <= m < new_names.deep_view().len()
                                                        && new_names.deep_view()[m]
                                                        == pre.module_spec@ + seq!['.'] + k.skip(
                                                        tsv[t].len() as int + 1,
                                                    );
                                                assert(self.references_counts@.contains_key(
                                                    new_names.deep_view()[m],
                                                ));
                                                if has_refs(
                                                    pre.references_counts@,
                                                    pre.module_spec@ + seq!['.'] + k.skip(
                                                        tsv[t].len() as int + 1,
                                                    ),
                                                ) {
                                                    assert(bump_names.deep_view().contains(k));
                                                    let b0 = choose|b0: int|
                                                        0 <= b0 < bump_names.deep_view().len()
                                                            && bump_names.deep_view()[b0] == k;
                                                    assert(self
                                                        .references_counts@.contains_key(
                                                        bump_names.deep_view()[b0],
                                                    ) && self.references_counts@[
                                                        bump_names.deep_view()[b0]
                                                    ] >= bumped(
                                                        pre.references_counts@[
                                                            bump_names.deep_view()[b0]
                                                        ],
                                                    ));
                                                }
                                            }
                                        }
                                    }
                                }
                                ti += 1;
                            }
                            proof {
                                assert(tsv.len() == targets.deep_view().len());
                            }
                        },
                    }
                }
                proof {
                    assert(Self::stmt_visit_facts(pre, *stmt, self.references_counts@));
                }
            },
            _ => {
                proof {
                    assert(Self::stmt_visit_facts(pre, *stmt, self.references_counts@));
                }
            },
        }
        let ghost after_rules = *self;
        let scope = self.names_provider.enter_scope(stmt);
        let ghost before_bind = *self;
        self.names_provider.visit_stmt(stmt);
        let ghost before_walk = *self;
        self.walk_stmt_children(stmt);
        let ghost after_walk = *self;
        proof {
            Self::lemma_counting_step_trans(before_bind, before_walk, *self);
        }
        if can_reset_context {
            self.always_bump_context = false;
        }
        self.names_provider.exit_scope(scope);
        proof {
            assert(Self::counting_step(base, *self));
            Self::lemma_counting_step_trans(*old(self), base, *self);
            assert(counts_monotone(after_rules.references_counts@, self.references_counts@));
            Self::lemma_stmt_visit_facts_monotone(
                pre,
                *stmt,
                after_rules.references_counts@,
                self.references_counts@,
            );
            match &stmt.kind {
                PyStmtKind::If { test, then_body, else_body } => {
                    if pre.names_provider.name_context@.len() == 0 && is_name_main_test(*test)
                        && then_body@.len() > 0 {
                        // the guard arm set the bump context, the scope
                        // entry and binding left the provider as it was,
                        // so the walk counted the guarded body's opener
                        assert(dynamic_imports_of(stmt.kind, before_bind
                            .names_provider.imports_provider.importlib_view()).len() == 0);
                        assert(before_walk.names_provider == pre.names_provider);
                        assert(before_walk.always_bump_context);
                        assert forall|j: int|
                            0 <= j < pre.names_provider.stmt_fqns(then_body@[0].kind).len()
                                implies has_refs(
                            self.references_counts@,
                            #[trigger] pre.names_provider.stmt_fqns(then_body@[0].kind)[j],
                        ) by {
                            assert(has_refs(
                                after_walk.references_counts@,
                                pre.names_provider.stmt_fqns(then_body@[0].kind)[j],
                            ));
                        }
                    }
                },
                _ => {},
            }
        }
    }

    /// Visits the child expressions and nested statements of `stmt` in
    /// source order.
    #[verifier::loop_isolation(false)]
    fn walk_stmt_children(&mut self, stmt: &PyStmt)
        requires
            old(self).wf(),
        ensures
            Self::counting_step(*old(self), *final(self)),
            final(self).names_provider.name_context@ == old(self).names_provider.name_context@,
            final(self).always_bump_context == old(self).always_bump_context,
            (match stmt.kind {
                PyStmtKind::If { test, then_body, else_body } => (old(self).always_bump_context
                    && then_body@.len() > 0) ==> forall|j: int|
                    0 <= j < old(self).names_provider.stmt_fqns(then_body@[0].kind).len()
                        ==> has_refs(
                        final(self).references_counts@,
                        #[trigger] old(self).names_provider.stmt_fqns(then_body@[0].kind)[j],
                    ),
                _ => true,
            }),
        decreases *stmt, 1int,
    {
        match &stmt.kind {
            PyStmtKind::FunctionDef { name, decorators, params, body } => {
                self.visit_exprs(decorators);
                let ghost before_params = *self;
                self.visit_exprs(params);
                proof {
                    Self::lemma_counting_step_trans(*old(self), before_params, *self);
                    assert(decreases_to!(*stmt => stmt.kind));
                    assert(decreases_to!(stmt.kind => stmt.kind->body));
                    assert(decreases_to!(stmt.kind->body => body@));
                    assert(decreases_to!(*stmt => body@));
                }
                let ghost before_body = *self;
                self.visit_stmts(body, Ghost(*stmt));
                proof {
                    Self::lemma_counting_step_trans(*old(self), before_body, *self);
                }
            },
            PyStmtKind::ClassDef { name, decorators, bases, keywords, class_body } => {
                self.visit_exprs(decorators);
                let ghost before_bases = *self;
                self.visit_exprs(bases);
                proof {
                    Self::lemma_counting_step_trans(*old(self), before_bases, *self);
                }
                let ghost before_kw = *self;
                self.visit_exprs(keywords);
                proof {
                    Self::lemma_counting_step_trans(*old(self), before_kw, *self);
                    assert(decreases_to!(*stmt => stmt.kind));
                    assert(decreases_to!(stmt.kind => stmt.kind->class_body));
                    assert(decreases_to!(stmt.kind->class_body => class_body@));
                    assert(decreases_to!(*stmt => class_body@));
                }
                let ghost before_body = *self;
                self.visit_stmts(class_body, Ghost(*stmt));
                proof {
                    Self::lemma_counting_step_trans(*old(self), before_body, *self);
                }
            },
            PyStmtKind::Assign { targets, value } => {
                self.visit_exprs(targets);
                let ghost before = *self;
                self.visit_expr(value);
                proof {
                    Self::lemma_counting_step_trans(*old(self), before, *self);
                }
            },
            PyStmtKind::AugAssign { target, value } => {
                self.visit_expr(target);
                let ghost before = *self;
                self.visit_expr(value);
                proof {
                    Self::lemma_counting_step_trans(*old(self), before, *self);
                }
            },
            PyStmtKind::AnnAssign { target, annotation, value } => {
                self.visit_expr(target);
                let ghost before = *self;
                self.visit_expr(annotation);
                proof {
                    Self::lemma_counting_step_trans(*old(self), before, *self);
                }
                if let Some(v) = value {
                    let ghost before_v = *self;
                    self.visit_expr(v);
                    proof {
                        Self::lemma_counting_step_trans(*old(self), before_v, *self);
                    }
                }
            },
            PyStmtKind::ExprStmt { value } => {
                self.visit_expr(value);
            },
            PyStmtKind::If { test, then_body, else_body } => {
                self.visit_expr(test);
                proof {
                    assert(decreases_to!(*stmt => stmt.kind));
                    assert(decreases_to!(stmt.kind => stmt.kind->then_body));
                    assert(decreases_to!(stmt.kind->then_body => then_body@));
                    assert(decreases_to!(*stmt => then_body@));
                    assert(decreases_to!(stmt.kind => stmt.kind->else_body));
                    assert(decreases_to!(stmt.kind->else_body => else_body@));
                    assert(decreases_to!(*stmt => else_body@));
                }
                let ghost before_then = *self;
                self.visit_stmts(then_body, Ghost(*stmt));
                let ghost after_then = *self;
                proof {
                    Self::lemma_counting_step_trans(*old(self), before_then, *self);
                }
                let ghost before_else = *self;
                self.visit_stmts(else_body, Ghost(*stmt));
                proof {
                    Self::lemma_counting_step_trans(*old(self), before_else, *self);
                    if old(self).always_bump_context && then_body@.len() > 0 {
                        assert(before_then.names_provider == old(self).names_provider);
                        assert(before_then.always_bump_context);
                        assert forall|j: int|
                            0 <= j < old(self).names_provider.stmt_fqns(
                                then_body@[0].kind,
                            ).len() implies has_refs(
                            self.references_counts@,
                            #[trigger] old(self).names_provider.stmt_fqns(then_body@[0].kind)[j],
                        ) by {
                            assert(has_refs(
                                after_then.references_counts@,
                                old(self).names_provider.stmt_fqns(then_body@[0].kind)[j],
                            ));
                        }
                    }
                }
            },
            PyStmtKind::For { target, iter, loop_body, loop_else } => {
                self.visit_expr(target);
                let ghost before = *self;
                self.visit_expr(iter);
                proof {
                    Self::lemma_counting_step_trans(*old(self), before, *self);
                    assert(decreases_to!(*stmt => stmt.kind));
                    assert(decreases_to!(stmt.kind => stmt.kind->loop_body));
                    assert(decreases_to!(stmt.kind->loop_body => loop_body@));
                    assert(decreases_to!(*stmt => loop_body@));
                    assert(decreases_to!(stmt.kind => stmt.kind->loop_else));
                    assert(decreases_to!(stmt.kind->loop_else => loop_else@));
                    assert(decreases_to!(*stmt => loop_else@));
                }
                let ghost before_body = *self;
                self.visit_stmts(loop_body, Ghost(*stmt));
                proof {
                    Self::lemma_counting_step_trans(*old(self), before_body, *self);
                }
                let ghost before_else = *self;
                self.visit_stmts(loop_else, Ghost(*stmt));
                proof {
                    Self::lemma_counting_step_trans(*old(self), before_else, *self);
                }
            },
            PyStmtKind::TypeAlias { name, value } => {
                self.visit_expr(name);
                let ghost before = *self;
                self.visit_expr(value);
                proof {
                    Self::lemma_counting_step_trans(*old(self), before, *self);
                }
            },
            PyStmtKind::Other { values, nested } => {
                self.visit_exprs(values);
                proof {
                    assert(decreases_to!(*stmt => stmt.kind));
                    assert(decreases_to!(stmt.kind => stmt.kind->nested));
                    assert(decreases_to!(stmt.kind->nested => nested@));
                    assert(decreases_to!(*stmt => nested@));
                }
                let ghost before_body = *self;
                self.visit_stmts(nested, Ghost(*stmt));
                proof {
                    Self::lemma_counting_step_trans(*old(self), before_body, *self);
                }
            },
            _ => {},
        }
    }

    /// Visits a nested statement list of `parent` in order.
    #[verifier::loop_isolation(false)]
    fn visit_stmts(&mut self, stmts: &Vec<PyStmt>, parent: Ghost<PyStmt>)
        requires
            old(self).wf(),
            decreases_to!(parent@ => stmts@),
        ensures
            Self::counting_step(*old(self), *final(self)),
            final(self).names_provider.name_context@ == old(self).names_provider.name_context@,
            final(self).always_bump_context == old(self).always_bump_context,
            (old(self).always_bump_context && stmts@.len() > 0) ==> forall|j: int|
                0 <= j < old(self).names_provider.stmt_fqns(stmts@[0].kind).len() ==> has_refs(
                    final(self).references_counts@,
                    #[trigger] old(self).names_provider.stmt_fqns(stmts@[0].kind)[j],
                ),
        decreases parent@, 0int,
    {
        let ghost start = *old(self);
        let ghost first_fqns = if stmts@.len() > 0 {
            start.names_provider.stmt_fqns(stmts@[0].kind)
        } else {
            Seq::<Seq<char>>::empty()
        };
        let mut i: usize = 0;
        while i < stmts.len()
            invariant
                i <= stmts.len(),
                i == 0 ==> *self == start,
                Self::counting_step(*old(self), *self),
                self.names_provider.name_context@ == old(self).names_provider.name_context@,
                self.always_bump_context == old(self).always_bump_context,
                (i > 0 && start.always_bump_context) ==> forall|j: int|
                    0 <= j < first_fqns.len() ==> has_refs(
                        self.references_counts@,
                        #[trigger] first_fqns[j],
                    ),
            decreases stmts.len() - i,
        {
            proof {
                assert(decreases_to!(stmts@ => stmts@[i as int]));
                assert(decreases_to!(parent@ => stmts@[i as int]));
            }
            let ghost before = *self;
            self.visit_stmt(&stmts[i]);
            proof {
                Self::lemma_counting_step_trans(*old(self), before, *self);
                if start.always_bump_context {
                    if i == 0 {
                        assert(before == start);
                        assert(Self::stmt_entry_facts(start, stmts@[0], self.references_counts@));
                        assert forall|j: int| 0 <= j < first_fqns.len() implies has_refs(
                            self.references_counts@,
                            #[trigger] first_fqns[j],
                        ) by {}
                    } else {
                        assert forall|j: int| 0 <= j < first_fqns.len() implies has_refs(
                            self.references_counts@,
                            #[trigger] first_fqns[j],
                        ) by {
                            assert(has_refs(before.references_counts@, first_fqns[j]));
                        }
                    }
                }
            }
            i += 1;
        }
    }

    /// Counts references across one module body: resets the per-module
    /// state, then visits every top-level statement. The count table
    /// only grows, and the new-reference counter rises only with names
    /// this run newly discovered as referenced, never faster than the
    /// table itself.
    #[verifier::loop_isolation(false)]
    pub fn visit_module(&mut self, module_spec: &str, source_path: &str, body: &Vec<PyStmt>)
        requires
            old(self).wf(),
        ensures
            final(self).wf(),
            counts_monotone(old(self).references_counts@, final(self).references_counts@),
            final(self).new_references_count - old(self).new_references_count
                <= final(self).references_counts.size() - old(self).references_counts.size(),
            final(self).new_references_count >= old(self).new_references_count,
            final(self).module_spec@ == module_spec@,
            final(self).source_path@ == source_path@,
            final(self).import_aliases == old(self).import_aliases,
            final(self).safe_decorators == old(self).safe_decorators,
            body@.len() > 0 ==> forall|i: int|
                0 <= i < crate::nodes_remover::rm_stmt_fqns(
                    module_spec@,
                    parent_package_context(module_spec@, source_path@),
                    Seq::<char>::empty(),
                    body@[0].kind,
                ).len() ==> final(self).references_counts@.contains_key(
                    #[trigger] crate::nodes_remover::rm_stmt_fqns(
                        module_spec@,
                        parent_package_context(module_spec@, source_path@),
                        Seq::<char>::empty(),
                        body@[0].kind,
                    )[i],
                ),
            (file_name_of(source_path@) == "__main__.py"@ && body@.len() > 0) ==> forall|i: int|
                0 <= i < crate::nodes_remover::rm_stmt_fqns(
                    module_spec@,
                    parent_package_context(module_spec@, source_path@),
                    Seq::<char>::empty(),
                    body@[0].kind,
                ).len() ==> has_refs(
                    final(self).references_counts@,
                    #[trigger] crate::nodes_remover::rm_stmt_fqns(
                        module_spec@,
                        parent_package_context(module_spec@, source_path@),
                        Seq::<char>::empty(),
                        body@[0].kind,
                    )[i],
                ),
    {
        self.always_bump_context = false;
        self.module_spec = String::from_str(module_spec);
        self.source_path = String::from_str(source_path);
        self.names_provider = FullyQualifiedNameProvider::new(module_spec, source_path);
        let ghost start = *self;
        let ghost first_fqns = if body@.len() > 0 {
            crate::nodes_remover::rm_stmt_fqns(
                module_spec@,
                parent_package_context(module_spec@, source_path@),
                Seq::<char>::empty(),
                body@[0].kind,
            )
        } else {
            Seq::<Seq<char>>::empty()
        };
        proof {
            if body@.len() > 0 {
                crate::nodes_remover::lemma_rm_stmt_fqns(start.names_provider, body@[0].kind);
                assert(start.names_provider.stmt_fqns(body@[0].kind) == first_fqns);
            }
        }
        let mut i: usize = 0;
        while i < body.len()
            invariant
                i <= body.len(),
                i == 0 ==> *self == start,
                Self::counting_step(start, *self),
                i > 0 ==> forall|j: int|
                    0 <= j < first_fqns.len() ==> self.references_counts@.contains_key(
                        #[trigger] first_fqns[j],
                    ),
                (i > 0 && file_name_of(start.source_path@) == "__main__.py"@) ==> forall|j: int|
                    0 <= j < first_fqns.len() ==> has_refs(
                        self.references_counts@,
                        #[trigger] first_fqns[j],
                    ),
            decreases body.len() - i,
        {
            let ghost before = *self;
            self.visit_stmt(&body[i]);
            proof {
                Self::lemma_counting_step_trans(start, before, *self);
                if i == 0 {
                    assert(before == start);
                    assert(Self::stmt_entry_facts(start, body@[0], self.references_counts@));
                    assert forall|j: int| 0 <= j < first_fqns.len() implies self
                        .references_counts@.contains_key(#[trigger] first_fqns[j]) by {
                        assert(start.names_provider.stmt_fqns(body@[0].kind)[j] == first_fqns[j]);
                    }
                    if file_name_of(start.source_path@) == "__main__.py"@ {
                        assert forall|j: int| 0 <= j < first_fqns.len() implies has_refs(
                            self.references_counts@,
                            #[trigger] first_fqns[j],
                        ) by {
                            assert(start.names_provider.stmt_fqns(body@[0].kind)[j]
                                == first_fqns[j]);
                        }
                    }
                } else {
                    assert forall|j: int| 0 <= j < first_fqns.len() implies self
                        .references_counts@.contains_key(#[trigger] first_fqns[j]) by {
                        assert(before.references_counts@.contains_key(first_fqns[j]));
                    }
                    if file_name_of(start.source_path@) == "__main__.py"@ {
                        assert forall|j: int| 0 <= j < first_fqns.len() implies has_refs(
                            self.references_counts@,
                            #[trigger] first_fqns[j],
                        ) by {
                            assert(has_refs(before.references_counts@, first_fqns[j]));
                        }
                    }
                }
            }
            i += 1;
        }
    }
}

/// Entry-point immunity: once every fully-qualified name a statement
/// yields carries a reference — as the counter arranges for every
/// statement of a module entry file before anything else — the
/// statement reports as referenced even against an otherwise all-zero
/// table, provided it yields at least one name and is not a lone
/// wildcard import (whose liveness query asks for its source modules
/// instead).
pub proof fn lemma_entry_point_immunity(c: ReferencesCounter, kind: PyStmtKind)
    requires
        c.stmt_query_names(kind) == c.names_provider.stmt_fqns(kind),
        c.names_provider.stmt_fqns(kind).len() > 0,
        forall|i: int|
            0 <= i < c.names_provider.stmt_fqns(kind).len() ==> has_refs(
                c.references_counts@,
                #[trigger] c.names_provider.stmt_fqns(kind)[i],
            ),
    ensures
        seq_any_has_refs(c.references_counts@, c.stmt_query_names(kind)),
{
    assert(has_refs(c.references_counts@, c.stmt_query_names(kind)[0]));
}

} // verus!
