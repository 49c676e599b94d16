//! The pruning pass: once the reference table is stable, delete every
//! prunable statement whose names carry no references, prune import
//! statements alias by alias, and drop statements whose required
//! sub-lists become empty.

use vstd::prelude::*;

verus! {

use vstd::string::StringExecFns;
use crate::strings::concat_dot;
use crate::strings::str_eq;
use crate::strings::str_starts_with;
use crate::ast::PyAlias;
use crate::ast::PyStmt;
use crate::ast::PyStmtKind;
use crate::fqn_provider::FullyQualifiedNameProvider;
use crate::fqn_provider::scope_qualified;
use crate::fqn_provider::stmt_qualified_names;
use crate::full_name::stmt_full_names;
use crate::import_resolution::get_import_from_absolute_module_spec;
use crate::import_resolution::import_from_targets_of;
use crate::imports_provider::parent_package_context;
use crate::references_counter::has_refs;
use crate::references_counter::module_has_refs;
use crate::references_counter::seq_any_has_refs;
use crate::tables::CountTable;
use crate::tables::StrSet;

/// The statement kinds the remover may delete; everything else keeps
/// its structure.
pub open spec fn prunable(kind: PyStmtKind) -> bool {
    ||| kind matches PyStmtKind::ClassDef { .. }
    ||| kind matches PyStmtKind::FunctionDef { .. }
    ||| kind matches PyStmtKind::AnnAssign { .. }
    ||| kind matches PyStmtKind::AugAssign { .. }
    ||| kind matches PyStmtKind::Assign { .. }
    ||| kind matches PyStmtKind::Import { .. }
    ||| kind matches PyStmtKind::ImportFrom { .. }
}

/// With no aliases and no star imports active, each qualified name has
/// exactly its module-qualified reading.
pub open spec fn plain_candidates(module: Seq<char>, ns: Seq<Seq<char>>) -> Seq<Seq<char>>
    decreases ns.len(),
{
    if ns.len() == 0 {
        Seq::empty()
    } else {
        plain_candidates(module, ns.drop_last()) + seq![module + seq!['.'] + ns.last()]
    }
}

/// The fully-qualified names the remover attributes to a statement:
/// import statements keep their extracted names, everything else is
/// scope-qualified and module-qualified.
pub open spec fn rm_stmt_fqns(
    module: Seq<char>,
    parent: Seq<char>,
    ctx: Seq<char>,
    kind: PyStmtKind,
) -> Seq<Seq<char>> {
    match kind {
        PyStmtKind::Import { .. } | PyStmtKind::ImportFrom { .. } => stmt_full_names(kind, parent),
        _ => plain_candidates(module, stmt_qualified_names(kind, parent, ctx)),
    }
}

/// The names the remover's liveness query consults, mirroring the
/// counter: a lone wildcard `import from` asks for its greedily
/// resolved source modules.
pub open spec fn rm_query_names(
    module: Seq<char>,
    parent: Seq<char>,
    ctx: Seq<char>,
    kind: PyStmtKind,
) -> Seq<Seq<char>> {
    match kind {
        PyStmtKind::ImportFrom { module: from_module, names, level } => {
            if names@.len() == 1 && names@[0].name@ == "*"@ {
                match import_from_targets_of(from_module, names@, level, parent, true) {
                    Ok(t) => t,
                    Err(_) => Seq::empty(),
                }
            } else {
                rm_stmt_fqns(module, parent, ctx, kind)
            }
        },
        _ => rm_stmt_fqns(module, parent, ctx, kind),
    }
}

/// Whether a statement survives the liveness query alone.
pub open spec fn rm_keeps(
    counts: Map<Seq<char>, u64>,
    module: Seq<char>,
    parent: Seq<char>,
    ctx: Seq<char>,
    kind: PyStmtKind,
) -> bool {
    seq_any_has_refs(counts, rm_query_names(module, parent, ctx, kind))
}

/// The aliases of a plain `import` that keep a positive count.
pub open spec fn kept_import_aliases(counts: Map<Seq<char>, u64>, names: Seq<PyAlias>) -> Seq<
    PyAlias,
>
    decreases names.len(),
{
    if names.len() == 0 {
        Seq::empty()
    } else {
        kept_import_aliases(counts, names.drop_last()) + if has_refs(counts, names.last().name@) {
            seq![names.last()]
        } else {
            Seq::<PyAlias>::empty()
        }
    }
}

/// One target's pass over an `import from` alias list: wildcards are
/// always kept, a name is kept when `target.name` is referenced, and a
/// bound local name already emitted is not emitted twice.
pub open spec fn kept_from_aliases_target(
    counts: Map<Seq<char>, u64>,
    target: Seq<char>,
    names: Seq<PyAlias>,
    kept: Seq<PyAlias>,
    added: Set<Seq<char>>,
) -> (Seq<PyAlias>, Set<Seq<char>>)
    decreases names.len(),
{
    if names.len() == 0 {
        (kept, added)
    } else {
        let (k1, a1) = kept_from_aliases_target(counts, target, names.drop_last(), kept, added);
        let a = names.last();
        if !a1.contains(a.bound_name()) && (a.name@ == "*"@ || has_refs(
            counts,
            target + seq!['.'] + a.name@,
        )) {
            (k1 + seq![a], a1.insert(a.bound_name()))
        } else {
            (k1, a1)
        }
    }
}

/// The alias passes folded over every resolved target module.
pub open spec fn kept_from_aliases(
    counts: Map<Seq<char>, u64>,
    targets: Seq<Seq<char>>,
    names: Seq<PyAlias>,
    kept: Seq<PyAlias>,
    added: Set<Seq<char>>,
) -> (Seq<PyAlias>, Set<Seq<char>>)
    decreases targets.len(),
{
    if targets.len() == 0 {
        (kept, added)
    } else {
        let (k1, a1) = kept_from_aliases(counts, targets.drop_last(), names, kept, added);
        kept_from_aliases_target(counts, targets.last(), names, k1, a1)
    }
}

/// The greedily resolved targets of an `import from`, or none when the
/// statement is unresolvable.
pub open spec fn greedy_targets_of(
    from_module: Option<String>,
    names: Seq<PyAlias>,
    level: u32,
    parent: Seq<char>,
) -> Seq<Seq<char>> {
    match import_from_targets_of(from_module, names, level, parent, true) {
        Ok(t) => t,
        Err(_) => Seq::empty(),
    }
}

/// The aliases a kept `import from` statement retains.
pub open spec fn from_aliases_after(
    counts: Map<Seq<char>, u64>,
    from_module: Option<String>,
    names: Seq<PyAlias>,
    level: u32,
    parent: Seq<char>,
) -> Seq<PyAlias> {
    kept_from_aliases(
        counts,
        greedy_targets_of(from_module, names, level, parent),
        names,
        Seq::empty(),
        Set::empty(),
    ).0
}

/// Whether pruning keeps the statement at all: a non-prunable kind
/// always stays; a prunable one stays when its query finds a reference
/// and its required sub-list does not prune to empty.
pub open spec fn prune_stmt_keeps(
    counts: Map<Seq<char>, u64>,
    module: Seq<char>,
    parent: Seq<char>,
    ctx: Seq<char>,
    stmt: PyStmt,
) -> bool
    decreases stmt, 1int,
{
    if !prunable(stmt.kind) {
        true
    } else if !rm_keeps(counts, module, parent, ctx, stmt.kind) {
        false
    } else {
        match stmt.kind {
            PyStmtKind::Import { names } => kept_import_aliases(counts, names@).len() > 0,
            PyStmtKind::ImportFrom { module: from_module, names, level } => from_aliases_after(
                counts,
                from_module,
                names@,
                level,
                parent,
            ).len() > 0,
            PyStmtKind::ClassDef { name, decorators, bases, keywords, class_body } => prune_body_len(
                counts,
                module,
                parent,
                scope_qualified(ctx, name@),
                class_body@,
            ) > 0,
            PyStmtKind::FunctionDef { name, decorators, params, body } => prune_body_len(
                counts,
                module,
                parent,
                scope_qualified(ctx, name@),
                body@,
            ) > 0,
            _ => true,
        }
    }
}

/// How many statements pruning a list keeps.
pub open spec fn prune_body_len(
    counts: Map<Seq<char>, u64>,
    module: Seq<char>,
    parent: Seq<char>,
    ctx: Seq<char>,
    body: Seq<PyStmt>,
) -> nat
    decreases body, 0int,
{
    if body.len() == 0 {
        0
    } else {
        prune_body_len(counts, module, parent, ctx, body.drop_last()) + if prune_stmt_keeps(
            counts,
            module,
            parent,
            ctx,
            body.last(),
        ) {
            1nat
        } else {
            0nat
        }
    }
}

/// How many deletions pruning one statement reports: one for the
/// statement itself when it goes, plus everything deleted inside the
/// nested bodies it descends into.
pub open spec fn prune_stmt_count(
    counts: Map<Seq<char>, u64>,
    module: Seq<char>,
    parent: Seq<char>,
    ctx: Seq<char>,
    stmt: PyStmt,
) -> nat
    decreases stmt, 1int,
{
    if !prunable(stmt.kind) {
        match stmt.kind {
            PyStmtKind::If { test, then_body, else_body } => prune_body_count(
                counts,
                module,
                parent,
                ctx,
                then_body@,
            ) + prune_body_count(counts, module, parent, ctx, else_body@),
            PyStmtKind::For { target, iter, loop_body, loop_else } => prune_body_count(
                counts,
                module,
                parent,
                ctx,
                loop_body@,
            ) + prune_body_count(counts, module, parent, ctx, loop_else@),
            PyStmtKind::Other { values, nested } => prune_body_count(
                counts,
                module,
                parent,
                ctx,
                nested@,
            ),
            _ => 0,
        }
    } else if !rm_keeps(counts, module, parent, ctx, stmt.kind) {
        1
    } else {
        match stmt.kind {
            PyStmtKind::Import { names } => {
                if kept_import_aliases(counts, names@).len() == 0 {
                    1nat
                } else {
                    0nat
                }
            },
            PyStmtKind::ImportFrom { module: from_module, names, level } => {
                if from_aliases_after(counts, from_module, names@, level, parent).len() == 0 {
                    1nat
                } else {
                    0nat
                }
            },
            PyStmtKind::ClassDef { name, decorators, bases, keywords, class_body } => {
                let inner = prune_body_count(
                    counts,
                    module,
                    parent,
                    scope_qualified(ctx, name@),
                    class_body@,
                );
                if prune_body_len(counts, module, parent, scope_qualified(ctx, name@), class_body@)
                    == 0 {
                    inner + 1
                } else {
                    inner
                }
            },
            PyStmtKind::FunctionDef { name, decorators, params, body } => {
                let inner = prune_body_count(
                    counts,
                    module,
                    parent,
                    scope_qualified(ctx, name@),
                    body@,
                );
                if prune_body_len(counts, module, parent, scope_qualified(ctx, name@), body@)
                    == 0 {
                    inner + 1
                } else {
                    inner
                }
            },
            _ => 0,
        }
    }
}

/// Deletions reported while pruning a list.
pub open spec fn prune_body_count(
    counts: Map<Seq<char>, u64>,
    module: Seq<char>,
    parent: Seq<char>,
    ctx: Seq<char>,
    body: Seq<PyStmt>,
) -> nat
    decreases body, 0int,
{
    if body.len() == 0 {
        0
    } else {
        prune_body_count(counts, module, parent, ctx, body.drop_last()) + prune_stmt_count(
            counts,
            module,
            parent,
            ctx,
            body.last(),
        )
    }
}

/// Relates a kept statement to its pruned form: identity everywhere but
/// in nested statement lists and import alias lists.
pub open spec fn prune_stmt_rel(
    counts: Map<Seq<char>, u64>,
    module: Seq<char>,
    parent: Seq<char>,
    ctx: Seq<char>,
    stmt: PyStmt,
    out: PyStmt,
) -> bool
    decreases stmt, 1int,
{
    &&& out.id == stmt.id
    &&& if !prunable(stmt.kind) {
        match stmt.kind {
            PyStmtKind::If { test, then_body, else_body } => {
                &&& out.kind matches PyStmtKind::If {
                    test: t2,
                    then_body: tb2,
                    else_body: eb2,
                } && t2 == test && prune_body_rel(counts, module, parent, ctx, then_body@, tb2@)
                    && prune_body_rel(counts, module, parent, ctx, else_body@, eb2@)
            },
            PyStmtKind::For { target, iter, loop_body, loop_else } => {
                &&& out.kind matches PyStmtKind::For {
                    target: t2,
                    iter: i2,
                    loop_body: lb2,
                    loop_else: le2,
                } && t2 == target && i2 == iter && prune_body_rel(
                    counts,
                    module,
                    parent,
                    ctx,
                    loop_body@,
                    lb2@,
                ) && prune_body_rel(counts, module, parent, ctx, loop_else@, le2@)
            },
            PyStmtKind::Other { values, nested } => {
                &&& out.kind matches PyStmtKind::Other { values: v2, nested: n2 } && v2 == values
                    && prune_body_rel(counts, module, parent, ctx, nested@, n2@)
            },
            _ => out.kind == stmt.kind,
        }
    } else {
        match stmt.kind {
            PyStmtKind::Import { names } => {
                out.kind matches PyStmtKind::Import { names: n2 } && n2@ == kept_import_aliases(
                    counts,
                    names@,
                )
            },
            PyStmtKind::ImportFrom { module: from_module, names, level } => {
                out.kind matches PyStmtKind::ImportFrom {
                    module: m2,
                    names: n2,
                    level: l2,
                } && m2 == from_module && l2 == level && n2@ == from_aliases_after(
                    counts,
                    from_module,
                    names@,
                    level,
                    parent,
                )
            },
            PyStmtKind::ClassDef { name, decorators, bases, keywords, class_body } => {
                out.kind matches PyStmtKind::ClassDef {
                    name: nm2,
                    decorators: d2,
                    bases: b2,
                    keywords: k2,
                    class_body: cb2,
                } && nm2 == name && d2 == decorators && b2 == bases && k2 == keywords
                    && prune_body_rel(
                    counts,
                    module,
                    parent,
                    scope_qualified(ctx, name@),
                    class_body@,
                    cb2@,
                )
            },
            PyStmtKind::FunctionDef { name, decorators, params, body } => {
                out.kind matches PyStmtKind::FunctionDef {
                    name: nm2,
                    decorators: d2,
                    params: p2,
                    body: b2,
                } && nm2 == name && d2 == decorators && p2 == params && prune_body_rel(
                    counts,
                    module,
                    parent,
                    scope_qualified(ctx, name@),
                    body@,
                    b2@,
                )
            },
            _ => out.kind == stmt.kind,
        }
    }
}

/// Relates a statement list to its pruned form: kept statements appear
/// pruned, in order; deleted statements leave no trace.
pub open spec fn prune_body_rel(
    counts: Map<Seq<char>, u64>,
    module: Seq<char>,
    parent: Seq<char>,
    ctx: Seq<char>,
    body: Seq<PyStmt>,
    out: Seq<PyStmt>,
) -> bool
    decreases body, 2int,
{
    if body.len() == 0 {
        out.len() == 0
    } else {
        if prune_stmt_keeps(counts, module, parent, ctx, body.last()) {
            &&& out.len() >= 1
            &&& prune_stmt_rel(counts, module, parent, ctx, body.last(), out.last())
            &&& prune_body_rel(counts, module, parent, ctx, body.drop_last(), out.drop_last())
        } else {
            prune_body_rel(counts, module, parent, ctx, body.drop_last(), out)
        }
    }
}

/// With empty alias and star tables, candidate resolution reduces to
/// the module-qualified fallback, name by name.
pub proof fn lemma_empty_resolution(p: FullyQualifiedNameProvider, ns: Seq<Seq<char>>)
    requires
        p.imports_provider.active_imports.pairs() == Seq::<(Seq<char>, Seq<char>)>::empty(),
        p.imports_provider.active_star_imports.items_seq() == Seq::<Seq<char>>::empty(),
    ensures
        p.candidates_of_each(ns) == plain_candidates(p.module_spec@, ns),
    decreases ns.len(),
{
    if ns.len() > 0 {
        lemma_empty_resolution(p, ns.drop_last());
        assert(p.candidates(ns.last()) =~= seq![p.module_spec@ + seq!['.'] + ns.last()]);
        assert(p.candidates_of_each(ns) =~= plain_candidates(p.module_spec@, ns));
    } else {
        assert(p.candidates_of_each(ns) =~= plain_candidates(p.module_spec@, ns));
    }
}

/// With empty tables, the provider's statement names are the remover's.
pub proof fn lemma_rm_stmt_fqns(p: FullyQualifiedNameProvider, kind: PyStmtKind)
    requires
        p.imports_provider.active_imports.pairs() == Seq::<(Seq<char>, Seq<char>)>::empty(),
        p.imports_provider.active_star_imports.items_seq() == Seq::<Seq<char>>::empty(),
    ensures
        p.stmt_fqns(kind) == rm_stmt_fqns(p.module_spec@, p.parent_package@, p.name_context@, kind),
{
    match kind {
        PyStmtKind::Import { .. } | PyStmtKind::ImportFrom { .. } => {},
        _ => {
            lemma_empty_resolution(
                p,
                stmt_qualified_names(kind, p.parent_package@, p.name_context@),
            );
        },
    }
}

/// `a + b`, capped at the largest representable count.
pub open spec fn sat_add(a: u64, b: nat) -> u64 {
    if a + b >= u64::MAX {
        u64::MAX
    } else {
        (a + b) as u64
    }
}

/// What happens to a module file after pruning.
#[derive(Debug, PartialEq, Eq, Structural, Clone, Copy)]
pub enum FileAction {
    /// The pruned source is written back.
    WriteSource,
    /// A sole surviving package marker is kept as an empty file.
    WriteEmpty,
    /// The file is deleted; other files keep the directory alive.
    DeleteFile,
    /// The file is deleted and its now-empty directory removed.
    DeleteFileAndDirectory,
}

/// The file decision after a module was pruned: non-empty output is
/// written back; an empty `__init__`-equivalent that is the only file
/// left in its directory survives as an empty package marker; any other
/// empty result is deleted, and the directory goes with it when the
/// file was its last entry.
pub open spec fn file_action_of(
    source_len: nat,
    body_len: nat,
    is_package_marker: bool,
    dir_entries: nat,
) -> FileAction {
    if source_len > 0 && body_len > 0 {
        FileAction::WriteSource
    } else if is_package_marker && dir_entries == 1 {
        FileAction::WriteEmpty
    } else if dir_entries == 1 {
        FileAction::DeleteFileAndDirectory
    } else {
        FileAction::DeleteFile
    }
}

/// Decides what to do with the module file, from the pruned source
/// length, the pruned body length, whether the file is the package's
/// `__init__`-equivalent, and how many entries its directory holds
/// (this file included).
pub fn decide_file_action(
    source_len: usize,
    body_len: usize,
    is_package_marker: bool,
    dir_entries: usize,
) -> (r: FileAction)
    ensures
        r == file_action_of(source_len as nat, body_len as nat, is_package_marker, dir_entries as nat),
{
    if source_len > 0 && body_len > 0 {
        FileAction::WriteSource
    } else if is_package_marker && dir_entries == 1 {
        FileAction::WriteEmpty
    } else if dir_entries == 1 {
        FileAction::DeleteFileAndDirectory
    } else {
        FileAction::DeleteFile
    }
}

/// Consumes the stable reference table and prunes statements that have
/// no references left.
pub struct NodesRemover {
    pub references_counts: CountTable,
    pub module_spec: String,
    pub source_path: String,
    pub names_provider: FullyQualifiedNameProvider,
    pub statements_removed: u64,
}

impl NodesRemover {
    pub open spec fn wf(&self) -> bool {
        &&& self.references_counts.wf()
        &&& self.names_provider.wf()
        &&& self.names_provider.imports_provider.active_imports.pairs() == Seq::<
            (Seq<char>, Seq<char>),
        >::empty()
        &&& self.names_provider.imports_provider.active_star_imports.items_seq() == Seq::<
            Seq<char>,
        >::empty()
        &&& self.names_provider.parent_package@ == parent_package_context(
            self.names_provider.imports_provider.module_spec@,
            self.names_provider.imports_provider.source_path@,
        )
    }

    /// The module prefix the remover qualifies plain names with.
    pub open spec fn module_view(&self) -> Seq<char> {
        self.names_provider.module_spec@
    }

    /// The parent-package context import statements resolve against.
    pub open spec fn parent_view(&self) -> Seq<char> {
        self.names_provider.parent_package@
    }

    /// The current scope prefix.
    pub open spec fn ctx_view(&self) -> Seq<char> {
        self.names_provider.name_context@
    }

    /// Builds a remover over the final reference table. Known modules
    /// with any referenced member are seeded as referenced themselves,
    /// so their defining files survive.
    #[verifier::loop_isolation(false)]
    pub fn new(references_counts: CountTable, known_modules: &StrSet) -> (r: Self)
        requires
            references_counts.wf(),
            known_modules.wf(),
        ensures
            r.wf(),
            r.statements_removed == 0,
            forall|i: int|
                0 <= i < known_modules.items_seq().len() ==> (module_has_refs(
                    references_counts@,
                    #[trigger] known_modules.items_seq()[i],
                ) ==> r.references_counts@.contains_key(known_modules.items_seq()[i])
                    && r.references_counts@[known_modules.items_seq()[i]] == 1),
            forall|k: Seq<char>|
                references_counts@.contains_key(k) ==> r.references_counts@.contains_key(k),
            forall|k: Seq<char>|
                #[trigger] r.references_counts@.contains_key(k)
                    ==> references_counts@.contains_key(k) || (exists|i: int|
                    0 <= i < known_modules.items_seq().len() && #[trigger] known_modules
                        .items_seq()[i] == k && module_has_refs(references_counts@, k)),
            forall|k: Seq<char>|
                #[trigger] references_counts@.contains_key(k) && !(exists|i: int|
                    0 <= i < known_modules.items_seq().len() && #[trigger] known_modules
                        .items_seq()[i] == k && module_has_refs(references_counts@, k))
                    ==> r.references_counts@[k] == references_counts@[k],
    {
        let mut counts = references_counts;
        let ghost initial = counts@;
        let mut to_seed: Vec<String> = Vec::new();
        let mut mi: usize = 0;
        while mi < known_modules.len()
            invariant
                mi <= known_modules.items_seq().len(),
                forall|i: int|
                    0 <= i < mi ==> (module_has_refs(
                        initial,
                        #[trigger] known_modules.items_seq()[i],
                    ) ==> to_seed.deep_view().contains(known_modules.items_seq()[i])),
                forall|j: int|
                    0 <= j < to_seed.deep_view().len() ==> exists|i: int|
                        0 <= i < known_modules.items_seq().len() && #[trigger] known_modules
                            .items_seq()[i] == #[trigger] to_seed.deep_view()[j]
                            && module_has_refs(initial, to_seed.deep_view()[j]),
            decreases known_modules.items_seq().len() - mi,
        {
            let known_module = known_modules.item_at(mi);
            let n = counts.len();
            let mut found: bool = false;
            let mut ri: usize = 0;
            while ri < n
                invariant
                    ri <= n,
                    found ==> module_has_refs(initial, known_modules.items_seq()[mi as int]),
                    !found ==> forall|j: int|
                        0 <= j < ri ==> !(known_modules.items_seq()[mi as int].is_prefix_of(
                            #[trigger] counts.pairs()[j].0,
                        ) && counts.pairs()[j].1 > 0),
                decreases n - ri,
            {
                let key = counts.key_at(ri);
                let value = counts.count_at(ri);
                if value > 0 && str_starts_with(key.as_str(), known_module.as_str()) {
                    proof {
                        counts.lemma_pair_in_view(ri as int);
                    }
                    found = true;
                }
                ri += 1;
            }
            if found {
                let ghost old_seed = to_seed.deep_view();
                to_seed.push(String::from_str(known_module.as_str()));
                proof {
                    assert(to_seed.deep_view() =~~= old_seed.push(known_modules.items_seq()[
                        mi as int
                    ]));
                    assert(to_seed.deep_view().last() == known_modules.items_seq()[mi as int]);
                    assert forall|i: int|
                        0 <= i < mi + 1 && module_has_refs(
                            initial,
                            #[trigger] known_modules.items_seq()[i],
                        ) implies to_seed.deep_view().contains(
                        known_modules.items_seq()[i],
                    ) by {
                        if i < mi {
                            let w = choose|w: int|
                                0 <= w < old_seed.len() && old_seed[w]
                                    == known_modules.items_seq()[i];
                            assert(to_seed.deep_view()[w] == known_modules.items_seq()[i]);
                        } else {
                            assert(to_seed.deep_view()[to_seed.deep_view().len() - 1]
                                == known_modules.items_seq()[i]);
                        }
                    }
                }
            } else {
                proof {
                    if module_has_refs(initial, known_modules.items_seq()[mi as int]) {
                        let k = choose|k: Seq<char>|
                            initial.contains_key(k) && known_modules.items_seq()[
                                mi as int
                            ].is_prefix_of(k) && #[trigger] initial[k] > 0;
                        counts.lemma_key_listed(k);
                        let j = choose|j: int|
                            0 <= j < counts.size() && counts.pairs()[j].0 == k;
                        counts.lemma_pair_in_view(j);
                    }
                }
            }
            mi += 1;
        }
        let ghost seeds = to_seed.deep_view();
        let mut si: usize = 0;
        while si < to_seed.len()
            invariant
                si <= to_seed.len(),
                counts.wf(),
                forall|k: Seq<char>| initial.contains_key(k) ==> counts@.contains_key(k),
                forall|j: int|
                    0 <= j < si ==> counts@.contains_key(#[trigger] seeds[j]) && counts@[seeds[j]]
                        == 1,
                forall|k: Seq<char>|
                    #[trigger] counts@.contains_key(k) ==> initial.contains_key(k) || (exists|
                        j: int,
                    |
                        0 <= j < si && #[trigger] seeds[j] == k),
                forall|k: Seq<char>|
                    #[trigger] initial.contains_key(k) && (forall|j: int|
                        0 <= j < si ==> #[trigger] seeds[j] != k) ==> counts@[k] == initial[k],
            decreases to_seed.len() - si,
        {
            let ghost prev = counts@;
            counts.insert(to_seed[si].clone(), 1);
            proof {
                assert forall|k: Seq<char>|
                    #[trigger] counts@.contains_key(k) implies initial.contains_key(k) || (exists|
                    j: int,
                |
                    0 <= j < si + 1 && #[trigger] seeds[j] == k) by {
                    if k != seeds[si as int] {
                        assert(prev.contains_key(k));
                    }
                }
                assert forall|k: Seq<char>|
                    #[trigger] initial.contains_key(k) && (forall|j: int|
                        0 <= j < si + 1 ==> #[trigger] seeds[j] != k) implies counts@[k]
                    == initial[k] by {
                    assert(seeds[si as int] != k);
                    assert(prev[k] == initial[k]);
                }
            }
            si += 1;
        }
        proof {
            assert forall|i: int|
                0 <= i < known_modules.items_seq().len() && module_has_refs(
                    initial,
                    #[trigger] known_modules.items_seq()[i],
                ) implies counts@.contains_key(known_modules.items_seq()[i]) && counts@[
                known_modules.items_seq()[i]
            ] == 1 by {
                let w = choose|w: int|
                    0 <= w < seeds.len() && seeds[w] == known_modules.items_seq()[i];
                assert(counts@.contains_key(seeds[w]) && counts@[seeds[w]] == 1);
            }
            assert forall|k: Seq<char>|
                #[trigger] initial.contains_key(k) && !(exists|i: int|
                    0 <= i < known_modules.items_seq().len() && #[trigger] known_modules
                        .items_seq()[i] == k && module_has_refs(initial, k)) implies counts@[k]
                == initial[k] by {
                assert forall|j: int| 0 <= j < seeds.len() implies #[trigger] seeds[j] != k by {
                    if seeds[j] == k {
                        let i = choose|i: int|
                            0 <= i < known_modules.items_seq().len() && #[trigger] known_modules
                                .items_seq()[i] == seeds[j] && module_has_refs(initial, seeds[j]);
                    }
                }
            }
        }
        NodesRemover {
            references_counts: counts,
            module_spec: String::new(),
            source_path: String::new(),
            names_provider: FullyQualifiedNameProvider::new("", ""),
            statements_removed: 0,
        }
    }

    /// Whether `fqn` is referenced; an absent name counts as zero.
    pub fn has_references_for_str(&self, fqn: &str) -> (r: bool)
        requires
            self.wf(),
        ensures
            r == has_refs(self.references_counts@, fqn@),
    {
        match self.references_counts.get(fqn) {
            Some(c) => c > 0,
            None => false,
        }
    }

    /// Whether any name of `ns` is referenced.
    fn any_has_refs(&self, ns: &Vec<String>) -> (r: bool)
        requires
            self.wf(),
        ensures
            r == seq_any_has_refs(self.references_counts@, ns.deep_view()),
    {
        let mut i: usize = 0;
        while i < ns.len()
            invariant
                self.wf(),
                i <= ns.len(),
                forall|j: int|
                    0 <= j < i ==> !has_refs(self.references_counts@, #[trigger] ns.deep_view()[j]),
            decreases ns.len() - i,
        {
            if self.has_references_for_str(ns[i].as_str()) {
                proof {
                    assert(has_refs(self.references_counts@, ns.deep_view()[i as int]));
                }
                return true;
            }
            i += 1;
        }
        false
    }

    /// Whether the statement's liveness query finds a reference.
    pub fn has_references_for_stmt(&self, stmt: &PyStmt) -> (r: bool)
        requires
            self.wf(),
        ensures
            r == rm_keeps(
                self.references_counts@,
                self.module_view(),
                self.parent_view(),
                self.ctx_view(),
                stmt.kind,
            ),
    {
        match &stmt.kind {
            PyStmtKind::ImportFrom { module, names, level } => {
                proof {
                    reveal_strlit("*");
                }
                if names.len() == 1 && str_eq(names[0].name.as_str(), "*") {
                    let parent = self.names_provider.get_imports_provider().get_parent_package();
                    match get_import_from_absolute_module_spec(
                        module,
                        names,
                        *level,
                        parent.as_str(),
                        true,
                    ) {
                        Ok(targets) => self.any_has_refs(&targets),
                        Err(_) => {
                            proof {
                                assert(rm_query_names(
                                    self.module_view(),
                                    self.parent_view(),
                                    self.ctx_view(),
                                    stmt.kind,
                                ) =~~= Seq::<Seq<char>>::empty());
                            }
                            false
                        },
                    }
                } else {
                    let fqns = self.names_provider.get_stmt_fully_qualified_name(stmt);
                    proof {
                        lemma_rm_stmt_fqns(self.names_provider, stmt.kind);
                    }
                    self.any_has_refs(&fqns)
                }
            },
            _ => {
                let fqns = self.names_provider.get_stmt_fully_qualified_name(stmt);
                proof {
                    lemma_rm_stmt_fqns(self.names_provider, stmt.kind);
                }
                self.any_has_refs(&fqns)
            },
        }
    }

    /// Records one more deleted statement, saturating at the cap.
    fn bump_removed(&mut self)
        ensures
            final(self).statements_removed == sat_add(old(self).statements_removed, 1),
            final(self).references_counts == old(self).references_counts,
            final(self).names_provider == old(self).names_provider,
            final(self).module_spec == old(self).module_spec,
            final(self).source_path == old(self).source_path,
    {
        if self.statements_removed < u64::MAX {
            self.statements_removed = self.statements_removed + 1;
        }
    }

    /// The aliases of a plain `import` whose names keep references.
    #[verifier::loop_isolation(false)]
    fn filter_import_aliases(&self, names: &Vec<PyAlias>) -> (r: Vec<PyAlias>)
        requires
            self.wf(),
        ensures
            r@ == kept_import_aliases(self.references_counts@, names@),
    {
        let mut kept: Vec<PyAlias> = Vec::new();
        let mut i: usize = 0;
        while i < names.len()
            invariant
                i <= names.len(),
                kept@ == kept_import_aliases(self.references_counts@, names@.take(i as int)),
            decreases names.len() - i,
        {
            proof {
                assert(names@.take(i + 1).drop_last() =~= names@.take(i as int));
                assert(names@.take(i + 1).last() == names@[i as int]);
            }
            if self.has_references_for_str(names[i].name.as_str()) {
                kept.push(names[i].duplicate());
            }
            proof {
                assert(kept@ =~= kept_import_aliases(self.references_counts@, names@.take(i + 1)));
            }
            i += 1;
        }
        proof {
            assert(names@.take(names@.len() as int) =~= names@);
        }
        kept
    }

    /// The aliases of an `import from` that stay: wildcards, and names
    /// referenced under some resolved target, each bound name once.
    #[verifier::loop_isolation(false)]
    fn filter_from_aliases(
        &self,
        from_module: &Option<String>,
        names: &Vec<PyAlias>,
        level: u32,
    ) -> (r: Vec<PyAlias>)
        requires
            self.wf(),
        ensures
            r@ == from_aliases_after(
                self.references_counts@,
                *from_module,
                names@,
                level,
                self.parent_view(),
            ),
    {
        proof {
            reveal_strlit("*");
        }
        let parent = self.names_provider.get_imports_provider().get_parent_package();
        let targets = match get_import_from_absolute_module_spec(
            from_module,
            names,
            level,
            parent.as_str(),
            true,
        ) {
            Ok(t) => t,
            Err(_) => Vec::new(),
        };
        let ghost tviews = targets.deep_view();
        proof {
            assert(tviews =~~= greedy_targets_of(*from_module, names@, level, self.parent_view()));
        }
        let mut kept: Vec<PyAlias> = Vec::new();
        let mut added = StrSet::new();
        let mut ti: usize = 0;
        while ti < targets.len()
            invariant
                ti <= targets.len(),
                tviews == targets.deep_view(),
                added.wf(),
                (kept@, added@) == kept_from_aliases(
                    self.references_counts@,
                    tviews.take(ti as int),
                    names@,
                    Seq::<PyAlias>::empty(),
                    Set::<Seq<char>>::empty(),
                ),
            decreases targets.len() - ti,
        {
            proof {
                assert(tviews.take(ti + 1).drop_last() =~= tviews.take(ti as int));
                assert(tviews.take(ti + 1).last() == tviews[ti as int]);
            }
            let ghost k0 = kept@;
            let ghost a0 = added@;
            let mut j: usize = 0;
            while j < names.len()
                invariant
                    j <= names.len(),
                    ti < targets.len(),
                    tviews == targets.deep_view(),
                    added.wf(),
                    (kept@, added@) == kept_from_aliases_target(
                        self.references_counts@,
                        tviews[ti as int],
                        names@.take(j as int),
                        k0,
                        a0,
                    ),
                decreases names.len() - j,
            {
                proof {
                    assert(names@.take(j + 1).drop_last() =~= names@.take(j as int));
                    assert(names@.take(j + 1).last() == names@[j as int]);
                }
                let bound = match &names[j].asname {
                    Some(a) => a.clone(),
                    None => names[j].name.clone(),
                };
                if !added.contains(bound.as_str()) {
                    let is_star = str_eq(names[j].name.as_str(), "*");
                    let qualified = concat_dot(targets[ti].as_str(), names[j].name.as_str());
                    if is_star || self.has_references_for_str(qualified.as_str()) {
                        kept.push(names[j].duplicate());
                        added.insert(bound);
                    }
                }
                j += 1;
            }
            proof {
                assert(names@.take(names@.len() as int) =~= names@);
            }
            ti += 1;
        }
        proof {
            assert(tviews.take(tviews.len() as int) =~= tviews);
        }
        kept
    }

    /// Saturating additions compose.
    pub proof fn lemma_sat_add_assoc(a: u64, x: nat, y: nat)
        ensures
            sat_add(sat_add(a, x), y) == sat_add(a, x + y),
    {
    }

    /// Prunes one statement: a non-prunable statement keeps its shape
    /// with pruned nested bodies; a prunable statement without
    /// references is deleted, a kept one has its alias lists and bodies
    /// pruned, and is deleted after all when nothing inside survives.
    #[verifier::loop_isolation(false)]
    pub fn visit_stmt(&mut self, stmt: PyStmt) -> (r: Option<PyStmt>)
        requires
            old(self).wf(),
        ensures
            final(self).wf(),
            final(self).references_counts == old(self).references_counts,
            final(self).names_provider.name_context@ == old(self).names_provider.name_context@,
            final(self).names_provider.module_spec@ == old(self).names_provider.module_spec@,
            final(self).names_provider.parent_package@ == old(
                self,
            ).names_provider.parent_package@,
            final(self).names_provider.imports_provider.module_spec@ == old(
                self,
            ).names_provider.imports_provider.module_spec@,
            final(self).names_provider.imports_provider.source_path@ == old(
                self,
            ).names_provider.imports_provider.source_path@,
            final(self).module_spec == old(self).module_spec,
            final(self).source_path == old(self).source_path,
            r is Some <==> prune_stmt_keeps(
                old(self).references_counts@,
                old(self).module_view(),
                old(self).parent_view(),
                old(self).ctx_view(),
                stmt,
            ),
            r matches Some(o) ==> prune_stmt_rel(
                old(self).references_counts@,
                old(self).module_view(),
                old(self).parent_view(),
                old(self).ctx_view(),
                stmt,
                o,
            ),
            final(self).statements_removed == sat_add(
                old(self).statements_removed,
                prune_stmt_count(
                    old(self).references_counts@,
                    old(self).module_view(),
                    old(self).parent_view(),
                    old(self).ctx_view(),
                    stmt,
                ),
            ),
        decreases stmt, 1int,
    {
        let is_prunable = match &stmt.kind {
            PyStmtKind::ClassDef { .. } | PyStmtKind::FunctionDef { .. } | PyStmtKind::AnnAssign {
                ..
            } | PyStmtKind::AugAssign { .. } | PyStmtKind::Assign { .. } | PyStmtKind::Import {
                ..
            } | PyStmtKind::ImportFrom { .. } => true,
            _ => false,
        };
        let ghost gstmt = stmt;
        if !is_prunable {
            let PyStmt { id, kind } = stmt;
            match kind {
                PyStmtKind::If { test, then_body, else_body } => {
                    proof {
                        assert(decreases_to!(gstmt => gstmt.kind));
                        assert(decreases_to!(gstmt.kind => gstmt.kind->then_body));
                        assert(decreases_to!(gstmt.kind->then_body => then_body@));
                        assert(decreases_to!(gstmt => then_body@));
                        assert(decreases_to!(gstmt.kind => gstmt.kind->else_body));
                        assert(decreases_to!(gstmt.kind->else_body => else_body@));
                        assert(decreases_to!(gstmt => else_body@));
                    }
                    let ghost mid0 = *self;
                    let new_then = self.visit_body(then_body, Ghost(gstmt));
                    let new_else = self.visit_body(else_body, Ghost(gstmt));
                    proof {
                        Self::lemma_sat_add_assoc(
                            old(self).statements_removed,
                            prune_body_count(
                                old(self).references_counts@,
                                old(self).module_view(),
                                old(self).parent_view(),
                                old(self).ctx_view(),
                                gstmt.kind->then_body@,
                            ),
                            prune_body_count(
                                old(self).references_counts@,
                                old(self).module_view(),
                                old(self).parent_view(),
                                old(self).ctx_view(),
                                gstmt.kind->else_body@,
                            ),
                        );
                    }
                    Some(
                        PyStmt {
                            id,
                            kind: PyStmtKind::If {
                                test,
                                then_body: new_then,
                                else_body: new_else,
                            },
                        },
                    )
                },
                PyStmtKind::For { target, iter, loop_body, loop_else } => {
                    proof {
                        assert(decreases_to!(gstmt => gstmt.kind));
                        assert(decreases_to!(gstmt.kind => gstmt.kind->loop_body));
                        assert(decreases_to!(gstmt.kind->loop_body => loop_body@));
                        assert(decreases_to!(gstmt => loop_body@));
                        assert(decreases_to!(gstmt.kind => gstmt.kind->loop_else));
                        assert(decreases_to!(gstmt.kind->loop_else => loop_else@));
                        assert(decreases_to!(gstmt => loop_else@));
                    }
                    let new_body = self.visit_body(loop_body, Ghost(gstmt));
                    let new_else = self.visit_body(loop_else, Ghost(gstmt));
                    proof {
                        Self::lemma_sat_add_assoc(
                            old(self).statements_removed,
                            prune_body_count(
                                old(self).references_counts@,
                                old(self).module_view(),
                                old(self).parent_view(),
                                old(self).ctx_view(),
                                gstmt.kind->loop_body@,
                            ),
                            prune_body_count(
                                old(self).references_counts@,
                                old(self).module_view(),
                                old(self).parent_view(),
                                old(self).ctx_view(),
                                gstmt.kind->loop_else@,
                            ),
                        );
                    }
                    Some(
                        PyStmt {
                            id,
                            kind: PyStmtKind::For {
                                target,
                                iter,
                                loop_body: new_body,
                                loop_else: new_else,
                            },
                        },
                    )
                },
                PyStmtKind::Other { values, nested } => {
                    proof {
                        assert(decreases_to!(gstmt => gstmt.kind));
                        assert(decreases_to!(gstmt.kind => gstmt.kind->nested));
                        assert(decreases_to!(gstmt.kind->nested => nested@));
                        assert(decreases_to!(gstmt => nested@));
                    }
                    let new_nested = self.visit_body(nested, Ghost(gstmt));
                    Some(PyStmt { id, kind: PyStmtKind::Other { values, nested: new_nested } })
                },
                k => Some(PyStmt { id, kind: k }),
            }
        } else if !self.has_references_for_stmt(&stmt) {
            self.bump_removed();
            None
        } else {
            let scope = self.names_provider.enter_scope(&stmt);
            let PyStmt { id, kind } = stmt;
            let result: Option<PyStmt> = match kind {
                PyStmtKind::Import { names } => {
                    let kept = self.filter_import_aliases(&names);
                    if kept.len() == 0 {
                        None
                    } else {
                        Some(PyStmt { id, kind: PyStmtKind::Import { names: kept } })
                    }
                },
                PyStmtKind::ImportFrom { module, names, level } => {
                    let kept = self.filter_from_aliases(&module, &names, level);
                    if kept.len() == 0 {
                        None
                    } else {
                        Some(
                            PyStmt {
                                id,
                                kind: PyStmtKind::ImportFrom { module, names: kept, level },
                            },
                        )
                    }
                },
                PyStmtKind::ClassDef { name, decorators, bases, keywords, class_body } => {
                    proof {
                        assert(decreases_to!(gstmt => gstmt.kind));
                        assert(decreases_to!(gstmt.kind => gstmt.kind->class_body));
                        assert(decreases_to!(gstmt.kind->class_body => class_body@));
                        assert(decreases_to!(gstmt => class_body@));
                    }
                    let nb = self.visit_body(class_body, Ghost(gstmt));
                    if nb.len() == 0 {
                        None
                    } else {
                        Some(
                            PyStmt {
                                id,
                                kind: PyStmtKind::ClassDef {
                                    name,
                                    decorators,
                                    bases,
                                    keywords,
                                    class_body: nb,
                                },
                            },
                        )
                    }
                },
                PyStmtKind::FunctionDef { name, decorators, params, body } => {
                    proof {
                        assert(decreases_to!(gstmt => gstmt.kind));
                        assert(decreases_to!(gstmt.kind => gstmt.kind->body));
                        assert(decreases_to!(gstmt.kind->body => body@));
                        assert(decreases_to!(gstmt => body@));
                    }
                    let nb = self.visit_body(body, Ghost(gstmt));
                    if nb.len() == 0 {
                        None
                    } else {
                        Some(
                            PyStmt {
                                id,
                                kind: PyStmtKind::FunctionDef {
                                    name,
                                    decorators,
                                    params,
                                    body: nb,
                                },
                            },
                        )
                    }
                },
                k => Some(PyStmt { id, kind: k }),
            };
            self.names_provider.exit_scope(scope);
            match result {
                None => {
                    self.bump_removed();
                    proof {
                        Self::lemma_sat_add_assoc(
                            old(self).statements_removed,
                            (prune_stmt_count(
                                old(self).references_counts@,
                                old(self).module_view(),
                                old(self).parent_view(),
                                old(self).ctx_view(),
                                gstmt,
                            ) - 1) as nat,
                            1,
                        );
                    }
                    None
                },
                Some(s) => Some(s),
            }
        }
    }

    /// Prunes a statement list of `parent`, keeping order.
    #[verifier::loop_isolation(false)]
    pub fn visit_body(&mut self, body: Vec<PyStmt>, parent: Ghost<PyStmt>) -> (r: Vec<PyStmt>)
        requires
            old(self).wf(),
            decreases_to!(parent@ => body@),
        ensures
            final(self).wf(),
            final(self).references_counts == old(self).references_counts,
            final(self).names_provider.name_context@ == old(self).names_provider.name_context@,
            final(self).names_provider.module_spec@ == old(self).names_provider.module_spec@,
            final(self).names_provider.parent_package@ == old(
                self,
            ).names_provider.parent_package@,
            final(self).names_provider.imports_provider.module_spec@ == old(
                self,
            ).names_provider.imports_provider.module_spec@,
            final(self).names_provider.imports_provider.source_path@ == old(
                self,
            ).names_provider.imports_provider.source_path@,
            final(self).module_spec == old(self).module_spec,
            final(self).source_path == old(self).source_path,
            prune_body_rel(
                old(self).references_counts@,
                old(self).module_view(),
                old(self).parent_view(),
                old(self).ctx_view(),
                body@,
                r@,
            ),
            r@.len() == prune_body_len(
                old(self).references_counts@,
                old(self).module_view(),
                old(self).parent_view(),
                old(self).ctx_view(),
                body@,
            ),
            final(self).statements_removed == sat_add(
                old(self).statements_removed,
                prune_body_count(
                    old(self).references_counts@,
                    old(self).module_view(),
                    old(self).parent_view(),
                    old(self).ctx_view(),
                    body@,
                ),
            ),
        decreases parent@, 0int,
    {
        let ghost orig = body@;
        let mut input = body;
        let mut out: Vec<PyStmt> = Vec::new();
        let ghost state0 = *old(self);
        while input.len() > 0
            invariant
                self.wf(),
                self.references_counts == state0.references_counts,
                self.names_provider.name_context@ == state0.names_provider.name_context@,
                self.names_provider.module_spec@ == state0.names_provider.module_spec@,
                self.names_provider.parent_package@ == state0.names_provider.parent_package@,
                self.names_provider.imports_provider.module_spec@
                    == state0.names_provider.imports_provider.module_spec@,
                self.names_provider.imports_provider.source_path@
                    == state0.names_provider.imports_provider.source_path@,
                self.module_spec == state0.module_spec,
                self.source_path == state0.source_path,
                input@ =~= orig.skip(orig.len() - input@.len()),
                input@.len() <= orig.len(),
                prune_body_rel(
                    state0.references_counts@,
                    state0.module_view(),
                    state0.parent_view(),
                    state0.ctx_view(),
                    orig.take(orig.len() - input@.len()),
                    out@,
                ),
                out@.len() == prune_body_len(
                    state0.references_counts@,
                    state0.module_view(),
                    state0.parent_view(),
                    state0.ctx_view(),
                    orig.take(orig.len() - input@.len()),
                ),
                self.statements_removed == sat_add(
                    state0.statements_removed,
                    prune_body_count(
                        state0.references_counts@,
                        state0.module_view(),
                        state0.parent_view(),
                        state0.ctx_view(),
                        orig.take(orig.len() - input@.len()),
                    ),
                ),
            decreases input.len(),
        {
            let ghost k = orig.len() - input@.len();
            let s = input.remove(0);
            proof {
                assert(s == orig[k]);
                assert(input@ =~= orig.skip(k + 1));
                assert(orig.take(k + 1).drop_last() =~= orig.take(k));
                assert(orig.take(k + 1).last() == orig[k]);
                assert(decreases_to!(parent@ => orig[k]));
            }
            let ghost before = *self;
            let pruned = self.visit_stmt(s);
            proof {
                Self::lemma_sat_add_assoc(
                    state0.statements_removed,
                    prune_body_count(
                        state0.references_counts@,
                        state0.module_view(),
                        state0.parent_view(),
                        state0.ctx_view(),
                        orig.take(k),
                    ),
                    prune_stmt_count(
                        state0.references_counts@,
                        state0.module_view(),
                        state0.parent_view(),
                        state0.ctx_view(),
                        orig[k],
                    ),
                );
            }
            match pruned {
                Some(o) => {
                    let ghost old_out = out@;
                    out.push(o);
                    proof {
                        assert(out@.drop_last() =~= old_out);
                    }
                },
                None => {},
            }
        }
        proof {
            assert(orig.take(orig.len() - input@.len()) =~= orig);
        }
        out
    }

    /// Prunes one module body against the stable reference table,
    /// starting a fresh per-module scope context.
    pub fn process_module(
        &mut self,
        module_spec: &str,
        source_path: &str,
        body: Vec<PyStmt>,
    ) -> (r: Vec<PyStmt>)
        requires
            old(self).wf(),
        ensures
            final(self).wf(),
            final(self).references_counts == old(self).references_counts,
            final(self).module_spec@ == module_spec@,
            final(self).source_path@ == source_path@,
            prune_body_rel(
                old(self).references_counts@,
                module_spec@,
                parent_package_context(module_spec@, source_path@),
                Seq::<char>::empty(),
                body@,
                r@,
            ),
            r@.len() == prune_body_len(
                old(self).references_counts@,
                module_spec@,
                parent_package_context(module_spec@, source_path@),
                Seq::<char>::empty(),
                body@,
            ),
            final(self).statements_removed == sat_add(
                old(self).statements_removed,
                prune_body_count(
                    old(self).references_counts@,
                    module_spec@,
                    parent_package_context(module_spec@, source_path@),
                    Seq::<char>::empty(),
                    body@,
                ),
            ),
    {
        self.module_spec = String::from_str(module_spec);
        self.source_path = String::from_str(source_path);
        self.names_provider = FullyQualifiedNameProvider::new(module_spec, source_path);
        let ghost orig = body@;
        let ghost state0 = *self;
        let mut input = body;
        let mut out: Vec<PyStmt> = Vec::new();
        while input.len() > 0
            invariant
                self.wf(),
                self.references_counts == state0.references_counts,
                self.names_provider.name_context@ == state0.names_provider.name_context@,
                self.names_provider.module_spec@ == state0.names_provider.module_spec@,
                self.names_provider.parent_package@ == state0.names_provider.parent_package@,
                self.names_provider.imports_provider.module_spec@
                    == state0.names_provider.imports_provider.module_spec@,
                self.names_provider.imports_provider.source_path@
                    == state0.names_provider.imports_provider.source_path@,
                self.module_spec == state0.module_spec,
                self.source_path == state0.source_path,
                input@ =~= orig.skip(orig.len() - input@.len()),
                input@.len() <= orig.len(),
                prune_body_rel(
                    state0.references_counts@,
                    state0.module_view(),
                    state0.parent_view(),
                    state0.ctx_view(),
                    orig.take(orig.len() - input@.len()),
                    out@,
                ),
                out@.len() == prune_body_len(
                    state0.references_counts@,
                    state0.module_view(),
                    state0.parent_view(),
                    state0.ctx_view(),
                    orig.take(orig.len() - input@.len()),
                ),
                self.statements_removed == sat_add(
                    state0.statements_removed,
                    prune_body_count(
                        state0.references_counts@,
                        state0.module_view(),
                        state0.parent_view(),
                        state0.ctx_view(),
                        orig.take(orig.len() - input@.len()),
                    ),
                ),
                state0.module_view() == module_spec@,
                state0.parent_view() == parent_package_context(module_spec@, source_path@),
                state0.ctx_view() == Seq::<char>::empty(),
                state0.references_counts == old(self).references_counts,
                state0.module_spec@ == module_spec@,
                state0.source_path@ == source_path@,
            decreases input.len(),
        {
            let ghost k = orig.len() - input@.len();
            let s = input.remove(0);
            proof {
                assert(s == orig[k]);
                assert(input@ =~= orig.skip(k + 1));
                assert(orig.take(k + 1).drop_last() =~= orig.take(k));
                assert(orig.take(k + 1).last() == orig[k]);
            }
            let pruned = self.visit_stmt(s);
            proof {
                Self::lemma_sat_add_assoc(
                    state0.statements_removed,
                    prune_body_count(
                        state0.references_counts@,
                        state0.module_view(),
                        state0.parent_view(),
                        state0.ctx_view(),
                        orig.take(k),
                    ),
                    prune_stmt_count(
                        state0.references_counts@,
                        state0.module_view(),
                        state0.parent_view(),
                        state0.ctx_view(),
                        orig[k],
                    ),
                );
            }
            match pruned {
                Some(o) => {
                    let ghost old_out = out@;
                    out.push(o);
                    proof {
                        assert(out@.drop_last() =~= old_out);
                    }
                },
                None => {},
            }
        }
        proof {
            assert(orig.take(orig.len() - input@.len()) =~= orig);
        }
        out
    }

    /// How many statements this remover has deleted so far.
    pub fn get_statements_removed(&self) -> (r: u64)
        ensures
            r == self.statements_removed,
    {
        self.statements_removed
    }
}

/// Whether every `import from` statement in `stmt` (itself and its
/// nested bodies) binds exactly one alias.
pub open spec fn single_from_aliases_stmt(stmt: PyStmt) -> bool
    decreases stmt, 1int,
{
    match stmt.kind {
        PyStmtKind::ImportFrom { module, names, level } => names@.len() == 1,
        PyStmtKind::If { test, then_body, else_body } => single_from_aliases(then_body@)
            && single_from_aliases(else_body@),
        PyStmtKind::For { target, iter, loop_body, loop_else } => single_from_aliases(loop_body@)
            && single_from_aliases(loop_else@),
        PyStmtKind::Other { values, nested } => single_from_aliases(nested@),
        PyStmtKind::ClassDef { name, decorators, bases, keywords, class_body } =>
            single_from_aliases(class_body@),
        PyStmtKind::FunctionDef { name, decorators, params, body } => single_from_aliases(body@),
        _ => true,
    }
}

/// `single_from_aliases_stmt` over a statement list.
pub open spec fn single_from_aliases(body: Seq<PyStmt>) -> bool
    decreases body, 0int,
{
    if body.len() == 0 {
        true
    } else {
        single_from_aliases(body.drop_last()) && single_from_aliases_stmt(body.last())
    }
}

/// A pruned list is as long as the count of kept statements.
pub proof fn lemma_prune_body_rel_len(
    counts: Map<Seq<char>, u64>,
    module: Seq<char>,
    parent: Seq<char>,
    ctx: Seq<char>,
    body: Seq<PyStmt>,
    out: Seq<PyStmt>,
)
    requires
        prune_body_rel(counts, module, parent, ctx, body, out),
    ensures
        out.len() == prune_body_len(counts, module, parent, ctx, body),
    decreases body.len(),
{
    if body.len() > 0 {
        if prune_stmt_keeps(counts, module, parent, ctx, body.last()) {
            lemma_prune_body_rel_len(counts, module, parent, ctx, body.drop_last(), out.drop_last());
        } else {
            lemma_prune_body_rel_len(counts, module, parent, ctx, body.drop_last(), out);
        }
    }
}

/// The imported names of an alias list, position by position.
pub proof fn lemma_alias_names_at(ns: Seq<PyAlias>)
    ensures
        crate::full_name::alias_names(ns).len() == ns.len(),
        forall|j: int|
            0 <= j < ns.len() ==> crate::full_name::alias_names(ns)[j] == #[trigger] ns[j].name@,
    decreases ns.len(),
{
    if ns.len() > 0 {
        lemma_alias_names_at(ns.drop_last());
        assert forall|j: int|
            0 <= j < ns.len() implies crate::full_name::alias_names(ns)[j] == #[trigger] ns[
            j
        ].name@ by {
            if j < ns.len() - 1 {
                assert(ns.drop_last()[j] == ns[j]);
                assert(crate::full_name::alias_names(ns)[j] == crate::full_name::alias_names(
                    ns.drop_last(),
                )[j]);
            }
        }
    }
}

/// Every alias the import filter keeps has a referenced name.
pub proof fn lemma_kept_import_have_refs(counts: Map<Seq<char>, u64>, ns: Seq<PyAlias>)
    ensures
        forall|j: int|
            0 <= j < kept_import_aliases(counts, ns).len() ==> has_refs(
                counts,
                #[trigger] kept_import_aliases(counts, ns)[j].name@,
            ),
    decreases ns.len(),
{
    if ns.len() > 0 {
        lemma_kept_import_have_refs(counts, ns.drop_last());
    }
}

/// Filtering an alias list whose names are all referenced changes
/// nothing.
pub proof fn lemma_kept_import_fixed(counts: Map<Seq<char>, u64>, ns: Seq<PyAlias>)
    requires
        forall|j: int| 0 <= j < ns.len() ==> has_refs(counts, #[trigger] ns[j].name@),
    ensures
        kept_import_aliases(counts, ns) =~= ns,
    decreases ns.len(),
{
    if ns.len() > 0 {
        lemma_kept_import_fixed(counts, ns.drop_last());
    }
}

/// Filtering a single-alias `import from` list yields either nothing or
/// exactly that alias, with its bound name recorded.
pub proof fn lemma_from_single_shape(
    counts: Map<Seq<char>, u64>,
    targets: Seq<Seq<char>>,
    alias: PyAlias,
)
    ensures
        ({
            let (k, a) = kept_from_aliases(
                counts,
                targets,
                seq![alias],
                Seq::<PyAlias>::empty(),
                Set::<Seq<char>>::empty(),
            );
            (k =~= Seq::<PyAlias>::empty() && a =~= Set::<Seq<char>>::empty()) || (k =~= seq![alias]
                && a =~= Set::<Seq<char>>::empty().insert(alias.bound_name()))
        }),
    decreases targets.len(),
{
    if targets.len() > 0 {
        lemma_from_single_shape(counts, targets.drop_last(), alias);
        let (k1, a1) = kept_from_aliases(
            counts,
            targets.drop_last(),
            seq![alias],
            Seq::<PyAlias>::empty(),
            Set::<Seq<char>>::empty(),
        );
        assert(seq![alias].drop_last() =~= Seq::<PyAlias>::empty());
        assert(kept_from_aliases_target(counts, targets.last(), seq![alias].drop_last(), k1, a1)
            == (k1, a1));
    }
}

/// Pruning is idempotent on a kept statement: the pruned form is kept
/// again and pruning it once more changes nothing and deletes nothing.
pub proof fn lemma_prune_stmt_idempotent(
    counts: Map<Seq<char>, u64>,
    module: Seq<char>,
    parent: Seq<char>,
    ctx: Seq<char>,
    stmt: PyStmt,
    out: PyStmt,
)
    requires
        single_from_aliases_stmt(stmt),
        prune_stmt_keeps(counts, module, parent, ctx, stmt),
        prune_stmt_rel(counts, module, parent, ctx, stmt, out),
    ensures
        single_from_aliases_stmt(out),
        prune_stmt_keeps(counts, module, parent, ctx, out),
        prune_stmt_rel(counts, module, parent, ctx, out, out),
        prune_stmt_count(counts, module, parent, ctx, out) == 0,
    decreases stmt, 1int,
{
    if !prunable(stmt.kind) {
        match stmt.kind {
            PyStmtKind::If { test, then_body, else_body } => {
                let tb2 = out.kind->then_body;
                let eb2 = out.kind->else_body;
                lemma_prune_body_idempotent(counts, module, parent, ctx, then_body@, tb2@);
                lemma_prune_body_idempotent(counts, module, parent, ctx, else_body@, eb2@);
            },
            PyStmtKind::For { target, iter, loop_body, loop_else } => {
                let lb2 = out.kind->loop_body;
                let le2 = out.kind->loop_else;
                lemma_prune_body_idempotent(counts, module, parent, ctx, loop_body@, lb2@);
                lemma_prune_body_idempotent(counts, module, parent, ctx, loop_else@, le2@);
            },
            PyStmtKind::Other { values, nested } => {
                let n2 = out.kind->nested;
                lemma_prune_body_idempotent(counts, module, parent, ctx, nested@, n2@);
            },
            _ => {},
        }
    } else {
        match stmt.kind {
            PyStmtKind::Import { names } => {
                let kept = kept_import_aliases(counts, names@);
                let n2 = out.kind->Import_names;
                assert(n2@ == kept);
                lemma_kept_import_have_refs(counts, names@);
                lemma_kept_import_fixed(counts, n2@);
                lemma_alias_names_at(n2@);
                assert(kept.len() > 0);
                assert(has_refs(counts, n2@[0].name@));
                assert(crate::full_name::alias_names(n2@)[0] == n2@[0].name@);
                assert(rm_query_names(module, parent, ctx, out.kind)
                    == crate::full_name::alias_names(n2@));
                assert(seq_any_has_refs(counts, rm_query_names(module, parent, ctx, out.kind)));
            },
            PyStmtKind::ImportFrom { module: from_module, names, level } => {
                let kept = from_aliases_after(counts, from_module, names@, level, parent);
                assert(kept.len() > 0);
                lemma_from_single_shape(
                    counts,
                    greedy_targets_of(from_module, names@, level, parent),
                    names@[0],
                );
                assert(seq![names@[0]] =~= names@);
                assert(kept =~= names@);
                let m2 = out.kind->ImportFrom_module;
                let n2 = out.kind->ImportFrom_names;
                let l2 = out.kind->ImportFrom_level;
                assert(m2 == from_module && l2 == level && n2@ == kept);
                assert(n2@ =~= names@);
                assert(rm_query_names(module, parent, ctx, out.kind) == rm_query_names(
                    module,
                    parent,
                    ctx,
                    stmt.kind,
                ));
                assert(from_aliases_after(counts, m2, n2@, l2, parent) == kept);
            },
            PyStmtKind::ClassDef { name, decorators, bases, keywords, class_body } => {
                let cb2 = out.kind->ClassDef_class_body;
                lemma_prune_body_idempotent(
                    counts,
                    module,
                    parent,
                    scope_qualified(ctx, name@),
                    class_body@,
                    cb2@,
                );
                lemma_prune_body_rel_len(
                    counts,
                    module,
                    parent,
                    scope_qualified(ctx, name@),
                    class_body@,
                    cb2@,
                );
            },
            PyStmtKind::FunctionDef { name, decorators, params, body } => {
                let b2 = out.kind->FunctionDef_body;
                lemma_prune_body_idempotent(
                    counts,
                    module,
                    parent,
                    scope_qualified(ctx, name@),
                    body@,
                    b2@,
                );
                lemma_prune_body_rel_len(
                    counts,
                    module,
                    parent,
                    scope_qualified(ctx, name@),
                    body@,
                    b2@,
                );
            },
            _ => {},
        }
    }
}

/// Idempotence of pruning: pruning an already-pruned statement list
/// keeps every statement, changes nothing, and reports zero further
/// deletions — provided every `import from` statement binds a single
/// alias, so that no alias survives only through a pruned sibling's
/// greedily derived candidate module.
pub proof fn lemma_prune_body_idempotent(
    counts: Map<Seq<char>, u64>,
    module: Seq<char>,
    parent: Seq<char>,
    ctx: Seq<char>,
    body: Seq<PyStmt>,
    out: Seq<PyStmt>,
)
    requires
        single_from_aliases(body),
        prune_body_rel(counts, module, parent, ctx, body, out),
    ensures
        single_from_aliases(out),
        prune_body_rel(counts, module, parent, ctx, out, out),
        prune_body_len(counts, module, parent, ctx, out) == out.len(),
        prune_body_count(counts, module, parent, ctx, out) == 0,
    decreases body, 0int,
{
    if body.len() == 0 {
    } else if prune_stmt_keeps(counts, module, parent, ctx, body.last()) {
        lemma_prune_body_idempotent(
            counts,
            module,
            parent,
            ctx,
            body.drop_last(),
            out.drop_last(),
        );
        lemma_prune_stmt_idempotent(counts, module, parent, ctx, body.last(), out.last());
        assert(out =~= out.drop_last().push(out.last()));
        assert(out.drop_last() =~= out.drop_last());
        assert(single_from_aliases(out));
        assert(prune_body_rel(counts, module, parent, ctx, out, out)) by {
            assert(out.len() >= 1);
            assert(prune_stmt_keeps(counts, module, parent, ctx, out.last()));
            assert(prune_stmt_rel(counts, module, parent, ctx, out.last(), out.last()));
            assert(prune_body_rel(
                counts,
                module,
                parent,
                ctx,
                out.drop_last(),
                out.drop_last(),
            ));
        }
    } else {
        lemma_prune_body_idempotent(counts, module, parent, ctx, body.drop_last(), out);
    }
}

} // verus!
