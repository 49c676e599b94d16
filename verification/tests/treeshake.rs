//! End-to-end tree-shaking scenarios: reference counting to a fixed
//! point, pruning, and the file decision.

use flay::ast::{PyAlias, PyExpr, PyStmt, PyStmtKind};
use flay::nodes_remover::{decide_file_action, FileAction, NodesRemover};
use flay::references_counter::ReferencesCounter;
use flay::tables::{CountTable, StrMap, StrSet};

fn name(s: &str) -> PyExpr {
    PyExpr::Name { id: s.to_string() }
}

fn attr(value: PyExpr, a: &str) -> PyExpr {
    PyExpr::Attribute { value: Box::new(value), attr: a.to_string() }
}

fn call(func: PyExpr) -> PyExpr {
    PyExpr::Call { func: Box::new(func), args: Vec::new() }
}

fn alias(n: &str) -> PyAlias {
    PyAlias { id: 0, name: n.to_string(), asname: None }
}

fn stmt(id: u64, kind: PyStmtKind) -> PyStmt {
    PyStmt { id, kind }
}

fn def_fn(id: u64, n: &str, body: Vec<PyStmt>) -> PyStmt {
    stmt(
        id,
        PyStmtKind::FunctionDef {
            name: n.to_string(),
            decorators: Vec::new(),
            params: Vec::new(),
            body,
        },
    )
}

fn pass_stmt(id: u64) -> PyStmt {
    stmt(id, PyStmtKind::Other { values: Vec::new(), nested: Vec::new() })
}

fn module_a() -> Vec<PyStmt> {
    vec![
        def_fn(1, "unused", vec![pass_stmt(2)]),
        def_fn(3, "used", vec![pass_stmt(4)]),
    ]
}

fn module_b() -> Vec<PyStmt> {
    vec![
        stmt(10, PyStmtKind::Import { names: vec![alias("a")] }),
        stmt(11, PyStmtKind::ExprStmt { value: call(attr(name("a"), "used")) }),
    ]
}

fn converge(counter: &mut ReferencesCounter, modules: &[(&str, &str, Vec<PyStmt>)]) {
    for _ in 0..20 {
        counter.reset_counter();
        for (spec, path, body) in modules {
            counter.visit_module(spec, path, body);
        }
        if counter.new_references_count == 0 {
            break;
        }
    }
    assert_eq!(counter.new_references_count, 0);
}

#[test]
fn dead_function_removal() {
    let mut counter =
        ReferencesCounter::new(CountTable::new(), StrMap::new(), StrSet::new());
    let modules = [
        ("b", "pkg/__main__.py", module_b()),
        ("a", "pkg/a.py", module_a()),
    ];
    converge(&mut counter, &modules);
    let ReferencesCounter { references_counts, .. } = counter;
    let mut known = StrSet::new();
    known.insert("a".to_string());
    known.insert("b".to_string());
    let mut remover = NodesRemover::new(references_counts, &known);
    let pruned = remover.process_module("a", "pkg/a.py", module_a());
    assert_eq!(pruned.len(), 1);
    assert_eq!(pruned[0].id, 3);
    match &pruned[0].kind {
        PyStmtKind::FunctionDef { name: n, body, .. } => {
            assert_eq!(n, "used");
            assert_eq!(body.len(), 1);
            assert_eq!(body[0].id, 4);
        }
        _ => panic!("expected the surviving function definition"),
    }
    assert_eq!(remover.get_statements_removed(), 1);
}

#[test]
fn pruning_is_idempotent_after_convergence() {
    let mut counter =
        ReferencesCounter::new(CountTable::new(), StrMap::new(), StrSet::new());
    let modules = [
        ("b", "pkg/__main__.py", module_b()),
        ("a", "pkg/a.py", module_a()),
    ];
    converge(&mut counter, &modules);
    let ReferencesCounter { references_counts, .. } = counter;
    let known = StrSet::new();
    let mut remover = NodesRemover::new(references_counts, &known);
    let pruned = remover.process_module("a", "pkg/a.py", module_a());
    let removed_first = remover.get_statements_removed();
    assert!(removed_first > 0);
    let pruned_again = remover.process_module("a", "pkg/a.py", pruned);
    assert_eq!(remover.get_statements_removed(), removed_first);
    assert_eq!(pruned_again.len(), 1);
    assert_eq!(pruned_again[0].id, 3);
}

#[test]
fn new_reference_counter_decreases_to_zero() {
    let mut counter =
        ReferencesCounter::new(CountTable::new(), StrMap::new(), StrSet::new());
    let modules = [
        ("b", "pkg/__main__.py", module_b()),
        ("a", "pkg/a.py", module_a()),
    ];
    let mut deltas: Vec<u64> = Vec::new();
    for _ in 0..20 {
        counter.reset_counter();
        for (spec, path, body) in &modules {
            counter.visit_module(spec, path, body);
        }
        deltas.push(counter.new_references_count);
        if counter.new_references_count == 0 {
            break;
        }
    }
    assert_eq!(*deltas.last().unwrap(), 0);
    assert!(deltas[0] > 0);
}

#[test]
fn alias_propagation_reaches_the_alias_target() {
    let mut aliases = StrMap::new();
    aliases.insert("pkg.re_export".to_string(), "pkg.original".to_string());
    let mut counter = ReferencesCounter::new(CountTable::new(), aliases, StrSet::new());
    counter.increase("pkg.re_export");
    let ReferencesCounter { references_counts, .. } = counter;
    let got = references_counts.get("pkg.original");
    assert!(matches!(got, Some(c) if c >= 1));
}

#[test]
fn make_known_does_not_signal_a_new_reference() {
    let mut counter =
        ReferencesCounter::new(CountTable::new(), StrMap::new(), StrSet::new());
    counter.make_known("pkg.silent");
    assert_eq!(counter.new_references_count, 0);
    let ReferencesCounter { references_counts, .. } = counter;
    assert_eq!(references_counts.get("pkg.silent"), Some(0));
}

#[test]
fn increase_signals_only_newly_discovered_names() {
    let mut counter =
        ReferencesCounter::new(CountTable::new(), StrMap::new(), StrSet::new());
    counter.make_known("pkg.known");
    counter.increase("pkg.known");
    assert_eq!(counter.new_references_count, 0);
    counter.increase("pkg.fresh");
    assert_eq!(counter.new_references_count, 1);
    let ReferencesCounter { references_counts, .. } = counter;
    assert_eq!(references_counts.get("pkg.known"), Some(1));
    assert_eq!(references_counts.get("pkg.fresh"), Some(1));
}

#[test]
fn inherited_bump_context_survives_module_scope_conditionals() {
    let mut counter =
        ReferencesCounter::new(CountTable::new(), StrMap::new(), StrSet::new());
    let body = vec![stmt(1, PyStmtKind::ExprStmt { value: call(name("boot")) })];
    counter.visit_module("m", "pkg/__main__.py", &body);
    counter.always_bump_context = true;
    let cond = stmt(
        2,
        PyStmtKind::If {
            test: name("flag"),
            then_body: vec![pass_stmt(3)],
            else_body: vec![],
        },
    );
    counter.visit_stmt(&cond);
    assert!(counter.always_bump_context);
}

#[test]
fn entry_point_statements_report_referenced() {
    let mut counter =
        ReferencesCounter::new(CountTable::new(), StrMap::new(), StrSet::new());
    let body = vec![def_fn(1, "anything", vec![pass_stmt(2)])];
    counter.visit_module("m", "pkg/__main__.py", &body);
    assert!(counter.has_references_for_stmt(&body[0]));
}

#[test]
fn wildcard_re_export_chain_keeps_the_original_alive() {
    let module_a = vec![stmt(
        1,
        PyStmtKind::Assign { targets: vec![name("X")], value: PyExpr::Other { children: vec![] } },
    )];
    let module_b = vec![stmt(
        2,
        PyStmtKind::ImportFrom {
            module: Some("a".to_string()),
            names: vec![alias("*")],
            level: 0,
        },
    )];
    let module_c = vec![
        stmt(
            3,
            PyStmtKind::ImportFrom {
                module: Some("b".to_string()),
                names: vec![alias("X")],
                level: 0,
            },
        ),
        stmt(4, PyStmtKind::ExprStmt { value: call(name("X")) }),
    ];
    let mut counter =
        ReferencesCounter::new(CountTable::new(), StrMap::new(), StrSet::new());
    let modules = [
        ("c", "pkg/__main__.py", module_c),
        ("a", "pkg/a.py", module_a),
        ("b", "pkg/b.py", module_b),
    ];
    converge(&mut counter, &modules);
    let ReferencesCounter { references_counts, .. } = counter;
    let got = references_counts.get("a.X");
    assert!(matches!(got, Some(c) if c >= 1));
}

#[test]
fn import_aliases_are_pruned_entry_by_entry() {
    let mut counts = CountTable::new();
    counts.insert("kept_module".to_string(), 3);
    counts.insert("m.helper".to_string(), 1);
    let known = StrSet::new();
    let mut remover = NodesRemover::new(counts, &known);
    let body = vec![stmt(
        1,
        PyStmtKind::Import {
            names: vec![alias("kept_module"), alias("dropped_module")],
        },
    )];
    let pruned = remover.process_module("m", "pkg/m.py", body);
    assert_eq!(pruned.len(), 1);
    match &pruned[0].kind {
        PyStmtKind::Import { names } => {
            assert_eq!(names.len(), 1);
            assert_eq!(names[0].name, "kept_module");
        }
        _ => panic!("expected the import statement to survive"),
    }
}

#[test]
fn import_with_no_surviving_alias_is_dropped() {
    let mut counts = CountTable::new();
    counts.insert("m.other".to_string(), 1);
    let known = StrSet::new();
    let mut remover = NodesRemover::new(counts, &known);
    let body = vec![stmt(1, PyStmtKind::Import { names: vec![alias("dead_module")] })];
    let pruned = remover.process_module("m", "pkg/m.py", body);
    assert_eq!(pruned.len(), 0);
    assert_eq!(remover.get_statements_removed(), 1);
}

#[test]
fn wildcard_alias_is_always_retained() {
    let mut counts = CountTable::new();
    counts.insert("src".to_string(), 1);
    let known = StrSet::new();
    let mut remover = NodesRemover::new(counts, &known);
    let body = vec![stmt(
        1,
        PyStmtKind::ImportFrom {
            module: Some("src".to_string()),
            names: vec![alias("*")],
            level: 0,
        },
    )];
    let pruned = remover.process_module("m", "pkg/m.py", body);
    assert_eq!(pruned.len(), 1);
    match &pruned[0].kind {
        PyStmtKind::ImportFrom { names, .. } => {
            assert_eq!(names.len(), 1);
            assert_eq!(names[0].name, "*");
        }
        _ => panic!("expected the wildcard import to survive"),
    }
}

#[test]
fn known_module_with_referenced_member_is_seeded() {
    let mut counts = CountTable::new();
    counts.insert("pkg.mod.member".to_string(), 2);
    let mut known = StrSet::new();
    known.insert("pkg.mod".to_string());
    let remover = NodesRemover::new(counts, &known);
    let got = remover.references_counts.get("pkg.mod");
    assert!(matches!(got, Some(c) if c >= 1));
}

#[test]
fn non_prunable_statements_survive_with_pruned_bodies() {
    let counts = CountTable::new();
    let known = StrSet::new();
    let mut remover = NodesRemover::new(counts, &known);
    let body = vec![stmt(
        1,
        PyStmtKind::If {
            test: name("flag"),
            then_body: vec![def_fn(2, "dead_inner", vec![pass_stmt(3)]), pass_stmt(4)],
            else_body: vec![],
        },
    )];
    let pruned = remover.process_module("m", "pkg/m.py", body);
    assert_eq!(pruned.len(), 1);
    match &pruned[0].kind {
        PyStmtKind::If { then_body, .. } => {
            assert_eq!(then_body.len(), 1);
            assert_eq!(then_body[0].id, 4);
        }
        _ => panic!("expected the conditional to survive"),
    }
    assert_eq!(remover.get_statements_removed(), 1);
}

#[test]
fn module_main_guard_is_kept_alive() {
    let guard = PyExpr::Compare {
        left: Box::new(name("__name__")),
        ops: vec![flay::ast::PyCmpOp::Eq],
        comparators: vec![PyExpr::StringLiteral { value: "__main__".to_string() }],
    };
    let body = vec![stmt(
        1,
        PyStmtKind::If {
            test: guard,
            then_body: vec![stmt(2, PyStmtKind::ExprStmt { value: call(name("run")) })],
            else_body: vec![],
        },
    )];
    let mut counter =
        ReferencesCounter::new(CountTable::new(), StrMap::new(), StrSet::new());
    counter.visit_module("m", "pkg/m.py", &body);
    let ReferencesCounter { references_counts, .. } = counter;
    let got = references_counts.get("m.run");
    assert!(matches!(got, Some(c) if c >= 1));
}

#[test]
fn file_action_writes_non_empty_output() {
    assert_eq!(decide_file_action(10, 2, false, 3), FileAction::WriteSource);
    assert_eq!(decide_file_action(10, 2, true, 1), FileAction::WriteSource);
}

#[test]
fn file_action_preserves_sole_package_marker() {
    assert_eq!(decide_file_action(0, 0, true, 1), FileAction::WriteEmpty);
}

#[test]
fn file_action_deletes_empty_files() {
    assert_eq!(decide_file_action(0, 0, true, 3), FileAction::DeleteFile);
    assert_eq!(decide_file_action(0, 0, false, 2), FileAction::DeleteFile);
}

#[test]
fn file_action_removes_emptied_directory() {
    assert_eq!(decide_file_action(0, 0, false, 1), FileAction::DeleteFileAndDirectory);
}
