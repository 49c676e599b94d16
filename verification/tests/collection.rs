//! Module discovery candidates and the vendoring decisions.

use flay::ast::{PyAlias, PyExpr, PyStmt, PyStmtKind};
use flay::file_collector::FileCollector;
use flay::imports_transformer::ImportsTransformer;
use flay::tables::StrMap;

fn name(s: &str) -> PyExpr {
    PyExpr::Name { id: s.to_string() }
}

fn attr(value: PyExpr, a: &str) -> PyExpr {
    PyExpr::Attribute { value: Box::new(value), attr: a.to_string() }
}

fn alias(n: &str, asn: Option<&str>) -> PyAlias {
    PyAlias { id: 0, name: n.to_string(), asname: asn.map(|s| s.to_string()) }
}

fn stmt(kind: PyStmtKind) -> PyStmt {
    PyStmt { id: 0, kind }
}

#[test]
fn plain_imports_become_candidates() {
    let mut collector = FileCollector::new("pkg".to_string(), StrMap::new());
    let s = stmt(PyStmtKind::Import { names: vec![alias("json", None), alias("pkg.sub", None)] });
    let got = collector.candidates_for_stmt(&s);
    assert_eq!(got, vec!["json".to_string(), "pkg.sub".to_string()]);
}

#[test]
fn from_imports_probe_submodule_candidates() {
    let mut collector = FileCollector::new("pkg".to_string(), StrMap::new());
    let s = stmt(PyStmtKind::ImportFrom {
        module: Some("pkg.lib".to_string()),
        names: vec![alias("helper", None)],
        level: 0,
    });
    let got = collector.candidates_for_stmt(&s);
    assert_eq!(got, vec!["pkg.lib".to_string(), "pkg.lib.helper".to_string()]);
}

#[test]
fn dynamic_import_discovery_matches_static_imports() {
    let mut collector = FileCollector::new("pkg".to_string(), StrMap::new());
    let imp = stmt(PyStmtKind::Import { names: vec![alias("importlib", None)] });
    let got = collector.candidates_for_stmt(&imp);
    assert_eq!(got, vec!["importlib".to_string()]);
    let call = PyExpr::Call {
        func: Box::new(attr(name("importlib"), "import_module")),
        args: vec![PyExpr::StringLiteral { value: "pkg.sub".to_string() }],
    };
    let s = stmt(PyStmtKind::ExprStmt { value: call });
    let got = collector.candidates_for_stmt(&s);
    assert_eq!(got, vec!["pkg.sub".to_string()]);
}

#[test]
fn alias_tables_expand_candidates() {
    let mut import_aliases = StrMap::new();
    import_aliases.insert("old.place.f".to_string(), "new.place.f".to_string());
    let mut collector = FileCollector::new("pkg".to_string(), import_aliases);
    let s = stmt(PyStmtKind::Import { names: vec![alias("old.place", None)] });
    let got = collector.candidates_for_stmt(&s);
    assert_eq!(got, vec!["old.place".to_string(), "new.place".to_string()]);
}

#[test]
fn collected_files_guard_against_cycles() {
    let mut collector = FileCollector::new("pkg".to_string(), StrMap::new());
    assert!(!collector.is_collected("pkg.a", "pkg/a.py"));
    collector.record_source("pkg.a".to_string(), "pkg/a.py".to_string(), "x = 1".to_string());
    assert!(collector.is_collected("pkg.a", "pkg/a.py"));
    collector.record_opaque("pkg.data".to_string(), "pkg/data.bin".to_string());
    assert!(collector.is_collected("pkg.data", "pkg/data.bin"));
    assert!(!collector.is_collected("pkg.b", "pkg/b.py"));
}

#[test]
fn visit_state_saves_and_restores() {
    let mut collector = FileCollector::new("pkg".to_string(), StrMap::new());
    let imp = stmt(PyStmtKind::Import { names: vec![alias("importlib", Some("il"))] });
    collector.candidates_for_stmt(&imp);
    let saved = collector.save_visit_state();
    collector.enter_package("pkg.sub".to_string());
    assert_eq!(collector.package, "pkg.sub");
    collector.restore_visit_state(saved);
    assert_eq!(collector.package, "pkg");
    assert_eq!(collector.importlib_package_alias, Some("il".to_string()));
}

#[test]
fn next_parent_package_depends_on_the_file_name() {
    assert_eq!(FileCollector::next_parent_package("pkg.sub", "pkg/sub/__init__.py"), "pkg.sub");
    assert_eq!(FileCollector::next_parent_package("pkg.tool", "pkg/tool.py"), "pkg");
}

#[test]
fn vendor_string_joins_package_and_vendor_segment() {
    let tx = ImportsTransformer::new("mypkg".to_string(), "_vendor".to_string());
    assert_eq!(tx.get_vendor_string(), "mypkg._vendor");
}

#[test]
fn vendoring_skips_protected_and_standard_modules() {
    let tx = ImportsTransformer::new("mypkg".to_string(), "_vendor".to_string());
    assert_eq!(tx.prepend_vendor_import("mypkg.core"), "mypkg.core");
    assert_eq!(tx.prepend_vendor_import("os.path"), "os.path");
    assert_eq!(tx.prepend_vendor_import("requests"), "mypkg._vendor.requests");
}

#[test]
fn dynamic_arguments_are_vendored_outside_the_package() {
    let tx = ImportsTransformer::new("mypkg".to_string(), "_vendor".to_string());
    assert_eq!(tx.rewrite_dynamic_argument("mypkg.core"), "mypkg.core");
    assert_eq!(tx.rewrite_dynamic_argument("third.party"), "mypkg._vendor.third.party");
}

#[test]
fn unaliased_dotted_imports_are_rebound() {
    let mut tx = ImportsTransformer::new("mypkg".to_string(), "_vendor".to_string());
    let got = tx.decide_asname("third.party.mod", &None);
    assert_eq!(got, "third_party_mod");
    assert!(tx.names_to_sanitize.contains("third.party.mod"));
    assert!(tx.needed_imports.contains("third"));
    assert!(tx.needed_imports.contains("third.party"));
    assert!(!tx.needed_imports.contains("third.party.mod"));
}

#[test]
fn explicit_asname_wins_unchanged() {
    let mut tx = ImportsTransformer::new("mypkg".to_string(), "_vendor".to_string());
    let got = tx.decide_asname("third.party", &Some("tp".to_string()));
    assert_eq!(got, "tp");
    assert!(!tx.names_to_sanitize.contains("third.party"));
}

#[test]
fn affected_prefixes_resolve_longest_first() {
    let mut tx = ImportsTransformer::new("mypkg".to_string(), "_vendor".to_string());
    tx.decide_asname("a.b", &None);
    tx.decide_asname("a.b.c", &None);
    let parts = vec!["a".to_string(), "b".to_string(), "c".to_string(), "d".to_string()];
    let got = tx.find_affected_prefix(&parts);
    assert_eq!(got, Some((3, "a_b_c".to_string())));
    let unrelated = vec!["x".to_string(), "y".to_string()];
    assert_eq!(tx.find_affected_prefix(&unrelated), None);
}

#[test]
fn annotation_strings_are_sanitized_by_prefix() {
    let mut tx = ImportsTransformer::new("mypkg".to_string(), "_vendor".to_string());
    tx.decide_asname("third.party", &None);
    assert_eq!(tx.sanitize_annotation_string("third.party.Thing"), "third_party.Thing");
    assert_eq!(tx.sanitize_annotation_string("unrelated.Thing"), "unrelated.Thing");
}

#[test]
fn missing_imports_skip_already_present_modules() {
    let mut tx = ImportsTransformer::new("mypkg".to_string(), "_vendor".to_string());
    tx.decide_asname("a.b.c", &None);
    let present = vec!["a.b".to_string()];
    let got = tx.missing_needed_imports(&present);
    assert_eq!(got, vec!["a".to_string()]);
}

#[test]
fn synthesized_imports_follow_future_imports() {
    assert_eq!(ImportsTransformer::insertion_index(false), 0);
    assert_eq!(ImportsTransformer::insertion_index(true), 2);
    let future = stmt(PyStmtKind::ImportFrom {
        module: Some("__future__".to_string()),
        names: vec![alias("annotations", None)],
        level: 0,
    });
    assert!(ImportsTransformer::is_future_import(&future));
    let other = stmt(PyStmtKind::Import { names: vec![alias("os", None)] });
    assert!(!ImportsTransformer::is_future_import(&other));
}
