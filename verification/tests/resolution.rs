//! Name resolution: module paths, relative imports, name extraction,
//! the import tables, and fully-qualified candidates.

use flay::ast::{PyAlias, PyCmpOp, PyExpr, PyStmt, PyStmtKind};
use flay::checkers::{find_dynamic_import, is_if_name_main, is_importlib_import};
use flay::fqn_provider::FullyQualifiedNameProvider;
use flay::full_name::{get_full_name_for_expr, get_full_name_for_stmt};
use flay::import_resolution::{
    get_import_from_absolute_module_spec, resolve_relative_name, ImportResolutionError,
};
use flay::imports_provider::ImportsTrackingProvider;
use flay::module_spec::{get_parent_package, get_top_level_package, is_in_std_lib};

fn name(s: &str) -> PyExpr {
    PyExpr::Name { id: s.to_string() }
}

fn attr(value: PyExpr, a: &str) -> PyExpr {
    PyExpr::Attribute { value: Box::new(value), attr: a.to_string() }
}

fn alias(n: &str, asn: Option<&str>) -> PyAlias {
    PyAlias { id: 0, name: n.to_string(), asname: asn.map(|s| s.to_string()) }
}

fn stmt(kind: PyStmtKind) -> PyStmt {
    PyStmt { id: 0, kind }
}

#[test]
fn parent_package_strips_the_last_segment() {
    assert_eq!(get_parent_package("a.b.c"), "a.b");
    assert_eq!(get_parent_package("a"), "a");
    assert_eq!(get_parent_package(""), "");
}

#[test]
fn top_level_package_is_the_first_segment() {
    assert_eq!(get_top_level_package("a.b.c"), "a");
    assert_eq!(get_top_level_package("single"), "single");
}

#[test]
fn standard_library_modules_are_recognized() {
    assert!(is_in_std_lib("os"));
    assert!(is_in_std_lib("os.path"));
    assert!(is_in_std_lib("json.decoder"));
    assert!(is_in_std_lib("__future__"));
    assert!(is_in_std_lib("sys"));
}

#[test]
fn third_party_modules_are_not_standard_library() {
    assert!(!is_in_std_lib("requests"));
    assert!(!is_in_std_lib("totally_made_up_package.sub"));
}

#[test]
fn relative_name_resolves_inside_the_package() {
    let got = resolve_relative_name("mod", "top.sub", 1).unwrap();
    assert_eq!(got, "top.sub.mod");
    let got = resolve_relative_name("mod", "top.sub", 2).unwrap();
    assert_eq!(got, "top.mod");
    let got = resolve_relative_name("", "top.sub", 2).unwrap();
    assert_eq!(got, "top");
    let got = resolve_relative_name("mod", "anything", 0).unwrap();
    assert_eq!(got, "mod");
}

#[test]
fn relative_import_beyond_top_level_fails() {
    let got = resolve_relative_name("mod", "top", 3);
    assert_eq!(got, Err(ImportResolutionError::BeyondTopLevelPackage));
    let got = resolve_relative_name("mod", "a.b", 3);
    assert_eq!(got, Err(ImportResolutionError::BeyondTopLevelPackage));
}

#[test]
fn import_from_with_module_resolves_absolutely() {
    let names = vec![alias("x", None)];
    let got = get_import_from_absolute_module_spec(
        &Some("json".to_string()),
        &names,
        0,
        "pkg",
        false,
    )
    .unwrap();
    assert_eq!(got, vec!["json".to_string()]);
}

#[test]
fn import_from_without_module_needs_a_level() {
    let names = vec![alias("x", None)];
    let got = get_import_from_absolute_module_spec(&None, &names, 0, "pkg", false);
    assert_eq!(got, Err(ImportResolutionError::NoAbsoluteModule));
}

#[test]
fn greedy_resolution_adds_submodule_candidates() {
    let names = vec![alias("sub", None), alias("*", None)];
    let got =
        get_import_from_absolute_module_spec(&None, &names, 1, "pkg.inner", true).unwrap();
    assert_eq!(got, vec!["pkg.inner".to_string(), "pkg.inner.sub".to_string()]);
}

#[test]
fn package_main_counts_as_its_package() {
    let names = vec![alias("x", None)];
    let got = get_import_from_absolute_module_spec(
        &Some("helper".to_string()),
        &names,
        1,
        "pkg.__main__",
        false,
    )
    .unwrap();
    assert_eq!(got, vec!["pkg.helper".to_string()]);
}

#[test]
fn attribute_chains_yield_every_prefix() {
    let e = attr(attr(name("a"), "b"), "c");
    let got = get_full_name_for_expr(&e);
    assert_eq!(
        got,
        vec!["a".to_string(), "a.c".to_string(), "a.b".to_string(), "a.b.c".to_string()]
    );
}

#[test]
fn tuple_targets_yield_all_names() {
    let e = PyExpr::Tuple { elts: vec![name("x"), name("y")] };
    let got = get_full_name_for_expr(&e);
    assert_eq!(got, vec!["x".to_string(), "y".to_string()]);
}

#[test]
fn statement_names_cover_definitions_and_imports() {
    let s = stmt(PyStmtKind::FunctionDef {
        name: "f".to_string(),
        decorators: vec![],
        params: vec![],
        body: vec![],
    });
    assert_eq!(get_full_name_for_stmt(&s, "pkg"), vec!["f".to_string()]);

    let s = stmt(PyStmtKind::Import { names: vec![alias("os", None), alias("re", None)] });
    assert_eq!(get_full_name_for_stmt(&s, "pkg"), vec!["os".to_string(), "re".to_string()]);

    let s = stmt(PyStmtKind::ImportFrom {
        module: Some("lib".to_string()),
        names: vec![alias("f", None), alias("g", None)],
        level: 0,
    });
    assert_eq!(
        get_full_name_for_stmt(&s, "pkg"),
        vec!["lib.f".to_string(), "lib.g".to_string()]
    );
}

#[test]
fn star_import_makes_resolution_multi_valued() {
    let mut provider = FullyQualifiedNameProvider::new("pkg.a", "pkg/a.py");
    let star = stmt(PyStmtKind::ImportFrom {
        module: Some("pkg.b".to_string()),
        names: vec![alias("*", None)],
        level: 0,
    });
    provider.visit_stmt(&star);
    let got = provider.resolve_fully_qualified_name("x");
    assert!(got.contains(&"pkg.a.x".to_string()));
    assert!(got.contains(&"pkg.b.x".to_string()));
}

#[test]
fn alias_bindings_substitute_dotted_prefixes() {
    let mut provider = FullyQualifiedNameProvider::new("m", "m.py");
    let imp = stmt(PyStmtKind::Import { names: vec![alias("numpy", Some("np"))] });
    provider.visit_stmt(&imp);
    let got = provider.resolve_fully_qualified_name("np.array");
    assert_eq!(got, vec!["numpy.array".to_string()]);
}

#[test]
fn scope_exit_restores_the_import_tables() {
    let mut provider = ImportsTrackingProvider::new("m", "m.py");
    let outer = stmt(PyStmtKind::Import { names: vec![alias("json", None)] });
    provider.visit_stmt(&outer);
    let def = stmt(PyStmtKind::FunctionDef {
        name: "f".to_string(),
        decorators: vec![],
        params: vec![],
        body: vec![],
    });
    let scope = provider.enter_scope(&def);
    let inner = stmt(PyStmtKind::Import { names: vec![alias("re", None)] });
    provider.visit_stmt(&inner);
    assert!(provider.active_imports.contains_key("re"));
    provider.exit_scope(scope);
    assert!(provider.active_imports.contains_key("json"));
    assert!(!provider.active_imports.contains_key("re"));
}

#[test]
fn scope_entry_extends_the_name_context() {
    let mut provider = FullyQualifiedNameProvider::new("m", "m.py");
    let def = stmt(PyStmtKind::ClassDef {
        name: "C".to_string(),
        decorators: vec![],
        bases: vec![],
        keywords: vec![],
        class_body: vec![],
    });
    let scope = provider.enter_scope(&def);
    assert_eq!(provider.resolve_qualified_name("m1"), "C.m1");
    provider.exit_scope(scope);
    assert_eq!(provider.resolve_qualified_name("m1"), "m1");
}

#[test]
fn entry_file_parent_package_is_the_module() {
    let provider = ImportsTrackingProvider::new("pkg.sub", "pkg/sub/__init__.py");
    assert_eq!(provider.get_parent_package(), "pkg.sub");
    let provider = ImportsTrackingProvider::new("pkg.tool", "pkg/tool.py");
    assert_eq!(provider.get_parent_package(), "pkg");
}

#[test]
fn name_main_guard_is_recognized_in_both_orders() {
    let left = PyExpr::Compare {
        left: Box::new(name("__name__")),
        ops: vec![PyCmpOp::Eq],
        comparators: vec![PyExpr::StringLiteral { value: "__main__".to_string() }],
    };
    assert!(is_if_name_main(&left));
    let right = PyExpr::Compare {
        left: Box::new(PyExpr::StringLiteral { value: "__main__".to_string() }),
        ops: vec![PyCmpOp::Eq],
        comparators: vec![name("__name__")],
    };
    assert!(is_if_name_main(&right));
    let other = PyExpr::Compare {
        left: Box::new(name("__name__")),
        ops: vec![PyCmpOp::NotEq],
        comparators: vec![PyExpr::StringLiteral { value: "__main__".to_string() }],
    };
    assert!(!is_if_name_main(&other));
}

#[test]
fn importlib_bindings_are_tracked() {
    let s = stmt(PyStmtKind::Import { names: vec![alias("importlib", Some("il"))] });
    assert_eq!(is_importlib_import(&s), Some("il".to_string()));
    let s = stmt(PyStmtKind::ImportFrom {
        module: Some("importlib".to_string()),
        names: vec![alias("import_module", None)],
        level: 0,
    });
    assert_eq!(is_importlib_import(&s), Some("importlib".to_string()));
    let s = stmt(PyStmtKind::Import { names: vec![alias("json", None)] });
    assert_eq!(is_importlib_import(&s), None);
}

#[test]
fn dynamic_import_assignments_bind_their_targets() {
    let call = PyExpr::Call {
        func: Box::new(attr(name("importlib"), "import_module")),
        args: vec![PyExpr::StringLiteral { value: "pkg.sub".to_string() }],
    };
    let s = stmt(PyStmtKind::Assign { targets: vec![name("m")], value: call });
    let il = "importlib".to_string();
    let got = find_dynamic_import(&s, Some(&il));
    assert_eq!(got, vec![("m".to_string(), "pkg.sub".to_string())]);
    let got_without_alias = find_dynamic_import(&s, None);
    assert_eq!(got_without_alias, Vec::<(String, String)>::new());
}
