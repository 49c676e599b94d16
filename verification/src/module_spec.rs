//! Dotted module paths: parent and top-level packages, and the
//! standard-library boundary test that stops module discovery.

use vstd::prelude::*;

verus! {

use vstd::string::StringExecFns;
use crate::strings::contains_char;
use crate::strings::first_index_of;
use crate::strings::last_index_of;
use crate::strings::lemma_first_index_of;
use crate::strings::lemma_last_index_of;
use crate::strings::find_first_dot;
use crate::strings::find_last_dot;
use crate::strings::str_eq;
use crate::strings::str_take;

/// Python minor version against which module names are classified.
pub const PYTHON_MINOR_VERSION: u8 = 12;

/// Everything before the last `.`; the whole path when it has no `.`.
pub open spec fn parent_package_of(s: Seq<char>) -> Seq<char> {
    if !contains_char(s, '.') {
        s
    } else {
        s.take(last_index_of(s, '.'))
    }
}

/// Everything before the first `.`; the whole path when it has no `.`.
pub open spec fn top_level_of(s: Seq<char>) -> Seq<char> {
    if !contains_char(s, '.') {
        s
    } else {
        s.take(first_index_of(s, '.'))
    }
}

/// All but the last dot-separated segment of `package`; `package` itself
/// when it is a single segment.
pub fn get_parent_package(package: &str) -> (r: String)
    ensures
        r@ == parent_package_of(package@),
{
    proof {
        lemma_last_index_of(package@, '.');
    }
    match find_last_dot(package) {
        None => String::from_str(package),
        Some(i) => String::from_str(str_take(package, i)),
    }
}

/// The first dot-separated segment of `module_spec`.
pub fn get_top_level_package<'a>(module_spec: &'a str) -> (r: &'a str)
    ensures
        r@ == top_level_of(module_spec@),
{
    proof {
        lemma_first_index_of(module_spec@, '.');
    }
    match find_first_dot(module_spec) {
        None => module_spec,
        Some(i) => str_take(module_spec, i),
    }
}

/// Whether `name` is a standard-library module name for
/// `PYTHON_MINOR_VERSION`, as the host classifier decides it.
pub uninterp spec fn known_standard_library(name: Seq<char>) -> bool;

/// Whether `name` is an interpreter-builtin module name for
/// `PYTHON_MINOR_VERSION`, as the host classifier decides it.
pub uninterp spec fn known_builtin_module(name: Seq<char>) -> bool;

/// Relies on ruff_python_stdlib::sys::is_known_standard_library: a total
/// match on the version and the module name, so the result is a function
/// of the name alone once the version is fixed.
#[verifier::external_body]
fn in_known_standard_library(name: &str) -> (r: bool)
    ensures
        r == known_standard_library(name@),
{
    ruff_python_stdlib::sys::is_known_standard_library(PYTHON_MINOR_VERSION, name)
}

/// Relies on ruff_python_stdlib::sys::is_builtin_module: a total match on
/// the version and the module name, so the result is a function of the
/// name alone once the version is fixed.
#[verifier::external_body]
fn in_builtin_modules(name: &str) -> (r: bool)
    ensures
        r == known_builtin_module(name@),
{
    ruff_python_stdlib::sys::is_builtin_module(PYTHON_MINOR_VERSION, name)
}

/// A module path lies in the standard distribution when its top-level
/// segment is a known standard-library or builtin module, or the
/// compatibility pseudo-module `__future__`.
pub open spec fn in_std_lib(module_spec: Seq<char>) -> bool {
    known_standard_library(top_level_of(module_spec)) || known_builtin_module(
        top_level_of(module_spec),
    ) || top_level_of(module_spec) == "__future__"@
}

/// Recursion-stopping predicate of module discovery: standard-library
/// modules are never parsed or followed.
pub fn is_in_std_lib(module_spec: &str) -> (r: bool)
    ensures
        r == in_std_lib(module_spec@),
{
    let top_level = get_top_level_package(module_spec);
    in_known_standard_library(top_level) || in_builtin_modules(top_level) || str_eq(
        top_level,
        "__future__",
    )
}

} // verus!
