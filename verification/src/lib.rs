//! Static module-dependency resolution and dead-code elimination for
//! Python-like source trees.
//!
//! The engine works on its own statement model (`ast`). Local names are
//! extracted (`full_name`), qualified against nested lexical scopes and
//! the active import tables (`imports_provider`, `fqn_provider`), and
//! resolved through the import semantics in `import_resolution` and
//! `module_spec`. `file_collector` decides which candidate modules an
//! entry module pulls in; `references_counter` accumulates reference
//! counts across modules until a fixed point; `nodes_remover` prunes the
//! statements the stable table proves unreferenced; and
//! `imports_transformer` holds the decisions of the vendoring rewrite.

pub mod ast;
pub mod checkers;
pub mod file_collector;
pub mod fqn_provider;
pub mod full_name;
pub mod import_resolution;
pub mod imports_provider;
pub mod imports_transformer;
pub mod module_spec;
pub mod nodes_remover;
pub mod references_counter;
pub mod strings;
pub mod tables;
