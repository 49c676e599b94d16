[package]
name = "flay"
version = "0.1.0"
edition = "2021"
publish = false

[dependencies]
ruff_python_ast = ">=0.0.6, <0.0.11"
ruff_python_codegen = ">=0.0.6, <0.0.11"
ruff_python_parser = ">=0.0.6, <0.0.11"
ruff_python_stdlib = ">=0.0.6, <0.0.11"
ruff_text_size = ">=0.0.6, <0.0.11"
