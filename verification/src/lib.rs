//! Hot reloading of large Python projects.
//!
//! The library holds the decisions of the reloader: which modules a project
//! imports, whether a change of the project touches them, what the lines that a
//! loader process prints mean, and what becomes of the processes that were
//! forked from it. Files, pipes, threads and processes stay outside.
pub mod text;
pub mod python_source;
pub mod imports;
pub mod string_map;
pub mod module_set;
pub mod package_name;
pub mod file_hash;
pub mod ast;
pub mod scan_laws;
pub mod async_resolve;
pub mod messages;
pub mod multiplex_logs;
pub mod ids;
pub mod style;
pub mod processes;
pub mod layer;
pub mod layer_laws;
pub mod loader;
pub mod environment;
pub mod environment_laws;
pub mod runners;
pub mod python;
pub mod redirect;
pub mod text_laws;
pub mod import_laws;
pub mod loader_laws;
pub mod line_laws;
pub mod process_laws;
pub mod ast_laws;
pub mod runner_laws;
