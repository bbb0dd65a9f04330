//! Build-file generation for C++ projects: target graphs, toolchain
//! classification, external library resolution and makefile text.

pub mod associated_files;
pub mod command_line;
pub mod compiler;
pub mod configurations;
pub mod external;
pub mod generator;
pub mod graph;
pub mod include_file_generator;
pub mod mmk_parser;
pub mod mmk_plain;
pub mod output;
pub mod patterns;
pub mod pkg_config;
pub mod project;
pub mod registry;
pub mod targets;
pub mod text;
pub mod toolchain;
pub mod utility;
