//! Distribution-bundling core for an Ember.js application build tool.
//!
//! The library takes already-built assets (JS, CSS, HTML) as plain values,
//! discovers which files each HTML entry point references, derives
//! content-hashed published filenames, rewrites the HTML references, and
//! produces the asset manifest and the server-side-rendering descriptor.
//! All filesystem work is left to the surrounding binary.

pub mod application;
pub mod build_cache;
pub mod bundle;
pub mod cli_arguments;
pub mod convert_es_module;
pub mod content_hash;
pub mod descriptor;
pub mod errors;
pub mod fastboot_package_json;
pub mod file;
pub mod help;
pub mod html_file;
pub mod json;
pub mod manifest;
pub mod new_command;
pub mod paths;
pub mod project;
pub mod strutil;
pub mod walk_injection;
