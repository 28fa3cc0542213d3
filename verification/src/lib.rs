//! Renders compiler-generated documentation as a corpus of Markdown files
//! addressable by stable, dotted item paths, so that an API can be browsed
//! without a browser: one converter turns a rendered documentation page into
//! Markdown, one builder maps every listed item's full path to its file, one
//! renderer writes Markdown straight from a structured type model, and the
//! path scheme resolves a caller's dotted path to the generated file.

pub mod alias_html;
pub mod cargo_out;
pub mod dom;
pub mod error;
pub mod html2md;
pub mod listing;
pub mod model;
pub mod paths;
pub mod render;
pub mod render_alias;
pub mod render_enum;
pub mod render_index;
pub mod render_struct;
pub mod render_union;
pub mod scrape;
pub mod text;
