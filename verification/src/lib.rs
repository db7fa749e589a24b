//! Turns Markdown work-package notes into a tree of planning nodes and
//! decides how that tree is drawn as a Graphviz graph.

pub mod text;
pub mod node;
pub mod pathname;
pub mod dot;
pub mod pattern;
pub mod parse;
pub mod files;
pub mod output;
