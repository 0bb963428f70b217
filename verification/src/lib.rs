//! Inspects a tree of component directories, each described by a manifest
//! naming the component and its dependencies, rebuilds the nesting as a tree
//! of projects, and renders it either as an indented text report or as a
//! Graphviz digraph of the internal dependency edges.
pub mod builder;
pub mod dot;
pub mod manifest;
pub mod project;
pub mod reader;
pub mod text;
pub mod strutil;
pub mod wrap;
