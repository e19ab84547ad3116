//! Extraction of two facts about a Python project: the set of top-level
//! module names a source file imports, and the dependency specifiers its
//! `pyproject.toml` declares, each parsed into a structured requirement.

pub mod scan;
pub mod visitor;
pub mod imports;
pub mod requirement;
pub mod manifest;
