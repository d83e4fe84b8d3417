//! Detection of disposable build-output directories across a project tree.
//!
//! A rule catalog names the directories that build systems leave behind and
//! the marker files that confirm them; a single walk applies the catalog and
//! prunes claimed subtrees, so nested output is never double-reported; a
//! glob filter applies user include and exclude patterns with exclude
//! precedence; and a size pass fills in each artifact's on-disk size, in
//! parallel across artifacts with a strictly serial walk within each.

pub mod cli;
pub mod filter;
pub mod output;
pub mod paths;
pub mod rules;
pub mod scanner;
pub mod size;
pub mod text;
