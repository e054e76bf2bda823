//! Finds the data types of a workspace that implement a marker interface, and
//! reports each one's name, declaration path and ordered field names.
//!
//! The workspace is held as an arena (`Workspace`): compilation units, modules
//! with a parent index, interface declarations, structural types and
//! implementation blocks, all referred to by their index.
pub mod model;
pub mod locate;
pub mod path;
pub mod extract;
pub mod analysis;

pub use model::{Declaration, ImplBlock, ModuleNode, SelfTy, StructNode, TraitNode, Unit, Workspace};
pub use locate::{find_crate, find_trait};
pub use path::build_struct_path;
pub use extract::{extract_components, make_component, PluginComponent};
pub use analysis::{analyze, analyze_for, AnalysisError, PluginCrate};
