//! Expression trees and the machinery for rewrite passes over them: one-level
//! shapes (`node_frame`), owned trees (`boxed_nodes`) with their mathematical
//! form (`tree`), a bottom-up pass framework (`node_transformer`), structure
//! keys (`structure_key`), domain tagging (`computing`) and two constant
//! folding passes (`classical_evaluator`, `boolean_folder`).

pub mod boolean_folder;
pub mod boxed_nodes;
pub mod classical_evaluator;
pub mod computing;
pub mod node_frame;
pub mod node_transformer;
pub mod operations;
pub mod structure_key;
pub mod tree;
