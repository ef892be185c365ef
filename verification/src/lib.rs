//! A scene-graph node tree built from a nested hierarchy description.
//!
//! The tree lives in an arena: every node is addressed by a [`NodeId`], the
//! children of a node are a list of ids, and the link from a node back to its
//! parent is an id kept beside the node. Links upward therefore never own
//! anything, and releasing the tree releases every node.

pub mod laws;
pub mod layout;
pub mod matrix;
pub mod metadata;
pub mod node;
pub mod source;

pub use layout::NodeId;
pub use matrix::Matrix4x4;
pub use metadata::{MetaData, MetaDataEntry, MetaDataValue};
pub use node::{Node, NodeTree};
pub use source::SourceNode;
