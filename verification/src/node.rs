//! Filesystem entries as the session sees them: one flat list of typed,
//! permission-classified children of the current directory.
use vstd::prelude::*;

verus! {

/// The kind of a single directory entry.
#[derive(Debug, Clone, PartialEq, Eq, Structural)]
pub enum NodeType {
    File,
    Directory,
    Symlink,
    Unknown,
}

/// One visible entry of the current directory listing.
///
/// Entry lists are recreated wholesale on every directory transition; a
/// `TreeNode` is never mutated in place.
#[derive(Debug, Clone)]
pub struct TreeNode {
    pub path: String,
    pub name: String,
    pub node_type: NodeType,
    pub depth: usize,
    pub expanded: bool,
    pub readable: bool,
    pub children_loaded: bool,
}

} // verus!
