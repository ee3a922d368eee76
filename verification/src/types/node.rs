//! Kinds of file-system nodes and their numeric codes.
use vstd::prelude::*;

verus! {

/// Kind of a node; its code is 0, 1 or 2.
#[derive(Clone, Copy, Debug, PartialEq, Eq, Structural)]
pub enum NodeType {
    File,
    Directory,
    Symlink,
}

/// A code that names no node kind.
#[derive(Clone, Copy, Debug, PartialEq, Eq, Structural)]
pub enum NodeTypeError {
    InvalidNodeType,
}

/// The code of a node kind.
pub open spec fn node_code(t: NodeType) -> u64 {
    match t {
        NodeType::File => 0,
        NodeType::Directory => 1,
        NodeType::Symlink => 2,
    }
}

impl NodeType {
    /// The code of this kind.
    pub fn code(self) -> (c: u64)
        ensures
            c == node_code(self),
    {
        match self {
            NodeType::File => 0,
            NodeType::Directory => 1,
            NodeType::Symlink => 2,
        }
    }

    /// The kind with code `value`.
    pub fn try_from(value: u64) -> (r: Result<NodeType, NodeTypeError>)
        ensures
            match r {
                Ok(t) => node_code(t) == value,
                Err(e) => value > 2 && e == NodeTypeError::InvalidNodeType,
            },
    {
        match value {
            0 => Ok(NodeType::File),
            1 => Ok(NodeType::Directory),
            2 => Ok(NodeType::Symlink),
            _ => Err(NodeTypeError::InvalidNodeType),
        }
    }
}

/// Reading back the code of a kind gives the kind.
pub proof fn node_code_round_trip(t: NodeType, u: NodeType)
    ensures
        node_code(t) <= 2,
        node_code(t) == node_code(u) ==> t == u,
{
}

} // verus!
