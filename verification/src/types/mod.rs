//! Core records shared by the daemon and the file system: inodes, node
//! kinds, daemon volumes, messages between the command line and the
//! daemon, and file-system events.
use vstd::prelude::*;
use crate::external::now_millis;

pub mod inode;
pub mod ipc;
pub mod node;
pub mod volume;

verus! {

/// What happened to a path in a watched volume.
#[derive(Debug)]
pub enum VfsEventType {
    FileCreated,
    FileModified,
    FileDeleted,
    FileRenamed { from: String, to: String },
    DirectoryCreated,
    DirectoryDeleted,
    DirectoryRenamed { from: String, to: String },
    Unknown,
}

/// An event in a watched volume.  `timestamp` is in milliseconds since the
/// Unix epoch.
#[derive(Debug)]
pub struct VfsEvent {
    pub volume_id: u128,
    pub event_type: VfsEventType,
    pub path: String,
    pub timestamp: i64,
}

impl VfsEvent {
    /// An event stamped with the current time.
    pub fn new(volume_id: u128, event_type: VfsEventType, path: String) -> (e: Self)
        ensures
            e.volume_id == volume_id,
            e.event_type == event_type,
            e.path == path,
    {
        VfsEvent { volume_id, event_type, path, timestamp: now_millis() }
    }
}

} // verus!
