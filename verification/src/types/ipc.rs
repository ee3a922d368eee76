//! Requests from the command line to the daemon and the daemon's answers.
use vstd::prelude::*;
use crate::external::new_uuid;
use super::volume::Volume;

verus! {

/// A request to the daemon.
#[derive(Debug)]
pub enum IpcRequest {
    CreateVolume { name: String },
    DeleteVolume { name: String },
    ListVolumes,
    MountVolume { name: String, mount_point: String },
    UnmountVolume { name: String },
    ModifyVolume { name: String, new_name: Option<String> },
    Shutdown,
}

/// The daemon's answer to a request.
#[derive(Debug)]
pub enum IpcResponse {
    Success,
    VolumeCreated { volume: Volume },
    VolumeDeleted { name: String },
    VolumeMounted { name: String, mount_point: String },
    VolumeUnmounted { name: String },
    VolumeModified { volume: Volume },
    VolumesList { volumes: Vec<Volume> },
    Error { message: String },
}

/// A request with the id its answer carries back.
#[derive(Debug)]
pub struct IpcMessage {
    pub id: u128,
    pub request: IpcRequest,
}

impl IpcMessage {
    /// A request with a fresh id.
    pub fn new(request: IpcRequest) -> (m: Self)
        ensures
            m.request == request,
    {
        IpcMessage { id: new_uuid(), request }
    }
}

/// An answer, with the id of the request it answers.
#[derive(Debug)]
pub struct IpcResponseMessage {
    pub id: u128,
    pub response: IpcResponse,
}

impl IpcResponseMessage {
    /// The answer `response` to the request `id`.
    pub fn new(id: u128, response: IpcResponse) -> (m: Self)
        ensures
            m.id == id,
            m.response == response,
    {
        IpcResponseMessage { id, response }
    }
}

} // verus!
