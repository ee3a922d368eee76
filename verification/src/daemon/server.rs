//! What the daemon does with a request: the registry change, the answer,
//! and what the file watcher is told.  Sockets, the watcher and the
//! process itself are driven by the caller.
use vstd::prelude::*;
use super::{mounted_only, name_index, DaemonState};
use crate::types::ipc::{IpcRequest, IpcResponse};
use crate::types::volume::Volume;

verus! {

/// One thing the server does while serving a request, in order.
#[derive(Debug)]
pub enum ServerStep {
    /// Stop watching the volume with this name.
    Unwatch(String),
    /// Start watching this mounted volume.
    Watch(Volume),
    /// Send this answer.
    Respond(IpcResponse),
    /// Save the state and stop the process.
    SaveAndExit,
}

/// The step answers with an error carrying `text`.
pub open spec fn error_reply(s: ServerStep, text: Seq<char>) -> bool {
    s matches ServerStep::Respond(IpcResponse::Error { message }) && message@ == text
}

/// The step answers that the volume named `name` was deleted.
pub open spec fn deleted_reply(s: ServerStep, name: Seq<char>) -> bool {
    s matches ServerStep::Respond(IpcResponse::VolumeDeleted { name: n }) && n@ == name
}

/// The step answers that the volume named `name` was unmounted.
pub open spec fn unmounted_reply(s: ServerStep, name: Seq<char>) -> bool {
    s matches ServerStep::Respond(IpcResponse::VolumeUnmounted { name: n }) && n@ == name
}

/// The step answers that the volume named `name` is mounted at `path`.
pub open spec fn mounted_reply(s: ServerStep, name: Seq<char>, path: String) -> bool {
    s matches ServerStep::Respond(IpcResponse::VolumeMounted { name: n, mount_point: p }) && n@ == name && p == path
}

/// Serving `request` over the registry `before` leaves `after` and takes
/// `steps`.
pub open spec fn served(before: Seq<Volume>, request: IpcRequest, after: Seq<Volume>, steps: Seq<ServerStep>) -> bool {
    match request {
        IpcRequest::CreateVolume { name } => steps.len() == 1 && if name_index(before, name@) >= 0 {
            error_reply(steps[0], super::already_exists_text(name@)) && after == before
        } else {
            &&& after == before.push(after.last())
            &&& after.last().name == name
            &&& !after.last().is_mounted
            &&& after.last().mount_point is None
            &&& steps[0] == ServerStep::Respond(IpcResponse::VolumeCreated { volume: after.last() })
        },
        IpcRequest::DeleteVolume { name } => {
            let i = name_index(before, name@);
            &&& steps.len() == 2
            &&& steps[0] == ServerStep::Unwatch(name)
            &&& if i < 0 {
                error_reply(steps[1], super::not_found_text(name@)) && after == before
            } else {
                &&& before[i].is_mounted ==> error_reply(steps[1], super::currently_mounted_text(name@)) && after == before
                &&& !before[i].is_mounted ==> deleted_reply(steps[1], name@) && after == before.remove(i)
            }
        },
        IpcRequest::ListVolumes => steps == seq![ServerStep::Respond(IpcResponse::VolumesList { volumes: steps[0]->Respond_0->volumes })]
            && steps[0]->Respond_0->volumes@ == before && after == before,
        IpcRequest::MountVolume { name, mount_point } => {
            let i = name_index(before, name@);
            if i < 0 {
                steps.len() == 1 && error_reply(steps[0], super::not_found_text(name@)) && after == before
            } else if before[i].is_mounted {
                steps.len() == 1 && error_reply(steps[0], super::already_mounted_text(name@)) && after == before
            } else {
                let mounted = Volume { mount_point: Some(mount_point), is_mounted: true, ..before[i] };
                &&& after == before.update(i, mounted)
                &&& steps.len() == 2
                &&& steps[0] == ServerStep::Watch(mounted)
                &&& mounted_reply(steps[1], name@, mount_point)
            }
        },
        IpcRequest::UnmountVolume { name } => {
            let i = name_index(before, name@);
            &&& steps.len() == 2
            &&& steps[0] == ServerStep::Unwatch(name)
            &&& if i < 0 {
                error_reply(steps[1], super::not_found_text(name@)) && after == before
            } else if !before[i].is_mounted {
                error_reply(steps[1], super::not_mounted_text(name@)) && after == before
            } else {
                unmounted_reply(steps[1], name@) && after == before.update(i, Volume { is_mounted: false, ..before[i] })
            }
        },
        IpcRequest::ModifyVolume { name, new_name } => {
            let i = name_index(before, name@);
            &&& steps.len() == 1
            &&& match new_name {
                Some(nn) => if name_index(before, nn@) >= 0 && nn@ != name@ {
                    error_reply(steps[0], super::already_exists_text(nn@)) && after == before
                } else if i < 0 {
                    error_reply(steps[0], super::not_found_text(name@)) && after == before
                } else {
                    let renamed = Volume { name: nn, ..before[i] };
                    steps[0] == ServerStep::Respond(IpcResponse::VolumeModified { volume: renamed })
                        && after == before.update(i, renamed)
                },
                None => after == before && if i < 0 {
                    error_reply(steps[0], super::not_found_text(name@))
                } else {
                    steps[0] == ServerStep::Respond(IpcResponse::VolumeModified { volume: before[i] })
                },
            }
        },
        IpcRequest::Shutdown => steps == seq![ServerStep::SaveAndExit] && after == before,
    }
}

/// The daemon's request handling over its registry.
#[derive(Debug)]
pub struct DaemonServer {
    state: DaemonState,
}

impl DaemonServer {
    pub closed spec fn wf(&self) -> bool {
        self.state.wf()
    }

    pub closed spec fn volumes_view(&self) -> Seq<Volume> {
        self.state.volumes_view()
    }

    /// A server over an empty registry.
    pub fn new() -> (s: Self)
        ensures
            s.wf(),
            s.volumes_view().len() == 0,
    {
        DaemonServer { state: DaemonState::new() }
    }

    /// The registry.
    pub fn state(&self) -> (s: &DaemonState)
        ensures
            s.volumes_view() == self.volumes_view(),
            s.wf() == self.wf(),
    {
        &self.state
    }

    /// Serves one request.  Deleting or unmounting first stops the watch on
    /// the volume; a successful mount starts one on the mounted volume
    /// before the answer; a shutdown saves and stops without an answer.
    /// Every other request is answered from the registry operation of the
    /// same name.
    pub fn process_request(&mut self, request: IpcRequest) -> (steps: Vec<ServerStep>)
        requires
            old(self).wf(),
        ensures
            final(self).wf(),
            served(old(self).volumes_view(), request, final(self).volumes_view(), steps@),
    {
        let mut steps: Vec<ServerStep> = Vec::new();
        let ghost before = self.volumes_view();
        let ghost req = request;
        match request {
            IpcRequest::CreateVolume { name } => {
                let resp = match self.state.create_volume(name) {
                    Ok(volume) => IpcResponse::VolumeCreated { volume },
                    Err(message) => IpcResponse::Error { message },
                };
                steps.push(ServerStep::Respond(resp));
                assert(served(before, req, self.volumes_view(), steps@));
            },
            IpcRequest::DeleteVolume { name } => {
                let n2 = name.clone();
                steps.push(ServerStep::Unwatch(n2));
                let resp = match self.state.delete_volume(name.as_str()) {
                    Ok(n) => IpcResponse::VolumeDeleted { name: n },
                    Err(message) => IpcResponse::Error { message },
                };
                steps.push(ServerStep::Respond(resp));
                assert(served(before, req, self.volumes_view(), steps@));
            },
            IpcRequest::ListVolumes => {
                let volumes = self.state.list_volumes();
                steps.push(ServerStep::Respond(IpcResponse::VolumesList { volumes }));
                assert(steps@ =~= seq![ServerStep::Respond(IpcResponse::VolumesList { volumes: steps@[0]->Respond_0->volumes })]);
            },
            IpcRequest::MountVolume { name, mount_point } => {
                match self.state.mount_volume(name.as_str(), mount_point) {
                    Ok((volume_name, path)) => {
                        proof {
                            let i = name_index(before, name@);
                            assert(self.volumes_view()[i].name@ == name@);
                            super::lemma_name_index(self.volumes_view(), name@, i);
                        }
                        let watched = find_mounted(&self.state, name.as_str());
                        match watched {
                            Some(v) => steps.push(ServerStep::Watch(v)),
                            None => {},
                        }
                        steps.push(ServerStep::Respond(IpcResponse::VolumeMounted { name: volume_name, mount_point: path }));
                    },
                    Err(message) => steps.push(ServerStep::Respond(IpcResponse::Error { message })),
                }
                assert(served(before, req, self.volumes_view(), steps@));
            },
            IpcRequest::UnmountVolume { name } => {
                let n2 = name.clone();
                steps.push(ServerStep::Unwatch(n2));
                let resp = match self.state.unmount_volume(name.as_str()) {
                    Ok(n) => IpcResponse::VolumeUnmounted { name: n },
                    Err(message) => IpcResponse::Error { message },
                };
                steps.push(ServerStep::Respond(resp));
                assert(served(before, req, self.volumes_view(), steps@));
            },
            IpcRequest::ModifyVolume { name, new_name } => {
                let resp = match self.state.modify_volume(name.as_str(), new_name) {
                    Ok(volume) => IpcResponse::VolumeModified { volume },
                    Err(message) => IpcResponse::Error { message },
                };
                steps.push(ServerStep::Respond(resp));
                assert(served(before, req, self.volumes_view(), steps@));
            },
            IpcRequest::Shutdown => {
                steps.push(ServerStep::SaveAndExit);
                assert(steps@ =~= seq![ServerStep::SaveAndExit]);
            },
        }
        steps
    }
}

/// The first mounted volume named `name`, as the registry's mounted list
/// gives it.
fn find_mounted(state: &DaemonState, name: &str) -> (r: Option<Volume>)
    requires
        state.wf(),
    ensures
        match r {
            Some(v) => {
                let i = name_index(state.volumes_view(), name@);
                i >= 0 && state.volumes_view()[i].is_mounted && v == state.volumes_view()[i]
            },
            None => {
                let i = name_index(state.volumes_view(), name@);
                i < 0 || !state.volumes_view()[i].is_mounted
            },
        },
{
    let mounted = state.get_mounted_volumes();
    let n = name.to_owned();
    let ghost m = mounted_only(state.volumes_view());
    let mut i: usize = 0;
    while i < mounted.len()
        invariant
            i <= mounted@.len(),
            mounted@ == m,
            state.wf(),
            m == mounted_only(state.volumes_view()),
            n@ == name@,
            forall|t: int| 0 <= t < i ==> mounted@[t].name@ != name@,
        decreases mounted.len() - i,
    {
        if mounted[i].name == n {
            let v = mounted[i].duplicate();
            proof {
                super::lemma_mounted_only_member(state.volumes_view(), i as int);
            }
            return Some(v);
        }
        i += 1;
    }
    proof {
        let k = name_index(state.volumes_view(), name@);
        if k >= 0 && state.volumes_view()[k].is_mounted {
            super::lemma_mounted_only_complete(state.volumes_view(), k);
            let t = choose|t: int| 0 <= t < m.len() && m[t] == state.volumes_view()[k];
            assert(mounted@[t].name@ == name@);
        }
    }
    None
}

} // verus!
