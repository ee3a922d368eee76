//! A volume as the daemon keeps it: a name, where it is mounted, and
//! whether it is.
use vstd::prelude::*;
use crate::external::{new_uuid, now_millis};
use crate::text::clone_opt_string;

verus! {

/// A daemon volume.  `created_at` is in milliseconds since the Unix epoch.
#[derive(Debug)]
pub struct Volume {
    pub id: u128,
    pub name: String,
    pub mount_point: Option<String>,
    pub is_mounted: bool,
    pub created_at: i64,
}

impl Volume {
    /// A new, unmounted volume with a fresh id.
    pub fn new(name: String) -> (v: Self)
        ensures
            v.name == name,
            v.mount_point is None,
            !v.is_mounted,
    {
        Volume { id: new_uuid(), name, mount_point: None, is_mounted: false, created_at: now_millis() }
    }

    /// Records a mount at `mount_point`.
    pub fn mount(&mut self, mount_point: String)
        ensures
            *final(self) == (Volume { mount_point: Some(mount_point), is_mounted: true, ..*old(self) }),
    {
        self.mount_point = Some(mount_point);
        self.is_mounted = true;
    }

    /// Records an unmount; the last mount point is kept.
    pub fn unmount(&mut self)
        ensures
            *final(self) == (Volume { is_mounted: false, ..*old(self) }),
    {
        self.is_mounted = false;
    }

    /// A copy of the volume.
    pub fn duplicate(&self) -> (v: Self)
        ensures
            v == *self,
    {
        Volume {
            id: self.id,
            name: self.name.clone(),
            mount_point: clone_opt_string(&self.mount_point),
            is_mounted: self.is_mounted,
            created_at: self.created_at,
        }
    }
}

} // verus!
