//! A watched volume: a directory that the daemon follows, the count of
//! events seen in it, and its size in readable units.
use vstd::prelude::*;
use crate::external::{chrono_text, format_time, new_uuid, now_millis};
use crate::text::{append_chars, append_str, decimal, decimal_chars, uuid_chars, uuid_text};
use crate::units::{human_readable_bytes, human_readable_text};

verus! {

/// Why a watched volume cannot be made.
#[derive(Clone, Copy, Debug, PartialEq, Eq, Structural)]
pub enum WatchedVolumeError {
    /// The mount path does not exist.
    MountPathMissing,
    /// The mount path is not a directory.
    NotADirectory,
}

/// A watched volume.  Times are milliseconds since the Unix epoch.
#[derive(Debug)]
pub struct Volume {
    id: u128,
    name: String,
    mount_path: String,
    created_at: i64,
    last_accessed: i64,
    total_events: u64,
    is_active: bool,
}

/// The summary of a volume: its name, id, path, creation time, event
/// count, size (`Unknown` when it could not be measured) and status.
pub open spec fn summary_text(
    name: Seq<char>,
    id: u128,
    path: Seq<char>,
    created: Seq<char>,
    events: u64,
    size: Option<u64>,
    active: bool,
) -> Seq<char> {
    "Volume '"@ + name + "' ["@ + uuid_text(id) + "]\n  Path: "@ + path + "\n  Created: "@ + created
        + "\n  Events: "@ + decimal(events as nat) + "\n  Size: "@
        + match size { Some(b) => human_readable_text(b as nat), None => "Unknown"@ }
        + "\n  Status: "@ + if active { "Active"@ } else { "Inactive"@ }
}

impl Volume {
    pub closed spec fn id_view(&self) -> u128 { self.id }
    pub closed spec fn name_view(&self) -> Seq<char> { self.name@ }
    pub closed spec fn mount_path_view(&self) -> Seq<char> { self.mount_path@ }
    pub closed spec fn created_at_view(&self) -> i64 { self.created_at }
    pub closed spec fn last_accessed_view(&self) -> i64 { self.last_accessed }
    pub closed spec fn total_events_view(&self) -> u64 { self.total_events }
    pub closed spec fn is_active_view(&self) -> bool { self.is_active }

    /// A new active volume over the directory `mount_path`; `path_exists`
    /// and `path_is_dir` are what the file system says of the path.
    pub fn new(name: String, mount_path: String, path_exists: bool, path_is_dir: bool) -> (r: Result<Self, WatchedVolumeError>)
        ensures
            !path_exists ==> r == Err::<Self, WatchedVolumeError>(WatchedVolumeError::MountPathMissing),
            path_exists && !path_is_dir ==> r == Err::<Self, WatchedVolumeError>(WatchedVolumeError::NotADirectory),
            path_exists && path_is_dir ==> (r matches Ok(v) && {
                &&& v.name_view() == name@
                &&& v.mount_path_view() == mount_path@
                &&& v.created_at_view() == v.last_accessed_view()
                &&& v.total_events_view() == 0
                &&& v.is_active_view()
            }),
    {
        if !path_exists {
            return Err(WatchedVolumeError::MountPathMissing);
        }
        if !path_is_dir {
            return Err(WatchedVolumeError::NotADirectory);
        }
        let now = now_millis();
        Ok(Volume {
            id: new_uuid(),
            name,
            mount_path,
            created_at: now,
            last_accessed: now,
            total_events: 0,
            is_active: true,
        })
    }

    pub fn id(&self) -> (r: u128)
        ensures
            r == self.id_view(),
    {
        self.id
    }

    pub fn name(&self) -> (r: &str)
        ensures
            r@ == self.name_view(),
    {
        self.name.as_str()
    }

    pub fn mount_path(&self) -> (r: &String)
        ensures
            r@ == self.mount_path_view(),
    {
        &self.mount_path
    }

    pub fn created_at(&self) -> (r: i64)
        ensures
            r == self.created_at_view(),
    {
        self.created_at
    }

    pub fn last_accessed(&self) -> (r: i64)
        ensures
            r == self.last_accessed_view(),
    {
        self.last_accessed
    }

    pub fn total_events(&self) -> (r: u64)
        ensures
            r == self.total_events_view(),
    {
        self.total_events
    }

    pub fn is_active(&self) -> (r: bool)
        ensures
            r == self.is_active_view(),
    {
        self.is_active
    }

    /// Renames the volume.
    pub fn set_name(&mut self, name: String)
        ensures
            final(self).name_view() == name@,
            final(self).id_view() == old(self).id_view(),
            final(self).mount_path_view() == old(self).mount_path_view(),
            final(self).created_at_view() == old(self).created_at_view(),
            final(self).last_accessed_view() == old(self).last_accessed_view(),
            final(self).total_events_view() == old(self).total_events_view(),
            final(self).is_active_view() == old(self).is_active_view(),
    {
        self.name = name;
    }

    /// Records an access now.
    pub fn update_last_accessed(&mut self)
        ensures
            final(self).name_view() == old(self).name_view(),
            final(self).id_view() == old(self).id_view(),
            final(self).mount_path_view() == old(self).mount_path_view(),
            final(self).created_at_view() == old(self).created_at_view(),
            final(self).total_events_view() == old(self).total_events_view(),
            final(self).is_active_view() == old(self).is_active_view(),
    {
        self.last_accessed = now_millis();
    }

    /// Counts one more event, which is an access.
    pub fn increment_event_count(&mut self)
        requires
            old(self).total_events_view() < u64::MAX,
        ensures
            final(self).total_events_view() == old(self).total_events_view() + 1,
            final(self).name_view() == old(self).name_view(),
            final(self).id_view() == old(self).id_view(),
            final(self).mount_path_view() == old(self).mount_path_view(),
            final(self).created_at_view() == old(self).created_at_view(),
            final(self).is_active_view() == old(self).is_active_view(),
    {
        self.total_events = self.total_events + 1;
        self.update_last_accessed();
    }

    /// Marks the volume active.
    pub fn activate(&mut self)
        ensures
            final(self).is_active_view(),
            final(self).name_view() == old(self).name_view(),
            final(self).id_view() == old(self).id_view(),
            final(self).mount_path_view() == old(self).mount_path_view(),
            final(self).created_at_view() == old(self).created_at_view(),
            final(self).last_accessed_view() == old(self).last_accessed_view(),
            final(self).total_events_view() == old(self).total_events_view(),
    {
        self.is_active = true;
    }

    /// Marks the volume inactive.
    pub fn deactivate(&mut self)
        ensures
            !final(self).is_active_view(),
            final(self).name_view() == old(self).name_view(),
            final(self).id_view() == old(self).id_view(),
            final(self).mount_path_view() == old(self).mount_path_view(),
            final(self).created_at_view() == old(self).created_at_view(),
            final(self).last_accessed_view() == old(self).last_accessed_view(),
            final(self).total_events_view() == old(self).total_events_view(),
    {
        self.is_active = false;
    }

    /// The mount path as text.
    pub fn get_mount_path_display(&self) -> (s: String)
        ensures
            s@ == self.mount_path_view(),
    {
        self.mount_path.clone()
    }

    /// The size of the volume's contents, given the total bytes of the files
    /// under its mount path.
    pub fn get_size_info(&self, total_bytes: u64) -> (s: VolumeSize)
        ensures
            s.bytes_view() == total_bytes,
    {
        VolumeSize::new(total_bytes)
    }

    /// A multi-line summary of the volume; `size_bytes` is the measured
    /// size of its contents, where it could be measured.
    pub fn format_summary(&self, size_bytes: Option<u64>) -> (s: String)
        ensures
            (chrono_text(self.created_at_view(), "%Y-%m-%d %H:%M:%S UTC"@) matches Some(t) ==> s@ == summary_text(self.name_view(), self.id_view(),
                self.mount_path_view(), t, self.total_events_view(), size_bytes, self.is_active_view())),
            chrono_text(self.created_at_view(), "%Y-%m-%d %H:%M:%S UTC"@) is None ==> s@ == summary_text(self.name_view(), self.id_view(),
                self.mount_path_view(), Seq::empty(), self.total_events_view(), size_bytes, self.is_active_view()),
    {
        let mut s = "Volume '".to_owned();
        append_str(&mut s, self.name.as_str());
        append_str(&mut s, "' [");
        let id = uuid_chars(self.id);
        append_chars(&mut s, id.as_slice());
        append_str(&mut s, "]\n  Path: ");
        append_str(&mut s, self.mount_path.as_str());
        append_str(&mut s, "\n  Created: ");
        match format_time(self.created_at, "%Y-%m-%d %H:%M:%S UTC") {
            Some(t) => append_str(&mut s, t.as_str()),
            None => {},
        }
        append_str(&mut s, "\n  Events: ");
        let ev = decimal_chars(self.total_events as u128);
        append_chars(&mut s, ev.as_slice());
        append_str(&mut s, "\n  Size: ");
        match size_bytes {
            Some(b) => {
                let h = human_readable_bytes(b);
                append_str(&mut s, h.as_str());
            },
            None => append_str(&mut s, "Unknown"),
        }
        append_str(&mut s, "\n  Status: ");
        if self.is_active {
            append_str(&mut s, "Active");
        } else {
            append_str(&mut s, "Inactive");
        }
        s
    }
}

/// A size in bytes.
#[derive(Debug)]
pub struct VolumeSize {
    bytes: u64,
}

impl VolumeSize {
    pub closed spec fn bytes_view(&self) -> u64 {
        self.bytes
    }

    pub fn new(bytes: u64) -> (s: Self)
        ensures
            s.bytes_view() == bytes,
    {
        VolumeSize { bytes }
    }

    pub fn bytes(&self) -> (b: u64)
        ensures
            b == self.bytes_view(),
    {
        self.bytes
    }

    /// The size in the largest unit that keeps the number at least one:
    /// `512 B`, `1.50 KB`, `1.00 GB`.
    pub fn human_readable(&self) -> (s: String)
        ensures
            s@ == human_readable_text(self.bytes_view() as nat),
    {
        human_readable_bytes(self.bytes)
    }
}

} // verus!
