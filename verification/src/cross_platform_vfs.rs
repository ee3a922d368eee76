//! The in-memory namespace of a mounted volume: inodes, directory entries
//! and the events each change sends towards storage.  The platform driver
//! (FUSE, WinFsp or a plain directory) calls in here and drains the events.
use vstd::prelude::*;
use std::collections::HashMap;
use crate::external::now_millis;
use crate::text::{append_chars, decimal, decimal_chars};
use crate::block_io::{chunk_write_spec, num_chunks, plan_write, ChunkWrite};

verus! {

/// Kind of a namespace node.
#[derive(Clone, Copy, Debug, PartialEq, Eq, Structural)]
pub enum VFSFileType {
    RegularFile,
    Directory,
    Symlink,
}

/// Attributes of a node.  Times are milliseconds since the Unix epoch.
#[derive(Clone, Copy, Debug)]
pub struct VFSFileAttr {
    pub ino: u64,
    pub size: u64,
    pub blocks: u64,
    pub atime: i64,
    pub mtime: i64,
    pub ctime: i64,
    pub kind: VFSFileType,
    pub perm: u16,
    pub nlink: u32,
    pub uid: u32,
    pub gid: u32,
    pub rdev: u32,
    pub blksize: u32,
}

/// The number of 4096-byte blocks that hold `size` bytes.
pub open spec fn blocks_for(size: u64) -> u64 {
    ((size + 4095) / 4096) as u64
}

/// Attributes of a new directory: 4096 bytes in 8 blocks, mode 755, two links.
pub open spec fn is_new_dir(a: VFSFileAttr, ino: u64) -> bool {
    &&& a.ino == ino
    &&& a.size == 4096
    &&& a.blocks == 8
    &&& a.kind == VFSFileType::Directory
    &&& a.perm == 0o755
    &&& a.nlink == 2
    &&& a.uid == 0 && a.gid == 0 && a.rdev == 0
    &&& a.blksize == 4096
    &&& a.atime == a.mtime && a.mtime == a.ctime
}

/// Attributes of a new regular file of `size` bytes: mode 644, one link.
pub open spec fn is_new_file(a: VFSFileAttr, ino: u64, size: u64) -> bool {
    &&& a.ino == ino
    &&& a.size == size
    &&& a.blocks == blocks_for(size)
    &&& a.kind == VFSFileType::RegularFile
    &&& a.perm == 0o644
    &&& a.nlink == 1
    &&& a.uid == 0 && a.gid == 0 && a.rdev == 0
    &&& a.blksize == 4096
    &&& a.atime == a.mtime && a.mtime == a.ctime
}

impl VFSFileAttr {
    /// Attributes of a new directory, stamped now.
    pub fn new_dir(ino: u64) -> (a: Self)
        ensures
            is_new_dir(a, ino),
    {
        let now = now_millis();
        VFSFileAttr {
            ino,
            size: 4096,
            blocks: 8,
            atime: now,
            mtime: now,
            ctime: now,
            kind: VFSFileType::Directory,
            perm: 0o755,
            nlink: 2,
            uid: 0,
            gid: 0,
            rdev: 0,
            blksize: 4096,
        }
    }

    /// Attributes of a new regular file of `size` bytes, stamped now.
    pub fn new_file(ino: u64, size: u64) -> (a: Self)
        requires
            size + 4095 <= u64::MAX,
        ensures
            is_new_file(a, ino, size),
    {
        let now = now_millis();
        VFSFileAttr {
            ino,
            size,
            blocks: (size + 4095) / 4096,
            atime: now,
            mtime: now,
            ctime: now,
            kind: VFSFileType::RegularFile,
            perm: 0o644,
            nlink: 1,
            uid: 0,
            gid: 0,
            rdev: 0,
            blksize: 4096,
        }
    }
}

/// An entry of a directory listing.
#[derive(Debug)]
pub struct VFSDirEntry {
    pub ino: u64,
    pub name: String,
    pub kind: VFSFileType,
}

/// A change in the namespace, sent towards storage.
#[derive(Debug)]
pub enum VFSEvent {
    FileCreated { path: String, ino: u64 },
    FileModified { path: String, ino: u64, offset: u64, data: Vec<u8> },
    FileDeleted { path: String, ino: u64 },
    FileRenamed { old_path: String, new_path: String, ino: u64 },
    DirectoryCreated { path: String, ino: u64 },
    DirectoryDeleted { path: String, ino: u64 },
}

/// The bytes stored in block 0 of a formatted volume: `GalleonVFS v1.0`.
pub open spec fn format_marker() -> Seq<u8> {
    seq![71u8, 97, 108, 108, 101, 111, 110, 86, 70, 83, 32, 118, 49, 46, 48]
}

/// The format marker, as bytes.
pub fn format_marker_bytes() -> (m: Vec<u8>)
    ensures
        m@ == format_marker(),
{
    let m: Vec<u8> = vec![71u8, 97, 108, 108, 101, 111, 110, 86, 70, 83, 32, 118, 49, 46, 48];
    assert(m@ =~= format_marker());
    m
}

/// The block writes that carry a change of a file into the volume: the
/// written data of a modification, split into one chunk per block it
/// touches (each block either replaced whole or patched over what it
/// held); other events write nothing.
pub fn process_vfs_event(event: &VFSEvent) -> (r: Vec<ChunkWrite>)
    requires
        event matches VFSEvent::FileModified { offset, data, .. } ==> offset + data@.len() + 4096 <= u64::MAX,
    ensures
        match *event {
            VFSEvent::FileModified { offset, data, .. } => {
                &&& r@.len() == num_chunks(offset as int, data@.len() as int)
                &&& forall|i: int| 0 <= i < r@.len() ==> #[trigger] r@[i] == chunk_write_spec(offset as int, data@.len() as int, i)
            },
            _ => r@.len() == 0,
        },
{
    match event {
        VFSEvent::FileModified { offset, data, .. } => plan_write(*offset, data.len()),
        _ => Vec::new(),
    }
}

/// Why a namespace operation fails.
#[derive(Clone, Copy, Debug, PartialEq, Eq, Structural)]
pub enum VfsError {
    InodeNotFound,
    FileNotFound,
    DirectoryNotFound,
}

/// Operations of a mounted volume's file system, as the platform driver
/// calls them.
pub trait CrossPlatformVFS {
    /// The namespace's own invariant.
    spec fn consistent(&self) -> bool;

    /// Another inode number can be handed out.
    spec fn has_free_inode(&self) -> bool;

    fn getattr(&self, ino: u64) -> Result<VFSFileAttr, VfsError>;

    fn lookup(&self, parent: u64, name: &str) -> Result<VFSFileAttr, VfsError>;

    fn readdir(&self, ino: u64) -> Vec<VFSDirEntry>;

    fn write(&mut self, ino: u64, offset: u64, data: Vec<u8>) -> (r: Result<u32, VfsError>)
        requires
            old(self).consistent(),
        ensures
            final(self).consistent();

    fn create(&mut self, parent: u64, name: &str, mode: u32) -> (r: Result<VFSFileAttr, VfsError>)
        requires
            old(self).consistent(),
            old(self).has_free_inode(),
        ensures
            final(self).consistent();

    fn mkdir(&mut self, parent: u64, name: &str, mode: u32) -> (r: Result<VFSFileAttr, VfsError>)
        requires
            old(self).consistent(),
            old(self).has_free_inode(),
        ensures
            final(self).consistent();

    fn unlink(&mut self, parent: u64, name: &str) -> (r: Result<(), VfsError>)
        requires
            old(self).consistent(),
        ensures
            final(self).consistent();

    fn rmdir(&mut self, parent: u64, name: &str) -> (r: Result<(), VfsError>)
        requires
            old(self).consistent(),
        ensures
            final(self).consistent();

    fn rename(&mut self, old_parent: u64, old_name: &str, new_parent: u64, new_name: &str) -> (r: Result<(), VfsError>)
        requires
            old(self).consistent(),
        ensures
            final(self).consistent();

    fn setattr(&mut self, ino: u64, size: Option<u64>, mode: Option<u32>) -> (r: Result<VFSFileAttr, VfsError>)
        requires
            old(self).consistent(),
            size matches Some(n) ==> n + 4095 <= u64::MAX,
        ensures
            final(self).consistent();
}

/// The entries of directory `p`, none when it has no list.
pub open spec fn entries_of(dirs: Map<u64, Vec<VFSDirEntry>>, p: u64) -> Seq<VFSDirEntry> {
    if dirs.contains_key(p) { dirs[p]@ } else { Seq::empty() }
}

/// Index of the first entry named `name`, or -1.
pub open spec fn first_named(entries: Seq<VFSDirEntry>, name: Seq<char>) -> int
    decreases entries.len(),
{
    if entries.len() == 0 {
        -1
    } else if entries[0].name@ == name {
        0
    } else {
        let r = first_named(entries.drop_first(), name);
        if r < 0 { -1 } else { r + 1 }
    }
}

/// What a lookup of `name` in `entries` finds: the attributes of the first
/// entry with that name whose inode exists.
pub open spec fn lookup_in(entries: Seq<VFSDirEntry>, inodes: Map<u64, VFSFileAttr>, name: Seq<char>) -> Option<VFSFileAttr>
    decreases entries.len(),
{
    if entries.len() == 0 {
        None
    } else if entries[0].name@ == name && inodes.contains_key(entries[0].ino) {
        Some(inodes[entries[0].ino])
    } else {
        lookup_in(entries.drop_first(), inodes, name)
    }
}

/// Directory entries with the same values.
pub open spec fn same_entries(a: Seq<VFSDirEntry>, b: Seq<VFSDirEntry>) -> bool {
    &&& a.len() == b.len()
    &&& forall|i: int| 0 <= i < a.len() ==> #[trigger] a[i] == b[i]
}

fn copy_entry(e: &VFSDirEntry) -> (r: VFSDirEntry)
    ensures
        r == *e,
{
    VFSDirEntry { ino: e.ino, name: e.name.clone(), kind: e.kind }
}

/// The namespace of a mounted volume.
pub struct GalleonVFS {
    volume_id: u128,
    inodes: HashMap<u64, VFSFileAttr>,
    directory_entries: HashMap<u64, Vec<VFSDirEntry>>,
    path_to_inode: Vec<(String, u64)>,
    inode_to_path: HashMap<u64, String>,
    next_ino: u64,
    events: Vec<VFSEvent>,
}

impl GalleonVFS {
    /// Every inode number is below the next one handed out.
    pub closed spec fn wf(&self) -> bool {
        &&& forall|k: u64| self.inodes@.contains_key(k) ==> k < self.next_ino
        &&& self.next_ino >= 2
    }

    pub closed spec fn volume_id_view(&self) -> u128 {
        self.volume_id
    }

    /// The volume this namespace belongs to.
    pub fn volume_id(&self) -> (id: u128)
        ensures
            id == self.volume_id_view(),
    {
        self.volume_id
    }

    pub closed spec fn inodes_view(&self) -> Map<u64, VFSFileAttr> {
        self.inodes@
    }

    pub closed spec fn dirs_view(&self) -> Map<u64, Vec<VFSDirEntry>> {
        self.directory_entries@
    }

    pub closed spec fn next_ino_view(&self) -> u64 {
        self.next_ino
    }

    /// The events not yet handed to storage, oldest first.
    pub closed spec fn events_view(&self) -> Seq<VFSEvent> {
        self.events@
    }

    /// Paths recorded for inodes.
    pub closed spec fn paths_view(&self) -> Map<u64, String> {
        self.inode_to_path@
    }

    /// A namespace with only the root directory, inode 1.
    pub fn new(volume_id: u128) -> (v: Self)
        ensures
            v.wf(),
            v.volume_id_view() == volume_id,
            v.inodes_view().dom() == set![1u64],
            is_new_dir(v.inodes_view()[1], 1),
            v.dirs_view().dom() == set![1u64],
            v.dirs_view()[1]@.len() == 0,
            v.next_ino_view() == 2,
            v.events_view().len() == 0,
    {
        let mut inodes: HashMap<u64, VFSFileAttr> = HashMap::new();
        inodes.insert(1, VFSFileAttr::new_dir(1));
        let mut dirs: HashMap<u64, Vec<VFSDirEntry>> = HashMap::new();
        dirs.insert(1, Vec::new());
        let v = GalleonVFS {
            volume_id,
            inodes,
            directory_entries: dirs,
            path_to_inode: Vec::new(),
            inode_to_path: HashMap::new(),
            next_ino: 2,
            events: Vec::new(),
        };
        assert(v.inodes@.dom() =~= set![1u64]);
        assert(v.directory_entries@.dom() =~= set![1u64]);
        v
    }

    /// Records the root path `/` for inode 1, as an empty file system
    /// starts.
    pub fn initialize_empty_filesystem(&mut self)
        ensures
            final(self).paths_view() == old(self).paths_view().insert(1, final(self).paths_view()[1]),
            final(self).paths_view()[1]@ == "/"@,
            final(self).inodes_view() == old(self).inodes_view(),
            final(self).dirs_view() == old(self).dirs_view(),
            final(self).next_ino_view() == old(self).next_ino_view(),
            final(self).events_view() == old(self).events_view(),
            final(self).wf() == old(self).wf(),
    {
        self.path_to_inode.push(("/".to_owned(), 1));
        self.inode_to_path.insert(1, "/".to_owned());
    }

    /// Sets up the namespace from the volume's first block, as read (or
    /// `None` when it could not be read).  A missing or empty block means
    /// there is no file system yet: the root path is recorded and the
    /// marker to store in block 0 is handed back for the caller to write.
    /// A block with contents changes nothing and needs no write.
    pub fn load_filesystem_structure(&mut self, block0: Option<Vec<u8>>) -> (w: Option<Vec<u8>>)
        ensures
            final(self).inodes_view() == old(self).inodes_view(),
            final(self).dirs_view() == old(self).dirs_view(),
            final(self).next_ino_view() == old(self).next_ino_view(),
            final(self).events_view() == old(self).events_view(),
            final(self).wf() == old(self).wf(),
            if block0 matches Some(b) && b@.len() > 0 {
                &&& w is None
                &&& final(self).paths_view() == old(self).paths_view()
            } else {
                &&& w matches Some(m) && m@ == format_marker()
                &&& final(self).paths_view() == old(self).paths_view().insert(1, final(self).paths_view()[1])
                &&& final(self).paths_view()[1]@ == "/"@
            },
    {
        let formatted = match &block0 {
            Some(b) => b.len() > 0,
            None => false,
        };
        if formatted {
            None
        } else {
            self.initialize_empty_filesystem();
            Some(format_marker_bytes())
        }
    }

    /// Hands out the next inode number.
    pub fn get_next_ino(&mut self) -> (ino: u64)
        requires
            old(self).next_ino_view() < u64::MAX,
            old(self).wf(),
        ensures
            ino == old(self).next_ino_view(),
            final(self).next_ino_view() == ino + 1,
            final(self).inodes_view() == old(self).inodes_view(),
            final(self).dirs_view() == old(self).dirs_view(),
            final(self).events_view() == old(self).events_view(),
            final(self).paths_view() == old(self).paths_view(),
            final(self).wf(),
    {
        let ino = self.next_ino;
        self.next_ino = self.next_ino + 1;
        ino
    }

    /// Removes and returns the pending events, oldest first.
    pub fn take_events(&mut self) -> (evs: Vec<VFSEvent>)
        ensures
            evs@ == old(self).events_view(),
            final(self).events_view().len() == 0,
            final(self).inodes_view() == old(self).inodes_view(),
            final(self).dirs_view() == old(self).dirs_view(),
            final(self).next_ino_view() == old(self).next_ino_view(),
            final(self).paths_view() == old(self).paths_view(),
            final(self).wf() == old(self).wf(),
    {
        let mut out: Vec<VFSEvent> = Vec::new();
        std::mem::swap(&mut out, &mut self.events);
        out
    }

    /// Queues an event towards storage.
    pub fn send_event(&mut self, event: VFSEvent)
        ensures
            final(self).events_view() == old(self).events_view().push(event),
            final(self).inodes_view() == old(self).inodes_view(),
            final(self).dirs_view() == old(self).dirs_view(),
            final(self).next_ino_view() == old(self).next_ino_view(),
            final(self).paths_view() == old(self).paths_view(),
            final(self).wf() == old(self).wf(),
    {
        self.events.push(event);
    }

    fn add_entry(&mut self, parent: u64, entry: VFSDirEntry)
        ensures
            final(self).dirs_view() == old(self).dirs_view().insert(parent, final(self).dirs_view()[parent]),
            final(self).dirs_view()[parent]@ == entries_of(old(self).dirs_view(), parent).push(entry),
            final(self).inodes_view() == old(self).inodes_view(),
            final(self).next_ino_view() == old(self).next_ino_view(),
            final(self).events_view() == old(self).events_view(),
            final(self).paths_view() == old(self).paths_view(),
            final(self).wf() == old(self).wf(),
    {
        let mut list = match self.directory_entries.remove(&parent) {
            Some(l) => l,
            None => Vec::new(),
        };
        list.push(entry);
        self.directory_entries.insert(parent, list);
    }

    /// Takes the first entry named `name` out of directory `parent`.
    fn take_entry(&mut self, parent: u64, name: &str) -> (r: Result<VFSDirEntry, VfsError>)
        ensures
            final(self).inodes_view() == old(self).inodes_view(),
            final(self).next_ino_view() == old(self).next_ino_view(),
            final(self).events_view() == old(self).events_view(),
            final(self).paths_view() == old(self).paths_view(),
            final(self).wf() == old(self).wf(),
            !old(self).dirs_view().contains_key(parent) ==> r == Err::<VFSDirEntry, VfsError>(VfsError::DirectoryNotFound)
                && final(self).dirs_view() == old(self).dirs_view(),
            old(self).dirs_view().contains_key(parent) ==> {
                let i = first_named(old(self).dirs_view()[parent]@, name@);
                &&& i < 0 ==> r == Err::<VFSDirEntry, VfsError>(VfsError::FileNotFound)
                    && final(self).dirs_view() == old(self).dirs_view()
                &&& i >= 0 ==> r == Ok::<VFSDirEntry, VfsError>(old(self).dirs_view()[parent]@[i])
                    && final(self).dirs_view() == old(self).dirs_view().insert(parent, final(self).dirs_view()[parent])
                    && final(self).dirs_view()[parent]@ == old(self).dirs_view()[parent]@.remove(i)
            },
    {
        let ghost d0 = self.directory_entries@;
        let taken = self.directory_entries.remove(&parent);
        if taken.is_none() {
            assert(self.directory_entries@ =~= d0);
            return Err(VfsError::DirectoryNotFound);
        }
        let mut list = taken.unwrap();
        let ghost l0 = list@;
        assert(l0 == d0[parent]@);
        let mut i: usize = 0;
        assert(l0.subrange(0, l0.len() as int) =~= l0);
        while i < list.len()
            invariant
                list@ == l0,
                list == d0[parent],
                i <= l0.len(),
                d0.contains_key(parent),
                l0 == d0[parent]@,
                self.directory_entries@ == d0.remove(parent),
                self.inodes@ == old(self).inodes@,
                self.next_ino == old(self).next_ino,
                self.events@ == old(self).events@,
                self.inode_to_path@ == old(self).inode_to_path@,
                d0 == old(self).directory_entries@,
                first_named(l0, name@) == if first_named(l0.subrange(i as int, l0.len() as int), name@) < 0 {
                    -1
                } else {
                    first_named(l0.subrange(i as int, l0.len() as int), name@) + i
                },
                forall|t: int| 0 <= t < i ==> l0[t].name@ != name@,
            decreases list.len() - i,
        {
            let ghost rest = l0.subrange(i as int, l0.len() as int);
            assert(rest.drop_first() =~= l0.subrange(i + 1, l0.len() as int));
            assert(rest[0] == l0[i as int]);
            if crate::text::str_eq(&list[i].name, name) {
                let e = list.remove(i);
                self.directory_entries.insert(parent, list);
                proof {
                    assert(self.directory_entries@ =~= d0.insert(parent, self.directory_entries@[parent]));
                }
                return Ok(e);
            }
            i += 1;
        }
        assert(l0.subrange(i as int, l0.len() as int).len() == 0);
        self.directory_entries.insert(parent, list);
        proof {
            assert(self.directory_entries@ =~= d0);
        }
        Err(VfsError::FileNotFound)
    }

    /// The attributes of inode `ino`.
    pub fn getattr(&self, ino: u64) -> (r: Result<VFSFileAttr, VfsError>)
        ensures
            self.inodes_view().contains_key(ino) ==> r == Ok::<VFSFileAttr, VfsError>(self.inodes_view()[ino]),
            !self.inodes_view().contains_key(ino) ==> r == Err::<VFSFileAttr, VfsError>(VfsError::InodeNotFound),
    {
        match self.inodes.get(&ino) {
            Some(a) => Ok(*a),
            None => Err(VfsError::InodeNotFound),
        }
    }

    /// The attributes of the first entry named `name` in directory `parent`
    /// whose inode exists.
    pub fn lookup(&self, parent: u64, name: &str) -> (r: Result<VFSFileAttr, VfsError>)
        ensures
            match lookup_in(entries_of(self.dirs_view(), parent), self.inodes_view(), name@) {
                Some(a) => r == Ok::<VFSFileAttr, VfsError>(a),
                None => r == Err::<VFSFileAttr, VfsError>(VfsError::FileNotFound),
            },
    {
        let entries = match self.directory_entries.get(&parent) {
            Some(e) => e,
            None => {
                return Err(VfsError::FileNotFound);
            },
        };
        let ghost l0 = entries@;
        assert(l0 == entries_of(self.dirs_view(), parent));
        let mut i: usize = 0;
        assert(l0.subrange(0, l0.len() as int) =~= l0);
        while i < entries.len()
            invariant
                entries@ == l0,
                i <= l0.len(),
                l0 == entries_of(self.dirs_view(), parent),
                lookup_in(l0, self.inodes@, name@) == lookup_in(l0.subrange(i as int, l0.len() as int), self.inodes@, name@),
            decreases entries.len() - i,
        {
            let ghost rest = l0.subrange(i as int, l0.len() as int);
            assert(rest.drop_first() =~= l0.subrange(i + 1, l0.len() as int));
            assert(rest[0] == l0[i as int]);
            if crate::text::str_eq(&entries[i].name, name) {
                match self.inodes.get(&entries[i].ino) {
                    Some(a) => {
                        assert(self.inodes@.contains_key(rest[0].ino) && self.inodes@[rest[0].ino] == *a);
                        assert(lookup_in(rest, self.inodes@, name@) == Some(*a));
                        return Ok(*a);
                    },
                    None => {},
                }
            }
            i += 1;
        }
        Err(VfsError::FileNotFound)
    }

    /// Copies of the entries of directory `ino`, none when it has no list.
    pub fn readdir(&self, ino: u64) -> (r: Vec<VFSDirEntry>)
        ensures
            same_entries(r@, entries_of(self.dirs_view(), ino)),
    {
        let mut r: Vec<VFSDirEntry> = Vec::new();
        match self.directory_entries.get(&ino) {
            Some(entries) => {
                let mut i: usize = 0;
                while i < entries.len()
                    invariant
                        i <= entries@.len(),
                        r@.len() == i,
                        forall|t: int| 0 <= t < i ==> #[trigger] r@[t] == entries@[t],
                    decreases entries.len() - i,
                {
                    r.push(copy_entry(&entries[i]));
                    i += 1;
                }
            },
            None => {},
        }
        r
    }

    /// Queues the write of `data` at `offset` of inode `ino` towards storage
    /// and tells how many bytes were taken, as a 32-bit count.
    pub fn write(&mut self, ino: u64, offset: u64, data: Vec<u8>) -> (r: Result<u32, VfsError>)
        ensures
            r == Ok::<u32, VfsError>(data@.len() as u32),
            final(self).events_view().len() == old(self).events_view().len() + 1,
            final(self).events_view().drop_last() == old(self).events_view(),
            final(self).events_view().last() matches VFSEvent::FileModified { path, ino: i, offset: o, data: d }
                && path@ == "inode-"@ + decimal(ino as nat) && i == ino && o == offset && d == data,
            final(self).inodes_view() == old(self).inodes_view(),
            final(self).dirs_view() == old(self).dirs_view(),
            final(self).next_ino_view() == old(self).next_ino_view(),
            final(self).paths_view() == old(self).paths_view(),
            final(self).wf() == old(self).wf(),
    {
        let n = data.len() as u32;
        let mut path = "inode-".to_owned();
        let d = decimal_chars(ino as u128);
        append_chars(&mut path, d.as_slice());
        self.send_event(VFSEvent::FileModified { path, ino, offset, data });
        assert(self.events@.drop_last() =~= old(self).events@);
        Ok(n)
    }

    /// Creates an empty regular file named `name` in directory `parent`
    /// with the next inode number.
    pub fn create(&mut self, parent: u64, name: &str, mode: u32) -> (r: Result<VFSFileAttr, VfsError>)
        requires
            old(self).wf(),
            old(self).next_ino_view() < u64::MAX,
        ensures
            final(self).wf(),
            r matches Ok(a) && {
                let ino = old(self).next_ino_view();
                &&& is_new_file(a, ino, 0)
                &&& final(self).next_ino_view() == ino + 1
                &&& final(self).inodes_view() == old(self).inodes_view().insert(ino, a)
                &&& final(self).dirs_view() == old(self).dirs_view().insert(parent, final(self).dirs_view()[parent])
                &&& final(self).dirs_view()[parent]@ == entries_of(old(self).dirs_view(), parent).push(
                    VFSDirEntry { ino, name: final(self).dirs_view()[parent]@.last().name, kind: VFSFileType::RegularFile })
                &&& final(self).dirs_view()[parent]@.last().name@ == name@
                &&& final(self).events_view().drop_last() == old(self).events_view()
                &&& final(self).events_view().last() matches VFSEvent::FileCreated { path, ino: i } && path@ == name@ && i == ino
            },
            final(self).paths_view() == old(self).paths_view(),
    {
        let ino = self.get_next_ino();
        let attr = VFSFileAttr::new_file(ino, 0);
        self.add_entry(parent, VFSDirEntry { ino, name: name.to_owned(), kind: VFSFileType::RegularFile });
        self.inodes.insert(ino, attr);
        self.send_event(VFSEvent::FileCreated { path: name.to_owned(), ino });
        assert(self.events@.drop_last() =~= old(self).events@);
        Ok(attr)
    }

    /// Creates an empty directory named `name` in directory `parent` with
    /// the next inode number.
    pub fn mkdir(&mut self, parent: u64, name: &str, mode: u32) -> (r: Result<VFSFileAttr, VfsError>)
        requires
            old(self).wf(),
            old(self).next_ino_view() < u64::MAX,
        ensures
            final(self).wf(),
            r matches Ok(a) && {
                let ino = old(self).next_ino_view();
                let with_entry = old(self).dirs_view().insert(parent, final(self).dirs_view()[parent]);
                &&& is_new_dir(a, ino)
                &&& final(self).next_ino_view() == ino + 1
                &&& final(self).inodes_view() == old(self).inodes_view().insert(ino, a)
                &&& final(self).dirs_view().contains_key(ino)
                &&& final(self).dirs_view()[ino]@.len() == 0
                &&& final(self).dirs_view().remove(ino) == with_entry.remove(ino)
                &&& parent != ino ==> final(self).dirs_view()[parent]@ == entries_of(old(self).dirs_view(), parent).push(
                    VFSDirEntry { ino, name: final(self).dirs_view()[parent]@.last().name, kind: VFSFileType::Directory })
                    && final(self).dirs_view()[parent]@.last().name@ == name@
                &&& final(self).events_view().drop_last() == old(self).events_view()
                &&& final(self).events_view().last() matches VFSEvent::DirectoryCreated { path, ino: i } && path@ == name@ && i == ino
            },
            final(self).paths_view() == old(self).paths_view(),
    {
        let ino = self.get_next_ino();
        let attr = VFSFileAttr::new_dir(ino);
        self.add_entry(parent, VFSDirEntry { ino, name: name.to_owned(), kind: VFSFileType::Directory });
        let ghost with_entry = self.directory_entries@;
        self.directory_entries.insert(ino, Vec::new());
        self.inodes.insert(ino, attr);
        self.send_event(VFSEvent::DirectoryCreated { path: name.to_owned(), ino });
        proof {
            assert(self.events@.drop_last() =~= old(self).events@);
            assert(self.directory_entries@.remove(ino) =~= with_entry.remove(ino));
            assert(with_entry == old(self).dirs_view().insert(parent, with_entry[parent]));
            if parent != ino {
                assert(self.directory_entries@[parent] == with_entry[parent]);
            }
        }
        Ok(attr)
    }

    /// Removes the first entry named `name` from directory `parent` and
    /// its inode.
    pub fn unlink(&mut self, parent: u64, name: &str) -> (r: Result<(), VfsError>)
        requires
            old(self).wf(),
        ensures
            final(self).wf(),
            final(self).next_ino_view() == old(self).next_ino_view(),
            final(self).paths_view() == old(self).paths_view(),
            !old(self).dirs_view().contains_key(parent) ==> r == Err::<(), VfsError>(VfsError::DirectoryNotFound)
                && final(self).dirs_view() == old(self).dirs_view() && final(self).inodes_view() == old(self).inodes_view()
                && final(self).events_view() == old(self).events_view(),
            old(self).dirs_view().contains_key(parent) ==> {
                let entries = old(self).dirs_view()[parent]@;
                let i = first_named(entries, name@);
                &&& i < 0 ==> r == Err::<(), VfsError>(VfsError::FileNotFound)
                    && final(self).dirs_view() == old(self).dirs_view() && final(self).inodes_view() == old(self).inodes_view()
                    && final(self).events_view() == old(self).events_view()
                &&& i >= 0 ==> r is Ok
                    && final(self).dirs_view() == old(self).dirs_view().insert(parent, final(self).dirs_view()[parent])
                    && final(self).dirs_view()[parent]@ == entries.remove(i)
                    && final(self).inodes_view() == old(self).inodes_view().remove(entries[i].ino)
                    && final(self).events_view().drop_last() == old(self).events_view()
                    && (final(self).events_view().last() matches VFSEvent::FileDeleted { path, ino }
                        && path@ == name@ && ino == entries[i].ino)
            },
    {
        let e = match self.take_entry(parent, name) {
            Ok(e) => e,
            Err(err) => {
                return Err(err);
            },
        };
        self.inodes.remove(&e.ino);
        self.send_event(VFSEvent::FileDeleted { path: name.to_owned(), ino: e.ino });
        assert(self.events@.drop_last() =~= old(self).events@);
        Ok(())
    }

    /// Removes a directory entry as `unlink` does.
    pub fn rmdir(&mut self, parent: u64, name: &str) -> (r: Result<(), VfsError>)
        requires
            old(self).wf(),
        ensures
            final(self).wf(),
            final(self).next_ino_view() == old(self).next_ino_view(),
            final(self).paths_view() == old(self).paths_view(),
            !old(self).dirs_view().contains_key(parent) ==> r == Err::<(), VfsError>(VfsError::DirectoryNotFound)
                && final(self).dirs_view() == old(self).dirs_view() && final(self).inodes_view() == old(self).inodes_view()
                && final(self).events_view() == old(self).events_view(),
            old(self).dirs_view().contains_key(parent) ==> {
                let entries = old(self).dirs_view()[parent]@;
                let i = first_named(entries, name@);
                &&& i < 0 ==> r == Err::<(), VfsError>(VfsError::FileNotFound)
                    && final(self).dirs_view() == old(self).dirs_view() && final(self).inodes_view() == old(self).inodes_view()
                    && final(self).events_view() == old(self).events_view()
                &&& i >= 0 ==> r is Ok
                    && final(self).dirs_view() == old(self).dirs_view().insert(parent, final(self).dirs_view()[parent])
                    && final(self).dirs_view()[parent]@ == entries.remove(i)
                    && final(self).inodes_view() == old(self).inodes_view().remove(entries[i].ino)
                    && final(self).events_view().drop_last() == old(self).events_view()
            },
    {
        self.unlink(parent, name)
    }

    /// Moves the first entry named `old_name` of directory `old_parent` to
    /// the end of directory `new_parent`, under `new_name`.
    pub fn rename(&mut self, old_parent: u64, old_name: &str, new_parent: u64, new_name: &str) -> (r: Result<(), VfsError>)
        requires
            old(self).wf(),
        ensures
            final(self).wf(),
            final(self).next_ino_view() == old(self).next_ino_view(),
            final(self).paths_view() == old(self).paths_view(),
            final(self).inodes_view() == old(self).inodes_view(),
            !old(self).dirs_view().contains_key(old_parent) ==> r == Err::<(), VfsError>(VfsError::DirectoryNotFound)
                && final(self).dirs_view() == old(self).dirs_view() && final(self).events_view() == old(self).events_view(),
            old(self).dirs_view().contains_key(old_parent) ==> {
                let entries = old(self).dirs_view()[old_parent]@;
                let i = first_named(entries, old_name@);
                &&& i < 0 ==> r == Err::<(), VfsError>(VfsError::FileNotFound)
                    && final(self).dirs_view() == old(self).dirs_view() && final(self).events_view() == old(self).events_view()
                &&& i >= 0 ==> {
                    let removed = old(self).dirs_view().insert(old_parent, final(self).dirs_view()[old_parent]);
                    let moved = final(self).dirs_view()[new_parent]@.last();
                    &&& r is Ok
                    &&& moved.ino == entries[i].ino
                    &&& moved.kind == entries[i].kind
                    &&& moved.name@ == new_name@
                    &&& old_parent != new_parent ==> final(self).dirs_view()[old_parent]@ == entries.remove(i)
                        && final(self).dirs_view()[new_parent]@ == entries_of(old(self).dirs_view(), new_parent).push(moved)
                        && final(self).dirs_view() == old(self).dirs_view().insert(old_parent, final(self).dirs_view()[old_parent])
                            .insert(new_parent, final(self).dirs_view()[new_parent])
                    &&& old_parent == new_parent ==> final(self).dirs_view()[old_parent]@ == entries.remove(i).push(moved)
                        && final(self).dirs_view() == old(self).dirs_view().insert(old_parent, final(self).dirs_view()[old_parent])
                    &&& final(self).events_view().drop_last() == old(self).events_view()
                    &&& final(self).events_view().last() matches VFSEvent::FileRenamed { old_path, new_path, ino }
                        && old_path@ == old_name@ && new_path@ == new_name@ && ino == entries[i].ino
                }
            },
    {
        let e = match self.take_entry(old_parent, old_name) {
            Ok(e) => e,
            Err(err) => {
                return Err(err);
            },
        };
        let ghost mid = self.directory_entries@;
        self.add_entry(new_parent, VFSDirEntry { ino: e.ino, name: new_name.to_owned(), kind: e.kind });
        self.send_event(VFSEvent::FileRenamed { old_path: old_name.to_owned(), new_path: new_name.to_owned(), ino: e.ino });
        proof {
            assert(self.events@.drop_last() =~= old(self).events@);
            if old_parent != new_parent {
                assert(self.directory_entries@[old_parent] == mid[old_parent]);
                assert(self.directory_entries@ =~= old(self).directory_entries@.insert(old_parent, self.directory_entries@[old_parent])
                    .insert(new_parent, self.directory_entries@[new_parent]));
            } else {
                assert(self.directory_entries@ =~= old(self).directory_entries@.insert(old_parent, self.directory_entries@[old_parent]));
            }
        }
        Ok(())
    }

    /// Sets the size of inode `ino` (and its block count and change time)
    /// when a size is given, and gives its attributes.
    pub fn setattr(&mut self, ino: u64, size: Option<u64>, mode: Option<u32>) -> (r: Result<VFSFileAttr, VfsError>)
        requires
            old(self).wf(),
            size matches Some(n) ==> n + 4095 <= u64::MAX,
        ensures
            final(self).wf(),
            final(self).next_ino_view() == old(self).next_ino_view(),
            final(self).dirs_view() == old(self).dirs_view(),
            final(self).events_view() == old(self).events_view(),
            final(self).paths_view() == old(self).paths_view(),
            !old(self).inodes_view().contains_key(ino) ==> r == Err::<VFSFileAttr, VfsError>(VfsError::InodeNotFound)
                && final(self).inodes_view() == old(self).inodes_view(),
            old(self).inodes_view().contains_key(ino) ==> (r matches Ok(a) && {
                let before = old(self).inodes_view()[ino];
                &&& final(self).inodes_view() == old(self).inodes_view().insert(ino, a)
                &&& match size {
                    Some(n) => a == VFSFileAttr { size: n, blocks: blocks_for(n), mtime: a.mtime, ..before },
                    None => a == before,
                }
            }),
    {
        let current = match self.inodes.get(&ino) {
            Some(a) => *a,
            None => {
                return Err(VfsError::InodeNotFound);
            },
        };
        let mut attr = current;
        match size {
            Some(n) => {
                attr.size = n;
                attr.blocks = (n + 4095) / 4096;
                attr.mtime = now_millis();
            },
            None => {},
        }
        self.inodes.insert(ino, attr);
        proof {
            if size is None {
                assert(self.inodes@ =~= old(self).inodes@.insert(ino, attr));
            }
        }
        Ok(attr)
    }
}

impl CrossPlatformVFS for GalleonVFS {
    open spec fn consistent(&self) -> bool {
        self.wf()
    }

    open spec fn has_free_inode(&self) -> bool {
        self.next_ino_view() < u64::MAX
    }

    fn getattr(&self, ino: u64) -> Result<VFSFileAttr, VfsError> {
        GalleonVFS::getattr(self, ino)
    }

    fn lookup(&self, parent: u64, name: &str) -> Result<VFSFileAttr, VfsError> {
        GalleonVFS::lookup(self, parent, name)
    }

    fn readdir(&self, ino: u64) -> Vec<VFSDirEntry> {
        GalleonVFS::readdir(self, ino)
    }

    fn write(&mut self, ino: u64, offset: u64, data: Vec<u8>) -> Result<u32, VfsError> {
        GalleonVFS::write(self, ino, offset, data)
    }

    fn create(&mut self, parent: u64, name: &str, mode: u32) -> Result<VFSFileAttr, VfsError> {
        GalleonVFS::create(self, parent, name, mode)
    }

    fn mkdir(&mut self, parent: u64, name: &str, mode: u32) -> Result<VFSFileAttr, VfsError> {
        GalleonVFS::mkdir(self, parent, name, mode)
    }

    fn unlink(&mut self, parent: u64, name: &str) -> Result<(), VfsError> {
        GalleonVFS::unlink(self, parent, name)
    }

    fn rmdir(&mut self, parent: u64, name: &str) -> Result<(), VfsError> {
        GalleonVFS::rmdir(self, parent, name)
    }

    fn rename(&mut self, old_parent: u64, old_name: &str, new_parent: u64, new_name: &str) -> Result<(), VfsError> {
        GalleonVFS::rename(self, old_parent, old_name, new_parent, new_name)
    }

    fn setattr(&mut self, ino: u64, size: Option<u64>, mode: Option<u32>) -> Result<VFSFileAttr, VfsError> {
        GalleonVFS::setattr(self, ino, size, mode)
    }
}

/// A file made under a name that no existing entry of the directory
/// resolves is what a lookup of that name then finds.
pub proof fn created_file_is_found(
    entries: Seq<VFSDirEntry>,
    inodes: Map<u64, VFSFileAttr>,
    e: VFSDirEntry,
    a: VFSFileAttr,
)
    requires
        lookup_in(entries, inodes, e.name@) is None,
    ensures
        lookup_in(entries.push(e), inodes.insert(e.ino, a), e.name@) == Some(a),
    decreases entries.len(),
{
    let name = e.name@;
    let ins = inodes.insert(e.ino, a);
    if entries.len() == 0 {
        assert(entries.push(e)[0] == e);
    } else {
        let p = entries.push(e);
        assert(p[0] == entries[0]);
        assert(p.drop_first() =~= entries.drop_first().push(e));
        if entries[0].name@ == name && ins.contains_key(entries[0].ino) {
            assert(!inodes.contains_key(entries[0].ino));
            assert(entries[0].ino == e.ino);
        } else {
            created_file_is_found(entries.drop_first(), inodes, e, a);
        }
    }
}

/// Removing a file just made under a fresh name gives back the directory
/// and the inode table as they were.
pub proof fn unlink_undoes_create(
    entries: Seq<VFSDirEntry>,
    inodes: Map<u64, VFSFileAttr>,
    e: VFSDirEntry,
    a: VFSFileAttr,
)
    requires
        first_named(entries, e.name@) < 0,
        !inodes.contains_key(e.ino),
    ensures
        first_named(entries.push(e), e.name@) == entries.len(),
        entries.push(e).remove(entries.len() as int) == entries,
        inodes.insert(e.ino, a).remove(e.ino) == inodes,
    decreases entries.len(),
{
    if entries.len() > 0 {
        let p = entries.push(e);
        assert(p[0] == entries[0]);
        assert(p.drop_first() =~= entries.drop_first().push(e));
        unlink_undoes_create(entries.drop_first(), inodes, e, a);
    } else {
        assert(entries.push(e)[0] == e);
    }
    assert(entries.push(e).remove(entries.len() as int) =~= entries);
    assert(inodes.insert(e.ino, a).remove(e.ino) =~= inodes);
}

/// After a rename into a directory where no entry resolves the new name,
/// a lookup of the new name finds the moved inode.
pub proof fn renamed_entry_is_found(
    entries: Seq<VFSDirEntry>,
    inodes: Map<u64, VFSFileAttr>,
    moved: VFSDirEntry,
)
    requires
        lookup_in(entries, inodes, moved.name@) is None,
        inodes.contains_key(moved.ino),
    ensures
        lookup_in(entries.push(moved), inodes, moved.name@) == Some(inodes[moved.ino]),
    decreases entries.len(),
{
    if entries.len() == 0 {
        assert(entries.push(moved)[0] == moved);
    } else {
        let p = entries.push(moved);
        assert(p[0] == entries[0]);
        assert(p.drop_first() =~= entries.drop_first().push(moved));
        renamed_entry_is_found(entries.drop_first(), inodes, moved);
    }
}

} // verus!
