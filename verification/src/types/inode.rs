//! Inodes: a kind and permission bits packed in one word, with the
//! metadata of a file-system node.
use vstd::prelude::*;
use super::node::{node_code, NodeType};
use crate::text::{append_chars, append_str};

verus! {

/// Mask of the node kind in an inode's packed word.
pub const FILE_TYPE_MASK: u64 = 0xF;

/// Permission bits: execute 1, read 2, write 4.
#[derive(Clone, Copy, Debug, PartialEq, Eq, Structural)]
pub struct Permissions {
    bits: u8,
}

impl Permissions {
    pub closed spec fn bits_view(&self) -> u8 {
        self.bits
    }

    /// Execute permission.
    pub fn execute() -> (p: Self)
        ensures
            p.bits_view() == 1,
    {
        Permissions { bits: 1 }
    }

    /// Read permission.
    pub fn read() -> (p: Self)
        ensures
            p.bits_view() == 2,
    {
        Permissions { bits: 2 }
    }

    /// Write permission.
    pub fn write() -> (p: Self)
        ensures
            p.bits_view() == 4,
    {
        Permissions { bits: 4 }
    }

    /// Read, write and execute.
    pub fn rwx() -> (p: Self)
        ensures
            p.bits_view() == 7,
    {
        Permissions { bits: 7 }
    }

    /// The bits.
    pub fn bits(&self) -> (b: u8)
        ensures
            b == self.bits_view(),
    {
        self.bits
    }

    /// The permissions with exactly these bits, when all are known ones.
    pub fn from_bits(bits: u8) -> (r: Option<Self>)
        ensures
            match r {
                Some(p) => bits < 8 && p.bits_view() == bits,
                None => bits >= 8,
            },
    {
        if bits < 8 { Some(Permissions { bits }) } else { None }
    }

    /// The union of two sets of permissions.
    pub fn union(self, other: Self) -> (p: Self)
        ensures
            p.bits_view() == self.bits_view() | other.bits_view(),
    {
        Permissions { bits: self.bits | other.bits }
    }
}

/// An inode.  Times are milliseconds since the Unix epoch.
pub struct Inode {
    data: u64,
    block_ptrs: [u64; 12],
    file_size: u64,
    owner_uid: u32,
    owner_gid: u32,
    link_count: u32,
    flags: u32,
    generation: u64,
    device_id: Option<u64>,
    compression: Option<String>,
    encryption: Option<String>,
    project_id: Option<u32>,
    quota: Option<u64>,
    snapshot_id: Option<u64>,
    clone_id: Option<u64>,
}

/// The packed word of a kind and permissions: the kind in the low four
/// bits, the permission bits above them.
pub open spec fn packed(kind: NodeType, permissions: u8) -> u64 {
    (node_code(kind) & 0xF) | ((permissions as u64) << 4u64)
}

impl Inode {
    pub closed spec fn data_view(&self) -> u64 {
        self.data
    }

    /// No block pointers, owned by root (uid and gid 0), no flags,
    /// generation 0, and none of the optional device, compression,
    /// encryption, project, quota, snapshot and clone fields set.
    pub closed spec fn blank_fields(&self) -> bool {
        &&& self.block_ptrs@ == Seq::new(12, |_i: int| 0u64)
        &&& self.owner_uid == 0 && self.owner_gid == 0
        &&& self.flags == 0 && self.generation == 0
        &&& self.device_id is None && self.compression is None && self.encryption is None
        &&& self.project_id is None && self.quota is None
        &&& self.snapshot_id is None && self.clone_id is None
    }

    pub closed spec fn link_count_view(&self) -> u32 {
        self.link_count
    }

    pub closed spec fn file_size_view(&self) -> u64 {
        self.file_size
    }

    /// A new empty inode of `kind` with `permissions`: one link, no
    /// blocks, owned by root.
    pub fn new(kind: NodeType, permissions: Permissions) -> (i: Self)
        ensures
            i.data_view() == packed(kind, permissions.bits_view()),
            i.link_count_view() == 1,
            i.file_size_view() == 0,
            i.blank_fields(),
    {
        let c = kind.code();
        let b = permissions.bits();
        let mut data: u64 = 0;
        data = data | (c & FILE_TYPE_MASK);
        data = data | ((b as u64) << 4u64);
        assert(data == (c & 0xF) | ((b as u64) << 4u64)) by (bit_vector)
            requires
                data == (0u64 | (c & 0xFu64)) | ((b as u64) << 4u64);
        let block_ptrs = [0u64; 12];
        assert(block_ptrs@ =~= Seq::new(12, |_i: int| 0u64));
        Inode {
            data,
            block_ptrs,
            file_size: 0,
            owner_uid: 0,
            owner_gid: 0,
            link_count: 1,
            flags: 0,
            generation: 0,
            device_id: None,
            compression: None,
            encryption: None,
            project_id: None,
            quota: None,
            snapshot_id: None,
            clone_id: None,
        }
    }

    /// The packed kind and permission word.
    pub fn data(&self) -> (d: u64)
        ensures
            d == self.data_view(),
    {
        self.data
    }

    /// The node kind stored in the inode.
    pub fn kind(&self) -> (r: Result<NodeType, super::node::NodeTypeError>)
        ensures
            match r {
                Ok(t) => node_code(t) == self.data_view() & 0xF,
                Err(_) => self.data_view() & 0xF > 2,
            },
    {
        NodeType::try_from(self.data & FILE_TYPE_MASK)
    }

    /// How the inode prints: its kind, its permissions as the flags type
    /// shows them, and the packed word in binary.
    pub fn display_string(&self) -> (s: String)
        requires
            self.data_view() & 0xF <= 2,
        ensures
            s@ == inode_text(self.data_view()),
    {
        let kind = NodeType::try_from(self.data & FILE_TYPE_MASK);
        let mut s = "Inode type: ".to_owned();
        match kind {
            Ok(NodeType::File) => append_str(&mut s, "File"),
            Ok(NodeType::Directory) => append_str(&mut s, "Directory"),
            Ok(NodeType::Symlink) => append_str(&mut s, "Symlink"),
            Err(_) => {},
        }
        assert(s@ == "Inode type: "@ + kind_name(self.data & 0xF));
        let ghost head = s@;
        append_str(&mut s, ", permissions: ");
        match self.permissions() {
            Some(p) => {
                append_str(&mut s, "Some(");
                append_flags(&mut s, p.bits());
                append_str(&mut s, ")");
            },
            None => append_str(&mut s, "None"),
        }
        let bits = (self.data >> 4u64) as u8;
        assert(s@ == head + ", permissions: "@ + (if bits < 8 { "Some("@ + permissions_text(bits) + ")"@ } else { "None"@ }));
        append_str(&mut s, ", raw: 0x");
        let digits = binary_chars(self.data);
        append_chars(&mut s, digits.as_slice());
        s
    }

    /// The permission bits stored in the inode, as `Permissions::from_bits`
    /// reads them.
    pub fn permissions(&self) -> (r: Option<Permissions>)
        ensures
            match r {
                Some(p) => p.bits_view() == (self.data_view() >> 4u64) as u8 && p.bits_view() < 8,
                None => (self.data_view() >> 4u64) as u8 >= 8,
            },
    {
        Permissions::from_bits((self.data >> 4u64) as u8)
    }
}

/// The kind and the permissions of a new inode read back as they were given.
pub proof fn inode_fields_round_trip(kind: NodeType, permissions: u8)
    ensures
        packed(kind, permissions) & 0xF == node_code(kind),
        (packed(kind, permissions) >> 4u64) as u8 == permissions,
{
    let c = node_code(kind);
    assert(c <= 2);
    assert(((c & 0xF) | ((permissions as u64) << 4u64)) & 0xF == c) by (bit_vector)
        requires
            c <= 2;
    assert((((c & 0xF) | ((permissions as u64) << 4u64)) >> 4u64) as u8 == permissions) by (bit_vector)
        requires
            c <= 2;
}

/// A new inode of any kind, with permissions made of known flags, prints
/// as `Inode type: <kind>, permissions: Some(<flags>), raw: 0x<binary word>`.
pub proof fn new_inode_prints(kind: NodeType, permissions: u8)
    requires
        permissions < 8,
    ensures
        packed(kind, permissions) & 0xF <= 2,
        inode_text(packed(kind, permissions)) == "Inode type: "@ + kind_name(node_code(kind)) + ", permissions: "@
            + "Some("@ + permissions_text(permissions) + ")"@ + ", raw: 0x"@ + binary(packed(kind, permissions) as nat),
{
    inode_fields_round_trip(kind, permissions);
}

/// The binary digits of `n`, without leading zeros.
pub open spec fn binary(n: nat) -> Seq<char>
    decreases n,
{
    if n < 2 {
        seq![if n == 0 { '0' } else { '1' }]
    } else {
        binary(n / 2).push(if n % 2 == 0 { '0' } else { '1' })
    }
}

fn binary_chars(n: u64) -> (v: Vec<char>)
    ensures
        v@ == binary(n as nat),
    decreases n,
{
    if n < 2 {
        let mut v: Vec<char> = Vec::new();
        v.push(if n == 0 { '0' } else { '1' });
        v
    } else {
        let mut v = binary_chars(n / 2);
        v.push(if n % 2 == 0 { '0' } else { '1' });
        v
    }
}

/// The names of the flags set in permission bits, in flag order.
pub open spec fn flag_names(bits: u8) -> Seq<Seq<char>> {
    (if bits % 2 == 1 { seq!["EXECUTE"@] } else { Seq::empty() })
        + (if (bits / 2) % 2 == 1 { seq!["READ"@] } else { Seq::empty() })
        + (if (bits / 4) % 2 == 1 { seq!["WRITE"@] } else { Seq::empty() })
}

/// Names joined by ` | `.
pub open spec fn joined(parts: Seq<Seq<char>>) -> Seq<char>
    decreases parts.len(),
{
    if parts.len() == 0 {
        Seq::empty()
    } else if parts.len() == 1 {
        parts[0]
    } else {
        joined(parts.drop_last()) + " | "@ + parts.last()
    }
}

/// How permission bits print as flags: the names of the set flags joined
/// by ` | `, or `0x0` when none is set, inside `Permissions(...)`.
pub open spec fn permissions_text(bits: u8) -> Seq<char> {
    "Permissions("@ + (if flag_names(bits).len() == 0 { "0x0"@ } else { joined(flag_names(bits)) }) + ")"@
}

/// The name of the kind a packed word holds.
pub open spec fn kind_name(code: u64) -> Seq<char> {
    if code == 0 { "File"@ } else if code == 1 { "Directory"@ } else { "Symlink"@ }
}

/// How an inode with packed word `data` prints.
pub open spec fn inode_text(data: u64) -> Seq<char> {
    let bits = (data >> 4u64) as u8;
    "Inode type: "@ + kind_name(data & 0xF) + ", permissions: "@
        + (if bits < 8 { "Some("@ + permissions_text(bits) + ")"@ } else { "None"@ })
        + ", raw: 0x"@ + binary(data as nat)
}

/// Appends the flag text of permission bits below 8.
fn append_flags(s: &mut String, bits: u8)
    requires
        bits < 8,
    ensures
        final(s)@ == old(s)@ + permissions_text(bits),
{
    let ghost s0 = old(s)@;
    append_str(s, "Permissions(");
    let ghost names = flag_names(bits);
    let mut count: usize = 0;
    let ghost mut done: Seq<Seq<char>> = Seq::empty();
    if bits % 2 == 1 {
        append_str(s, "EXECUTE");
        count = count + 1;
        proof {
            done = done.push("EXECUTE"@);
        }
    }
    assert(s@ == s0 + "Permissions("@ + joined(done));
    if (bits / 2) % 2 == 1 {
        if count > 0 {
            append_str(s, " | ");
        }
        append_str(s, "READ");
        count = count + 1;
        proof {
            let d0 = done;
            done = done.push("READ"@);
            assert(done.drop_last() =~= d0);
        }
    }
    assert(s@ =~= s0 + "Permissions("@ + joined(done));
    if (bits / 4) % 2 == 1 {
        if count > 0 {
            append_str(s, " | ");
        }
        append_str(s, "WRITE");
        count = count + 1;
        proof {
            let d0 = done;
            done = done.push("WRITE"@);
            assert(done.drop_last() =~= d0);
        }
    }
    assert(done =~= names);
    if count == 0 {
        append_str(s, "0x0");
    }
    append_str(s, ")");
}

} // verus!
