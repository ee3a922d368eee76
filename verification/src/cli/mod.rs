//! The command line: its commands, the size arguments it reads, and the
//! text it prints for the daemon's answers.
use vstd::prelude::*;
use crate::{Volume, VolumeState, VolumeType, volume_type_name, volume_state_name, volume_type_str, volume_state_str};
use crate::text::{append_chars, append_str, decimal, decimal_chars, uuid_chars, uuid_text};
use crate::units::{parse_size, scaled_chars, scaled_text, size_multiplier, size_number, SizeParseError};
use crate::text::NumberParse;

pub mod client;
pub mod handlers;

verus! {

/// Volume kinds as the command line names them.
#[derive(Clone, Copy, Debug, PartialEq, Eq, Structural)]
pub enum CliVolumeType {
    Ephemeral,
    Persistent,
    Shared,
}

/// The volume type a command-line kind stands for.
pub open spec fn cli_volume_type(t: CliVolumeType) -> VolumeType {
    match t {
        CliVolumeType::Ephemeral => VolumeType::Ephemeral,
        CliVolumeType::Persistent => VolumeType::Persistent,
        CliVolumeType::Shared => VolumeType::Shared,
    }
}

impl From<CliVolumeType> for VolumeType {
    fn from(cli_type: CliVolumeType) -> (t: VolumeType) {
        match cli_type {
            CliVolumeType::Ephemeral => VolumeType::Ephemeral,
            CliVolumeType::Persistent => VolumeType::Persistent,
            CliVolumeType::Shared => VolumeType::Shared,
        }
    }
}

impl vstd::std_specs::convert::FromSpecImpl<CliVolumeType> for VolumeType {
    open spec fn obeys_from_spec() -> bool {
        true
    }

    open spec fn from_spec(v: CliVolumeType) -> VolumeType {
        cli_volume_type(v)
    }
}

/// Volume commands.
#[derive(Debug)]
pub enum VolumeCommands {
    Create {
        name: Option<String>,
        volume_type: CliVolumeType,
        size: String,
        storage_class: String,
        replicas: Option<u32>,
    },
    List,
    Get { id: String },
    Delete { id: String, force: bool },
    Mount { id: String, path: String, options: Vec<String> },
    Unmount { target: String },
}

/// Cluster commands.
#[derive(Debug)]
pub enum ClusterCommands {
    Status,
    Join { peer_address: String },
    Leave { force: bool },
    Peers,
    AddPeer { peer_address: String },
    RemovePeer { peer_address: String },
    ReplicationPeers,
}

/// Daemon commands.
#[derive(Debug)]
pub enum DaemonCommands {
    Status,
    Config,
    Stop { force: bool },
    Restart,
}

/// Storage class commands.
#[derive(Debug)]
pub enum StorageClassCommands {
    List,
    Create { config_file: String },
}

/// The command groups.
#[derive(Debug)]
#[allow(inconsistent_fields)]
pub enum Commands {
    Volume { action: VolumeCommands },
    Cluster { action: ClusterCommands },
    Daemon { action: DaemonCommands },
    StorageClass { action: StorageClassCommands },
}

/// A parsed command line: the daemon to talk to and what to ask it.
#[derive(Debug)]
pub struct Cli {
    pub daemon_address: String,
    pub command: Commands,
}

/// The daemon address the command line uses unless told otherwise.
pub open spec fn default_daemon_address() -> Seq<char> {
    "127.0.0.1:8090"@
}

/// Client of the daemon for the command line.
#[derive(Debug)]
pub struct GalleonClient {
    daemon_address: String,
}

/// The text of a size in the volume list: one decimal in the largest of
/// GB, MB and KB that it reaches, plain bytes below a kibibyte.
pub open spec fn size_label_text(b: nat) -> Seq<char> {
    if b >= 1_073_741_824 {
        scaled_text(b, 3, 1) + "GB"@
    } else if b >= 1_048_576 {
        scaled_text(b, 2, 1) + "MB"@
    } else if b >= 1024 {
        scaled_text(b, 1, 1) + "KB"@
    } else {
        decimal(b) + "B"@
    }
}



/// `n` spaces.
pub open spec fn spaces(n: nat) -> Seq<char> {
    Seq::new(n, |i: int| ' ')
}

/// `s` padded on the right with spaces to `w` characters.
pub open spec fn pad_right(s: Seq<char>, w: nat) -> Seq<char> {
    if s.len() >= w { s } else { s + spaces((w - s.len()) as nat) }
}

/// A row of the volume list: id, name, type, state, class and size, each
/// left-aligned in its column; the type and state names are not padded.
pub open spec fn volume_row_text(v: Volume) -> Seq<char> {
    pad_right(uuid_text(v.id), 36) + " "@ + pad_right(v.name@, 20) + " "@ + volume_type_name(v.volume_type) + " "@
        + volume_state_name(v.state) + " "@ + pad_right(v.storage_class@, 20) + " "@
        + pad_right(size_label_text(v.size_bytes as nat), 10)
}

/// Appends `s` padded to `w` characters.
pub fn append_padded(out: &mut String, s: &str, w: usize)
    ensures
        final(out)@ == old(out)@ + pad_right(s@, w as nat),
{
    append_str(out, s);
    let n = crate::text::chars_of(s).len();
    let mut k = n;
    let ghost base = old(out)@ + s@;
    while k < w
        invariant
            n == s@.len(),
            n <= k <= w || (n > w && k == n),
            out@ == base + spaces((k - n) as nat),
        decreases w - k,
    {
        crate::text::push_char(out, ' ');
        k += 1;
        assert(out@ =~= base + spaces((k - n) as nat));
    }
    proof {
        if n >= w {
            assert(spaces(0) =~= Seq::<char>::empty());
            assert(out@ =~= base);
        } else {
            assert(k == w);
        }
    }
}



impl GalleonClient {
    pub closed spec fn address_view(&self) -> Seq<char> {
        self.daemon_address@
    }

    /// A client of the daemon at `daemon_address`.
    pub fn new(daemon_address: String) -> (c: Self)
        ensures
            c.address_view() == daemon_address@,
    {
        GalleonClient { daemon_address }
    }

    /// The daemon's address.
    pub fn daemon_address(&self) -> (a: &String)
        ensures
            a@ == self.address_view(),
    {
        &self.daemon_address
    }

    /// Parses a size such as `1G`, `512M`, `2048K`, `10B` or `4096` into
    /// bytes.
    pub fn parse_size(size_str: &str) -> (r: Result<u64, SizeParseError>)
        requires
            size_number(size_str@) matches NumberParse::Value(v) ==> v * size_multiplier(size_str@) <= u64::MAX,
        ensures
            match size_number(size_str@) {
                NumberParse::Value(v) => r == Ok::<u64, SizeParseError>((v * size_multiplier(size_str@)) as u64),
                other => r == Err::<u64, SizeParseError>(crate::units::size_error_of(other)),
            },
    {
        parse_size(size_str)
    }

    /// The size column of the volume list.
    pub fn size_label(size_bytes: u64) -> (s: String)
        ensures
            s@ == size_label_text(size_bytes as nat),
    {
        let (v, unit): (Vec<char>, &str) = if size_bytes >= 1_073_741_824 {
            (scaled_chars(size_bytes, 3, 1), "GB")
        } else if size_bytes >= 1_048_576 {
            (scaled_chars(size_bytes, 2, 1), "MB")
        } else if size_bytes >= 1024 {
            (scaled_chars(size_bytes, 1, 1), "KB")
        } else {
            (decimal_chars(size_bytes as u128), "B")
        };
        let mut s = crate::text::string_of(v.as_slice());
        append_str(&mut s, unit);
        s
    }

    /// The lines printed for a volume list: a note when there is no
    /// volume, else a title, the column header, a rule and one row per
    /// volume.
    pub fn volume_list_lines(volumes: &Vec<Volume>) -> (lines: Vec<String>)
        ensures
            volumes@.len() == 0 ==> lines@.len() == 1 && lines@[0]@ == "No volumes found."@,
            volumes@.len() > 0 ==> {
                &&& lines@.len() == volumes@.len() + 3
                &&& lines@[0]@ == "Volumes:"@
                &&& lines@[1]@ == pad_right("ID"@, 36) + " "@ + pad_right("NAME"@, 20) + " "@ + pad_right("TYPE"@, 12)
                    + " "@ + pad_right("STATE"@, 12) + " "@ + pad_right("STORAGE_CLASS"@, 20) + " "@ + pad_right("SIZE"@, 10)
                &&& lines@[2]@ == Seq::new(112, |i: int| '-')
                &&& forall|i: int| 0 <= i < volumes@.len() ==> (#[trigger] lines@[i + 3])@ == volume_row_text(volumes@[i])
            },
    {
        let mut lines: Vec<String> = Vec::new();
        if volumes.len() == 0 {
            lines.push("No volumes found.".to_owned());
            return lines;
        }
        lines.push("Volumes:".to_owned());
        let mut h = String::new();
        append_padded(&mut h, "ID", 36);
        append_str(&mut h, " ");
        append_padded(&mut h, "NAME", 20);
        append_str(&mut h, " ");
        append_padded(&mut h, "TYPE", 12);
        append_str(&mut h, " ");
        append_padded(&mut h, "STATE", 12);
        append_str(&mut h, " ");
        append_padded(&mut h, "STORAGE_CLASS", 20);
        append_str(&mut h, " ");
        append_padded(&mut h, "SIZE", 10);
        lines.push(h);
        let mut rule = String::new();
        let mut k: usize = 0;
        while k < 112
            invariant
                k <= 112,
                rule@ == Seq::new(k as nat, |i: int| '-'),
            decreases 112 - k,
        {
            crate::text::push_char(&mut rule, '-');
            k += 1;
            assert(rule@ =~= Seq::new(k as nat, |i: int| '-'));
        }
        lines.push(rule);
        let mut i: usize = 0;
        while i < volumes.len()
            invariant
                i <= volumes@.len(),
                volumes@.len() > 0,
                lines@.len() == i + 3,
                lines@[0]@ == "Volumes:"@,
                lines@[1]@ == pad_right("ID"@, 36) + " "@ + pad_right("NAME"@, 20) + " "@ + pad_right("TYPE"@, 12)
                    + " "@ + pad_right("STATE"@, 12) + " "@ + pad_right("STORAGE_CLASS"@, 20) + " "@ + pad_right("SIZE"@, 10),
                lines@[2]@ == Seq::new(112, |i: int| '-'),
                forall|t: int| 0 <= t < i ==> (#[trigger] lines@[t + 3])@ == volume_row_text(volumes@[t]),
            decreases volumes.len() - i,
        {
            let v = &volumes[i];
            let mut row = String::new();
            let id = uuid_chars(v.id);
            let id_s = crate::text::string_of(id.as_slice());
            append_padded(&mut row, id_s.as_str(), 36);
            append_str(&mut row, " ");
            append_padded(&mut row, v.name.as_str(), 20);
            append_str(&mut row, " ");
            append_str(&mut row, volume_type_str(v.volume_type));
            append_str(&mut row, " ");
            append_str(&mut row, volume_state_str(v.state));
            append_str(&mut row, " ");
            append_padded(&mut row, v.storage_class.as_str(), 20);
            append_str(&mut row, " ");
            let size = Self::size_label(v.size_bytes);
            append_padded(&mut row, size.as_str(), 10);
            let ghost before = lines@;
            lines.push(row);
            proof {
                assert(lines@[i + 3]@ == volume_row_text(volumes@[i as int]));
                assert forall|t: int| 0 <= t < i + 1 implies (#[trigger] lines@[t + 3])@ == volume_row_text(volumes@[t]) by {
                    if t < i {
                        assert(lines@[t + 3] == before[t + 3]);
                    }
                }
            }
            i += 1;
        }
        lines
    }
}

} // verus!
