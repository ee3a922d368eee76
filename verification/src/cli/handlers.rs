//! What each command asks the daemon and what it prints of the answer.
//! A command runs as steps: the caller sends the requests, reads the
//! user's answer where one is asked for, and prints the lines.
use vstd::prelude::*;
use crate::{
    PersistenceLevel, ReclaimPolicy, ReplicationStrategy, StorageClass, Volume, VolumeBindingMode,
    volume_state_name, volume_state_str, volume_type_name, volume_type_str,
};
use crate::external::{debug_path, debug_strings, parse_uuid, path_debug, strings_debug, uuid_parse};
use crate::labels::strings_view;
use crate::service::{DaemonConfig, IpcMessage, IpcResponse};
use crate::text::{
    append_chars, append_str, chars_of, decimal, decimal_chars, is_unicode_whitespace, trim_chars,
    trimmed, uuid_chars, uuid_text, NumberParse,
};
use crate::units::{scaled_chars, scaled_text, size_error_of, size_multiplier, size_number, SizeParseError};
use super::{
    append_padded, cli_volume_type, pad_right, volume_row_text, ClusterCommands, DaemonCommands,
    GalleonClient, StorageClassCommands, VolumeCommands,
};

verus! {

/// The next step of a command.
#[derive(Debug)]
pub enum CommandStep {
    /// Print the notes, send the request and hand the answer on.
    Send { notes: Vec<String>, message: IpcMessage },
    /// Print the prompt and read the user's answer.
    Confirm { prompt: String },
    /// The command is done: print these lines.
    Done(Vec<String>),
    /// The command failed with this message.
    Failed(String),
}

/// The lines of a finished command, or its error, as texts.
pub open spec fn reply_is(r: Result<Vec<String>, String>, want: Result<Seq<Seq<char>>, Seq<char>>) -> bool {
    match want {
        Ok(ls) => r matches Ok(v) && strings_view(v@) == ls,
        Err(t) => r matches Err(e) && e@ == t,
    }
}

/// The error for an answer that does not fit the request.
pub open spec fn unexpected_text() -> Seq<char> {
    "Unexpected response from daemon"@
}

/// What a command that expects `Success` prints: one line.
pub open spec fn success_reply(resp: IpcResponse, line: Seq<char>) -> Result<Seq<Seq<char>>, Seq<char>> {
    match resp {
        IpcResponse::Success => Ok(seq![line]),
        IpcResponse::Error(e) => Err(e@),
        _ => Err(unexpected_text()),
    }
}

/// The message of a size that does not parse, as `u64::from_str` words it.
pub open spec fn size_error_message(e: SizeParseError) -> Seq<char> {
    match e {
        SizeParseError::Empty => "cannot parse integer from empty string"@,
        SizeParseError::InvalidDigit => "invalid digit found in string"@,
        SizeParseError::Overflow => "number too large to fit in target type"@,
    }
}

/// An integer in decimal, with a leading `-` when negative.
pub open spec fn signed_decimal(i: int) -> Seq<char> {
    if i < 0 { "-"@ + decimal((-i) as nat) } else { decimal(i as nat) }
}

/// A time in milliseconds since the Unix epoch as `{:?}` prints a
/// `SystemTime` on Unix: whole seconds (rounded down) and nanoseconds.
pub open spec fn time_debug(ms: int) -> Seq<char> {
    "SystemTime { tv_sec: "@ + signed_decimal(ms / 1000) + ", tv_nsec: "@ + decimal(((ms % 1000) * 1000000) as nat) + " }"@
}

/// A size in bytes and in gibibytes with two decimals.
pub open spec fn size_gb_text(b: nat) -> Seq<char> {
    decimal(b) + " bytes ("@ + scaled_text(b, 3, 2) + " GB)"@
}

/// The lines that describe a volume.
pub open spec fn volume_detail_lines(v: Volume) -> Seq<Seq<char>> {
    seq![
        "  ID: "@ + uuid_text(v.id),
        "  Name: "@ + v.name@,
        "  Type: "@ + volume_type_name(v.volume_type),
        "  Size: "@ + size_gb_text(v.size_bytes as nat),
        "  Storage Class: "@ + v.storage_class@,
        "  State: "@ + volume_state_name(v.state),
    ]
}

/// The header of the volume list.
pub open spec fn volume_list_header() -> Seq<char> {
    pad_right("ID"@, 36) + " "@ + pad_right("NAME"@, 20) + " "@ + pad_right("TYPE"@, 12) + " "@ + pad_right("STATE"@, 12)
        + " "@ + pad_right("STORAGE_CLASS"@, 20) + " "@ + pad_right("SIZE"@, 10)
}

/// The volume list: a note when there is no volume, else a title, the
/// header, a rule and a row per volume.
pub open spec fn volume_list_text(vs: Seq<Volume>) -> Seq<Seq<char>> {
    if vs.len() == 0 {
        seq!["No volumes found."@]
    } else {
        seq!["Volumes:"@, volume_list_header(), Seq::new(112, |i: int| '-')] + vs.map_values(|v: Volume| volume_row_text(v))
    }
}

/// What a volume command prints of the daemon's answer.
pub open spec fn volume_reply(action: VolumeCommands, resp: IpcResponse) -> Result<Seq<Seq<char>>, Seq<char>> {
    match resp {
        IpcResponse::Error(e) => Err(e@),
        _ => match action {
            VolumeCommands::Create { .. } => match resp {
                IpcResponse::Volume(v) => Ok(seq!["Volume created successfully:"@] + volume_detail_lines(v)),
                _ => Err(unexpected_text()),
            },
            VolumeCommands::List => match resp {
                IpcResponse::Volumes(vs) => Ok(volume_list_text(vs@)),
                _ => Err(unexpected_text()),
            },
            VolumeCommands::Get { .. } => match resp {
                IpcResponse::Volume(v) => Ok(seq!["Volume Details:"@] + volume_detail_lines(v)
                    + seq!["  Created: "@ + time_debug(v.created_at as int), "  Updated: "@ + time_debug(v.updated_at as int)]),
                _ => Err(unexpected_text()),
            },
            VolumeCommands::Delete { id, .. } => success_reply(resp, "Volume '"@ + id@ + "' deleted successfully."@),
            VolumeCommands::Mount { .. } => match resp {
                IpcResponse::MountInfo { mount_id, volume_id, mount_path } => Ok(seq![
                    "Volume mounted successfully:"@,
                    "  Mount ID: "@ + uuid_text(mount_id),
                    "  Volume ID: "@ + uuid_text(volume_id),
                    "  Mount Path: "@ + mount_path@,
                ]),
                _ => Err(unexpected_text()),
            },
            VolumeCommands::Unmount { target } => success_reply(resp, "Volume unmounted successfully: "@ + target@),
        },
    }
}

/// The peers as a list under a title, each on a line after `bullet`, or
/// the note when there is none.
pub open spec fn peer_lines(title: Seq<char>, peers: Seq<Seq<char>>, bullet: Seq<char>, none: Seq<char>) -> Seq<Seq<char>> {
    seq![title] + if peers.len() == 0 { seq![none] } else { peers.map_values(|p: Seq<char>| bullet + p) }
}

/// What a cluster command prints of the daemon's answer.
pub open spec fn cluster_reply(action: ClusterCommands, resp: IpcResponse) -> Result<Seq<Seq<char>>, Seq<char>> {
    match resp {
        IpcResponse::Error(e) => Err(e@),
        _ => match action {
            ClusterCommands::Status => match resp {
                IpcResponse::ClusterInfo { node_id, peers, cluster_size } => Ok(seq![
                    "Cluster Status:"@,
                    "  Node ID: "@ + uuid_text(node_id),
                    "  Cluster Size: "@ + decimal(cluster_size as nat) + " nodes"@,
                ] + peer_lines("  Peers:"@, strings_view(peers@), "    - "@, "    (No peers configured)"@)),
                _ => Err(unexpected_text()),
            },
            ClusterCommands::Join { peer_address } => success_reply(resp, "Successfully joined cluster via peer: "@ + peer_address@),
            ClusterCommands::Leave { .. } => success_reply(resp, "Successfully left cluster"@),
            ClusterCommands::Peers => match resp {
                IpcResponse::ClusterInfo { node_id: _, peers, cluster_size: _ } => Ok(peer_lines("Cluster Peers:"@,
                    strings_view(peers@), "  - "@, "  (No peers configured)"@)),
                _ => Err(unexpected_text()),
            },
            ClusterCommands::AddPeer { peer_address } => success_reply(resp, "Successfully added replication peer: "@ + peer_address@),
            ClusterCommands::RemovePeer { peer_address } => success_reply(resp,
                "Successfully removed replication peer: "@ + peer_address@),
            ClusterCommands::ReplicationPeers => match resp {
                IpcResponse::ReplicationPeers(peers) => Ok(peer_lines("Replication Peers:"@, strings_view(peers@), "  - "@,
                    "  (No replication peers configured)"@)),
                _ => Err(unexpected_text()),
            },
        },
    }
}

/// The name of a replication strategy as `{:?}` prints it.
pub open spec fn strategy_name(s: ReplicationStrategy) -> Seq<char> {
    match s {
        ReplicationStrategy::Synchronous => "Synchronous"@,
        ReplicationStrategy::Asynchronous => "Asynchronous"@,
    }
}

/// The name of a persistence level as `{:?}` prints it.
pub open spec fn persistence_name(p: PersistenceLevel) -> Seq<char> {
    match p {
        PersistenceLevel::Basic => "Basic"@,
        PersistenceLevel::Enhanced => "Enhanced"@,
        PersistenceLevel::High => "High"@,
        PersistenceLevel::Maximum => "Maximum"@,
    }
}

/// The lines that describe the daemon's settings.
pub open spec fn config_lines(c: DaemonConfig) -> Seq<Seq<char>> {
    seq![
        "Daemon Configuration:"@,
        "  Storage Path: "@ + path_debug(c.storage_path@),
        "  Block Size: "@ + decimal(c.block_size as nat) + " bytes"@,
        "  Bind Address: "@ + c.bind_address@,
        "  IPC Address: "@ + c.ipc_address@,
        "  Replication Strategy: "@ + strategy_name(c.replication_strategy),
        "  Persistence Level: "@ + persistence_name(c.persistence_level),
        "  Peer Addresses: "@ + strings_debug(strings_view(c.peer_addresses@)),
    ] + match c.mount_point {
        Some(m) => seq!["  Mount Point: "@ + path_debug(m@)],
        None => Seq::empty(),
    }
}

/// What a daemon command prints of the daemon's answer.
pub open spec fn daemon_reply(action: DaemonCommands, resp: IpcResponse) -> Result<Seq<Seq<char>>, Seq<char>> {
    match resp {
        IpcResponse::Error(e) => Err(e@),
        _ => match action {
            DaemonCommands::Status => match resp {
                IpcResponse::DaemonStatus { uptime, version, storage_path, bind_address } => Ok(seq![
                    "Daemon Status:"@,
                    "  Version: "@ + version@,
                    "  Uptime: "@ + decimal(uptime as nat) + " seconds"@,
                    "  Storage Path: "@ + path_debug(storage_path@),
                    "  Bind Address: "@ + bind_address@,
                ]),
                _ => Err(unexpected_text()),
            },
            DaemonCommands::Config => match resp {
                IpcResponse::Config(c) => Ok(config_lines(c)),
                _ => Err(unexpected_text()),
            },
            DaemonCommands::Stop { .. } => success_reply(resp, "Daemon shutdown requested."@),
            DaemonCommands::Restart => success_reply(resp, "Daemon restart initiated."@),
        },
    }
}

/// The name of a reclaim policy as `{:?}` prints it.
pub open spec fn reclaim_name(p: ReclaimPolicy) -> Seq<char> {
    match p {
        ReclaimPolicy::Delete => "Delete"@,
        ReclaimPolicy::Retain => "Retain"@,
    }
}

/// The name of a binding mode as `{:?}` prints it.
pub open spec fn binding_name(m: VolumeBindingMode) -> Seq<char> {
    match m {
        VolumeBindingMode::Immediate => "Immediate"@,
        VolumeBindingMode::WaitForFirstConsumer => "WaitForFirstConsumer"@,
    }
}

/// A row of the storage class list; the policy and mode names are not
/// padded.
pub open spec fn class_row_text(c: StorageClass) -> Seq<char> {
    pad_right(c.name@, 25) + " "@ + pad_right(c.provisioner@, 25) + " "@ + reclaim_name(c.reclaim_policy) + " "@
        + binding_name(c.volume_binding_mode)
}

/// The header of the storage class list.
pub open spec fn class_list_header() -> Seq<char> {
    pad_right("NAME"@, 25) + " "@ + pad_right("PROVISIONER"@, 25) + " "@ + pad_right("RECLAIM_POLICY"@, 15) + " "@
        + pad_right("BINDING_MODE"@, 20)
}

/// What a storage class command prints of the daemon's answer.
pub open spec fn storage_class_reply(action: StorageClassCommands, resp: IpcResponse) -> Result<Seq<Seq<char>>, Seq<char>> {
    match resp {
        IpcResponse::Error(e) => Err(e@),
        _ => match action {
            StorageClassCommands::List => match resp {
                IpcResponse::StorageClasses(cs) => Ok(if cs@.len() == 0 {
                    seq!["No storage classes found."@]
                } else {
                    seq!["Storage Classes:"@, class_list_header(), Seq::new(85, |i: int| '-')]
                        + cs@.map_values(|c: StorageClass| class_row_text(c))
                }),
                _ => Err(unexpected_text()),
            },
            StorageClassCommands::Create { config_file } => success_reply(resp,
                "Storage class created successfully from file: "@ + config_file@),
        },
    }
}

/// The request a volume command sends to look up a volume given by id
/// or, when the text is no UUID, by name.
pub open spec fn lookup_request(m: IpcMessage, id: Seq<char>) -> bool {
    match uuid_parse(id) {
        Some(u) => m == IpcMessage::GetVolume { id: u },
        None => m matches IpcMessage::GetVolumeByName { name } && name@ == id,
    }
}

/// The delete request for a volume given by id or by name.
pub open spec fn delete_request(m: IpcMessage, id: Seq<char>) -> bool {
    match uuid_parse(id) {
        Some(u) => m == IpcMessage::DeleteVolume { id: u },
        None => m matches IpcMessage::DeleteVolumeByName { name } && name@ == id,
    }
}

/// The step sends the request, with no notes.
pub open spec fn sends(s: CommandStep, want: spec_fn(IpcMessage) -> bool) -> bool {
    s matches CommandStep::Send { notes, message } && notes@.len() == 0 && want(message)
}

/// The user's answer confirms: after trimming, it starts with `y` or `Y`.
pub open spec fn confirms(answer: Seq<char>) -> bool {
    trimmed(answer).len() > 0 && (trimmed(answer)[0] == 'y' || trimmed(answer)[0] == 'Y')
}

fn line_of(a: &str, b: &str) -> (s: String)
    ensures
        s@ == a@ + b@,
{
    let mut s = a.to_owned();
    append_str(&mut s, b);
    s
}

fn line3(a: &str, b: &str, c: &str) -> (s: String)
    ensures
        s@ == a@ + b@ + c@,
{
    let mut s = a.to_owned();
    append_str(&mut s, b);
    append_str(&mut s, c);
    s
}

fn uuid_string(id: u128) -> (s: String)
    ensures
        s@ == uuid_text(id),
{
    crate::text::string_of(uuid_chars(id).as_slice())
}

fn decimal_string(n: u64) -> (s: String)
    ensures
        s@ == decimal(n as nat),
{
    crate::text::string_of(decimal_chars(n as u128).as_slice())
}

fn signed_decimal_string(i: i64) -> (s: String)
    ensures
        s@ == signed_decimal(i as int),
{
    if i < 0 {
        let m: i128 = -(i as i128);
        line_of("-", crate::text::string_of(decimal_chars(m as u128).as_slice()).as_str())
    } else {
        crate::text::string_of(decimal_chars(i as u128).as_slice())
    }
}

/// The text `{:?}` prints for a time given in milliseconds (see
/// `time_debug`).
pub fn time_debug_string(ms: i64) -> (s: String)
    ensures
        s@ == time_debug(ms as int),
{
    let mut q: i64 = ms / 1000;
    let mut r: i64 = ms % 1000;
    if r < 0 {
        q = q - 1;
        r = r + 1000;
    }
    assert(q == ms as int / 1000 && r == ms as int % 1000);
    let mut s = "SystemTime { tv_sec: ".to_owned();
    append_str(&mut s, signed_decimal_string(q).as_str());
    append_str(&mut s, ", tv_nsec: ");
    let nanos: u64 = (r as u64) * 1000000;
    append_str(&mut s, decimal_string(nanos).as_str());
    append_str(&mut s, " }");
    s
}

fn size_gb_string(b: u64) -> (s: String)
    ensures
        s@ == size_gb_text(b as nat),
{
    let mut s = decimal_string(b);
    append_str(&mut s, " bytes (");
    append_chars(&mut s, scaled_chars(b, 3, 2).as_slice());
    append_str(&mut s, " GB)");
    s
}

fn volume_detail(v: &Volume, lines: &mut Vec<String>)
    ensures
        strings_view(final(lines)@) == strings_view(old(lines)@) + volume_detail_lines(*v),
{
    let ghost l0 = strings_view(lines@);
    lines.push(line_of("  ID: ", uuid_string(v.id).as_str()));
    lines.push(line_of("  Name: ", v.name.as_str()));
    lines.push(line_of("  Type: ", volume_type_str(v.volume_type)));
    lines.push(line_of("  Size: ", size_gb_string(v.size_bytes).as_str()));
    lines.push(line_of("  Storage Class: ", v.storage_class.as_str()));
    lines.push(line_of("  State: ", volume_state_str(v.state)));
    assert(strings_view(lines@) =~= l0 + volume_detail_lines(*v));
}

fn success_lines(resp: IpcResponse, line: String) -> (r: Result<Vec<String>, String>)
    ensures
        reply_is(r, success_reply(resp, line@)),
{
    match resp {
        IpcResponse::Success => {
            let mut v: Vec<String> = Vec::new();
            v.push(line);
            assert(strings_view(v@) =~= seq![line@]);
            Ok(v)
        },
        IpcResponse::Error(e) => Err(e),
        _ => Err("Unexpected response from daemon".to_owned()),
    }
}

fn peer_list(title: &str, peers: &Vec<String>, bullet: &str, none: &str) -> (r: Vec<String>)
    ensures
        strings_view(r@) == peer_lines(title@, strings_view(peers@), bullet@, none@),
{
    let mut r: Vec<String> = Vec::new();
    r.push(title.to_owned());
    if peers.len() == 0 {
        r.push(none.to_owned());
        assert(strings_view(r@) =~= peer_lines(title@, strings_view(peers@), bullet@, none@));
        return r;
    }
    let mut i: usize = 0;
    while i < peers.len()
        invariant
            i <= peers@.len(),
            peers@.len() > 0,
            strings_view(r@) == seq![title@] + strings_view(peers@).subrange(0, i as int).map_values(|p: Seq<char>| bullet@ + p),
        decreases peers.len() - i,
    {
        let ghost before = strings_view(r@);
        let line = line_of(bullet, peers[i].as_str());
        r.push(line);
        proof {
            let sv = strings_view(peers@);
            assert(strings_view(r@) =~= before.push(bullet@ + sv[i as int]));
            assert(sv.subrange(0, i + 1).map_values(|p: Seq<char>| bullet@ + p) =~= sv.subrange(0, i as int).map_values(|p: Seq<char>| bullet@ + p).push(bullet@ + sv[i as int]));
        }
        i += 1;
    }
    assert(strings_view(peers@).subrange(0, peers@.len() as int) =~= strings_view(peers@));
    r
}

fn size_error_string(e: SizeParseError) -> (s: String)
    ensures
        s@ == size_error_message(e),
{
    match e {
        SizeParseError::Empty => "cannot parse integer from empty string".to_owned(),
        SizeParseError::InvalidDigit => "invalid digit found in string".to_owned(),
        SizeParseError::Overflow => "number too large to fit in target type".to_owned(),
    }
}

fn strategy_str(s: ReplicationStrategy) -> (t: &'static str)
    ensures
        t@ == strategy_name(s),
{
    match s {
        ReplicationStrategy::Synchronous => "Synchronous",
        ReplicationStrategy::Asynchronous => "Asynchronous",
    }
}

fn persistence_str(p: PersistenceLevel) -> (t: &'static str)
    ensures
        t@ == persistence_name(p),
{
    match p {
        PersistenceLevel::Basic => "Basic",
        PersistenceLevel::Enhanced => "Enhanced",
        PersistenceLevel::High => "High",
        PersistenceLevel::Maximum => "Maximum",
    }
}

fn reclaim_str(p: ReclaimPolicy) -> (t: &'static str)
    ensures
        t@ == reclaim_name(p),
{
    match p {
        ReclaimPolicy::Delete => "Delete",
        ReclaimPolicy::Retain => "Retain",
    }
}

fn binding_str(m: VolumeBindingMode) -> (t: &'static str)
    ensures
        t@ == binding_name(m),
{
    match m {
        VolumeBindingMode::Immediate => "Immediate",
        VolumeBindingMode::WaitForFirstConsumer => "WaitForFirstConsumer",
    }
}

fn volume_lookup(id: &String) -> (m: IpcMessage)
    ensures
        lookup_request(m, id@),
{
    match parse_uuid(id.as_str()) {
        Some(u) => IpcMessage::GetVolume { id: u },
        None => IpcMessage::GetVolumeByName { name: id.clone() },
    }
}

fn volume_delete(id: &String) -> (m: IpcMessage)
    ensures
        delete_request(m, id@),
{
    match parse_uuid(id.as_str()) {
        Some(u) => IpcMessage::DeleteVolume { id: u },
        None => IpcMessage::DeleteVolumeByName { name: id.clone() },
    }
}

fn send(message: IpcMessage) -> (s: CommandStep)
    ensures
        s matches CommandStep::Send { notes, message: m } && notes@.len() == 0 && m == message,
{
    CommandStep::Send { notes: Vec::new(), message }
}

impl GalleonClient {
    /// The first step of a volume command.  `create` parses the size
    /// (a size that does not parse fails the command) and notes that a
    /// replica count overrides the class's; `get` and `mount` look a
    /// volume up by id or, failing that, by name; `delete` asks for
    /// confirmation unless forced.
    pub fn volume_command_start(action: &VolumeCommands) -> (s: CommandStep)
        requires
            action matches VolumeCommands::Create { size, .. } ==> (size_number(size@) matches NumberParse::Value(v)
                ==> v * size_multiplier(size@) <= u64::MAX),
        ensures
            match *action {
                VolumeCommands::Create { name, volume_type, size, storage_class, replicas } => match size_number(size@) {
                    NumberParse::Value(n) => s matches CommandStep::Send { notes, message } && {
                        &&& strings_view(notes@) == if replicas is Some {
                            seq!["Note: --replicas parameter will override storage class replication settings"@]
                        } else {
                            Seq::empty()
                        }
                        &&& message matches IpcMessage::CreateVolume { volume_type: t, size_bytes: b, storage_class: c, name: nm }
                            && t == cli_volume_type(volume_type) && b == n * size_multiplier(size@) && c@ == storage_class@
                            && nm == name
                    },
                    other => s matches CommandStep::Failed(e) && e@ == size_error_message(size_error_of(other)),
                },
                VolumeCommands::List => sends(s, |m: IpcMessage| m is ListVolumes),
                VolumeCommands::Get { id } => sends(s, |m: IpcMessage| lookup_request(m, id@)),
                VolumeCommands::Delete { id, force } => if force {
                    sends(s, |m: IpcMessage| delete_request(m, id@))
                } else {
                    s matches CommandStep::Confirm { prompt } && prompt@ == "Are you sure you want to delete volume '"@ + id@
                        + "'? [y/N]"@
                },
                VolumeCommands::Mount { id, path, options } => match uuid_parse(id@) {
                    Some(u) => sends(s, |m: IpcMessage| m matches IpcMessage::MountVolume { id: v, path: p, options: o }
                        && v == u && p@ == path@ && strings_view(o@) == strings_view(options@)),
                    None => sends(s, |m: IpcMessage| m matches IpcMessage::GetVolumeByName { name } && name@ == id@),
                },
                VolumeCommands::Unmount { target } => sends(s, |m: IpcMessage| m matches IpcMessage::UnmountVolume { target: t }
                    && t@ == target@),
            },
    {
        match action {
            VolumeCommands::Create { name, volume_type, size, storage_class, replicas } => {
                match crate::units::parse_size(size.as_str()) {
                    Ok(size_bytes) => {
                        let mut notes: Vec<String> = Vec::new();
                        if replicas.is_some() {
                            notes.push("Note: --replicas parameter will override storage class replication settings".to_owned());
                        }
                        proof {
                            if replicas is Some {
                                assert(strings_view(notes@) =~= seq!["Note: --replicas parameter will override storage class replication settings"@]);
                            } else {
                                assert(strings_view(notes@) =~= Seq::<Seq<char>>::empty());
                            }
                        }
                        let vt: crate::VolumeType = (*volume_type).into();
                        CommandStep::Send {
                            notes,
                            message: IpcMessage::CreateVolume {
                                volume_type: vt,
                                size_bytes,
                                storage_class: storage_class.clone(),
                                name: crate::text::clone_opt_string(name),
                            },
                        }
                    },
                    Err(e) => CommandStep::Failed(size_error_string(e)),
                }
            },
            VolumeCommands::List => send(IpcMessage::ListVolumes),
            VolumeCommands::Get { id } => send(volume_lookup(id)),
            VolumeCommands::Delete { id, force } => {
                if *force {
                    send(volume_delete(id))
                } else {
                    CommandStep::Confirm { prompt: line3("Are you sure you want to delete volume '", id.as_str(), "'? [y/N]") }
                }
            },
            VolumeCommands::Mount { id, path, options } => {
                match parse_uuid(id.as_str()) {
                    Some(u) => send(IpcMessage::MountVolume {
                        id: u,
                        path: path.clone(),
                        options: crate::text::clone_strings(options),
                    }),
                    None => send(IpcMessage::GetVolumeByName { name: id.clone() }),
                }
            },
            VolumeCommands::Unmount { target } => send(IpcMessage::UnmountVolume { target: target.clone() }),
        }
    }

    /// The step after the user answered the delete prompt for `id`: the
    /// delete request when the answer confirms, else the note that
    /// nothing was deleted.
    pub fn delete_after_confirmation(id: &String, answer: &str) -> (s: CommandStep)
        ensures
            confirms(answer@) ==> sends(s, |m: IpcMessage| delete_request(m, id@)),
            !confirms(answer@) ==> (s matches CommandStep::Done(lines) && strings_view(lines@) == seq!["Volume deletion cancelled."@]),
    {
        let a = chars_of(answer);
        let t = trim_chars(a.as_slice());
        if t.len() > 0 && (t[0] == 'y' || t[0] == 'Y') {
            send(volume_delete(id))
        } else {
            let mut lines: Vec<String> = Vec::new();
            lines.push("Volume deletion cancelled.".to_owned());
            assert(strings_view(lines@) =~= seq!["Volume deletion cancelled."@]);
            CommandStep::Done(lines)
        }
    }

    /// The step after looking up by name the volume a mount names: the
    /// mount request for the volume found, else the daemon's error.
    pub fn mount_after_lookup(path: &String, options: &Vec<String>, resp: IpcResponse) -> (s: CommandStep)
        ensures
            match resp {
                IpcResponse::Volume(v) => sends(s, |m: IpcMessage| m matches IpcMessage::MountVolume { id: i, path: p, options: o }
                    && i == v.id && p@ == path@ && strings_view(o@) == strings_view(options@)),
                IpcResponse::Error(e) => s matches CommandStep::Failed(f) && f@ == e@,
                _ => s matches CommandStep::Failed(f) && f@ == unexpected_text(),
            },
    {
        match resp {
            IpcResponse::Volume(v) => send(IpcMessage::MountVolume {
                id: v.id,
                path: path.clone(),
                options: crate::text::clone_strings(options),
            }),
            IpcResponse::Error(e) => CommandStep::Failed(e),
            _ => CommandStep::Failed("Unexpected response from daemon".to_owned()),
        }
    }

    /// What a volume command prints of the daemon's answer, or the error
    /// it fails with.
    pub fn volume_command_reply(action: &VolumeCommands, resp: IpcResponse) -> (r: Result<Vec<String>, String>)
        ensures
            reply_is(r, volume_reply(*action, resp)),
    {
        if let IpcResponse::Error(e) = resp {
            return Err(e);
        }
        match action {
            VolumeCommands::Create { .. } => match resp {
                IpcResponse::Volume(v) => {
                    let mut lines: Vec<String> = Vec::new();
                    lines.push("Volume created successfully:".to_owned());
                    volume_detail(&v, &mut lines);
                    assert(strings_view(lines@) =~= seq!["Volume created successfully:"@] + volume_detail_lines(v));
                    Ok(lines)
                },
                _ => Err("Unexpected response from daemon".to_owned()),
            },
            VolumeCommands::List => match resp {
                IpcResponse::Volumes(vs) => {
                    let lines = GalleonClient::volume_list_lines(&vs);
                    proof {
                        if vs@.len() == 0 {
                            assert(strings_view(lines@) =~= volume_list_text(vs@));
                        } else {
                            let want = volume_list_text(vs@);
                            assert(strings_view(lines@).len() == want.len());
                            assert forall|j: int| 0 <= j < want.len() implies strings_view(lines@)[j] == want[j] by {
                                if j >= 3 {
                                    assert(lines@[(j - 3) + 3]@ == volume_row_text(vs@[j - 3]));
                                }
                            }
                            assert(strings_view(lines@) =~= want);
                        }
                    }
                    Ok(lines)
                },
                _ => Err("Unexpected response from daemon".to_owned()),
            },
            VolumeCommands::Get { .. } => match resp {
                IpcResponse::Volume(v) => {
                    let mut lines: Vec<String> = Vec::new();
                    lines.push("Volume Details:".to_owned());
                    volume_detail(&v, &mut lines);
                    let ghost mid = strings_view(lines@);
                    assert(mid =~= seq!["Volume Details:"@] + volume_detail_lines(v));
                    let c = line_of("  Created: ", time_debug_string(v.created_at).as_str());
                    lines.push(c);
                    let u = line_of("  Updated: ", time_debug_string(v.updated_at).as_str());
                    lines.push(u);
                    assert(strings_view(lines@) =~= mid.push(c@).push(u@));
                    assert(strings_view(lines@) =~= seq!["Volume Details:"@] + volume_detail_lines(v)
                        + seq!["  Created: "@ + time_debug(v.created_at as int), "  Updated: "@ + time_debug(v.updated_at as int)]);
                    Ok(lines)
                },
                _ => Err("Unexpected response from daemon".to_owned()),
            },
            VolumeCommands::Delete { id, .. } => success_lines(resp, line3("Volume '", id.as_str(), "' deleted successfully.")),
            VolumeCommands::Mount { .. } => match resp {
                IpcResponse::MountInfo { mount_id, volume_id, mount_path } => {
                    let mut lines: Vec<String> = Vec::new();
                    lines.push("Volume mounted successfully:".to_owned());
                    lines.push(line_of("  Mount ID: ", uuid_string(mount_id).as_str()));
                    lines.push(line_of("  Volume ID: ", uuid_string(volume_id).as_str()));
                    lines.push(line_of("  Mount Path: ", mount_path.as_str()));
                    assert(strings_view(lines@) =~= seq![
                        "Volume mounted successfully:"@,
                        "  Mount ID: "@ + uuid_text(mount_id),
                        "  Volume ID: "@ + uuid_text(volume_id),
                        "  Mount Path: "@ + mount_path@,
                    ]);
                    Ok(lines)
                },
                _ => Err("Unexpected response from daemon".to_owned()),
            },
            VolumeCommands::Unmount { target } => success_lines(resp, line_of("Volume unmounted successfully: ", target.as_str())),
        }
    }

    /// The request a cluster command sends.
    pub fn cluster_command_request(action: &ClusterCommands) -> (m: IpcMessage)
        ensures
            match *action {
                ClusterCommands::Status => m is ClusterStatus,
                ClusterCommands::Join { peer_address } => m matches IpcMessage::JoinCluster { peer_address: p } && p@ == peer_address@,
                ClusterCommands::Leave { force } => m == IpcMessage::LeaveCluster { force },
                ClusterCommands::Peers => m is ClusterStatus,
                ClusterCommands::AddPeer { peer_address } => m matches IpcMessage::AddReplicationPeer { peer_address: p }
                    && p@ == peer_address@,
                ClusterCommands::RemovePeer { peer_address } => m matches IpcMessage::RemoveReplicationPeer { peer_address: p }
                    && p@ == peer_address@,
                ClusterCommands::ReplicationPeers => m is ListReplicationPeers,
            },
    {
        match action {
            ClusterCommands::Status => IpcMessage::ClusterStatus,
            ClusterCommands::Join { peer_address } => IpcMessage::JoinCluster { peer_address: peer_address.clone() },
            ClusterCommands::Leave { force } => IpcMessage::LeaveCluster { force: *force },
            ClusterCommands::Peers => IpcMessage::ClusterStatus,
            ClusterCommands::AddPeer { peer_address } => IpcMessage::AddReplicationPeer { peer_address: peer_address.clone() },
            ClusterCommands::RemovePeer { peer_address } => IpcMessage::RemoveReplicationPeer { peer_address: peer_address.clone() },
            ClusterCommands::ReplicationPeers => IpcMessage::ListReplicationPeers,
        }
    }

    /// What a cluster command prints of the daemon's answer, or the error
    /// it fails with.
    pub fn cluster_command_reply(action: &ClusterCommands, resp: IpcResponse) -> (r: Result<Vec<String>, String>)
        ensures
            reply_is(r, cluster_reply(*action, resp)),
    {
        if let IpcResponse::Error(e) = resp {
            return Err(e);
        }
        match action {
            ClusterCommands::Status => match resp {
                IpcResponse::ClusterInfo { node_id, peers, cluster_size } => {
                    let mut lines: Vec<String> = Vec::new();
                    lines.push("Cluster Status:".to_owned());
                    lines.push(line_of("  Node ID: ", uuid_string(node_id).as_str()));
                    let mut size_line = "  Cluster Size: ".to_owned();
                    append_chars(&mut size_line, decimal_chars(cluster_size as u128).as_slice());
                    append_str(&mut size_line, " nodes");
                    lines.push(size_line);
                    let ghost head = strings_view(lines@);
                    let rest = peer_list("  Peers:", &peers, "    - ", "    (No peers configured)");
                    let mut all = lines;
                    let mut k: usize = 0;
                    while k < rest.len()
                        invariant
                            k <= rest@.len(),
                            strings_view(all@) == head + strings_view(rest@).subrange(0, k as int),
                        decreases rest.len() - k,
                    {
                        let ghost before = strings_view(all@);
                        let x = rest[k].clone();
                        all.push(x);
                        proof {
                            assert(strings_view(all@) =~= before.push(rest@[k as int]@));
                            assert(strings_view(rest@).subrange(0, k + 1) =~= strings_view(rest@).subrange(0, k as int).push(rest@[k as int]@));
                        }
                        k += 1;
                    }
                    assert(strings_view(rest@).subrange(0, rest@.len() as int) =~= strings_view(rest@));
                    assert(head =~= seq![
                        "Cluster Status:"@,
                        "  Node ID: "@ + uuid_text(node_id),
                        "  Cluster Size: "@ + decimal(cluster_size as nat) + " nodes"@,
                    ]);
                    Ok(all)
                },
                _ => Err("Unexpected response from daemon".to_owned()),
            },
            ClusterCommands::Join { peer_address } => success_lines(resp,
                line_of("Successfully joined cluster via peer: ", peer_address.as_str())),
            ClusterCommands::Leave { .. } => success_lines(resp, "Successfully left cluster".to_owned()),
            ClusterCommands::Peers => match resp {
                IpcResponse::ClusterInfo { node_id: _, peers, cluster_size: _ } => {
                    Ok(peer_list("Cluster Peers:", &peers, "  - ", "  (No peers configured)"))
                },
                _ => Err("Unexpected response from daemon".to_owned()),
            },
            ClusterCommands::AddPeer { peer_address } => success_lines(resp,
                line_of("Successfully added replication peer: ", peer_address.as_str())),
            ClusterCommands::RemovePeer { peer_address } => success_lines(resp,
                line_of("Successfully removed replication peer: ", peer_address.as_str())),
            ClusterCommands::ReplicationPeers => match resp {
                IpcResponse::ReplicationPeers(peers) => {
                    Ok(peer_list("Replication Peers:", &peers, "  - ", "  (No replication peers configured)"))
                },
                _ => Err("Unexpected response from daemon".to_owned()),
            },
        }
    }

    /// The request a daemon command sends.
    pub fn daemon_command_request(action: &DaemonCommands) -> (m: IpcMessage)
        ensures
            match *action {
                DaemonCommands::Status => m is Status,
                DaemonCommands::Config => m is GetConfig,
                DaemonCommands::Stop { .. } => m is Shutdown,
                DaemonCommands::Restart => m is Restart,
            },
    {
        match action {
            DaemonCommands::Status => IpcMessage::Status,
            DaemonCommands::Config => IpcMessage::GetConfig,
            DaemonCommands::Stop { .. } => IpcMessage::Shutdown,
            DaemonCommands::Restart => IpcMessage::Restart,
        }
    }

    /// What a daemon command prints of the daemon's answer, or the error
    /// it fails with.
    pub fn daemon_command_reply(action: &DaemonCommands, resp: IpcResponse) -> (r: Result<Vec<String>, String>)
        ensures
            reply_is(r, daemon_reply(*action, resp)),
    {
        if let IpcResponse::Error(e) = resp {
            return Err(e);
        }
        match action {
            DaemonCommands::Status => match resp {
                IpcResponse::DaemonStatus { uptime, version, storage_path, bind_address } => {
                    let mut lines: Vec<String> = Vec::new();
                    lines.push("Daemon Status:".to_owned());
                    lines.push(line_of("  Version: ", version.as_str()));
                    lines.push(line3("  Uptime: ", decimal_string(uptime).as_str(), " seconds"));
                    lines.push(line_of("  Storage Path: ", debug_path(storage_path.as_str()).as_str()));
                    lines.push(line_of("  Bind Address: ", bind_address.as_str()));
                    assert(strings_view(lines@) =~= seq![
                        "Daemon Status:"@,
                        "  Version: "@ + version@,
                        "  Uptime: "@ + decimal(uptime as nat) + " seconds"@,
                        "  Storage Path: "@ + path_debug(storage_path@),
                        "  Bind Address: "@ + bind_address@,
                    ]);
                    Ok(lines)
                },
                _ => Err("Unexpected response from daemon".to_owned()),
            },
            DaemonCommands::Config => match resp {
                IpcResponse::Config(c) => {
                    let mut lines: Vec<String> = Vec::new();
                    lines.push("Daemon Configuration:".to_owned());
                    lines.push(line_of("  Storage Path: ", debug_path(c.storage_path.as_str()).as_str()));
                    lines.push(line3("  Block Size: ", decimal_string(c.block_size).as_str(), " bytes"));
                    lines.push(line_of("  Bind Address: ", c.bind_address.as_str()));
                    lines.push(line_of("  IPC Address: ", c.ipc_address.as_str()));
                    lines.push(line_of("  Replication Strategy: ", strategy_str(c.replication_strategy)));
                    lines.push(line_of("  Persistence Level: ", persistence_str(c.persistence_level)));
                    lines.push(line_of("  Peer Addresses: ", debug_strings(&c.peer_addresses).as_str()));
                    if let Some(m) = &c.mount_point {
                        lines.push(line_of("  Mount Point: ", debug_path(m.as_str()).as_str()));
                    }
                    assert(strings_view(lines@) =~= config_lines(c));
                    Ok(lines)
                },
                _ => Err("Unexpected response from daemon".to_owned()),
            },
            DaemonCommands::Stop { .. } => success_lines(resp, "Daemon shutdown requested.".to_owned()),
            DaemonCommands::Restart => success_lines(resp, "Daemon restart initiated.".to_owned()),
        }
    }

    /// The request a storage class command sends.
    pub fn storage_class_command_request(action: &StorageClassCommands) -> (m: IpcMessage)
        ensures
            match *action {
                StorageClassCommands::List => m is ListStorageClasses,
                StorageClassCommands::Create { config_file } => m matches IpcMessage::CreateStorageClassFromFile { config_file: f }
                    && f@ == config_file@,
            },
    {
        match action {
            StorageClassCommands::List => IpcMessage::ListStorageClasses,
            StorageClassCommands::Create { config_file } => IpcMessage::CreateStorageClassFromFile { config_file: config_file.clone() },
        }
    }

    /// What a storage class command prints of the daemon's answer, or the
    /// error it fails with.
    pub fn storage_class_command_reply(action: &StorageClassCommands, resp: IpcResponse) -> (r: Result<Vec<String>, String>)
        ensures
            reply_is(r, storage_class_reply(*action, resp)),
    {
        if let IpcResponse::Error(e) = resp {
            return Err(e);
        }
        match action {
            StorageClassCommands::List => match resp {
                IpcResponse::StorageClasses(cs) => {
                    let mut lines: Vec<String> = Vec::new();
                    if cs.len() == 0 {
                        lines.push("No storage classes found.".to_owned());
                        assert(strings_view(lines@) =~= seq!["No storage classes found."@]);
                        return Ok(lines);
                    }
                    lines.push("Storage Classes:".to_owned());
                    let mut h = String::new();
                    append_padded(&mut h, "NAME", 25);
                    append_str(&mut h, " ");
                    append_padded(&mut h, "PROVISIONER", 25);
                    append_str(&mut h, " ");
                    append_padded(&mut h, "RECLAIM_POLICY", 15);
                    append_str(&mut h, " ");
                    append_padded(&mut h, "BINDING_MODE", 20);
                    lines.push(h);
                    let mut rule = String::new();
                    let mut k: usize = 0;
                    while k < 85
                        invariant
                            k <= 85,
                            rule@ == Seq::new(k as nat, |i: int| '-'),
                        decreases 85 - k,
                    {
                        crate::text::push_char(&mut rule, '-');
                        k += 1;
                        assert(rule@ =~= Seq::new(k as nat, |i: int| '-'));
                    }
                    lines.push(rule);
                    let ghost head = strings_view(lines@);
                    assert(head =~= seq!["Storage Classes:"@, class_list_header(), Seq::new(85, |i: int| '-')]);
                    let mut i: usize = 0;
                    while i < cs.len()
                        invariant
                            i <= cs@.len(),
                            strings_view(lines@) == head + cs@.subrange(0, i as int).map_values(|c: StorageClass| class_row_text(c)),
                        decreases cs.len() - i,
                    {
                        let c = &cs[i];
                        let mut row = String::new();
                        append_padded(&mut row, c.name.as_str(), 25);
                        append_str(&mut row, " ");
                        append_padded(&mut row, c.provisioner.as_str(), 25);
                        append_str(&mut row, " ");
                        append_str(&mut row, reclaim_str(c.reclaim_policy));
                        append_str(&mut row, " ");
                        append_str(&mut row, binding_str(c.volume_binding_mode));
                        let ghost before = strings_view(lines@);
                        assert(row@ == class_row_text(cs@[i as int]));
                        lines.push(row);
                        proof {
                            assert(strings_view(lines@) =~= before.push(class_row_text(cs@[i as int])));
                            assert(cs@.subrange(0, i + 1).map_values(|c: StorageClass| class_row_text(c))
                                =~= cs@.subrange(0, i as int).map_values(|c: StorageClass| class_row_text(c)).push(class_row_text(cs@[i as int])));
                        }
                        i += 1;
                    }
                    assert(cs@.subrange(0, cs@.len() as int) =~= cs@);
                    Ok(lines)
                },
                _ => Err("Unexpected response from daemon".to_owned()),
            },
            StorageClassCommands::Create { config_file } => success_lines(resp,
                line_of("Storage class created successfully from file: ", config_file.as_str())),
        }
    }
}

} // verus!
