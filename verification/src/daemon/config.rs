//! Where the daemon keeps its configuration, which saved configurations
//! it accepts, and how it repairs mount records on load.
use vstd::prelude::*;
use crate::external::data_dir;
use crate::text::{join_path, path_join};
use crate::types::volume::Volume;

verus! {

/// The saved state of the daemon.
#[derive(Debug)]
pub struct DaemonConfig {
    pub volumes: Vec<Volume>,
    pub version: String,
}

impl Default for DaemonConfig {
    fn default() -> (c: Self)
        ensures
            c.volumes@.len() == 0,
            c.version@ == "0.1.0"@,
    {
        DaemonConfig { volumes: Vec::new(), version: "0.1.0".to_owned() }
    }
}

/// Why the configuration path cannot be found.
#[derive(Clone, Copy, Debug, PartialEq, Eq, Structural)]
pub enum ConfigError {
    /// The platform reports no data directory.
    NoDataDirectory,
    /// The platform has no data directory the daemon knows.
    UnsupportedPlatform,
}

/// The platforms whose data directory the daemon knows.
#[derive(Clone, Copy, Debug, PartialEq, Eq, Structural)]
pub enum Platform {
    Windows,
    MacOs,
    Linux,
    Other,
}

impl ConfigError {
    /// The message of the error on Linux.
    pub fn message(&self) -> (s: String)
        ensures
            s@ == match *self {
                ConfigError::NoDataDirectory => "Failed to get Linux data directory"@,
                ConfigError::UnsupportedPlatform => "Unsupported platform for config directory"@,
            },
    {
        match self {
            ConfigError::NoDataDirectory => "Failed to get Linux data directory".to_owned(),
            ConfigError::UnsupportedPlatform => "Unsupported platform for config directory".to_owned(),
        }
    }

    /// The message of the error on `platform`: the data directory it
    /// lacks, or that the platform has none the daemon knows.
    pub fn message_on(&self, platform: Platform) -> (s: String)
        ensures
            s@ == if *self == ConfigError::UnsupportedPlatform { "Unsupported platform for config directory"@ } else { match platform {
                Platform::Windows => "Failed to get Windows AppData directory"@,
                Platform::MacOs => "Failed to get macOS Application Support directory"@,
                Platform::Linux => "Failed to get Linux data directory"@,
                Platform::Other => "Unsupported platform for config directory"@,
            } },
    {
        if *self == ConfigError::UnsupportedPlatform {
            return "Unsupported platform for config directory".to_owned();
        }
        match platform {
            Platform::Windows => "Failed to get Windows AppData directory".to_owned(),
            Platform::MacOs => "Failed to get macOS Application Support directory".to_owned(),
            Platform::Linux => "Failed to get Linux data directory".to_owned(),
            Platform::Other => "Unsupported platform for config directory".to_owned(),
        }
    }
}

/// Location of the daemon's configuration file.
#[derive(Debug)]
pub struct ConfigManager {
    config_path: String,
}

/// The configuration file under a data directory:
/// `<data>/galleonfs/volumes.json`.
pub open spec fn config_path_under(data: Seq<char>) -> Seq<char> {
    path_join(path_join(data, "galleonfs"@), "volumes.json"@)
}

impl ConfigManager {
    pub closed spec fn path_view(&self) -> Seq<char> {
        self.config_path@
    }

    /// The manager of `volumes.json` in the `galleonfs` folder of the
    /// user's data directory.
    pub fn new() -> (r: Result<Self, ConfigError>)
        ensures
            r is Err ==> r == Err::<Self, ConfigError>(ConfigError::NoDataDirectory),
            r matches Ok(m) ==> exists|d: Seq<char>| #[trigger] config_path_under(d) == m.path_view(),
    {
        match data_dir() {
            Some(d) => Ok(Self::under(d.as_str())),
            None => Err(ConfigError::NoDataDirectory),
        }
    }

    /// The manager for `platform`: a platform without a known data
    /// directory is refused before the directory is looked up; otherwise as
    /// `new`.
    pub fn for_platform(platform: Platform) -> (r: Result<Self, ConfigError>)
        ensures
            platform == Platform::Other ==> r == Err::<Self, ConfigError>(ConfigError::UnsupportedPlatform),
            platform != Platform::Other ==> {
                &&& r is Err ==> r == Err::<Self, ConfigError>(ConfigError::NoDataDirectory)
                &&& r matches Ok(m) ==> exists|d: Seq<char>| #[trigger] config_path_under(d) == m.path_view()
            },
    {
        if platform == Platform::Other {
            return Err(ConfigError::UnsupportedPlatform);
        }
        Self::new()
    }

    /// The manager of `volumes.json` in the `galleonfs` folder of `data`.
    pub fn under(data: &str) -> (m: Self)
        ensures
            m.path_view() == config_path_under(data@),
    {
        let g = "galleonfs".to_owned();
        let gc = crate::text::chars_of(g.as_str());
        let dir = join_path(data, gc.as_slice());
        let f = "volumes.json".to_owned();
        let fc = crate::text::chars_of(f.as_str());
        ConfigManager { config_path: join_path(dir.as_str(), fc.as_slice()) }
    }

    /// The configuration file's path.
    pub fn get_config_path(&self) -> (p: &String)
        ensures
            p@ == self.path_view(),
    {
        &self.config_path
    }
}

/// A loaded configuration is kept only if its version is `0.1.0`; any
/// other version gives the default configuration.
pub fn accept_loaded_config(config: DaemonConfig) -> (c: DaemonConfig)
    ensures
        config.version@ == "0.1.0"@ ==> c == config,
        config.version@ != "0.1.0"@ ==> c.volumes@.len() == 0 && c.version@ == "0.1.0"@,
{
    let expected = "0.1.0".to_owned();
    if config.version == expected {
        config
    } else {
        DaemonConfig::default()
    }
}

/// A volume whose recorded mount point is gone is marked unmounted.
pub open spec fn repaired(v: Volume, missing: Seq<Seq<char>>) -> Volume {
    if v.is_mounted && v.mount_point is Some && missing.contains(v.mount_point->0@) {
        Volume { is_mounted: false, ..v }
    } else {
        v
    }
}

/// Marks unmounted every mounted volume whose mount point is among
/// `missing_mount_points` (those the file system no longer has), and tells
/// whether any volume changed.
pub fn migrate_if_needed(config: &mut DaemonConfig, missing_mount_points: &Vec<String>) -> (changed: bool)
    ensures
        final(config).version == old(config).version,
        final(config).volumes@.len() == old(config).volumes@.len(),
        forall|i: int| 0 <= i < old(config).volumes@.len() ==>
            #[trigger] final(config).volumes@[i] == repaired(old(config).volumes@[i], crate::labels::strings_view(missing_mount_points@)),
        changed == exists|i: int| 0 <= i < old(config).volumes@.len() &&
            #[trigger] repaired(old(config).volumes@[i], crate::labels::strings_view(missing_mount_points@)) != old(config).volumes@[i],
{
    let ghost v0 = config.volumes@;
    let ghost miss = crate::labels::strings_view(missing_mount_points@);
    let mut changed = false;
    let mut i: usize = 0;
    while i < config.volumes.len()
        invariant
            i <= config.volumes@.len(),
            config.volumes@.len() == v0.len(),
            config.version == old(config).version,
            v0 == old(config).volumes@,
            miss == crate::labels::strings_view(missing_mount_points@),
            forall|j: int| 0 <= j < i ==> #[trigger] config.volumes@[j] == repaired(v0[j], miss),
            forall|j: int| i <= j < config.volumes@.len() ==> #[trigger] config.volumes@[j] == v0[j],
            changed == exists|j: int| 0 <= j < i && #[trigger] repaired(v0[j], miss) != v0[j],
        decreases config.volumes.len() - i,
    {
        let gone = match &config.volumes[i].mount_point {
            Some(p) => crate::labels::contains_string(missing_mount_points, p),
            None => false,
        };
        if config.volumes[i].is_mounted && gone {
            let ghost before = config.volumes@;
            let mut v = config.volumes.remove(i);
            v.is_mounted = false;
            config.volumes.insert(i, v);
            changed = true;
            proof {
                assert(config.volumes@ =~= before.update(i as int, v));
                assert(repaired(v0[i as int], miss) != v0[i as int]);
            }
        }
        i += 1;
    }
    changed
}

} // verus!
