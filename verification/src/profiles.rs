//! Compression profiles for the kinds of file found on a system, and the
//! choice of one from a file's path.

use vstd::prelude::*;
use crate::envelope::{BinaryWriteOptions, CompressionCodec};
use crate::text::{contains, ends_with, lowercased, same_ignoring_ascii_case, starts_with};
use crate::text::{str_contains, str_ends_with, str_eq_ignore_ascii_case, str_starts_with};
use crate::text::str_to_lowercase;

verus! {

/// A codec and level recommended for one kind of data.
#[derive(Clone, Copy, Debug)]
pub struct CompressionProfile {
    /// Name of the profile.
    pub name: &'static str,
    /// Codec to use.
    pub codec: CompressionCodec,
    /// Codec-specific level; `None` leaves the choice to the codec.
    pub level: Option<i32>,
    /// Size expected after compression, in percent of the uncompressed size.
    pub expected_ratio_percent: u32,
    /// What the profile is meant for.
    pub description: &'static str,
}

impl CompressionProfile {
    /// A profile with the given fields.
    pub fn new(
        name: &'static str,
        codec: CompressionCodec,
        level: Option<i32>,
        expected_ratio_percent: u32,
        description: &'static str,
    ) -> (r: Self)
        ensures
            r == (CompressionProfile { name, codec, level, expected_ratio_percent, description }),
    {
        CompressionProfile { name, codec, level, expected_ratio_percent, description }
    }

    /// The options that write an envelope as this profile recommends.
    pub fn to_write_options(&self) -> (r: BinaryWriteOptions)
        ensures
            r.codec == self.codec,
            r.level == self.level,
    {
        BinaryWriteOptions { codec: self.codec, level: self.level }
    }
}

/// The predefined profiles.
#[derive(Clone, Copy, Debug, PartialEq, Eq, Structural)]
pub enum ProfileKind {
    /// Kernel and boot files: slow to write, best ratio.
    Kernel,
    /// Shared libraries.
    Libraries,
    /// Executables.
    Binaries,
    /// Configuration files: fast.
    Config,
    /// Temporary and frequently changing data: not compressed.
    Runtime,
    /// Backups and cold storage.
    Archive,
    /// The general-purpose choice.
    Balanced,
    /// Databases and logs.
    Database,
    /// Media and archives that are compressed already: not compressed again.
    Media,
}

impl ProfileKind {
    /// The profile that this kind stands for.
    pub open spec fn spec_profile(self) -> CompressionProfile {
        match self {
            ProfileKind::Kernel => CompressionProfile {
                name: "Kernel",
                codec: CompressionCodec::Zstd,
                level: Some(19),
                expected_ratio_percent: 25,
                description: "Maximum compression for kernel/boot files",
            },
            ProfileKind::Libraries => CompressionProfile {
                name: "Libraries",
                codec: CompressionCodec::Zstd,
                level: Some(9),
                expected_ratio_percent: 40,
                description: "Balanced compression for shared libraries",
            },
            ProfileKind::Binaries => CompressionProfile {
                name: "Binaries",
                codec: CompressionCodec::Zstd,
                level: Some(6),
                expected_ratio_percent: 45,
                description: "Moderate compression for executables",
            },
            ProfileKind::Config => CompressionProfile {
                name: "Config",
                codec: CompressionCodec::Lz4,
                level: None,
                expected_ratio_percent: 50,
                description: "Fast LZ4 compression for config files",
            },
            ProfileKind::Runtime => CompressionProfile {
                name: "Runtime",
                codec: CompressionCodec::Uncompressed,
                level: None,
                expected_ratio_percent: 100,
                description: "No compression for runtime/temp data",
            },
            ProfileKind::Archive => CompressionProfile {
                name: "Archive",
                codec: CompressionCodec::Zstd,
                level: Some(22),
                expected_ratio_percent: 20,
                description: "Maximum compression for archives/backups",
            },
            ProfileKind::Balanced => CompressionProfile {
                name: "Balanced",
                codec: CompressionCodec::Zstd,
                level: Some(3),
                expected_ratio_percent: 55,
                description: "General-purpose balanced compression",
            },
            ProfileKind::Database => CompressionProfile {
                name: "Database",
                codec: CompressionCodec::Zstd,
                level: Some(5),
                expected_ratio_percent: 35,
                description: "Compression for databases and logs",
            },
            ProfileKind::Media => CompressionProfile {
                name: "Media",
                codec: CompressionCodec::Uncompressed,
                level: None,
                expected_ratio_percent: 98,
                description: "Skip compression for pre-compressed media",
            },
        }
    }

    /// The profile that this kind stands for.
    #[verifier::when_used_as_spec(spec_profile)]
    pub fn profile(self) -> (r: CompressionProfile)
        ensures
            r == self.spec_profile(),
    {
        match self {
            ProfileKind::Kernel => CompressionProfile {
                name: "Kernel",
                codec: CompressionCodec::Zstd,
                level: Some(19),
                expected_ratio_percent: 25,
                description: "Maximum compression for kernel/boot files",
            },
            ProfileKind::Libraries => CompressionProfile {
                name: "Libraries",
                codec: CompressionCodec::Zstd,
                level: Some(9),
                expected_ratio_percent: 40,
                description: "Balanced compression for shared libraries",
            },
            ProfileKind::Binaries => CompressionProfile {
                name: "Binaries",
                codec: CompressionCodec::Zstd,
                level: Some(6),
                expected_ratio_percent: 45,
                description: "Moderate compression for executables",
            },
            ProfileKind::Config => CompressionProfile {
                name: "Config",
                codec: CompressionCodec::Lz4,
                level: None,
                expected_ratio_percent: 50,
                description: "Fast LZ4 compression for config files",
            },
            ProfileKind::Runtime => CompressionProfile {
                name: "Runtime",
                codec: CompressionCodec::Uncompressed,
                level: None,
                expected_ratio_percent: 100,
                description: "No compression for runtime/temp data",
            },
            ProfileKind::Archive => CompressionProfile {
                name: "Archive",
                codec: CompressionCodec::Zstd,
                level: Some(22),
                expected_ratio_percent: 20,
                description: "Maximum compression for archives/backups",
            },
            ProfileKind::Balanced => CompressionProfile {
                name: "Balanced",
                codec: CompressionCodec::Zstd,
                level: Some(3),
                expected_ratio_percent: 55,
                description: "General-purpose balanced compression",
            },
            ProfileKind::Database => CompressionProfile {
                name: "Database",
                codec: CompressionCodec::Zstd,
                level: Some(5),
                expected_ratio_percent: 35,
                description: "Compression for databases and logs",
            },
            ProfileKind::Media => CompressionProfile {
                name: "Media",
                codec: CompressionCodec::Uncompressed,
                level: None,
                expected_ratio_percent: 98,
                description: "Skip compression for pre-compressed media",
            },
        }
    }
}

/// Whether a lowercase path has the marks of: kernel and boot files.
pub open spec fn looks_like_kernel(p: Seq<char>) -> bool {
    ||| starts_with(p, "/boot"@)
    ||| contains(p, "vmlinuz"@)
    ||| contains(p, "initr"@)
    ||| ends_with(p, ".ko"@)
    ||| ends_with(p, ".ko.zst"@)
    ||| ends_with(p, ".ko.xz"@)
}

/// Whether a lowercase path has the marks of: shared libraries.
pub open spec fn looks_like_libraries(p: Seq<char>) -> bool {
    ||| ends_with(p, ".so"@)
    ||| contains(p, ".so."@)
    ||| ends_with(p, ".dll"@)
    ||| starts_with(p, "/lib"@)
    ||| starts_with(p, "/usr/lib"@)
}

/// Whether a lowercase path has the marks of: executables.
pub open spec fn looks_like_binaries(p: Seq<char>) -> bool {
    ||| starts_with(p, "/bin"@)
    ||| starts_with(p, "/sbin"@)
    ||| starts_with(p, "/usr/bin"@)
    ||| starts_with(p, "/usr/sbin"@)
    ||| starts_with(p, "/usr/local/bin"@)
}

/// Whether a lowercase path has the marks of: configuration files.
pub open spec fn looks_like_config(p: Seq<char>) -> bool {
    ||| starts_with(p, "/etc"@)
    ||| ends_with(p, ".conf"@)
    ||| ends_with(p, ".cfg"@)
    ||| ends_with(p, ".ini"@)
    ||| ends_with(p, ".yaml"@)
    ||| ends_with(p, ".yml"@)
    ||| ends_with(p, ".toml"@)
    ||| ends_with(p, ".json"@)
    ||| ends_with(p, ".xml"@)
}

/// Whether a lowercase path has the marks of: temporary and runtime data.
pub open spec fn looks_like_runtime(p: Seq<char>) -> bool {
    ||| starts_with(p, "/tmp"@)
    ||| starts_with(p, "/var/tmp"@)
    ||| starts_with(p, "/run"@)
    ||| starts_with(p, "/dev/shm"@)
    ||| contains(p, "/cache/"@)
}

/// Whether a lowercase path has the marks of: databases and logs.
pub open spec fn looks_like_database(p: Seq<char>) -> bool {
    ||| ends_with(p, ".db"@)
    ||| ends_with(p, ".sqlite"@)
    ||| ends_with(p, ".sqlite3"@)
    ||| ends_with(p, ".log"@)
    ||| starts_with(p, "/var/log"@)
    ||| ends_with(p, ".journal"@)
}

/// Whether a lowercase path has the marks of: media and archives that are compressed already.
pub open spec fn looks_like_media(p: Seq<char>) -> bool {
    ||| ends_with(p, ".jpg"@)
    ||| ends_with(p, ".jpeg"@)
    ||| ends_with(p, ".png"@)
    ||| ends_with(p, ".gif"@)
    ||| ends_with(p, ".webp"@)
    ||| ends_with(p, ".mp3"@)
    ||| ends_with(p, ".mp4"@)
    ||| ends_with(p, ".mkv"@)
    ||| ends_with(p, ".webm"@)
    ||| ends_with(p, ".ogg"@)
    ||| ends_with(p, ".flac"@)
    ||| ends_with(p, ".zip"@)
    ||| ends_with(p, ".gz"@)
    ||| ends_with(p, ".xz"@)
    ||| ends_with(p, ".zst"@)
    ||| ends_with(p, ".bz2"@)
    ||| ends_with(p, ".7z"@)
    ||| ends_with(p, ".rar"@)
}

/// Whether a lowercase path has the marks of: backups and archives.
pub open spec fn looks_like_archive(p: Seq<char>) -> bool {
    ||| starts_with(p, "/var/backups"@)
    ||| starts_with(p, "/backup"@)
    ||| contains(p, "/archive/"@)
}

/// The predefined profile that a lowercase path calls for, if any. The
/// groups are tried in this order, and the first that matches decides.
pub open spec fn selection(p: Seq<char>) -> Option<ProfileKind> {
    if looks_like_kernel(p) {
        Some(ProfileKind::Kernel)
    }     else if looks_like_libraries(p) {
        Some(ProfileKind::Libraries)
    }     else if looks_like_binaries(p) {
        Some(ProfileKind::Binaries)
    }     else if looks_like_config(p) {
        Some(ProfileKind::Config)
    }     else if looks_like_runtime(p) {
        Some(ProfileKind::Runtime)
    }     else if looks_like_database(p) {
        Some(ProfileKind::Database)
    }     else if looks_like_media(p) {
        Some(ProfileKind::Media)
    }     else if looks_like_archive(p) {
        Some(ProfileKind::Archive)
    } else {
        None
    }
}

fn is_kernel_path(p: &str) -> (b: bool)
    ensures
        b == looks_like_kernel(p@),
{
    str_starts_with(p, "/boot")
        || str_contains(p, "vmlinuz")
        || str_contains(p, "initr")
        || str_ends_with(p, ".ko")
        || str_ends_with(p, ".ko.zst")
        || str_ends_with(p, ".ko.xz")
}

fn is_libraries_path(p: &str) -> (b: bool)
    ensures
        b == looks_like_libraries(p@),
{
    str_ends_with(p, ".so")
        || str_contains(p, ".so.")
        || str_ends_with(p, ".dll")
        || str_starts_with(p, "/lib")
        || str_starts_with(p, "/usr/lib")
}

fn is_binaries_path(p: &str) -> (b: bool)
    ensures
        b == looks_like_binaries(p@),
{
    str_starts_with(p, "/bin")
        || str_starts_with(p, "/sbin")
        || str_starts_with(p, "/usr/bin")
        || str_starts_with(p, "/usr/sbin")
        || str_starts_with(p, "/usr/local/bin")
}

fn is_config_path(p: &str) -> (b: bool)
    ensures
        b == looks_like_config(p@),
{
    str_starts_with(p, "/etc")
        || str_ends_with(p, ".conf")
        || str_ends_with(p, ".cfg")
        || str_ends_with(p, ".ini")
        || str_ends_with(p, ".yaml")
        || str_ends_with(p, ".yml")
        || str_ends_with(p, ".toml")
        || str_ends_with(p, ".json")
        || str_ends_with(p, ".xml")
}

fn is_runtime_path(p: &str) -> (b: bool)
    ensures
        b == looks_like_runtime(p@),
{
    str_starts_with(p, "/tmp")
        || str_starts_with(p, "/var/tmp")
        || str_starts_with(p, "/run")
        || str_starts_with(p, "/dev/shm")
        || str_contains(p, "/cache/")
}

fn is_database_path(p: &str) -> (b: bool)
    ensures
        b == looks_like_database(p@),
{
    str_ends_with(p, ".db")
        || str_ends_with(p, ".sqlite")
        || str_ends_with(p, ".sqlite3")
        || str_ends_with(p, ".log")
        || str_starts_with(p, "/var/log")
        || str_ends_with(p, ".journal")
}

fn is_media_path(p: &str) -> (b: bool)
    ensures
        b == looks_like_media(p@),
{
    str_ends_with(p, ".jpg")
        || str_ends_with(p, ".jpeg")
        || str_ends_with(p, ".png")
        || str_ends_with(p, ".gif")
        || str_ends_with(p, ".webp")
        || str_ends_with(p, ".mp3")
        || str_ends_with(p, ".mp4")
        || str_ends_with(p, ".mkv")
        || str_ends_with(p, ".webm")
        || str_ends_with(p, ".ogg")
        || str_ends_with(p, ".flac")
        || str_ends_with(p, ".zip")
        || str_ends_with(p, ".gz")
        || str_ends_with(p, ".xz")
        || str_ends_with(p, ".zst")
        || str_ends_with(p, ".bz2")
        || str_ends_with(p, ".7z")
        || str_ends_with(p, ".rar")
}

fn is_archive_path(p: &str) -> (b: bool)
    ensures
        b == looks_like_archive(p@),
{
    str_starts_with(p, "/var/backups")
        || str_starts_with(p, "/backup")
        || str_contains(p, "/archive/")
}

/// Chooses the predefined profile for a path that is already lowercase.
pub fn select_kind(path_lower: &str) -> (r: Option<ProfileKind>)
    ensures
        r == selection(path_lower@),
{
    if is_kernel_path(path_lower) {
        Some(ProfileKind::Kernel)
    }     else if is_libraries_path(path_lower) {
        Some(ProfileKind::Libraries)
    }     else if is_binaries_path(path_lower) {
        Some(ProfileKind::Binaries)
    }     else if is_config_path(path_lower) {
        Some(ProfileKind::Config)
    }     else if is_runtime_path(path_lower) {
        Some(ProfileKind::Runtime)
    }     else if is_database_path(path_lower) {
        Some(ProfileKind::Database)
    }     else if is_media_path(path_lower) {
        Some(ProfileKind::Media)
    }     else if is_archive_path(path_lower) {
        Some(ProfileKind::Archive)
    } else {
        None
    }
}

/// The predefined profiles, in the order in which a name is looked up.
pub open spec fn all_kinds() -> Seq<ProfileKind> {
    seq![
        ProfileKind::Kernel,
        ProfileKind::Libraries,
        ProfileKind::Binaries,
        ProfileKind::Config,
        ProfileKind::Runtime,
        ProfileKind::Archive,
        ProfileKind::Balanced,
        ProfileKind::Database,
        ProfileKind::Media,
    ]
}

/// Whether `name` names the profile of `kind`, whatever the case of its
/// ASCII letters.
pub open spec fn names(name: Seq<char>, kind: ProfileKind) -> bool {
    same_ignoring_ascii_case(kind.spec_profile().name@, name)
}

/// The predefined profiles, in the order in which a name is looked up.
pub fn all_profiles() -> (v: Vec<CompressionProfile>)
    ensures
        v@.len() == all_kinds().len(),
        forall|i: int| 0 <= i < v@.len() ==> #[trigger] v@[i] == all_kinds()[i].spec_profile(),
{
    let mut v: Vec<CompressionProfile> = Vec::new();
    v.push(ProfileKind::Kernel.profile());
    v.push(ProfileKind::Libraries.profile());
    v.push(ProfileKind::Binaries.profile());
    v.push(ProfileKind::Config.profile());
    v.push(ProfileKind::Runtime.profile());
    v.push(ProfileKind::Archive.profile());
    v.push(ProfileKind::Balanced.profile());
    v.push(ProfileKind::Database.profile());
    v.push(ProfileKind::Media.profile());
    v
}

/// Chooses a profile from a file's path.
#[derive(Clone, Copy, Debug)]
pub struct CompressionProfiler {
    /// The profile for a path that no rule matches.
    pub default_profile: CompressionProfile,
}

impl Default for CompressionProfiler {
    fn default() -> (r: Self)
        ensures
            r.default_profile == ProfileKind::Balanced.spec_profile(),
    {
        CompressionProfiler { default_profile: ProfileKind::Balanced.profile() }
    }
}

impl CompressionProfiler {
    /// A profiler that falls back on `default`.
    pub fn with_default(default: CompressionProfile) -> (r: Self)
        ensures
            r.default_profile == default,
    {
        CompressionProfiler { default_profile: default }
    }

    /// The profile for `path`: that of the first group of rules that its
    /// lowercase form matches, or the default where none does.
    pub fn for_path(&self, path: &str) -> (r: CompressionProfile)
        ensures
            r == match selection(lowercased(path@)) {
                Some(kind) => kind.spec_profile(),
                None => self.default_profile,
            },
    {
        let path_lower = str_to_lowercase(path);
        match select_kind(path_lower.as_str()) {
            Some(kind) => kind.profile(),
            None => self.default_profile,
        }
    }

    /// The first predefined profile that `name` names, whatever the case of
    /// its ASCII letters.
    pub fn by_name(&self, name: &str) -> (r: Option<CompressionProfile>)
        ensures
            match r {
                Some(profile) => exists|i: int|
                    {
                        &&& 0 <= i < all_kinds().len()
                        &&& profile == (#[trigger] all_kinds()[i]).spec_profile()
                        &&& names(name@, all_kinds()[i])
                        &&& forall|j: int| 0 <= j < i ==> !names(name@, #[trigger] all_kinds()[j])
                    },
                None => forall|i: int|
                    0 <= i < all_kinds().len() ==> !names(name@, #[trigger] all_kinds()[i]),
            },
    {
        let all = all_profiles();
        let mut i: usize = 0;
        while i < all.len()
            invariant
                i <= all@.len(),
                all@.len() == all_kinds().len(),
                forall|k: int|
                    0 <= k < all@.len() ==> #[trigger] all@[k] == all_kinds()[k].spec_profile(),
                forall|j: int| 0 <= j < i ==> !names(name@, #[trigger] all_kinds()[j]),
            decreases all@.len() - i,
        {
            let candidate = all[i];
            if str_eq_ignore_ascii_case(candidate.name, name) {
                assert(names(name@, all_kinds()[i as int]));
                return Some(candidate);
            }
            i = i + 1;
        }
        None
    }
}

} // verus!
