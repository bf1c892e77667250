//! Choosing a compression profile from a path or a name.

use embeddenator_io::{
    all_profiles, CompressionCodec, CompressionProfile, CompressionProfiler, ProfileKind,
};

#[test]
fn test_profile_selection_kernel() {
    let profiler = CompressionProfiler::default();

    assert_eq!(profiler.for_path("/boot/vmlinuz").name, "Kernel");
    assert_eq!(profiler.for_path("/boot/initrd.img").name, "Kernel");
    assert_eq!(
        profiler.for_path("/lib/modules/5.4.0/ext4.ko").name,
        "Kernel"
    );
}

#[test]
fn test_profile_selection_libraries() {
    let profiler = CompressionProfiler::default();

    assert_eq!(
        profiler.for_path("/lib/x86_64-linux-gnu/libc.so.6").name,
        "Libraries"
    );
    assert_eq!(profiler.for_path("/usr/lib/libssl.so.3").name, "Libraries");
}

#[test]
fn test_profile_selection_binaries() {
    let profiler = CompressionProfiler::default();

    assert_eq!(profiler.for_path("/bin/bash").name, "Binaries");
    assert_eq!(profiler.for_path("/usr/bin/python3").name, "Binaries");
    assert_eq!(profiler.for_path("/sbin/init").name, "Binaries");
}

#[test]
fn test_profile_selection_config() {
    let profiler = CompressionProfiler::default();

    assert_eq!(profiler.for_path("/etc/passwd").name, "Config");
    assert_eq!(profiler.for_path("/etc/nginx/nginx.conf").name, "Config");
    assert_eq!(profiler.for_path("/app/config.yaml").name, "Config");
}

#[test]
fn test_profile_selection_runtime() {
    let profiler = CompressionProfiler::default();

    assert_eq!(profiler.for_path("/tmp/session.sock").name, "Runtime");
    assert_eq!(profiler.for_path("/run/systemd/notify").name, "Runtime");
}

#[test]
fn test_profile_selection_media() {
    let profiler = CompressionProfiler::default();

    assert_eq!(profiler.for_path("/home/user/photo.jpg").name, "Media");
    assert_eq!(profiler.for_path("/var/data/video.mp4").name, "Media");
    assert_eq!(profiler.for_path("/archive/backup.tar.gz").name, "Media");
}

#[test]
fn test_profile_to_write_options() {
    let profile = ProfileKind::Kernel.profile();
    let opts = profile.to_write_options();

    assert_eq!(opts.codec, CompressionCodec::Zstd);
    assert_eq!(opts.level, Some(19));
}

#[test]
fn test_by_name() {
    let profiler = CompressionProfiler::default();

    assert!(profiler.by_name("Kernel").is_some());
    assert!(profiler.by_name("kernel").is_some()); // Case insensitive
    assert!(profiler.by_name("NonExistent").is_none());
}

#[test]
fn test_by_name_gives_the_named_profile() {
    let profiler = CompressionProfiler::default();
    let config = profiler.by_name("cOnFiG").unwrap();
    assert_eq!(config.name, "Config");
    assert_eq!(config.codec, CompressionCodec::Lz4);
    assert_eq!(config.level, None);
    assert!(profiler.by_name("").is_none());
    assert!(profiler.by_name("Kernel ").is_none());
}

#[test]
fn test_profile_selection_other_groups_and_order() {
    let profiler = CompressionProfiler::default();

    assert_eq!(profiler.for_path("/var/lib/app/data.sqlite").name, "Database");
    assert_eq!(profiler.for_path("/var/log/syslog").name, "Database");
    assert_eq!(profiler.for_path("/var/backups/dump").name, "Archive");
    assert_eq!(profiler.for_path("/srv/archive/2020/notes").name, "Archive");
    // Case is ignored.
    assert_eq!(profiler.for_path("/BOOT/VMLINUZ").name, "Kernel");
    assert_eq!(profiler.for_path("/Home/User/PHOTO.JPG").name, "Media");
    // Earlier groups win: a module under /lib is a kernel file, a
    // configuration file under /bin is an executable.
    assert_eq!(profiler.for_path("/lib/modules/x.ko.zst").name, "Kernel");
    assert_eq!(profiler.for_path("/bin/tool.conf").name, "Binaries");
    assert_eq!(profiler.for_path("/etc/app.log").name, "Config");
    assert_eq!(profiler.for_path("/tmp/app.db").name, "Runtime");
}

#[test]
fn test_profile_selection_default() {
    let profiler = CompressionProfiler::default();
    assert_eq!(profiler.default_profile.name, "Balanced");
    assert_eq!(profiler.for_path("/home/user/notes.txt").name, "Balanced");
    assert_eq!(profiler.for_path("").name, "Balanced");

    let custom = CompressionProfile::new("Mine", CompressionCodec::Lz4, Some(2), 60, "custom");
    let profiler = CompressionProfiler::with_default(custom);
    let chosen = profiler.for_path("/home/user/notes.txt");
    assert_eq!(chosen.name, "Mine");
    assert_eq!(chosen.codec, CompressionCodec::Lz4);
    assert_eq!(chosen.level, Some(2));
    assert_eq!(chosen.expected_ratio_percent, 60);
    assert_eq!(chosen.description, "custom");
    assert_eq!(profiler.for_path("/etc/hosts").name, "Config");
}

#[test]
fn test_predefined_profiles() {
    let all = all_profiles();
    let names: Vec<&str> = all.iter().map(|p| p.name).collect();
    assert_eq!(
        names,
        vec![
            "Kernel",
            "Libraries",
            "Binaries",
            "Config",
            "Runtime",
            "Archive",
            "Balanced",
            "Database",
            "Media"
        ]
    );
    let levels: Vec<Option<i32>> = all.iter().map(|p| p.level).collect();
    assert_eq!(
        levels,
        vec![Some(19), Some(9), Some(6), None, None, Some(22), Some(3), Some(5), None]
    );
    let ratios: Vec<u32> = all.iter().map(|p| p.expected_ratio_percent).collect();
    assert_eq!(ratios, vec![25, 40, 45, 50, 100, 20, 55, 35, 98]);
    assert_eq!(all[4].codec, CompressionCodec::Uncompressed);
    assert_eq!(all[8].codec, CompressionCodec::Uncompressed);
    assert_eq!(all[3].codec, CompressionCodec::Lz4);
    assert_eq!(ProfileKind::Archive.profile().description, "Maximum compression for archives/backups");
}
