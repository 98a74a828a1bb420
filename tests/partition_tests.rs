use setupwizard::orchestrator::{Step, PartitionSession, Progress};
use setupwizard::partition::{
    get_partition_info, list_disks, partition_regions, PartitionConfig,
};
use setupwizard::text::{parse_u32, split_on};
use setupwizard::SetupError;

fn sda(boot: u32, swap: u32, fs: &str) -> PartitionConfig {
    PartitionConfig::new("/dev/sda".to_string(), boot, swap, true, fs.to_string())
}

fn invalid_message(r: Result<(), SetupError>) -> String {
    match r {
        Err(SetupError::InvalidInput(m)) => m,
        other => panic!("expected invalid input, got {:?}", other),
    }
}

#[test]
fn partition_test_partition_config_creation() {
    let config = PartitionConfig::new("/dev/sda".to_string(), 512, 2048, true, "ext4".to_string());

    assert_eq!(config.disk, "/dev/sda");
    assert_eq!(config.boot_size_mb, 512);
    assert_eq!(config.swap_size_mb, 2048);
    assert!(config.use_gpt);
    assert_eq!(config.filesystem, "ext4");
}

#[test]
fn test_config_from_string_valid() {
    let config_str = "/dev/sdz999:512:2048:gpt:ext4";
    let result = PartitionConfig::from_string(config_str);
    match result {
        Ok(_) => panic!("Expected validation to fail for non-existent disk"),
        Err(SetupError::InvalidInput(msg)) => {
            assert!(msg.contains("does not exist"), "Unexpected error message: {}", msg);
        }
        Err(e) => panic!("Unexpected error type: {:?}", e),
    }
}

#[test]
fn test_config_parsing_logic() {
    let config_str = "/dev/sdz999:512:2048:gpt:ext4";
    let parts = split_on(config_str, ':');

    assert_eq!(parts.len(), 5);
    assert_eq!(parts[0], "/dev/sdz999");
    assert_eq!(parse_u32(&parts[1]).unwrap(), 512);
    assert_eq!(parse_u32(&parts[2]).unwrap(), 2048);
    assert_eq!(parts[3], "gpt");
    assert_eq!(parts[4], "ext4");

    let config = PartitionConfig::parse_fields(config_str).unwrap();
    assert_eq!(config.disk, "/dev/sdz999");
    assert_eq!(config.boot_size_mb, 512);
    assert_eq!(config.swap_size_mb, 2048);
    assert!(config.use_gpt);
    assert_eq!(config.filesystem, "ext4");
}

#[test]
fn partition_test_config_from_string_invalid_format() {
    let result = PartitionConfig::from_string("/dev/sda:512:2048");
    assert!(result.is_err());
    assert!(matches!(result.unwrap_err(), SetupError::InvalidInput(_)));
}

#[test]
fn test_validate_config_boot_too_small() {
    let config = sda(50, 2048, "ext4");
    assert!(config.validate().is_err());
}

#[test]
fn partition_test_validate_config_invalid_filesystem() {
    let config = sda(512, 2048, "invalid");
    assert!(config.validate().is_err());
}

#[test]
fn partition_test_get_partition_names_nvme() {
    let config =
        PartitionConfig::new("/dev/nvme0n1".to_string(), 512, 2048, true, "ext4".to_string());
    let (boot, swap, root) = config.get_partition_names();
    assert_eq!(boot, "/dev/nvme0n1p1");
    assert_eq!(swap, "/dev/nvme0n1p2");
    assert_eq!(root, "/dev/nvme0n1p3");
}

#[test]
fn partition_test_get_partition_names_sata() {
    let config = sda(512, 2048, "ext4");
    let (boot, swap, root) = config.get_partition_names();
    assert_eq!(boot, "/dev/sda1");
    assert_eq!(swap, "/dev/sda2");
    assert_eq!(root, "/dev/sda3");
}

#[test]
fn partition_tests_test_partition_config_creation() {
    let config = sda(512, 2048, "ext4");
    assert_eq!(config.disk, "/dev/sda");
    assert_eq!(config.boot_size_mb, 512);
    assert_eq!(config.swap_size_mb, 2048);
    assert!(config.use_gpt);
    assert_eq!(config.filesystem, "ext4");
}

#[test]
fn partition_tests_test_config_from_string_invalid_format() {
    let invalid_configs = vec![
        "",
        "/dev/sda",
        "/dev/sda:512",
        "/dev/sda:512:2048",
        "/dev/sda:512:2048:gpt",
        "too:many:parts:here:gpt:ext4:extra",
    ];
    for config_str in invalid_configs {
        let result = PartitionConfig::from_string(config_str);
        assert!(result.is_err(), "Should fail for: {}", config_str);
        assert!(matches!(result.unwrap_err(), SetupError::InvalidInput(_)));
    }
}

#[test]
fn test_config_from_string_invalid_numbers() {
    let invalid_configs = vec![
        "/dev/sda:abc:2048:gpt:ext4",
        "/dev/sda:512:xyz:gpt:ext4",
        "/dev/sda:-1:2048:gpt:ext4",
        "/dev/sda:512:-1:gpt:ext4",
    ];
    for config_str in invalid_configs {
        let result = PartitionConfig::from_string(config_str);
        assert!(result.is_err(), "Should fail for: {}", config_str);
    }
}

#[test]
fn test_validate_config_invalid_disk_path() {
    let config = PartitionConfig::new("sda".to_string(), 512, 2048, true, "ext4".to_string());
    let result = config.validate();
    assert!(result.is_err());
    assert!(matches!(result.unwrap_err(), SetupError::InvalidInput(_)));
}

#[test]
fn test_validate_config_boot_size_bounds() {
    assert!(sda(50, 2048, "ext4").validate().is_err());
    assert!(sda(3000, 2048, "ext4").validate().is_err());
    let result = sda(512, 2048, "ext4").validate();
    if let Err(SetupError::InvalidInput(msg)) = result {
        assert!(!msg.contains("Boot size"));
    }
}

#[test]
fn test_validate_config_swap_size() {
    let result = sda(512, 100, "ext4").validate();
    assert!(result.is_err());
    if let Err(SetupError::InvalidInput(msg)) = result {
        assert!(msg.contains("Swap size"));
    }
}

#[test]
fn partition_tests_test_validate_config_invalid_filesystem() {
    for fs in vec!["fat32", "ntfs", "invalid", ""] {
        let result = sda(512, 2048, fs).validate();
        assert!(result.is_err(), "Should fail for filesystem: {}", fs);
        if let Err(SetupError::InvalidInput(msg)) = result {
            assert!(msg.contains("Filesystem"));
        }
    }
}

#[test]
fn partition_tests_test_get_partition_names_nvme() {
    let config =
        PartitionConfig::new("/dev/nvme0n1".to_string(), 512, 2048, true, "ext4".to_string());
    let (boot, swap, root) = config.get_partition_names();
    assert_eq!(boot, "/dev/nvme0n1p1");
    assert_eq!(swap, "/dev/nvme0n1p2");
    assert_eq!(root, "/dev/nvme0n1p3");
}

#[test]
fn test_get_partition_names_mmc() {
    let config =
        PartitionConfig::new("/dev/mmcblk0".to_string(), 512, 2048, true, "ext4".to_string());
    let (boot, swap, root) = config.get_partition_names();
    assert_eq!(boot, "/dev/mmcblk0p1");
    assert_eq!(swap, "/dev/mmcblk0p2");
    assert_eq!(root, "/dev/mmcblk0p3");
}

#[test]
fn partition_tests_test_get_partition_names_sata() {
    let (boot, swap, root) = sda(512, 2048, "ext4").get_partition_names();
    assert_eq!(boot, "/dev/sda1");
    assert_eq!(swap, "/dev/sda2");
    assert_eq!(root, "/dev/sda3");
}

#[test]
fn test_clone_and_debug() {
    let config = sda(512, 2048, "ext4");
    let cloned = config.clone();
    assert_eq!(config.disk, cloned.disk);
    assert_eq!(config.boot_size_mb, cloned.boot_size_mb);
    assert_eq!(config.swap_size_mb, cloned.swap_size_mb);
    assert_eq!(config.use_gpt, cloned.use_gpt);
    assert_eq!(config.filesystem, cloned.filesystem);

    let debug_str = format!("{:?}", config);
    assert!(debug_str.contains("PartitionConfig"));
    assert!(debug_str.contains("/dev/sda"));
}

#[test]
fn test_valid_filesystems() {
    for fs in vec!["ext4", "btrfs", "xfs"] {
        let result = sda(512, 2048, fs).validate();
        if let Err(SetupError::InvalidInput(msg)) = result {
            assert!(!msg.contains("Filesystem"), "Filesystem {} should be valid", fs);
        }
    }
}

#[test]
fn parse_of_written_fields_gives_built_layout() {
    let cases = vec![
        ("/dev/sda", 512u32, 2048u32, true, "ext4"),
        ("/dev/nvme0n1", 100, 512, false, "btrfs"),
        ("/dev/mmcblk0", 2048, 4294967295, true, "xfs"),
    ];
    for (disk, boot, swap, gpt, fs) in cases {
        let text = format!("{}:{}:{}:{}:{}", disk, boot, swap, if gpt { "gpt" } else { "msdos" }, fs);
        let parsed = PartitionConfig::parse_fields(&text).unwrap();
        let built = PartitionConfig::new(disk.to_string(), boot, swap, gpt, fs.to_string());
        assert_eq!(parsed.disk, built.disk);
        assert_eq!(parsed.boot_size_mb, built.boot_size_mb);
        assert_eq!(parsed.swap_size_mb, built.swap_size_mb);
        assert_eq!(parsed.use_gpt, built.use_gpt);
        assert_eq!(parsed.filesystem, built.filesystem);
        assert!(parsed.validate_with(true).is_ok());
        assert!(built.validate_with(true).is_ok());
    }
}

#[test]
fn table_other_than_gpt_is_mbr() {
    for table in vec!["msdos", "GPT", "gtp", "mbr", ""] {
        let text = format!("/dev/sda:512:2048:{}:ext4", table);
        assert!(!PartitionConfig::parse_fields(&text).unwrap().use_gpt);
    }
}

#[test]
fn boot_size_bounds_are_inclusive() {
    assert!(sda(99, 2048, "ext4").validate_with(true).is_err());
    assert!(sda(2049, 2048, "ext4").validate_with(true).is_err());
    assert!(sda(100, 2048, "ext4").validate_with(true).is_ok());
    assert!(sda(2048, 2048, "ext4").validate_with(true).is_ok());
    let msg = invalid_message(sda(99, 2048, "ext4").validate_with(true));
    assert_eq!(msg, "Boot size must be 100-2048 MB");
}

#[test]
fn swap_size_lower_bound_is_inclusive() {
    let msg = invalid_message(sda(512, 511, "ext4").validate_with(true));
    assert_eq!(msg, "Swap size must be at least 512 MB");
    assert!(sda(512, 512, "ext4").validate_with(true).is_ok());
}

#[test]
fn filesystem_is_matched_case_sensitively() {
    for fs in vec!["EXT4", "Ext4", "BTRFS", "Xfs", "ext3", "vfat"] {
        let msg = invalid_message(sda(512, 2048, fs).validate_with(true));
        assert_eq!(msg, "Filesystem must be ext4, btrfs, or xfs");
    }
}

#[test]
fn disk_must_lie_under_dev() {
    let config = PartitionConfig::new("/tmp/sda".to_string(), 512, 2048, true, "ext4".to_string());
    let msg = invalid_message(config.validate_with(true));
    assert_eq!(msg, "Disk path must start with /dev/");
}

#[test]
fn missing_disk_is_reported_after_fields() {
    let msg = invalid_message(sda(512, 2048, "ext4").validate_with(false));
    assert_eq!(msg, "Disk /dev/sda does not exist");
    let msg = invalid_message(sda(50, 2048, "ext4").validate_with(false));
    assert_eq!(msg, "Boot size must be 100-2048 MB");
}

#[test]
fn existing_device_passes_validation() {
    let config = PartitionConfig::new("/dev/null".to_string(), 512, 2048, false, "xfs".to_string());
    assert!(config.validate().is_ok());
    let missing = PartitionConfig::new("/dev/sdz999".to_string(), 512, 2048, false, "xfs".to_string());
    let msg = invalid_message(missing.validate());
    assert_eq!(msg, "Disk /dev/sdz999 does not exist");
}

#[test]
fn wrong_field_count_and_bad_integer_are_invalid_input() {
    match PartitionConfig::from_string("/dev/sda:512:2048") {
        Err(SetupError::InvalidInput(m)) => {
            assert_eq!(m, "Format: disk:boot_size:swap_size:gpt/msdos:filesystem")
        }
        other => panic!("unexpected {:?}", other.map(|c| c.disk)),
    }
    match PartitionConfig::from_string("/dev/sda:abc:2048:gpt:ext4") {
        Err(SetupError::InvalidInput(m)) => assert_eq!(m, "Invalid boot size"),
        other => panic!("unexpected {:?}", other.map(|c| c.disk)),
    }
    match PartitionConfig::from_string("/dev/sda:512:4294967296:gpt:ext4") {
        Err(SetupError::InvalidInput(m)) => assert_eq!(m, "Invalid swap size"),
        other => panic!("unexpected {:?}", other.map(|c| c.disk)),
    }
}

#[test]
fn naming_generalizes_to_marked_families() {
    let names = |d: &str| {
        PartitionConfig::new(d.to_string(), 512, 2048, true, "ext4".to_string())
            .get_partition_names()
    };
    assert_eq!(names("/dev/nvme1n2").0, "/dev/nvme1n2p1");
    assert_eq!(names("/dev/mmcblk1").2, "/dev/mmcblk1p3");
    assert_eq!(names("/dev/vdb").1, "/dev/vdb2");
}

#[test]
fn regions_for_default_sizes() {
    let r = partition_regions(512, 2048);
    assert_eq!(r.boot_start, 1);
    assert_eq!(r.boot_end, 513);
    assert_eq!(r.swap_start, 513);
    assert_eq!(r.swap_end, 2561);
    assert_eq!(r.root_start, 2561);
    let big = partition_regions(2048, u32::MAX);
    assert_eq!(big.swap_end, 2049 + u32::MAX as u64);
}

fn step_line(step: &Step) -> String {
    match step {
        Step::Run(inv) => format!("{} {}", inv.program, inv.args.join(" ")),
        Step::Settle(ms) => format!("settle {}", ms),
    }
}

/// Drives a run, failing the step numbered `fail_at` (counting from zero), and
/// returns every step handed out together with the run's result.
fn drive(config: &PartitionConfig, fail_at: Option<usize>) -> (Vec<String>, Result<(), SetupError>) {
    let mut session = PartitionSession::for_plan(config);
    let mut issued = Vec::new();
    loop {
        let outcome = match session.progress() {
            Progress::Pending(step) => {
                let n = issued.len();
                issued.push(step_line(step));
                if Some(n) == fail_at {
                    Err(SetupError::CommandFailed(format!("Command parted failed: step {}", n)))
                } else {
                    Ok(String::new())
                }
            }
            Progress::Finished | Progress::Halted(_) => break,
        };
        session.record(outcome);
    }
    (issued, session.into_result())
}

#[test]
fn full_run_issues_every_step_in_order() {
    let (issued, result) = drive(&sda(512, 2048, "ext4"), None);
    assert!(result.is_ok());
    assert_eq!(
        issued,
        vec![
            "parted -s /dev/sda mklabel gpt",
            "parted -s /dev/sda mkpart primary fat32 1MiB 513MiB",
            "parted -s /dev/sda mkpart primary linux-swap 513MiB 2561MiB",
            "parted -s /dev/sda mkpart primary ext4 2561MiB 100%",
            "parted -s /dev/sda set 1 esp on",
            "partprobe /dev/sda",
            "settle 1000",
            "mkfs.fat -F32 /dev/sda1",
            "mkswap /dev/sda2",
            "mkfs.ext4 -F /dev/sda3",
        ]
    );
}

#[test]
fn mbr_run_uses_msdos_label_and_boot_flag() {
    let config =
        PartitionConfig::new("/dev/nvme0n1".to_string(), 100, 512, false, "xfs".to_string());
    let (issued, _) = drive(&config, None);
    assert_eq!(issued[0], "parted -s /dev/nvme0n1 mklabel msdos");
    assert_eq!(issued[4], "parted -s /dev/nvme0n1 set 1 boot on");
    assert_eq!(issued[9], "mkfs.xfs -f /dev/nvme0n1p3");
    let btrfs = sda(512, 2048, "btrfs");
    assert_eq!(drive(&btrfs, None).0[9], "mkfs.btrfs -f /dev/sda3");
}

#[test]
fn failed_second_partition_create_stops_before_formatting() {
    let (issued, result) = drive(&sda(512, 2048, "ext4"), Some(2));
    assert_eq!(issued.len(), 3);
    assert_eq!(issued[2], "parted -s /dev/sda mkpart primary linux-swap 513MiB 2561MiB");
    assert!(issued.iter().all(|s| !s.starts_with("mkfs") && !s.starts_with("mkswap")));
    match result {
        Err(SetupError::CommandFailed(m)) => assert_eq!(m, "Command parted failed: step 2"),
        other => panic!("unexpected {:?}", other),
    }
}

#[test]
fn failure_of_first_step_issues_nothing_else() {
    let (issued, result) = drive(&sda(512, 2048, "ext4"), Some(0));
    assert_eq!(issued.len(), 1);
    assert!(result.is_err());
}

#[test]
fn start_validates_before_any_step() {
    assert!(matches!(
        PartitionSession::start(&sda(50, 2048, "ext4")),
        Err(SetupError::InvalidInput(_))
    ));
    assert!(PartitionSession::start(&PartitionConfig::new(
        "/dev/null".to_string(),
        512,
        2048,
        true,
        "ext4".to_string()
    ))
    .is_ok());
}

#[test]
fn disk_listing_calls() {
    let inv = list_disks();
    assert_eq!(inv.program, "lsblk");
    assert_eq!(inv.args, vec!["-o", "NAME,SIZE,TYPE,MOUNTPOINT"]);
    let info = get_partition_info("/dev/sda");
    assert_eq!(info.program, "lsblk");
    assert_eq!(info.args, vec!["-o", "NAME,SIZE,TYPE,FSTYPE", "/dev/sda"]);
}
