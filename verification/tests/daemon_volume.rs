use galleonfs::daemon::volume::{Volume, VolumeSize, WatchedVolumeError};

#[test]
fn test_volume_creation() {
    let path = "/tmp/galleonfs_test_volume".to_string();
    let volume = Volume::new("test_volume".to_string(), path.clone(), true, true).unwrap();

    assert_eq!(volume.name(), "test_volume");
    assert_eq!(volume.mount_path(), &path);
    assert!(volume.is_active());
    assert_eq!(volume.total_events(), 0);
}

#[test]
fn test_volume_creation_nonexistent_path() {
    let result = Volume::new("test_volume".to_string(), "/nonexistent/path".to_string(), false, false);
    assert!(result.is_err());
}

#[test]
fn test_volume_size_human_readable() {
    assert_eq!(VolumeSize::new(512).human_readable(), "512 B");
    assert_eq!(VolumeSize::new(1024).human_readable(), "1.00 KB");
    assert_eq!(VolumeSize::new(1536).human_readable(), "1.50 KB");
    assert_eq!(VolumeSize::new(1048576).human_readable(), "1.00 MB");
    assert_eq!(VolumeSize::new(1073741824).human_readable(), "1.00 GB");
}

#[test]
fn test_volume_event_counting() {
    let mut volume = Volume::new("test_volume".to_string(), "/tmp".to_string(), true, true).unwrap();

    assert_eq!(volume.total_events(), 0);

    volume.increment_event_count();
    assert_eq!(volume.total_events(), 1);

    volume.increment_event_count();
    assert_eq!(volume.total_events(), 2);
}

#[test]
fn watched_volume_needs_a_directory() {
    let r = Volume::new("v".to_string(), "/etc/hostname".to_string(), true, false);
    assert!(matches!(r, Err(WatchedVolumeError::NotADirectory)));
    let r = Volume::new("v".to_string(), "/missing".to_string(), false, true);
    assert!(matches!(r, Err(WatchedVolumeError::MountPathMissing)));
}

#[test]
fn human_readable_sizes_at_unit_edges() {
    assert_eq!(VolumeSize::new(0).human_readable(), "0 B");
    assert_eq!(VolumeSize::new(1023).human_readable(), "1023 B");
    assert_eq!(VolumeSize::new(1099511627776).human_readable(), "1.00 TB");
    assert_eq!(VolumeSize::new(1099511627776 * 2048).human_readable(), "2048.00 TB");
    assert_eq!(VolumeSize::new(1535).human_readable(), "1.50 KB");
    assert_eq!(VolumeSize::new(1025).human_readable(), "1.00 KB");
}

#[test]
fn volume_summary_lists_fields() {
    let mut volume = Volume::new("data".to_string(), "/srv/data".to_string(), true, true).unwrap();
    volume.increment_event_count();
    volume.deactivate();
    let s = volume.format_summary(Some(2048));
    assert!(s.starts_with("Volume 'data' ["));
    assert!(s.contains("]\n  Path: /srv/data\n  Created: "));
    assert!(s.ends_with(" UTC\n  Events: 1\n  Size: 2.00 KB\n  Status: Inactive"));
    let s = volume.format_summary(None);
    assert!(s.contains("Size: Unknown"));
}
