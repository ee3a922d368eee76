use galleonfs::cli::client::DaemonClient;
use galleonfs::cli::{append_padded, GalleonClient};
use galleonfs::types::volume::Volume as DaemonVolume;
use galleonfs::units::SizeParseError;
use galleonfs::{Volume, VolumeType};

#[test]
fn sizes_of_the_command_line() {
    assert_eq!(GalleonClient::parse_size("2G"), Ok(2147483648));
    assert_eq!(GalleonClient::parse_size("x"), Err(SizeParseError::InvalidDigit));
    assert_eq!(GalleonClient::size_label(512), "512B");
    assert_eq!(GalleonClient::size_label(1536), "1.5KB");
    assert_eq!(GalleonClient::size_label(10 * 1048576), "10.0MB");
    assert_eq!(GalleonClient::size_label(3 * 1073741824), "3.0GB");
}

#[test]
fn padding_fills_to_the_width() {
    let mut s = String::new();
    append_padded(&mut s, "ab", 5);
    append_padded(&mut s, "toolong", 3);
    assert_eq!(s, "ab   toolong");
}

#[test]
fn the_volume_list() {
    assert_eq!(GalleonClient::volume_list_lines(&vec![]), vec!["No volumes found.".to_string()]);
    let v = Volume::new("db".to_string(), VolumeType::Shared, 2048, "fast".to_string());
    let id = format!("{}", v.id);
    let lines = GalleonClient::volume_list_lines(&vec![v]);
    assert_eq!(lines.len(), 4);
    assert_eq!(lines[0], "Volumes:");
    assert_eq!(
        lines[1],
        format!("{:<36} {:<20} {:<12} {:<12} {:<20} {:<10}", "ID", "NAME", "TYPE", "STATE", "STORAGE_CLASS", "SIZE")
    );
    assert_eq!(lines[2], "-".repeat(112));
    assert_eq!(
        lines[3],
        format!("{:<36} {:<20} {} {} {:<20} {:<10}", uuid_hyphenated(&id), "db", "Shared", "Provisioning", "fast", "2.0KB")
    );
}

fn uuid_hyphenated(s: &str) -> String {
    let h = format!("{:032x}", s.parse::<u128>().unwrap());
    format!("{}-{}-{}-{}-{}", &h[0..8], &h[8..12], &h[12..16], &h[16..20], &h[20..32])
}

#[test]
fn the_daemon_volume_table() {
    let mut a = DaemonVolume::new("alpha".to_string());
    a.mount("/mnt/alpha-volume".to_string());
    let b = DaemonVolume::new("b".to_string());
    let lines = DaemonClient::volumes_table_lines(&vec![a.duplicate(), b.duplicate()]);
    let nw = 5;
    let mw = "/mnt/alpha-volume".len();
    assert_eq!(lines.len(), 4);
    assert_eq!(
        lines[0],
        format!("\x1b[1m{:<nw$} {:<36} {:<9} {:<mw$}\x1b[0m", "Name", "UUID", "Status", "Mount Point(s)", nw = nw, mw = mw)
    );
    assert_eq!(lines[1], format!("{} {} {} {}", "-".repeat(nw), "-".repeat(36), "-".repeat(9), "-".repeat(mw)));
    let uuid_a = uuid_hyphenated(&format!("{}", a.id));
    assert_eq!(lines[2], format!("{:<5} {:<36} \x1b[32mmounted\x1b[0m   /mnt/alpha-volume", "alpha", uuid_a));
    let uuid_b = uuid_hyphenated(&format!("{}", b.id));
    assert_eq!(lines[3], format!("{:<5} {:<36} \x1b[31munmounted\x1b[0m -", "b", uuid_b));
    assert_eq!(DaemonClient::new("127.0.0.1:1".to_string()).address(), "127.0.0.1:1");
}
