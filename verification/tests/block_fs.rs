use galleonfs::vfs::cluster::ClusterManager;
use galleonfs::vfs_service::{file_chunks, FileChunk, HighPerformanceVFS, VfsPath};

fn at(path: &str, parent: Option<&str>, name: Option<&str>) -> VfsPath {
    VfsPath { path: path.to_string(), parent: parent.map(|p| p.to_string()), file_name: name.map(|n| n.to_string()) }
}

fn formatted(blocks: u64) -> HighPerformanceVFS {
    let mut vfs = HighPerformanceVFS::new(7, "/mnt/v".to_string(), blocks * 4096, 100);
    vfs.initialize_new_filesystem(100);
    vfs
}

#[test]
fn a_new_file_system_counts_its_metadata_blocks() {
    let vfs = formatted(16);
    let md = vfs.metadata();
    assert_eq!(md.total_blocks, 16);
    assert_eq!(md.used_blocks, 3);
    assert_eq!(md.root_inode, 1);
    assert_eq!(md.next_inode, 2);
}

#[test]
fn a_path_keeps_its_inode() {
    let mut vfs = formatted(16);
    assert_eq!(vfs.get_or_create_inode_for_path("a.txt", 100), 2);
    assert_eq!(vfs.get_or_create_inode_for_path("a.txt", 101), 2);
    assert_eq!(vfs.get_inode_for_path("a.txt"), Some(2));
    assert_eq!(vfs.metadata().next_inode, 3);
}

#[test]
fn a_write_takes_the_first_free_blocks_and_splits_at_block_edges() {
    let mut vfs = formatted(16);
    let ino = vfs.get_or_create_inode_for_path("a.txt", 100);
    let (blocks, chunks) = vfs.plan_file_data_write(ino, 4000, 200).unwrap().unwrap();
    assert_eq!(blocks, vec![3, 4]);
    assert_eq!(
        chunks,
        vec![
            FileChunk { block_id: 3, block_offset: 4000, data_start: 0, data_end: 96 },
            FileChunk { block_id: 4, block_offset: 0, data_start: 96, data_end: 200 },
        ]
    );
    assert_eq!(vfs.metadata().used_blocks, 5);
    vfs.finish_file_data_write(ino, blocks, 4000, 200, 150);
    // the file already has its blocks: a second write takes none
    let (again, _) = vfs.plan_file_data_write(ino, 0, 10).unwrap().unwrap();
    assert_eq!(again, vec![3, 4]);
    assert_eq!(vfs.metadata().used_blocks, 5);
}

#[test]
fn nothing_is_planned_for_an_empty_write_or_an_unknown_inode() {
    let mut vfs = formatted(16);
    let ino = vfs.get_or_create_inode_for_path("a.txt", 100);
    assert!(vfs.plan_file_data_write(ino, 0, 0).unwrap().is_none());
    assert!(vfs.plan_file_data_write(99, 0, 10).unwrap().is_none());
    assert_eq!(vfs.metadata().used_blocks, 3);
}

#[test]
fn a_write_past_the_free_blocks_is_refused_and_keeps_what_it_took() {
    let mut vfs = formatted(4);
    let ino = vfs.get_or_create_inode_for_path("big", 100);
    let r = vfs.plan_file_data_write(ino, 0, 5000);
    assert_eq!(r.unwrap_err(), "Insufficient free blocks");
    assert_eq!(vfs.metadata().used_blocks, 4);
}

#[test]
fn chunks_of_an_aligned_write_are_whole_blocks() {
    let chunks = file_chunks(&vec![10, 11, 12], 4096, 8192);
    assert_eq!(
        chunks,
        vec![
            FileChunk { block_id: 11, block_offset: 0, data_start: 0, data_end: 4096 },
            FileChunk { block_id: 12, block_offset: 0, data_start: 4096, data_end: 8192 },
        ]
    );
}

#[test]
fn deleting_a_file_gives_its_blocks_back() {
    let mut vfs = formatted(16);
    let ino = vfs.get_or_create_inode_for_path("a.txt", 100);
    vfs.add_directory_entry("", "a.txt".to_string(), ino);
    let (blocks, _) = vfs.plan_file_data_write(ino, 0, 5000).unwrap().unwrap();
    vfs.finish_file_data_write(ino, blocks, 0, 5000, 120);
    assert_eq!(vfs.metadata().used_blocks, 5);
    vfs.sync_file_deletion(&at("a.txt", Some(""), Some("a.txt")));
    assert_eq!(vfs.get_inode_for_path("a.txt"), None);
    assert_eq!(vfs.metadata().used_blocks, 3);
    let (_, _, inodes) = vfs.get_performance_stats();
    assert_eq!(inodes, 1);
}

#[test]
fn directories_are_created_renamed_into_and_deleted() {
    let mut vfs = formatted(16);
    vfs.sync_directory_creation(&at("docs", Some(""), Some("docs")), 200);
    assert_eq!(vfs.get_inode_for_path("docs"), Some(2));
    assert_eq!(vfs.metadata().next_inode, 3);
    let x = vfs.get_or_create_inode_for_path("docs/x", 200);
    vfs.sync_file_rename(&at("docs/x", Some("docs"), Some("x")), &at("y", Some(""), Some("y")));
    assert_eq!(vfs.get_inode_for_path("y"), Some(x));
    assert_eq!(vfs.get_inode_for_path("docs/x"), None);
    vfs.sync_directory_deletion(&at("docs", Some(""), Some("docs")));
    assert_eq!(vfs.get_inode_for_path("docs"), None);
    let (_, _, inodes) = vfs.get_performance_stats();
    assert_eq!(inodes, 2);
}

#[test]
fn operations_are_counted_until_read() {
    let mut vfs = formatted(16);
    vfs.record_ops(3);
    vfs.record_ops(2);
    assert_eq!(vfs.get_performance_stats().0, 5);
    assert_eq!(vfs.get_performance_stats().0, 0);
}

#[test]
fn a_cleanup_keeps_this_node() {
    let mut m = ClusterManager::new(42, None, Vec::new());
    assert!(m.cleanup_unreachable_nodes().is_ok());
    m.cleanup_unreachable_nodes_at(u64::MAX);
    assert_eq!(m.peers().len(), 1);
    assert_eq!(m.peers()[0].id, 42);
}
