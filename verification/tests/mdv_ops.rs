use stratis_core::blockdev::{classify, DevContent, DevOwnership, RawDevice};
use stratis_core::mdv::{FilesystemSave, MdvEntry, MetadataVol};
use stratis_core::pool::StratPool;
use stratis_core::table::{HasName, HasUuid};
use stratis_core::types::{Redundancy, UuidGen};

fn snapshot(uuid: u128, name: &str, size: u64) -> FilesystemSave {
    FilesystemSave { name: name.to_owned(), uuid, size }
}

#[test]
fn test_save_then_list_round_trip() {
    let mut mdv = MetadataVol::initialize(1);
    let fs = snapshot(10, "fs_a", 2048);
    mdv.save_fs(&fs).unwrap();

    let listed = mdv.filesystems().unwrap();
    assert_eq!(listed.len(), 1);
    assert_eq!(listed[0].uuid, 10);
    assert_eq!(listed[0].name, "fs_a");
    assert_eq!(listed[0].size, 2048);

    mdv.rm_fs(10).unwrap();
    let listed = mdv.filesystems().unwrap();
    assert!(listed.iter().all(|f| f.uuid != 10));
    assert_eq!(listed.len(), 0);
}

#[test]
fn test_save_overwrites_prior_snapshot() {
    let mut mdv = MetadataVol::initialize(1);
    mdv.save_fs(&snapshot(10, "fs_a", 2048)).unwrap();
    mdv.save_fs(&snapshot(10, "fs_a_grown", 8192)).unwrap();

    let listed = mdv.filesystems().unwrap();
    assert_eq!(listed.len(), 1);
    assert_eq!(listed[0].name, "fs_a_grown");
    assert_eq!(listed[0].size, 8192);
}

#[test]
fn test_rm_fs_nonexistent_is_ok() {
    let mut mdv = MetadataVol::initialize(1);
    assert!(mdv.rm_fs(999).is_ok());
    assert_eq!(mdv.filesystems().unwrap().len(), 0);
}

#[test]
fn test_check_discards_temp_and_keeps_json() {
    // A crash mid-save left `<20>.temp` beside a committed `<20>.json`,
    // and a stray `<30>.temp` with no committed document at all.
    let entries = vec![
        MdvEntry { temp: false, fs: snapshot(20, "fs_b", 100) },
        MdvEntry { temp: true, fs: snapshot(20, "fs_b_interrupted", 999) },
        MdvEntry { temp: true, fs: snapshot(30, "fs_c_interrupted", 1) },
    ];
    let mut mdv = MetadataVol::setup(7, entries).unwrap();

    mdv.check().unwrap();

    let listed = mdv.filesystems().unwrap();
    assert_eq!(listed.len(), 1);
    assert_eq!(listed[0].uuid, 20);
    assert_eq!(listed[0].name, "fs_b");
    assert_eq!(listed[0].size, 100);
}

#[test]
fn test_filesystems_skips_temp_files() {
    let entries = vec![
        MdvEntry { temp: false, fs: snapshot(20, "fs_b", 100) },
        MdvEntry { temp: true, fs: snapshot(30, "fs_c_interrupted", 1) },
    ];
    let mdv = MetadataVol::setup(7, entries).unwrap();
    let listed = mdv.filesystems().unwrap();
    assert_eq!(listed.len(), 1);
    assert_eq!(listed[0].uuid, 20);
}

#[test]
fn test_classify_reads_signature() {
    let unowned = RawDevice { id: 1, size: 10, content: DevContent::Unclaimed, mdv_files: Vec::new() };
    assert_eq!(classify(&unowned), DevOwnership::Unowned);

    let foreign = RawDevice { id: 2, size: 10, content: DevContent::Foreign, mdv_files: Vec::new() };
    assert_eq!(classify(&foreign), DevOwnership::Theirs);

    let ours = RawDevice {
        id: 3,
        size: 10,
        content: DevContent::Stratis { pool_uuid: 5, dev_uuid: 6, pool_name: "p".to_owned() },
        mdv_files: Vec::new(),
    };
    assert_eq!(classify(&ours), DevOwnership::Ours(5, 6));
}

#[test]
fn test_pool_persists_filesystems_across_setup() {
    let mut gen = UuidGen::new();
    let devices = vec![RawDevice {
        id: 1,
        size: 1 << 20,
        content: DevContent::Unclaimed,
        mdv_files: Vec::new(),
    }];
    let mut pool =
        StratPool::initialize("pool_a", devices, Redundancy::NONE, false, &mut gen).unwrap();
    let pool_uuid = pool.uuid();

    pool.save_fs(&snapshot(41, "data", 4096)).unwrap();
    pool.save_fs(&snapshot(42, "logs", 512)).unwrap();
    pool.rm_fs(41).unwrap();

    let devices = pool.teardown();
    let pool = StratPool::setup(pool_uuid, devices).unwrap();

    assert_eq!(pool.name(), "pool_a");
    let listed = pool.filesystems().unwrap();
    assert_eq!(listed.len(), 1);
    assert_eq!(listed[0].uuid, 42);
    assert_eq!(listed[0].name, "logs");
}
