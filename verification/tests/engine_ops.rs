use stratis_core::blockdev::{DevContent, RawDevice};
use stratis_core::mdv::{FilesystemSave, MdvEntry};
use stratis_core::engine::StratEngine;
use stratis_core::errors::{EngineError, ErrorEnum};
use stratis_core::table::HasName;
use stratis_core::types::RenameAction;

/// Fabricate `n` unclaimed block devices, the loopback-device stand-in.
fn fabricate(n: u64) -> Vec<RawDevice> {
    let mut devices = Vec::new();
    let mut i: u64 = 0;
    while i < n {
        devices.push(RawDevice {
            id: i,
            size: 1024 * 1024,
            content: DevContent::Unclaimed,
            mdv_files: Vec::new(),
        });
        i += 1;
    }
    devices
}

/// Verify that a pool rename causes the pool metadata to get the new name.
fn test_pool_rename(paths: Vec<RawDevice>) {
    let mut engine = StratEngine::initialize(Vec::new()).unwrap();

    let name1 = "name1";
    let uuid1 = engine.create_pool(name1, paths, None, false).unwrap();

    let name2 = "name2";
    let action = engine.rename_pool(uuid1, name2).unwrap();

    assert_eq!(action, RenameAction::Renamed);
    let devices = engine.teardown().unwrap();

    let engine = StratEngine::initialize(devices).unwrap();
    let pool_name: String = engine.get_pool(uuid1).unwrap().name().into();
    assert_eq!(pool_name, name2);
}

#[test]
pub fn loop_test_pool_rename() {
    test_pool_rename(fabricate(2));
}

#[test]
pub fn real_test_pool_rename() {
    test_pool_rename(fabricate(1));
}

/// Test engine setup.
/// 1. Create two pools.
/// 2. Verify that both exist.
/// 3. Teardown the engine.
/// 4. Verify that pools are gone.
/// 5. Initialize the engine.
/// 6. Verify that pools can be found again.
fn test_setup(paths: Vec<RawDevice>) {
    assert!(paths.len() > 1);

    let mut paths = paths;
    let paths2 = paths.split_off(paths.len() / 2);
    let paths1 = paths;

    let mut engine = StratEngine::initialize(Vec::new()).unwrap();

    let name1 = "name1";
    let uuid1 = engine.create_pool(name1, paths1, None, false).unwrap();

    let name2 = "name2";
    let uuid2 = engine.create_pool(name2, paths2, None, false).unwrap();

    assert!(engine.get_pool(uuid1).is_some());
    assert!(engine.get_pool(uuid2).is_some());

    let devices = engine.teardown().unwrap();

    let engine = StratEngine::initialize(devices).unwrap();

    assert!(engine.get_pool(uuid1).is_some());
    assert!(engine.get_pool(uuid2).is_some());
}

#[test]
pub fn loop_test_setup() {
    test_setup(fabricate(2));
}

#[test]
pub fn real_test_setup() {
    test_setup(fabricate(2));
}

#[test]
fn test_restart_keeps_names() {
    let mut engine = StratEngine::initialize(Vec::new()).unwrap();
    let uuid1 = engine.create_pool("name1", fabricate(1), None, false).unwrap();
    let mut two = fabricate(1);
    two[0].id = 77;
    let uuid2 = engine.create_pool("name2", two, None, false).unwrap();

    let devices = engine.teardown().unwrap();
    let engine = StratEngine::initialize(devices).unwrap();

    let n1: String = engine.get_pool(uuid1).unwrap().name().into();
    let n2: String = engine.get_pool(uuid2).unwrap().name().into();
    assert_eq!(n1, "name1");
    assert_eq!(n2, "name2");
}

#[test]
fn test_duplicate_name_rejected() {
    let mut engine = StratEngine::initialize(Vec::new()).unwrap();
    let uuid1 = engine.create_pool("name1", fabricate(1), None, false).unwrap();

    let second = engine.create_pool("name1", fabricate(1), None, false);
    match second {
        Err(EngineError::Engine(ErrorEnum::AlreadyExists, _)) => {}
        other => panic!("expected AlreadyExists, got {:?}", other.map(|_| ())),
    }

    let pools = engine.pools();
    assert_eq!(pools.len(), 1);
    assert_eq!(pools[0].name(), "name1");
    assert!(engine.get_pool(uuid1).is_some());
}

#[test]
fn test_destroy_nonexistent_is_noop() {
    let mut engine = StratEngine::initialize(Vec::new()).unwrap();
    let destroyed = engine.destroy_pool(0xDEADBEEF).unwrap();
    assert_eq!(destroyed, false);
}

#[test]
fn test_destroy_existing() {
    let mut engine = StratEngine::initialize(Vec::new()).unwrap();
    let uuid = engine.create_pool("name1", fabricate(1), None, false).unwrap();
    assert_eq!(engine.destroy_pool(uuid).unwrap(), true);
    assert!(engine.get_pool(uuid).is_none());
    assert_eq!(engine.pools().len(), 0);
}

#[test]
fn test_rename_identity() {
    let mut engine = StratEngine::initialize(Vec::new()).unwrap();
    let uuid = engine.create_pool("name1", fabricate(1), None, false).unwrap();
    let action = engine.rename_pool(uuid, "name1").unwrap();
    assert_eq!(action, RenameAction::Identity);
    assert_eq!(engine.get_pool(uuid).unwrap().name(), "name1");
    assert_eq!(engine.pools().len(), 1);
}

#[test]
fn test_rename_not_found() {
    let mut engine = StratEngine::initialize(Vec::new()).unwrap();
    match engine.rename_pool(42, "name2") {
        Err(EngineError::Engine(ErrorEnum::NotFound, _)) => {}
        other => panic!("expected NotFound, got {:?}", other.map(|_| ())),
    }
}

#[test]
fn test_rename_to_taken_name() {
    let mut engine = StratEngine::initialize(Vec::new()).unwrap();
    let uuid1 = engine.create_pool("name1", fabricate(1), None, false).unwrap();
    let mut two = fabricate(1);
    two[0].id = 9;
    engine.create_pool("name2", two, None, false).unwrap();

    match engine.rename_pool(uuid1, "name2") {
        Err(EngineError::Engine(ErrorEnum::AlreadyExists, _)) => {}
        other => panic!("expected AlreadyExists, got {:?}", other.map(|_| ())),
    }
    assert_eq!(engine.get_pool(uuid1).unwrap().name(), "name1");
}

#[test]
fn test_rename_rollback_on_write_failure() {
    let mut engine = StratEngine::initialize(Vec::new()).unwrap();
    let uuid = engine.create_pool("name1", fabricate(1), None, false).unwrap();

    assert!(engine.set_pool_metadata_write_failure(uuid, true));
    assert!(engine.rename_pool(uuid, "name2").is_err());

    let pool_name: String = engine.get_pool(uuid).unwrap().name().into();
    assert_eq!(pool_name, "name1");
    let pools = engine.pools();
    assert_eq!(pools.len(), 1);
    assert_eq!(pools[0].name(), "name1");

    assert!(engine.set_pool_metadata_write_failure(uuid, false));
    assert_eq!(engine.rename_pool(uuid, "name2").unwrap(), RenameAction::Renamed);
    assert_eq!(engine.get_pool(uuid).unwrap().name(), "name2");
}

#[test]
fn test_create_rejects_unknown_redundancy() {
    let mut engine = StratEngine::initialize(Vec::new()).unwrap();
    match engine.create_pool("name1", fabricate(1), Some(3), false) {
        Err(EngineError::Engine(ErrorEnum::Invalid, _)) => {}
        other => panic!("expected Invalid, got {:?}", other.map(|_| ())),
    }
    assert_eq!(engine.pools().len(), 0);
}

#[test]
fn test_create_requires_devices() {
    let mut engine = StratEngine::initialize(Vec::new()).unwrap();
    match engine.create_pool("name1", Vec::new(), None, false) {
        Err(EngineError::Engine(ErrorEnum::Invalid, _)) => {}
        other => panic!("expected Invalid, got {:?}", other.map(|_| ())),
    }
}

#[test]
fn test_create_refuses_claimed_device_without_force() {
    let mut engine = StratEngine::initialize(Vec::new()).unwrap();
    let uuid1 = engine.create_pool("name1", fabricate(1), None, false).unwrap();
    let devices = engine.teardown().unwrap();

    let mut engine = StratEngine::initialize(Vec::new()).unwrap();
    match engine.create_pool("name2", devices, None, false) {
        Err(EngineError::Engine(ErrorEnum::Invalid, _)) => {}
        other => panic!("expected Invalid, got {:?}", other.map(|_| ())),
    }
    assert!(engine.get_pool(uuid1).is_none());
}

#[test]
fn test_create_with_force_reclaims() {
    let mut engine = StratEngine::initialize(Vec::new()).unwrap();
    engine.create_pool("name1", fabricate(1), None, false).unwrap();
    let devices = engine.teardown().unwrap();

    let mut engine = StratEngine::initialize(Vec::new()).unwrap();
    let uuid2 = engine.create_pool("name2", devices, None, true).unwrap();
    assert_eq!(engine.get_pool(uuid2).unwrap().name(), "name2");
}

#[test]
fn test_configure_simulator_is_ok() {
    let mut engine = StratEngine::initialize(Vec::new()).unwrap();
    assert!(engine.configure_simulator(32).is_ok());
}

#[test]
fn test_engine_check_runs_over_all_pools() {
    let mut engine = StratEngine::initialize(Vec::new()).unwrap();
    let uuid1 = engine.create_pool("name1", fabricate(1), None, false).unwrap();
    let mut two = fabricate(1);
    two[0].id = 50;
    let uuid2 = engine.create_pool("name2", two, None, false).unwrap();

    engine.check();

    assert_eq!(engine.get_pool(uuid1).unwrap().name(), "name1");
    assert_eq!(engine.get_pool(uuid2).unwrap().name(), "name2");
    assert_eq!(engine.pools().len(), 2);
}

#[test]
fn test_foreign_devices_ignored_on_discovery() {
    let devices = vec![
        RawDevice { id: 1, size: 4096, content: DevContent::Foreign, mdv_files: Vec::new() },
        RawDevice { id: 2, size: 4096, content: DevContent::Unclaimed, mdv_files: Vec::new() },
    ];
    let engine = StratEngine::initialize(devices).unwrap();
    assert_eq!(engine.pools().len(), 0);
}

#[test]
fn test_discovery_rebuilds_pool_from_signed_devices() {
    let devices = vec![
        RawDevice {
            id: 1,
            size: 4096,
            content: DevContent::Stratis {
                pool_uuid: 99,
                dev_uuid: 1000,
                pool_name: "imported".to_owned(),
            },
            mdv_files: vec![MdvEntry {
                temp: false,
                fs: FilesystemSave { name: "data".to_owned(), uuid: 5, size: 64 },
            }],
        },
        RawDevice {
            id: 2,
            size: 4096,
            content: DevContent::Stratis {
                pool_uuid: 99,
                dev_uuid: 1001,
                pool_name: "imported".to_owned(),
            },
            mdv_files: Vec::new(),
        },
    ];
    let engine = StratEngine::initialize(devices).unwrap();
    let pool = engine.get_pool(99).unwrap();
    assert_eq!(pool.name(), "imported");
    let listed = pool.filesystems().unwrap();
    assert_eq!(listed.len(), 1);
    assert_eq!(listed[0].uuid, 5);
    assert_eq!(listed[0].name, "data");
}

#[test]
fn test_discovery_aborts_on_colliding_pool_names() {
    let devices = vec![
        RawDevice {
            id: 1,
            size: 4096,
            content: DevContent::Stratis {
                pool_uuid: 1,
                dev_uuid: 1000,
                pool_name: "same".to_owned(),
            },
            mdv_files: Vec::new(),
        },
        RawDevice {
            id: 2,
            size: 4096,
            content: DevContent::Stratis {
                pool_uuid: 2,
                dev_uuid: 1001,
                pool_name: "same".to_owned(),
            },
            mdv_files: Vec::new(),
        },
    ];
    match StratEngine::initialize(devices) {
        Err(EngineError::Engine(ErrorEnum::Invalid, _)) => {}
        Err(other) => panic!("expected Invalid, got {:?}", other),
        Ok(_) => panic!("expected discovery to abort"),
    }
}
