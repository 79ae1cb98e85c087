use mxu_lib::config::{ConnectPlan, ControllerConfig, MAA_INVALID_ID};
use mxu_lib::config::{MAA_GAMEPAD_TYPE_DUALSHOCK4, MAA_GAMEPAD_TYPE_XBOX360};
use mxu_lib::config::{MAA_WIN32_SCREENCAP_DXGI_DESKTOPDUP};
use mxu_lib::config::connect_plan;
use mxu_lib::errors::MaaError;
use mxu_lib::instance::{
    accepted_ids, agent_child_args, agent_timeout, check_posted_id, map_connection_status,
    map_task_status, status_answer, ConnectionStatus, InstanceRuntime, TaskStatus, TeardownAction,
};
use mxu_lib::state::MaaState;

#[test]
fn task_status_mapping_is_exact() {
    assert_eq!(map_task_status(1000), TaskStatus::Pending);
    assert_eq!(map_task_status(2000), TaskStatus::Running);
    assert_eq!(map_task_status(3000), TaskStatus::Succeeded);
    assert_eq!(map_task_status(4000), TaskStatus::Failed);
    assert_eq!(map_task_status(0), TaskStatus::Failed);
    assert_eq!(map_task_status(-1), TaskStatus::Failed);
}

#[test]
fn connection_status_mapping() {
    assert!(matches!(map_connection_status(true), ConnectionStatus::Connected));
    assert!(matches!(map_connection_status(false), ConnectionStatus::Disconnected));
}

#[test]
fn batch_posts_skip_invalid_sentinels() {
    let posted = vec![5i64, MAA_INVALID_ID, 7, MAA_INVALID_ID, 9];
    assert_eq!(accepted_ids(&posted), vec![5i64, 7, 9]);
    assert_eq!(accepted_ids(&vec![MAA_INVALID_ID]), Vec::<i64>::new());
}

#[test]
fn single_post_sentinel_is_a_hard_error() {
    assert_eq!(check_posted_id(MAA_INVALID_ID), Err(MaaError::NativeFailure));
    assert_eq!(check_posted_id(12), Ok(12));
}

#[test]
fn teardown_order_is_fixed() {
    let rt = InstanceRuntime {
        resource: Some(1),
        controller: Some(2),
        controller_pool_key: Some(b"k".to_vec()),
        tasker: Some(3),
        agent_client: Some(4),
        agent_child: Some(5),
        task_ids: vec![11, 12],
    };
    assert_eq!(
        rt.teardown_actions(),
        vec![
            TeardownAction::DisconnectAgent(4),
            TeardownAction::DestroyAgentClient(4),
            TeardownAction::KillChild(5),
            TeardownAction::DestroyTasker(3),
            TeardownAction::DestroyResource(1),
        ]
    );
}

#[test]
fn failed_agent_connect_retains_child_but_not_client() {
    let mut rt: InstanceRuntime = Default::default();
    let r = rt.on_agent_connect(false, 0x40, 0x50);
    assert_eq!(r, Err(MaaError::NativeFailure));
    assert_eq!(rt.agent_client, None); // the caller destroys handle 0x40
    assert_eq!(rt.agent_child, Some(0x50)); // kept for diagnostics
    let ok = rt.on_agent_connect(true, 0x41, 0x51);
    assert_eq!(ok, Ok(()));
    assert_eq!(rt.agent_client, Some(0x41));
    assert_eq!(rt.agent_child, Some(0x51));
}

#[test]
fn stop_agent_disconnects_destroys_then_kills() {
    let mut rt: InstanceRuntime = Default::default();
    let _ = rt.on_agent_connect(true, 0x40, 0x50);
    let actions = rt.stop_agent();
    assert_eq!(
        actions,
        vec![
            TeardownAction::DisconnectAgent(0x40),
            TeardownAction::DestroyAgentClient(0x40),
            TeardownAction::KillChild(0x50),
        ]
    );
    assert_eq!(rt.agent_client, None);
    assert_eq!(rt.agent_child, None);
}

#[test]
fn destroying_resource_also_destroys_bound_tasker() {
    let mut rt: InstanceRuntime = Default::default();
    rt.store_resource(0x10);
    rt.store_tasker(0x20);
    let actions = rt.destroy_resource();
    assert_eq!(
        actions,
        vec![
            TeardownAction::DestroyResource(0x10),
            TeardownAction::DestroyTasker(0x20),
        ]
    );
    assert_eq!(rt.resource, None);
    assert_eq!(rt.tasker, None);
}

#[test]
fn stop_clears_recorded_task_ids() {
    let mut rt: InstanceRuntime = Default::default();
    rt.store_tasker(0x20);
    rt.record_task_id(100);
    rt.record_task_id(101);
    assert_eq!(rt.task_ids, vec![100, 101]);
    assert_eq!(rt.take_stop_target(), Ok(0x20));
    assert!(rt.task_ids.is_empty());
    let mut bare: InstanceRuntime = Default::default();
    bare.record_task_id(1);
    assert_eq!(bare.take_stop_target(), Err(MaaError::NotFound));
    assert_eq!(bare.task_ids, vec![1]); // untouched on the error path
}

#[test]
fn readiness_requires_resource_and_controller() {
    let mut rt: InstanceRuntime = Default::default();
    assert_eq!(rt.require_ready(), Err(MaaError::NotFound));
    rt.store_resource(0x10);
    assert_eq!(rt.require_ready(), Err(MaaError::NotFound));
    rt.controller = Some(0x30);
    assert_eq!(rt.require_ready(), Ok((0x10, 0x30)));
    assert_eq!(rt.require_tasker(), Err(MaaError::NotFound));
}

#[test]
fn snapshot_carries_queries_and_task_ids() {
    let mut rt: InstanceRuntime = Default::default();
    rt.record_task_id(7);
    let s = rt.snapshot(true, false, true, false);
    assert!(s.connected && !s.resource_loaded && s.tasker_inited && !s.is_running);
    assert_eq!(s.task_ids, vec![7]);
}

#[test]
fn connect_plan_adb_parses_numeric_fields() {
    let cfg = ControllerConfig::Adb {
        adb_path: b"adb".to_vec(),
        address: b"127.0.0.1-5555".to_vec(),
        screencap_methods: b"18446744073709551615".to_vec(),
        input_methods: b"8".to_vec(),
        config: b"{}".to_vec(),
    };
    match connect_plan(&cfg, Some(&b"agent.so".to_vec())).expect("valid plan") {
        ConnectPlan::Adb {
            adb_path,
            address,
            screencap_methods,
            input_methods,
            config,
            agent_path,
        } => {
            assert_eq!(adb_path, b"adb".to_vec());
            assert_eq!(address, b"127.0.0.1-5555".to_vec());
            assert_eq!(screencap_methods, u64::MAX);
            assert_eq!(input_methods, 8);
            assert_eq!(config, b"{}".to_vec());
            assert_eq!(agent_path, b"agent.so".to_vec());
        }
        _ => panic!("wrong variant"),
    }
}

#[test]
fn connect_plan_rejects_malformed_numerals() {
    let bad = ControllerConfig::Adb {
        adb_path: b"adb".to_vec(),
        address: b"a".to_vec(),
        screencap_methods: b"12x4".to_vec(),
        input_methods: b"8".to_vec(),
        config: b"{}".to_vec(),
    };
    assert!(matches!(connect_plan(&bad, None), Err(MaaError::InvalidConfig)));
    let overflow = ControllerConfig::Adb {
        adb_path: b"adb".to_vec(),
        address: b"a".to_vec(),
        screencap_methods: b"8".to_vec(),
        input_methods: b"18446744073709551616".to_vec(),
        config: b"{}".to_vec(),
    };
    assert!(matches!(connect_plan(&overflow, None), Err(MaaError::InvalidConfig)));
}

#[test]
fn connect_plan_gamepad_resolves_defaults() {
    let cfg = ControllerConfig::Gamepad {
        handle: 5,
        gamepad_type: None,
        screencap_method: None,
    };
    match connect_plan(&cfg, None).expect("plan") {
        ConnectPlan::Gamepad { handle, gamepad_type, screencap_method } => {
            assert_eq!(handle, 5);
            assert_eq!(gamepad_type, MAA_GAMEPAD_TYPE_XBOX360);
            assert_eq!(screencap_method, MAA_WIN32_SCREENCAP_DXGI_DESKTOPDUP);
        }
        _ => panic!("wrong variant"),
    }
    let ds4 = ControllerConfig::Gamepad {
        handle: 5,
        gamepad_type: Some(b"DualShock4".to_vec()),
        screencap_method: Some(2),
    };
    match connect_plan(&ds4, None).expect("plan") {
        ConnectPlan::Gamepad { gamepad_type, screencap_method, .. } => {
            assert_eq!(gamepad_type, MAA_GAMEPAD_TYPE_DUALSHOCK4);
            assert_eq!(screencap_method, 2);
        }
        _ => panic!("wrong variant"),
    }
}

#[test]
fn connect_plan_refuses_playcover_here() {
    let cfg = ControllerConfig::PlayCover { address: b"localhost-1717".to_vec() };
    assert!(matches!(connect_plan(&cfg, None), Err(MaaError::InvalidConfig)));
}

#[test]
fn agent_arguments_end_with_socket_id() {
    let args = agent_child_args(
        Some(vec![b"-m".to_vec(), b"agent".to_vec()]),
        b"sock-123".to_vec(),
    );
    assert_eq!(args, vec![b"-m".to_vec(), b"agent".to_vec(), b"sock-123".to_vec()]);
    assert_eq!(
        agent_child_args(None, b"sock-9".to_vec()),
        vec![b"sock-9".to_vec()]
    );
    assert_eq!(agent_timeout(Some(5000)), 5000);
    assert_eq!(agent_timeout(None), -1);
}

/// Destroying an unknown id succeeds without side effects; destroying a
/// known id twice performs native teardown only once.
#[test]
fn destroy_is_idempotent() {
    let mut state: MaaState = Default::default();
    let id = b"inst".to_vec();

    // Unknown id: success, no actions, no change.
    assert!(state.destroy_instance(&id).is_empty());
    assert_eq!(state.instances.len(), 0);

    // Create twice: the second insert is a no-op.
    state.create_instance(&id);
    state.create_instance(&id);
    assert_eq!(state.instances.len(), 1);

    // Give the runtime some handles and a pooled controller reference.
    state.pool.insert(b"key".to_vec(), 0x77, &id);
    {
        let entry = &mut state.instances[0];
        entry.runtime.store_resource(0x10);
        entry.runtime.store_tasker(0x20);
        entry.runtime.controller = Some(0x77);
        entry.runtime.controller_pool_key = Some(b"key".to_vec());
    }

    let actions = state.destroy_instance(&id);
    assert_eq!(
        actions,
        vec![
            mxu_lib::instance::TeardownAction::DestroyTasker(0x20),
            mxu_lib::instance::TeardownAction::DestroyResource(0x10),
            mxu_lib::instance::TeardownAction::DestroyController(0x77),
        ]
    );
    assert_eq!(state.instances.len(), 0);
    assert_eq!(state.pool.entries.len(), 0);

    // Second destroy of the same id: success again, nothing to do.
    assert!(state.destroy_instance(&id).is_empty());
}

#[test]
fn destroy_releases_shared_controller_without_destroying_it() {
    let mut state: MaaState = Default::default();
    let id1 = b"one".to_vec();
    let id2 = b"two".to_vec();
    state.create_instance(&id1);
    state.create_instance(&id2);
    state.pool.insert(b"key".to_vec(), 0x99, &id1);
    assert_eq!(state.pool.get(&b"key".to_vec(), &id2), Some(0x99));
    state.instances[0].runtime.controller_pool_key = Some(b"key".to_vec());
    state.instances[1].runtime.controller_pool_key = Some(b"key".to_vec());

    // The first destroy releases the reference: the handle stays alive.
    let a1 = state.destroy_instance(&id1);
    assert!(a1.is_empty());
    assert_eq!(state.pool.entries.len(), 1);

    // The last destroy crosses zero: exactly one native controller destroy.
    let a2 = state.destroy_instance(&id2);
    assert_eq!(a2, vec![TeardownAction::DestroyController(0x99)]);
    assert_eq!(state.pool.entries.len(), 0);
}

#[test]
fn cleanup_takes_every_agent_child() {
    let mut state: MaaState = Default::default();
    state.create_instance(&b"a".to_vec());
    state.create_instance(&b"b".to_vec());
    state.create_instance(&b"c".to_vec());
    state.instances[0].runtime.agent_child = Some(111);
    state.instances[2].runtime.agent_child = Some(333);
    let pids = state.cleanup_all_agent_children();
    assert_eq!(pids, vec![111, 333]);
    for e in &state.instances {
        assert_eq!(e.runtime.agent_child, None);
    }
}

#[test]
fn storing_a_new_controller_releases_the_old_reference() {
    let mut state: MaaState = Default::default();
    let id = b"inst".to_vec();
    state.create_instance(&id);

    // First connect: sole owner of handle 0x10 under the old fingerprint.
    state.pool.insert(b"old-key".to_vec(), 0x10, &id);
    let r1 = state
        .store_controller(&id, 0x10, b"old-key".to_vec())
        .expect("instance exists");
    assert!(r1.is_empty());
    assert_eq!(state.instances[0].runtime.controller, Some(0x10));

    // Reconnect under a different fingerprint: the old reference crosses
    // zero, so exactly one native destroy of the old handle is ordered.
    state.pool.insert(b"new-key".to_vec(), 0x20, &id);
    let r2 = state
        .store_controller(&id, 0x20, b"new-key".to_vec())
        .expect("instance exists");
    assert_eq!(r2, vec![TeardownAction::DestroyController(0x10)]);
    assert_eq!(state.instances[0].runtime.controller, Some(0x20));
    assert_eq!(
        state.instances[0].runtime.controller_pool_key,
        Some(b"new-key".to_vec())
    );
    assert_eq!(state.pool.entries.len(), 1);

    // An unknown instance is refused.
    assert_eq!(
        state.store_controller(&b"ghost".to_vec(), 1, b"k".to_vec()),
        Err(MaaError::NotFound)
    );
}

#[test]
fn absent_handles_answer_no_without_error() {
    assert!(!status_answer(None, true));
    assert!(!status_answer(None, false));
    assert!(status_answer(Some(0x20), true));
    assert!(!status_answer(Some(0x20), false));
}
