use mxu_lib::config::ControllerConfig;
use mxu_lib::pool::{ControllerPool, PooledController};

fn adb_config() -> ControllerConfig {
    ControllerConfig::Adb {
        adb_path: b"/usr/bin/adb".to_vec(),
        address: b"127.0.0.1-5555".to_vec(),
        screencap_methods: b"18446744073709551615".to_vec(),
        input_methods: b"8".to_vec(),
        config: b"{}".to_vec(),
    }
}

#[test]
fn pool_key_adb_exact_bytes() {
    let key = adb_config().pool_key();
    assert_eq!(
        key,
        b"adb:/usr/bin/adb:127.0.0.1-5555:18446744073709551615:8:{}".to_vec()
    );
}

#[test]
fn pool_key_win32_exact_bytes() {
    let c = ControllerConfig::Win32 {
        handle: 3735928559,
        screencap_method: 4,
        mouse_method: 1,
        keyboard_method: 1,
    };
    assert_eq!(c.pool_key(), b"win32:3735928559:4:1:1".to_vec());
}

#[test]
fn pool_key_gamepad_defaults() {
    // An absent screencap method keys as its resolved default, the
    // desktop-duplication method, exactly as the connect plan resolves it.
    let c = ControllerConfig::Gamepad {
        handle: 7,
        gamepad_type: None,
        screencap_method: None,
    };
    assert_eq!(c.pool_key(), b"gamepad:7:Xbox360:4".to_vec());
    let d = ControllerConfig::Gamepad {
        handle: 7,
        gamepad_type: Some(b"DS4".to_vec()),
        screencap_method: Some(4),
    };
    assert_eq!(d.pool_key(), b"gamepad:7:DS4:4".to_vec());
}

#[test]
fn pool_key_playcover() {
    let c = ControllerConfig::PlayCover {
        address: b"localhost-1717".to_vec(),
    };
    assert_eq!(c.pool_key(), b"playcover:localhost-1717".to_vec());
}

#[test]
fn identical_fields_same_key_different_fields_different_key() {
    let a = adb_config().pool_key();
    let b = adb_config().pool_key();
    assert_eq!(a, b);
    let c = ControllerConfig::Adb {
        adb_path: b"/usr/bin/adb".to_vec(),
        address: b"127.0.0.1-5556".to_vec(),
        screencap_methods: b"18446744073709551615".to_vec(),
        input_methods: b"8".to_vec(),
        config: b"{}".to_vec(),
    };
    assert_ne!(a, c.pool_key());
}

/// Two instances connecting with byte-identical controller configuration
/// produce exactly one native handle, shared at reference count two; the
/// first release keeps the handle alive, the second hands it out for its
/// single destroy.
#[test]
fn shared_controller_lifecycle() {
    let id1 = b"instance-a".to_vec();
    let id2 = b"instance-b".to_vec();
    let key1 = adb_config().pool_key();
    let key2 = adb_config().pool_key();
    assert_eq!(key1, key2);

    let mut pool = ControllerPool::new();
    // First instance: nothing pooled yet, so it creates the one native
    // handle and registers it.
    assert_eq!(pool.get(&key1, &id1), None);
    let native_handle: u64 = 0x1000;
    pool.insert(key1.clone(), native_handle, &id1);
    assert_eq!(pool.entries[0].pooled.count(), 1);

    // Second instance: byte-identical configuration reuses the same handle.
    let shared = pool.get(&key2, &id2);
    assert_eq!(shared, Some(native_handle));
    assert_eq!(pool.entries[0].pooled.count(), 2);

    // Destroying the first instance leaves the handle alive for the second.
    let mut destroys = 0;
    if pool.release(&key1, &id1).is_some() {
        destroys += 1;
    }
    assert_eq!(destroys, 0);
    assert_eq!(pool.entries[0].pooled.count(), 1);
    let owners = pool.find_instances_by_controller_ptr(native_handle);
    assert_eq!(owners, vec![id2.clone()]);

    // Destroying the second crosses zero: exactly one destroy, pool empty.
    let last = pool.release(&key2, &id2);
    assert_eq!(last, Some(native_handle));
    if last.is_some() {
        destroys += 1;
    }
    assert_eq!(destroys, 1);
    assert_eq!(pool.entries.len(), 0);
    assert_eq!(pool.release(&key2, &id2), None);
}

/// Over a concrete operation sequence, the handle comes back exactly at the
/// zero crossings of the reference count — never at count zero, never twice.
#[test]
fn destroys_match_zero_crossings() {
    let id = b"only".to_vec();
    let key = b"k".to_vec();
    let mut pool = ControllerPool::new();
    let mut destroys = 0;

    assert_eq!(pool.get(&key, &id), None); // absent: no handle at count zero
    pool.insert(key.clone(), 42, &id); // count 1
    assert_eq!(pool.get(&key, &id), Some(42)); // count 2
    assert!(pool.release(&key, &id).is_none()); // count 1
    if pool.release(&key, &id).is_some() {
        destroys += 1; // crossing: count 0
    }
    assert_eq!(destroys, 1);
    assert_eq!(pool.get(&key, &id), None); // gone again

    pool.insert(key.clone(), 43, &id); // new cycle, count 1
    if pool.release(&key, &id).is_some() {
        destroys += 1; // second crossing
    }
    assert_eq!(destroys, 2);
}

#[test]
fn pooled_controller_owner_set_is_idempotent_count_is_not() {
    let mut p = PooledController::new(9);
    assert_eq!(p.count(), 1);
    p.acquire(&b"x".to_vec());
    p.acquire(&b"x".to_vec());
    assert_eq!(p.count(), 3);
    assert_eq!(p.instance_ids.len(), 1); // recorded once
    assert!(!p.release(&b"x".to_vec()));
    assert!(!p.release(&b"x".to_vec()));
    assert!(p.release(&b"x".to_vec())); // the last release reports the crossing
    assert_eq!(p.count(), 0);
}

#[test]
fn find_key_by_instance_reports_membership() {
    let mut pool = ControllerPool::new();
    pool.insert(b"key-a".to_vec(), 1, &b"i1".to_vec());
    pool.insert(b"key-b".to_vec(), 2, &b"i2".to_vec());
    assert_eq!(pool.find_key_by_instance(&b"i2".to_vec()), Some(b"key-b".to_vec()));
    assert_eq!(pool.find_key_by_instance(&b"i3".to_vec()), None);
    assert_eq!(
        pool.find_instances_by_controller_ptr(2),
        vec![b"i2".to_vec()]
    );
    assert!(pool.find_instances_by_controller_ptr(99).is_empty());
}

#[test]
fn gamepad_defaults_share_a_fingerprint() {
    // Absent options mean their resolved defaults, so these two
    // configurations select the same engine controller and share one key.
    let implicit = ControllerConfig::Gamepad {
        handle: 7,
        gamepad_type: None,
        screencap_method: None,
    };
    let explicit = ControllerConfig::Gamepad {
        handle: 7,
        gamepad_type: Some(b"Xbox360".to_vec()),
        screencap_method: Some(4),
    };
    assert_eq!(implicit.pool_key(), explicit.pool_key());
    // An explicit non-default screencap method selects a different engine
    // controller and must not share the absent field's key.
    let zero = ControllerConfig::Gamepad {
        handle: 7,
        gamepad_type: None,
        screencap_method: Some(0),
    };
    assert_ne!(implicit.pool_key(), zero.pool_key());
    // Any single differing semantic field changes the key.
    let other = ControllerConfig::Gamepad {
        handle: 7,
        gamepad_type: Some(b"DS4".to_vec()),
        screencap_method: None,
    };
    assert_ne!(implicit.pool_key(), other.pool_key());
}

/// Field encoding keeps the key injective even when fields hold the
/// separator: distributing the same bytes differently over two fields gives
/// two different keys, and a real debug-bridge address renders with its
/// colon escaped.
#[test]
fn colliding_field_bytes_keep_distinct_keys() {
    let left = ControllerConfig::Adb {
        adb_path: b"a:b".to_vec(),
        address: b"c".to_vec(),
        screencap_methods: b"1".to_vec(),
        input_methods: b"1".to_vec(),
        config: b"".to_vec(),
    };
    let right = ControllerConfig::Adb {
        adb_path: b"a".to_vec(),
        address: b"b:c".to_vec(),
        screencap_methods: b"1".to_vec(),
        input_methods: b"1".to_vec(),
        config: b"".to_vec(),
    };
    assert_ne!(left.pool_key(), right.pool_key());
    assert_eq!(left.pool_key(), b"adb:a%3Ab:c:1:1:".to_vec());
    assert_eq!(right.pool_key(), b"adb:a:b%3Ac:1:1:".to_vec());

    let real = ControllerConfig::Adb {
        adb_path: b"adb".to_vec(),
        address: b"127.0.0.1:5555".to_vec(),
        screencap_methods: b"4".to_vec(),
        input_methods: b"8".to_vec(),
        config: b"{}".to_vec(),
    };
    assert_eq!(real.pool_key(), b"adb:adb:127.0.0.1%3A5555:4:8:{}".to_vec());
}

#[test]
fn escape_byte_is_itself_escaped() {
    let c = ControllerConfig::PlayCover {
        address: b"50%:ok".to_vec(),
    };
    assert_eq!(c.pool_key(), b"playcover:50%25%3Aok".to_vec());
}
