use mxu_lib::bytes::{parse_u64, to_ascii_lower, u64_to_dec};
use mxu_lib::paths::{archive_kind, backup_slot_step, ArchiveKind};
use mxu_lib::errors::MaaError;
use mxu_lib::outside::{image_data_url, window_passes};
use mxu_lib::paths::{
    bak_candidate, build_user_agent, check_exe_path, get_maafw_dir, normalize_path,
    old_folder_path, resolve_lib_dir, resolve_local_file_path,
};
use mxu_lib::webview::{
    ensure_webview2, install_outcome, webview2_disabled_decision, webview2_installed_decision,
    WebviewDisabledReason, WebviewStep, INSTALLER_ALREADY_PRESENT,
};

#[test]
fn decimal_rendering_and_parsing() {
    assert_eq!(u64_to_dec(0), b"0".to_vec());
    assert_eq!(u64_to_dec(907), b"907".to_vec());
    assert_eq!(u64_to_dec(u64::MAX), b"18446744073709551615".to_vec());
    assert_eq!(parse_u64(&b"907".to_vec()), Some(907));
    assert_eq!(parse_u64(&b"0".to_vec()), Some(0));
    assert_eq!(parse_u64(&b"18446744073709551615".to_vec()), Some(u64::MAX));
    assert_eq!(parse_u64(&b"18446744073709551616".to_vec()), None);
    assert_eq!(parse_u64(&b"".to_vec()), None);
    assert_eq!(parse_u64(&b"12a".to_vec()), None);
}

#[test]
fn lowercasing_is_ascii_only() {
    assert_eq!(
        to_ascii_lower(&b"Content-DISPOSITION; X=1".to_vec()),
        b"content-disposition; x=1".to_vec()
    );
}

#[test]
fn normalization_resolves_dots() {
    assert_eq!(normalize_path(&b"a/b/../c".to_vec()), b"a/c".to_vec());
    assert_eq!(normalize_path(&b"./x".to_vec()), b"x".to_vec());
    assert_eq!(normalize_path(&b"a//b/./c".to_vec()), b"a/b/c".to_vec());
    assert_eq!(normalize_path(&b"/a/../..".to_vec()), b"/..".to_vec());
    assert_eq!(normalize_path(&b"../x.txt".to_vec()), b"../x.txt".to_vec());
    assert_eq!(normalize_path(&b"a\\b\\..\\c".to_vec()), b"a/c".to_vec());
}

#[test]
fn local_files_cannot_escape_the_executable_directory() {
    let exe = b"/opt/app".to_vec();
    assert_eq!(
        resolve_local_file_path(&exe, &b"notes.txt".to_vec()),
        Ok(b"/opt/app/notes.txt".to_vec())
    );
    assert_eq!(
        resolve_local_file_path(&exe, &b"sub/../notes.txt".to_vec()),
        Ok(b"/opt/app/notes.txt".to_vec())
    );
    assert_eq!(
        resolve_local_file_path(&exe, &b"../../etc/passwd".to_vec()),
        Err(MaaError::InvalidConfig)
    );
}

#[test]
fn engine_directory_and_resolution() {
    let exe = b"/opt/app".to_vec();
    assert_eq!(get_maafw_dir(&exe), b"/opt/app/maafw".to_vec());
    assert_eq!(resolve_lib_dir(None, &exe), b"/opt/app/maafw".to_vec());
    assert_eq!(resolve_lib_dir(Some(&b"".to_vec()), &exe), b"/opt/app/maafw".to_vec());
    assert_eq!(
        resolve_lib_dir(Some(&b"/custom/lib".to_vec()), &exe),
        b"/custom/lib".to_vec()
    );
}

#[test]
fn exe_location_concerns() {
    // A filesystem root.
    assert_eq!(
        check_exe_path(&b"C:\\".to_vec(), None, None),
        Some(b"root".to_vec())
    );
    assert_eq!(check_exe_path(&b"/".to_vec(), None, None), Some(b"root".to_vec()));
    // A temporary directory, by indicator substring (case-insensitive).
    assert_eq!(
        check_exe_path(&b"C:\\Users\\x\\AppData\\Local\\Temp\\pkg".to_vec(), None, None),
        Some(b"temp".to_vec())
    );
    assert_eq!(
        check_exe_path(&b"/tmp/unpacked".to_vec(), None, None),
        Some(b"temp".to_vec())
    );
    // A temporary directory named by the environment.
    assert_eq!(
        check_exe_path(
            &b"/var/folders/xy/app".to_vec(),
            Some(&b"/var/folders/XY".to_vec()),
            None
        ),
        Some(b"temp".to_vec())
    );
    // An ordinary install location.
    assert_eq!(check_exe_path(&b"/opt/app".to_vec(), None, None), None);
}

#[test]
fn backup_names_are_numbered_and_padded() {
    let name = b"pkg.zip".to_vec();
    assert_eq!(bak_candidate(&name, 1), b"pkg.zip.bak001".to_vec());
    assert_eq!(bak_candidate(&name, 42), b"pkg.zip.bak042".to_vec());
    assert_eq!(bak_candidate(&name, 999), b"pkg.zip.bak999".to_vec());
    assert_eq!(old_folder_path(&b"/opt/app".to_vec()), b"/opt/app/cache/old".to_vec());
}

#[test]
fn user_agent_is_assembled_exactly() {
    let ua = build_user_agent(
        &b"1.2.3".to_vec(),
        &b"linux".to_vec(),
        &b"x86_64".to_vec(),
        &b"2.1.0".to_vec(),
    );
    assert_eq!(ua, b"MXU/1.2.3 (linux; x86_64) Tauri/2.1.0".to_vec());
}

#[test]
fn data_url_encodes_the_bytes() {
    // Would fail if the encoder handed its input back unchanged.
    assert_eq!(
        image_data_url(&b"abc".to_vec()),
        b"data:image/png;base64,YWJj".to_vec()
    );
    assert_eq!(
        image_data_url(&b"ab".to_vec()),
        b"data:image/png;base64,YWI=".to_vec()
    );
    assert_eq!(image_data_url(&Vec::new()), b"data:image/png;base64,".to_vec());
}

#[test]
fn window_filter_answers_combine() {
    assert!(window_passes(None, None));
    assert!(window_passes(Some(true), None));
    assert!(!window_passes(Some(false), None));
    assert!(!window_passes(Some(true), Some(false)));
    assert!(window_passes(Some(true), Some(true)));
}

#[test]
fn webview_disabled_decision_checks_in_order() {
    assert_eq!(
        webview2_disabled_decision(Some(&Vec::new()), None, None, None),
        Some(WebviewDisabledReason::PolicyEmptyFolder)
    );
    assert_eq!(
        webview2_disabled_decision(None, Some(&Vec::new()), Some(0), None),
        Some(WebviewDisabledReason::PolicyEmptyFolder)
    );
    assert_eq!(
        webview2_disabled_decision(Some(&b"C:\\Edge".to_vec()), None, Some(0), None),
        Some(WebviewDisabledReason::FeatureDisabled)
    );
    assert_eq!(
        webview2_disabled_decision(None, None, Some(1), Some(&b"block.exe".to_vec())),
        Some(WebviewDisabledReason::IfeoBlocked)
    );
    assert_eq!(
        webview2_disabled_decision(None, None, Some(1), Some(&Vec::new())),
        None
    );
    assert_eq!(webview2_disabled_decision(None, None, None, None), None);
}

#[test]
fn webview_installed_follows_the_registry() {
    assert!(webview2_installed_decision(true, true));
    assert!(webview2_installed_decision(true, false));
    assert!(!webview2_installed_decision(false, true));
    assert!(!webview2_installed_decision(false, false));
}

#[test]
fn installer_outcome_accepts_already_present() {
    assert_eq!(install_outcome(true, 0), Ok(()));
    assert_eq!(install_outcome(false, INSTALLER_ALREADY_PRESENT), Ok(()));
    assert_eq!(install_outcome(false, 1), Err(MaaError::IOFailure));
}

#[test]
fn startup_guard_steps() {
    assert_eq!(
        ensure_webview2(Some(WebviewDisabledReason::IfeoBlocked), true),
        WebviewStep::ShowDisabledDialog(WebviewDisabledReason::IfeoBlocked)
    );
    assert_eq!(ensure_webview2(None, true), WebviewStep::Proceed);
    assert_eq!(ensure_webview2(None, false), WebviewStep::NeedInstall);
}

#[test]
fn archive_dispatch_by_suffix() {
    assert_eq!(archive_kind(&b"pkg.TAR.GZ".to_vec()), ArchiveKind::TarGz);
    assert_eq!(archive_kind(&b"pkg.tgz".to_vec()), ArchiveKind::TarGz);
    assert_eq!(archive_kind(&b"pkg.zip".to_vec()), ArchiveKind::Zip);
    assert_eq!(archive_kind(&b"pkg.tar".to_vec()), ArchiveKind::Zip);
}

/// The guard accepts a path only at a separator boundary: a sibling
/// directory whose name merely extends the executable directory's name is
/// outside.
#[test]
fn sibling_directories_are_outside() {
    assert_eq!(
        resolve_local_file_path(&b"/opt/app".to_vec(), &b"../appx/evil.txt".to_vec()),
        Err(MaaError::InvalidConfig)
    );
    assert_eq!(
        resolve_local_file_path(&b"b".to_vec(), &b"../bb".to_vec()),
        Err(MaaError::InvalidConfig)
    );
    // The directory itself is inside.
    assert_eq!(
        resolve_local_file_path(&b"/opt/app".to_vec(), &b".".to_vec()),
        Ok(b"/opt/app".to_vec())
    );
}

#[test]
fn parent_component_cannot_pop_a_drive_prefix() {
    assert_eq!(normalize_path(&b"C:\\..".to_vec()), b"C:/..".to_vec());
    assert_eq!(normalize_path(&b"C:\\a\\..\\b".to_vec()), b"C:/b".to_vec());
}

#[test]
fn backup_slots_advance_until_free_or_last() {
    assert_eq!(backup_slot_step(1, false), Ok(1)); // free: take it
    assert_eq!(backup_slot_step(1, true), Err(2)); // occupied: try the next
    assert_eq!(backup_slot_step(998, true), Err(999));
    assert_eq!(backup_slot_step(999, true), Ok(999)); // last slot overwritten
}
