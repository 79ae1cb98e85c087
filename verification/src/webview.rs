//! Decisions of the web-runtime bootstrap: whether the runtime is disabled
//! by policy, whether it counts as installed, what an installer exit means,
//! and which step the startup guard takes. The registry probes, dialogs,
//! and the installer run stay outside; they hand their findings in as plain
//! values.

use vstd::prelude::*;

use crate::errors::MaaError;

verus! {

/// Installer exit code that still counts as success: the runtime was
/// already present.
pub const INSTALLER_ALREADY_PRESENT: i64 = -2147219416;

/// Why the web runtime counts as disabled.
#[derive(Debug, Clone, Copy, PartialEq, Eq, Structural)]
pub enum WebviewDisabledReason {
    /// A policy key holds an empty browser-folder value.
    PolicyEmptyFolder,
    /// The runtime feature policy is explicitly off.
    FeatureDisabled,
    /// The runtime process is blocked by an execution-options debugger
    /// entry.
    IfeoBlocked,
}

/// Decides from the probed registry values whether the runtime is disabled,
/// checking in order: an empty browser-folder policy value (from either
/// hive), the feature policy switched off, an execution-options block on
/// the runtime process.
pub fn webview2_disabled_decision(
    user_policy_folder: Option<&Vec<u8>>,
    machine_policy_folder: Option<&Vec<u8>>,
    feature_enabled: Option<u32>,
    ifeo_debugger: Option<&Vec<u8>>,
) -> (r: Option<WebviewDisabledReason>)
    ensures
        ({
            let user_empty = user_policy_folder matches Some(v) && v@.len() == 0;
            let machine_empty = machine_policy_folder matches Some(v) && v@.len() == 0;
            let feature_off = feature_enabled == Some(0u32);
            let blocked = ifeo_debugger matches Some(v) && v@.len() > 0;
            if user_empty || machine_empty {
                r == Some(WebviewDisabledReason::PolicyEmptyFolder)
            } else if feature_off {
                r == Some(WebviewDisabledReason::FeatureDisabled)
            } else if blocked {
                r == Some(WebviewDisabledReason::IfeoBlocked)
            } else {
                r is None
            }
        }),
{
    match user_policy_folder {
        Some(v) => {
            if v.len() == 0 {
                return Some(WebviewDisabledReason::PolicyEmptyFolder);
            }
        },
        None => {},
    }
    match machine_policy_folder {
        Some(v) => {
            if v.len() == 0 {
                return Some(WebviewDisabledReason::PolicyEmptyFolder);
            }
        },
        None => {},
    }
    match feature_enabled {
        Some(f) => {
            if f == 0 {
                return Some(WebviewDisabledReason::FeatureDisabled);
            }
        },
        None => {},
    }
    match ifeo_debugger {
        Some(v) => {
            if v.len() > 0 {
                return Some(WebviewDisabledReason::IfeoBlocked);
            }
        },
        None => {},
    }
    None
}

/// Decides from the probes whether the runtime counts as installed. The
/// registry hit decides; the loader-library probe can confirm a hit early
/// but never overturns one, so the outcome equals the registry's answer.
pub fn webview2_installed_decision(registry_found: bool, loader_library_found: bool) -> (r: bool)
    ensures
        r == registry_found,
{
    if !registry_found {
        return false;
    }
    if loader_library_found {
        return true;
    }
    registry_found
}

/// Judges an installer run: success, or the exit code that reports the
/// runtime as already present, both count as installed.
pub fn install_outcome(success: bool, exit_code: i64) -> (r: Result<(), MaaError>)
    ensures
        success || exit_code == INSTALLER_ALREADY_PRESENT ==> r is Ok,
        !success && exit_code != INSTALLER_ALREADY_PRESENT ==> r == Err::<(), MaaError>(
            MaaError::IOFailure,
        ),
{
    if success || exit_code == INSTALLER_ALREADY_PRESENT {
        Ok(())
    } else {
        Err(MaaError::IOFailure)
    }
}

/// The step the startup guard takes next.
#[derive(Debug, Clone, Copy, PartialEq, Eq, Structural)]
pub enum WebviewStep {
    /// The runtime is usable; start.
    Proceed,
    /// The runtime is disabled; show the explanation and stop.
    ShowDisabledDialog(WebviewDisabledReason),
    /// The runtime is missing; download and run the installer.
    NeedInstall,
}

/// The startup guard: a disabled runtime stops with an explanation, an
/// installed one proceeds, a missing one asks for the installer. After an
/// installer run, `install_outcome` judges the result: success proceeds, a
/// failure shows the failure dialog and stops.
pub fn ensure_webview2(disabled: Option<WebviewDisabledReason>, installed: bool) -> (r: WebviewStep)
    ensures
        disabled matches Some(reason) ==> r == WebviewStep::ShowDisabledDialog(reason),
        disabled is None && installed ==> r == WebviewStep::Proceed,
        disabled is None && !installed ==> r == WebviewStep::NeedInstall,
{
    match disabled {
        Some(reason) => WebviewStep::ShowDisabledDialog(reason),
        None => {
            if installed {
                WebviewStep::Proceed
            } else {
                WebviewStep::NeedInstall
            }
        },
    }
}

} // verus!
