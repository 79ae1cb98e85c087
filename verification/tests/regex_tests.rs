use mxu_lib::outside::filter_windows;
use mxu_lib::state::Win32Window;

fn windows() -> Vec<Win32Window> {
    vec![
        Win32Window {
            handle: 1,
            class_name: String::from("Chrome_WidgetWin_1"),
            window_name: String::from("Player - main"),
        },
        Win32Window {
            handle: 2,
            class_name: String::from("Qt5Window"),
            window_name: String::from("Settings"),
        },
        Win32Window {
            handle: 3,
            class_name: String::from("Chrome_WidgetWin_1"),
            window_name: String::from("Player - aux"),
        },
    ]
}

#[test]
fn no_filters_keep_everything() {
    let out = filter_windows(windows(), None, None);
    assert_eq!(out.len(), 3);
    assert_eq!(out[0].handle, 1);
    assert_eq!(out[1].handle, 2);
    assert_eq!(out[2].handle, 3);
}

/// Would fail if the matcher reported anything but real regex matching.
#[test]
fn class_filter_keeps_matching_windows() {
    let pat = String::from("^Chrome_");
    let out = filter_windows(windows(), Some(&pat), None);
    assert_eq!(out.len(), 2);
    assert_eq!(out[0].handle, 1);
    assert_eq!(out[1].handle, 3);
}

#[test]
fn both_filters_combine() {
    let class_pat = String::from("^Chrome_");
    let win_pat = String::from("aux$");
    let out = filter_windows(windows(), Some(&class_pat), Some(&win_pat));
    assert_eq!(out.len(), 1);
    assert_eq!(out[0].handle, 3);
}

#[test]
fn invalid_pattern_filters_nothing() {
    let bad = String::from("([unclosed");
    let out = filter_windows(windows(), Some(&bad), None);
    assert_eq!(out.len(), 3);
}
