use xiaomi_debloater::adb::{
    adb_base, adb_version, devices_args, get_prop, get_prop_args, list_installed_packages,
    list_packages_args, parse_devices, resolve_device_serial, uninstall_args,
    uninstall_user_zero, version_args, AdbCommand, AdbError, CommandOutput,
};

fn output(success: bool, stdout: &str, stderr: &str) -> CommandOutput {
    CommandOutput { success, stdout: stdout.to_string(), stderr: stderr.to_string() }
}

#[test]
fn base_args_select_the_device() {
    assert_eq!(adb_base(None), Vec::<String>::new());
    assert_eq!(adb_base(Some("abc123")), vec!["-s".to_string(), "abc123".to_string()]);
}

#[test]
fn command_arguments() {
    assert_eq!(version_args(), vec!["version"]);
    assert_eq!(devices_args(), vec!["devices", "-l"]);
    assert_eq!(
        get_prop_args(Some("S1"), "ro.product.model"),
        vec!["-s", "S1", "shell", "getprop", "ro.product.model"]
    );
    assert_eq!(list_packages_args(None), vec!["shell", "pm", "list", "packages"]);
    assert_eq!(
        uninstall_args(Some("S1"), "com.miui.analytics"),
        vec!["-s", "S1", "shell", "pm", "uninstall", "--user", "0", "com.miui.analytics"]
    );
}

#[test]
fn version_is_trimmed_output() {
    let out = output(true, "  Android Debug Bridge version 1.0.41\nVersion 34.0.5\n", "");
    assert_eq!(adb_version(&out).unwrap(), "Android Debug Bridge version 1.0.41\nVersion 34.0.5");
}

#[test]
fn version_failure_reports_stderr() {
    let err = adb_version(&output(false, "", "boom\n")).unwrap_err();
    assert_eq!(err.message(), "adb version failed: boom\n");
}

#[test]
fn get_prop_trims_value() {
    assert_eq!(get_prop(&output(true, "Redmi Note 12\r\n", "")), "Redmi Note 12");
    assert_eq!(get_prop(&output(false, "\n", "")), "");
    // Unicode whitespace is trimmed too, as str::trim does.
    assert_eq!(get_prop(&output(true, "\u{3000}14\u{a0}", "")), "14");
}

const TWO_DEVICES: &str = "List of devices attached\n\
    abc123         device usb:1-1 product:sweet model:M2101K6G\n\
    \n\
    def456         unauthorized usb:1-2\n\
    ghi789\tdevice product:x\n";

#[test]
fn devices_in_state_device_are_listed() {
    assert_eq!(parse_devices(TWO_DEVICES), vec!["abc123", "ghi789"]);
    assert_eq!(parse_devices(""), Vec::<String>::new());
    assert_eq!(parse_devices("List of devices attached\n"), Vec::<String>::new());
}

#[test]
fn single_device_is_chosen() {
    let out = output(true, "List of devices attached\r\nabc123 device\r\n\r\n", "");
    assert_eq!(resolve_device_serial(&out, None).unwrap(), Some("abc123".to_string()));
    // A preferred serial that is not attached does not matter then.
    assert_eq!(resolve_device_serial(&out, Some("zzz")).unwrap(), Some("abc123".to_string()));
}

#[test]
fn preferred_device_is_chosen() {
    let out = output(true, TWO_DEVICES, "");
    assert_eq!(resolve_device_serial(&out, Some("ghi789")).unwrap(), Some("ghi789".to_string()));
}

#[test]
fn several_devices_without_preference_use_the_first() {
    let out = output(true, TWO_DEVICES, "");
    assert_eq!(resolve_device_serial(&out, None).unwrap(), Some("abc123".to_string()));
    // A preferred serial that is attached but not in state `device` does not count.
    assert_eq!(resolve_device_serial(&out, Some("def456")).unwrap(), Some("abc123".to_string()));
}

#[test]
fn no_device_fails() {
    let out = output(true, "List of devices attached\nabc123 offline\n\n", "");
    let err = resolve_device_serial(&out, None).unwrap_err();
    assert!(matches!(err, AdbError::NoDevice));
    assert_eq!(
        err.message(),
        "No device in `adb devices` state `device`. Enable USB debugging and authorize this computer."
    );
}

#[test]
fn devices_command_failure() {
    let err = resolve_device_serial(&output(false, TWO_DEVICES, ""), None).unwrap_err();
    assert!(matches!(err, AdbError::DevicesFailed));
    assert_eq!(err.message(), "adb devices failed");
}

#[test]
fn installed_packages_are_read_once_each() {
    let out = output(
        true,
        "package:com.miui.analytics\r\n  package: com.xiaomi.mipicks \n\ngarbage line\npackage:com.miui.analytics\npackage:\n",
        "",
    );
    let ids = list_installed_packages(&out).unwrap();
    assert_eq!(ids, vec!["com.miui.analytics", "com.xiaomi.mipicks", ""]);
}

#[test]
fn package_listing_failure() {
    let err = list_installed_packages(&output(false, "package:a\n", "Error: no user\n")).unwrap_err();
    assert!(matches!(err, AdbError::ListPackagesFailed { .. }));
    assert_eq!(err.message(), "pm list packages failed: Error: no user\n");
}

#[test]
fn uninstall_success() {
    assert_eq!(uninstall_user_zero("com.a", &output(true, "Success\n", "")).unwrap(), "Success");
}

#[test]
fn uninstall_output_is_combined() {
    let r = uninstall_user_zero("com.a", &output(true, " out \n", " err ")).unwrap();
    assert_eq!(r, "out\nerr");
    let r = uninstall_user_zero("com.a", &output(true, "", " err ")).unwrap();
    assert_eq!(r, "err");
}

#[test]
fn uninstall_failure_that_reports_success_in_capitals_is_accepted() {
    // The status failed but the output says SUCCESS: lower-casing finds it.
    let r = uninstall_user_zero("com.a", &output(false, "SUCCESS", "")).unwrap();
    assert_eq!(r, "SUCCESS");
}

#[test]
fn uninstall_failure() {
    let err = uninstall_user_zero(
        "com.a",
        &output(false, "Failure [DELETE_FAILED_INTERNAL_ERROR]\n", ""),
    )
    .unwrap_err();
    assert_eq!(err.message(), "com.a: Failure [DELETE_FAILED_INTERNAL_ERROR]");
}

#[test]
fn could_not_run_messages() {
    let cases = [
        (AdbCommand::Version, "failed to run `adb` \u{2014} is Android Platform Tools installed and in PATH?"),
        (AdbCommand::Devices, "adb devices failed"),
        (AdbCommand::GetProp, "adb shell getprop failed"),
        (AdbCommand::ListPackages, "pm list packages failed"),
        (AdbCommand::Uninstall, "pm uninstall failed"),
    ];
    for (command, text) in cases {
        assert_eq!(AdbError::CouldNotRun { command }.message(), text);
    }
}
