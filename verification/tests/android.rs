use ainv_helper::android::{
    adb_args, adb_candidates, map_adb_spawn_error, choose_adb, clear_proxy, connected_device_serials,
    ensure_device, env_device_serial, finish_adb, is_proxy_active, is_proxy_value_active,
    needs_device_selection, pick_device_serial, proxy_endpoint, read_setting, set_proxy,
    toggle_proxy, plan_next, AndroidError, PlanStep,
};

fn strings(v: &[&str]) -> Vec<String> {
    v.iter().map(|s| s.to_string()).collect()
}

#[test]
fn detects_active_proxy_values() {
    assert!(is_proxy_value_active("10.0.2.2:9140"));
    assert!(!is_proxy_value_active("null"));
    assert!(!is_proxy_value_active(":0"));
    assert!(!is_proxy_value_active(""));
}

#[test]
fn inactive_values_ignore_case_and_space() {
    assert!(!is_proxy_value_active("  NULL \n"));
    assert!(!is_proxy_value_active("null:null"));
    assert!(is_proxy_value_active("NULL:NULL"));
    assert!(is_proxy_active(Some("10.0.2.2:9140\n")));
    assert!(!is_proxy_active(Some("null\n")));
    assert!(!is_proxy_active(None));
}

#[test]
fn endpoint_defaults_and_overrides() {
    assert_eq!(proxy_endpoint(None, None), ("10.0.2.2".to_string(), 9140));
    assert_eq!(proxy_endpoint(Some(""), Some("abc")), ("10.0.2.2".to_string(), 9140));
    assert_eq!(proxy_endpoint(Some("192.168.1.5"), Some("+8080")), ("192.168.1.5".to_string(), 8080));
    assert_eq!(proxy_endpoint(None, Some("65535")).1, 65535);
    assert_eq!(proxy_endpoint(None, Some("65536")).1, 9140);
    assert_eq!(proxy_endpoint(None, Some("-1")).1, 9140);
    assert_eq!(proxy_endpoint(None, Some(" 80")).1, 9140);
}

#[test]
fn set_and_clear_plans() {
    let plan = set_proxy("10.0.2.2", 9140);
    assert!(plan.require_device);
    assert_eq!(plan.commands.len(), 3);
    assert_eq!(plan.commands[0].args, strings(&["shell", "settings", "put", "global", "http_proxy", "10.0.2.2:9140"]));
    assert_eq!(plan.commands[1].args, strings(&["shell", "settings", "put", "global", "global_http_proxy_host", "10.0.2.2"]));
    assert_eq!(plan.commands[2].args, strings(&["shell", "settings", "put", "global", "global_http_proxy_port", "9140"]));
    assert!(plan.commands.iter().all(|c| c.checked));
    let clear = clear_proxy();
    assert_eq!(clear.commands[0].args, strings(&["shell", "settings", "delete", "global", "http_proxy"]));
    assert!(clear.commands.iter().all(|c| !c.checked));
    let (plan, on) = toggle_proxy(true, "h", 1);
    assert!(!on);
    assert_eq!(plan.commands[2].args, strings(&["shell", "settings", "delete", "global", "global_http_proxy_port"]));
    assert_eq!(plan.commands[1].args, strings(&["shell", "settings", "delete", "global", "global_http_proxy_host"]));
    assert_eq!(plan.commands[0].args, strings(&["shell", "settings", "delete", "global", "http_proxy"]));
    let (plan, on) = toggle_proxy(false, "h", 7);
    assert!(on);
    assert_eq!(plan.commands[0].args[5], "h:7");
    let read = read_setting("http_proxy");
    assert_eq!(read.args, strings(&["shell", "settings", "get", "global", "http_proxy"]));
    assert!(!read.checked);
}

#[test]
fn parses_adb_devices_output() {
    let out = "List of devices attached\nemulator-5554\tdevice\n0123ABC\toffline\nR58M\tdevice product:x\n\n";
    assert_eq!(connected_device_serials(out), strings(&["emulator-5554", "R58M"]));
    assert_eq!(connected_device_serials("List of devices attached\n"), Vec::<String>::new());
    assert_eq!(connected_device_serials(""), Vec::<String>::new());
    assert_eq!(connected_device_serials("emulator-1 device"), Vec::<String>::new());
    assert_eq!(connected_device_serials("h\r\nabc device\r\n"), strings(&["abc"]));
}

#[test]
fn device_selection() {
    assert!(matches!(ensure_device(&vec![]), Err(AndroidError::NoDevice)));
    assert!(ensure_device(&strings(&["a"])).is_ok());
    assert_eq!(env_device_serial(Some("X1"), Some("Y")), Some("X1".to_string()));
    assert_eq!(env_device_serial(Some(""), Some("Y")), None);
    assert_eq!(env_device_serial(None, Some("Y")), Some("Y".to_string()));
    assert_eq!(env_device_serial(None, None), None);
    assert_eq!(pick_device_serial(&strings(&["R58", "emulator-5556", "emulator-5554"])), Some("emulator-5556".to_string()));
    assert_eq!(pick_device_serial(&strings(&["R58", "Q1"])), Some("R58".to_string()));
    assert_eq!(pick_device_serial(&vec![]), None);
}

#[test]
fn adb_argument_lists() {
    assert!(!needs_device_selection(&strings(&["devices"])));
    assert!(!needs_device_selection(&strings(&["-s", "x", "shell"])));
    assert!(needs_device_selection(&strings(&["shell", "settings"])));
    assert!(needs_device_selection(&vec![]));
    assert_eq!(adb_args(&strings(&["shell"]), Some("emu")), strings(&["-s", "emu", "shell"]));
    assert_eq!(adb_args(&strings(&["shell"]), None), strings(&["shell"]));
}

#[test]
fn adb_outcomes_and_messages() {
    let args = strings(&["-s", "e", "shell", "x"]);
    assert_eq!(finish_adb(true, false, "out", "err", &args).unwrap(), "out");
    assert_eq!(finish_adb(false, true, "out", "err", &args).unwrap(), "out");
    let e = finish_adb(false, false, "out", "boom", &args).unwrap_err();
    assert_eq!(e.message(), "adb -s e shell x failed: boom");
    let e = finish_adb(false, false, "out", " \n", &args).unwrap_err();
    assert_eq!(e.message(), "adb -s e shell x failed: out");
    assert_eq!(map_adb_spawn_error(true, "x", &args).message(), "adb not found — install android-platform-tools or set AIO_PROXY_ADB");
    assert_eq!(map_adb_spawn_error(false, "denied", &strings(&["devices"])).message(), "run adb devices: denied");
    assert_eq!(AndroidError::NoDevice.message(), "no Android emulator/device connected (adb devices)");
}

#[test]
fn adb_location() {
    let c = adb_candidates(Some("/opt/adb"), Some("/sdk"), Some("/root/"), Some("/Users/me"));
    assert_eq!(c, strings(&["/opt/adb", "/sdk/platform-tools/adb", "/root/platform-tools/adb", "/Users/me/Library/Android/sdk/platform-tools/adb", "adb"]));
    let c = adb_candidates(Some(""), None, None, None);
    assert_eq!(c, strings(&["adb"]));
    assert_eq!(choose_adb(&strings(&["/a", "/b", "adb"]), &vec![false, true, false]), "/b");
    assert_eq!(choose_adb(&strings(&["/a", "adb"]), &vec![false, false]), "adb");
}

#[test]
fn set_value_reads_back_active() {
    let plan = set_proxy("10.0.2.2", 9140);
    assert!(is_proxy_value_active(&plan.commands[0].args[5]));
    let plan = set_proxy(" ", 80);
    assert!(is_proxy_value_active(&plan.commands[0].args[5]));
    // A blank host with port 0 writes ":0", which reads as off.
    let plan = set_proxy("", 0);
    assert_eq!(plan.commands[0].args[5], ":0");
    assert!(!is_proxy_value_active(&plan.commands[0].args[5]));
}

#[test]
fn plan_goes_on_after_unchecked_failures() {
    assert_eq!(plan_next(true, true), PlanStep::Continue);
    assert_eq!(plan_next(true, false), PlanStep::Stop);
    assert_eq!(plan_next(false, true), PlanStep::Continue);
    assert_eq!(plan_next(false, false), PlanStep::Continue);
}
