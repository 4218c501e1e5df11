use ainv_helper::config::{ActionConfig, ActionType, Config};
use ainv_helper::icons::{
    battery_color, battery_icon_rgba, menu_status_rgba, battery_pixel, cpu_color, is_check_pixel, is_cross_pixel, menu_status_pixel,
    Color,
};
use ainv_helper::menu::{
    build_menu, handle_menu_event, indicator_stale, poll_due, refresh_after_action, MenuCommand,
    MenuEntry,
};
use ainv_helper::status::{poll, poll_battery, poll_cpu, StatusReading};

const RED: Color = Color { r: 255, g: 59, b: 48, a: 255 };
const ORANGE: Color = Color { r: 255, g: 149, b: 0, a: 255 };
const GREEN: Color = Color { r: 52, g: 199, b: 89, a: 255 };

#[test]
fn colours() {
    assert_eq!(battery_color(0), RED);
    assert_eq!(battery_color(20), RED);
    assert_eq!(battery_color(21), ORANGE);
    assert_eq!(battery_color(50), ORANGE);
    assert_eq!(battery_color(51), GREEN);
    assert_eq!(cpu_color(40), GREEN);
    assert_eq!(cpu_color(41), ORANGE);
    assert_eq!(cpu_color(75), ORANGE);
    assert_eq!(cpu_color(76), RED);
}

#[test]
fn menu_icon_shapes() {
    assert!(is_check_pixel(7, 7));
    assert!(is_check_pixel(10, 7));
    assert!(!is_check_pixel(0, 0));
    assert!(is_cross_pixel(4, 4));
    assert!(is_cross_pixel(11, 4));
    assert!(!is_cross_pixel(4, 8));
    assert!(!is_cross_pixel(12, 12));
    assert_eq!(menu_status_pixel(true, 7, 7), GREEN);
    assert_eq!(menu_status_pixel(false, 4, 4), RED);
    assert_eq!(menu_status_pixel(true, 0, 0), Color { r: 0, g: 0, b: 0, a: 0 });
}

#[test]
fn battery_icon_pixels() {
    let c = GREEN;
    assert_eq!(battery_pixel(4, 6, 15, c), Color { r: 255, g: 255, b: 255, a: 220 });
    assert_eq!(battery_pixel(6, 8, 15, c), c);
    assert_eq!(battery_pixel(15, 14, 15, c), c);
    assert_eq!(battery_pixel(15, 14, 10, c), Color { r: 0, g: 0, b: 0, a: 0 });
    assert_eq!(battery_pixel(18, 10, 4, c), Color { r: 255, g: 255, b: 255, a: 220 });
}

#[test]
fn battery_status_from_pmset() {
    let text = "Now drawing from 'AC Power'\n -InternalBattery-0 (id=1234)\t87%; charged; 0:00 remaining present: true\n";
    let s = poll_battery(text);
    assert_eq!(s.value, 87);
    assert_eq!(s.label, "87%\u{26a1}");
    let s = poll_battery("Now drawing from 'Battery Power'\n -InternalBattery-0 (id=1)\t5%; 0:20 remaining\n");
    assert_eq!(s.value, 5);
    assert_eq!(s.label, "5%");
    // "discharging" holds "charging", which is what the charging test looks for.
    let s = poll_battery("Now drawing from 'Battery Power'\n -InternalBattery-0 (id=1)\t5%; discharging; 0:20 remaining\n");
    assert_eq!(s.label, "5%\u{26a1}");
    let s = poll_battery("no battery here");
    assert_eq!(s.value, 100);
    assert_eq!(s.label, "100%");
    assert_eq!(poll_battery("300% 40%").value, 40);
}

#[test]
fn cpu_status() {
    let s = poll_cpu(42);
    assert_eq!(s.value, 42);
    assert_eq!(s.label, "42%");
    let s = poll(&StatusReading::Cpu(7));
    assert_eq!(s.label, "7%");
    let s = poll(&StatusReading::Battery("12%;".to_string()));
    assert_eq!(s.value, 12);
}

#[test]
fn menu_layout() {
    let mut cfg = Config::default();
    cfg.actions.insert(0, ActionConfig { label: "Tools".into(), command: String::new(), action_type: ActionType::Header });
    cfg.actions.push(ActionConfig { label: "ls".into(), command: "ls".into(), action_type: ActionType::Shell });
    let m = build_menu(&cfg);
    assert_eq!(m.len(), cfg.actions.len() + 8);
    assert!(matches!(&m[0], MenuEntry::Header { label } if label == "Tools"));
    assert!(matches!(&m[1], MenuEntry::IosSimRoute { index: 1, .. }));
    assert!(matches!(&m[2], MenuEntry::Action { index: 2, .. }));
    assert!(matches!(&m[3], MenuEntry::Action { label, index: 3 } if label == "ls"));
    assert!(matches!(&m[4], MenuEntry::Separator));
    assert!(matches!(&m[m.len() - 1], MenuEntry::Quit));
}

#[test]
fn menu_commands() {
    assert_eq!(handle_menu_event("quit", None, 2), MenuCommand::Quit);
    assert_eq!(handle_menu_event("autostart", None, 2), MenuCommand::ToggleAutostart);
    assert_eq!(handle_menu_event("edit_config", None, 2), MenuCommand::EditConfig);
    assert_eq!(handle_menu_event("reload_config", None, 2), MenuCommand::ReloadConfig);
    assert_eq!(handle_menu_event("grant_admin", None, 2), MenuCommand::GrantAdmin);
    assert_eq!(handle_menu_event("7", Some(1), 2), MenuCommand::RunAction(1));
    assert_eq!(handle_menu_event("7", Some(2), 2), MenuCommand::Ignore);
    assert_eq!(handle_menu_event("7", None, 2), MenuCommand::Ignore);
    assert!(refresh_after_action(ActionType::IosSimRoute, true));
    assert!(!refresh_after_action(ActionType::IosSimRoute, false));
    assert!(!refresh_after_action(ActionType::Shell, true));
    assert!(indicator_stale(None, true));
    assert!(indicator_stale(Some(false), true));
    assert!(!indicator_stale(Some(true), true));
    assert!(poll_due(30, 30));
    assert!(!poll_due(29, 30));
}

#[test]
fn icon_bytes() {
    let check = menu_status_rgba(true);
    assert_eq!(check.len(), 16 * 16 * 4);
    let at = |v: &Vec<u8>, size: usize, x: usize, y: usize| v[(y * size + x) * 4..(y * size + x) * 4 + 4].to_vec();
    assert_eq!(at(&check, 16, 7, 7), vec![52, 199, 89, 255]);
    assert_eq!(at(&check, 16, 0, 0), vec![0, 0, 0, 0]);
    let cross = menu_status_rgba(false);
    assert_eq!(at(&cross, 16, 11, 4), vec![255, 59, 48, 255]);
    let battery = battery_icon_rgba(15, ORANGE);
    assert_eq!(battery.len(), 22 * 22 * 4);
    assert_eq!(at(&battery, 22, 6, 8), vec![255, 149, 0, 255]);
    assert_eq!(at(&battery, 22, 4, 6), vec![255, 255, 255, 220]);
    assert_eq!(at(&battery, 22, 18, 11), vec![255, 255, 255, 220]);
    assert_eq!(at(&battery, 22, 21, 21), vec![0, 0, 0, 0]);
}

#[test]
fn battery_fill_grows_with_edge() {
    let fill_pixels = |v: &Vec<u8>| -> Vec<usize> {
        (0..22 * 22).filter(|k| v[k * 4..k * 4 + 4] == [255, 149, 0, 255]).collect()
    };
    let narrow = fill_pixels(&battery_icon_rgba(8, ORANGE));
    let wide = fill_pixels(&battery_icon_rgba(12, ORANGE));
    assert_eq!(narrow.len(), 3 * 7);
    assert_eq!(wide.len(), 7 * 7);
    assert!(narrow.iter().all(|k| wide.contains(k)));
    assert!(fill_pixels(&battery_icon_rgba(4, ORANGE)).is_empty());
}
