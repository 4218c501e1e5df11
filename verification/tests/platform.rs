use ainv_helper::actions::{execute, ActionEffect};
use ainv_helper::autostart::{
    build_plist, executable_for, launch_agent_path_in, register_on_first_launch, set_enabled,
    after_step, AutostartError, AutostartStep, StepOutcome, StepResult,
};
use ainv_helper::config::{ActionConfig, ActionType};
use ainv_helper::notify::error_dialog_script;
use ainv_helper::privileges::{
    admin_outcome, admin_script, ensure_on_first_launch, explain_outcome, request_again,
    state_path, AdminStep, PrivilegeError,
};

#[test]
fn privileges_escapes_quotes() {
    assert_eq!(ainv_helper::privileges::applescript_quote(r#"say "hi""#), r#""say \"hi\"""#);
}

#[test]
fn notify_escapes_quotes() {
    assert_eq!(ainv_helper::notify::applescript_quote(r#"adb "missing""#), r#""adb \"missing\"""#);
}

#[test]
fn escapes_backslashes() {
    assert_eq!(ainv_helper::privileges::applescript_quote(r#"a\"b"#), r#""a\\\"b""#);
}

#[test]
fn scripts() {
    assert_eq!(
        admin_script("cp a b"),
        "do shell script \"cp a b\" with administrator privileges"
    );
    assert_eq!(
        error_dialog_script("Oops", "adb \"x\""),
        "display dialog \"adb \\\"x\\\"\" with title \"Oops\" buttons {\"OK\"} default button 1 with icon stop"
    );
}

#[test]
fn admin_outcomes() {
    assert!(admin_outcome(true, "User canceled").is_ok());
    assert!(matches!(admin_outcome(false, "execution error: User canceled. (-128)"), Err(PrivilegeError::Denied)));
    assert!(matches!(admin_outcome(false, "error -128"), Err(PrivilegeError::Denied)));
    let e = admin_outcome(false, "cp: permission denied").unwrap_err();
    assert_eq!(e.message(), "privileged command failed: cp: permission denied");
    assert_eq!(PrivilegeError::Denied.message(), "administrator access denied by user");
    let e = explain_outcome(false).unwrap_err();
    assert_eq!(e.message(), "administrator access setup cancelled");
    assert!(explain_outcome(true).is_ok());
}

#[test]
fn admin_steps() {
    assert!(ensure_on_first_launch(true).is_empty());
    let all = vec![AdminStep::Explain, AdminStep::Verify, AdminStep::MarkGranted];
    assert_eq!(ensure_on_first_launch(false), all);
    assert_eq!(request_again(), all);
    assert!(state_path().ends_with("/ainv-helper/.admin_granted"));
}

#[test]
fn plist_and_paths() {
    let p = build_plist("/Applications/X.app/Contents/MacOS/ainv-helper");
    assert!(p.starts_with("<?xml version=\"1.0\" encoding=\"UTF-8\"?>\n<!DOCTYPE plist"));
    assert!(p.contains("<string>com.ainv-helper</string>"));
    assert!(p.contains("<string>/Applications/X.app/Contents/MacOS/ainv-helper</string>"));
    assert!(p.ends_with("</dict>\n</plist>\n"));
    assert_eq!(launch_agent_path_in("/Users/me"), "/Users/me/Library/LaunchAgents/com.ainv-helper.plist");
}

#[test]
fn autostart_steps() {
    assert_eq!(executable_for(Some("/A.app"), Some("/B.app")).unwrap(), "/A.app/Contents/MacOS/ainv-helper");
    assert_eq!(executable_for(None, Some("/B.app")).unwrap(), "/B.app/Contents/MacOS/ainv-helper");
    let e = executable_for(None, None).unwrap_err();
    assert_eq!(e.message(), "autostart requires running from a .app bundle");
    let e = set_enabled(true, "/A.app/x", false, "/h/p.plist", Some("/h"), false).unwrap_err();
    assert_eq!(e.message(), "executable not found at /A.app/x — build the .app bundle first");
    assert!(matches!(set_enabled(true, "/x", true, "p", None, false), Err(AutostartError::NoAgentsDir)));
    let steps = set_enabled(true, "/x", true, "/h/p.plist", Some("/h"), true).unwrap();
    assert_eq!(steps.len(), 3);
    assert!(matches!(&steps[0], AutostartStep::CreateDir(d) if d == "/h"));
    assert!(matches!(&steps[2], AutostartStep::Load(p) if p == "/h/p.plist"));
    let steps = set_enabled(false, "", false, "/h/p.plist", Some("/h"), true).unwrap();
    assert!(matches!(&steps[0], AutostartStep::Unload(_)));
    assert!(matches!(&steps[1], AutostartStep::RemovePlist(_)));
    assert!(set_enabled(false, "", false, "/h/p.plist", Some("/h"), false).unwrap().is_empty());
    assert!(register_on_first_launch(false, true));
    assert!(!register_on_first_launch(true, true));
    assert!(!register_on_first_launch(false, false));
}

#[test]
fn action_effects() {
    let a = |t: ActionType| ActionConfig { label: "l".into(), command: "echo hi".into(), action_type: t };
    assert!(matches!(execute(&a(ActionType::Shell)), ActionEffect::RunShell(c) if c == "echo hi"));
    assert!(matches!(execute(&a(ActionType::HostsApply)), ActionEffect::ApplyHosts));
    assert!(matches!(execute(&a(ActionType::HostsClear)), ActionEffect::ClearHosts));
    assert!(matches!(execute(&a(ActionType::Header)), ActionEffect::Nothing));
    assert!(matches!(execute(&a(ActionType::IosSimRoute)), ActionEffect::ToggleIosSimRoute));
    assert!(matches!(execute(&a(ActionType::AndroidSimProxy)), ActionEffect::ToggleAndroidProxy));
}

#[test]
fn quoting_a_backslash_and_a_quote() {
    assert_eq!(ainv_helper::privileges::applescript_quote(r#"\""#), r#""\\\"""#);
    assert_eq!(ainv_helper::privileges::applescript_quote(""), r#""""#);
}

#[test]
fn autostart_step_outcomes() {
    let p = || "/h/p.plist".to_string();
    let write = AutostartStep::WritePlist { path: p(), contents: String::new() };
    assert_eq!(after_step(&write, StepResult::Done), StepOutcome::Continue);
    assert_eq!(after_step(&write, StepResult::Failed), StepOutcome::Stop);
    assert_eq!(after_step(&AutostartStep::CreateDir("/h".into()), StepResult::Failed), StepOutcome::Stop);
    assert_eq!(after_step(&AutostartStep::RemovePlist(p()), StepResult::Failed), StepOutcome::Stop);
    assert_eq!(after_step(&AutostartStep::Load(p()), StepResult::Done), StepOutcome::Continue);
    assert_eq!(after_step(&AutostartStep::Load(p()), StepResult::Failed), StepOutcome::Warn);
    assert_eq!(after_step(&AutostartStep::Load(p()), StepResult::NotStarted), StepOutcome::Stop);
    assert_eq!(after_step(&AutostartStep::Unload(p()), StepResult::NotStarted), StepOutcome::Continue);
    assert_eq!(after_step(&AutostartStep::Unload(p()), StepResult::Failed), StepOutcome::Continue);
}
