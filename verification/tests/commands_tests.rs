use cyberflow::commands::dialog::{
    check_sent, drain_finished, first_visible, focus_plan, is_process_named, plan_typing, retry_step, FocusPlan,
    KeyStroke, RetryStep,
};
use cyberflow::commands::mstsc;
use cyberflow::commands::sangfor::{self, EditInfo};

fn strings(v: &[&str]) -> Vec<String> {
    v.iter().map(|s| s.to_string()).collect()
}

fn wide(s: &str) -> Vec<u16> {
    let mut v: Vec<u16> = s.encode_utf16().collect();
    v.push(0);
    v.extend_from_slice(&[0x41, 0x42]);
    v
}

#[test]
fn transient_errors_are_retried() {
    assert!(mstsc::is_transient_mstsc_error(mstsc::WINDOW_NOT_FOUND));
    assert!(mstsc::is_transient_mstsc_error(mstsc::NO_COMBOBOX));
    assert!(mstsc::is_transient_mstsc_error(mstsc::NO_INNER_EDIT));
    assert!(!mstsc::is_transient_mstsc_error(mstsc::EMPTY_IP));
    assert!(!mstsc::is_transient_mstsc_error("SendInput partial for mstsc ip: 1/2 events accepted"));
    assert!(sangfor::is_transient_sangfor_error(sangfor::WINDOW_NOT_FOUND));
    assert!(sangfor::is_transient_sangfor_error(sangfor::NO_USERNAME_FIELD));
    assert!(sangfor::is_transient_sangfor_error(sangfor::NO_LOGIN_BUTTON));
    assert!(sangfor::is_transient_sangfor_error("Expected at least 2 fields"));
    assert!(!sangfor::is_transient_sangfor_error("Failed to launch Sangfor client: denied"));
}

#[test]
fn wide_names_stop_at_nul() {
    assert_eq!(mstsc::wide_to_string(&wide("mstsc.exe")), "mstsc.exe");
    assert_eq!(sangfor::wide_to_string(&wide("深信服")), "深信服");
    assert!(is_process_named(&wide("MSTSC.EXE"), mstsc::MSTSC_PROCESS_NAME));
    assert!(is_process_named(&wide("sangforcsclient.exe"), sangfor::SANGFOR_PROCESS_NAME));
    assert!(!is_process_named(&wide("mstsc.exe.bak"), mstsc::MSTSC_PROCESS_NAME));
}

#[test]
fn launch_reports() {
    let r = mstsc::launch_outcome(mstsc::LaunchEvent::FocusedExisting).unwrap();
    assert_eq!((r.launched, r.message.as_str()), (false, "Focused existing mstsc window"));
    let r = mstsc::launch_outcome(mstsc::LaunchEvent::RunningWithoutWindow).unwrap();
    assert_eq!(r.message, "mstsc already running (no window yet)");
    let r = mstsc::launch_outcome(mstsc::LaunchEvent::Spawned(Ok(()))).unwrap();
    assert_eq!((r.launched, r.message.as_str()), (true, "Launched mstsc"));
    assert_eq!(
        mstsc::launch_outcome(mstsc::LaunchEvent::Spawned(Err("no such file".to_string()))),
        Err("Failed to launch mstsc: no such file".to_string())
    );
    assert_eq!(
        sangfor::launch_outcome(sangfor::LaunchEvent::ExecutableMissing),
        Err(r"Sangfor client not found at C:\Program Files (x86)\Sangfor\VDI\SangforCSClient\SangforCSClient.exe".to_string())
    );
    let r = sangfor::launch_outcome(sangfor::LaunchEvent::FocusedExisting).unwrap();
    assert_eq!(r.message, "Focused existing Sangfor client window");
    let r = sangfor::launch_outcome(sangfor::LaunchEvent::Spawned(Ok(()))).unwrap();
    assert_eq!((r.launched, r.message.as_str()), (true, "Launched Sangfor client"));
    assert_eq!(
        sangfor::launch_outcome(sangfor::LaunchEvent::Spawned(Err("denied".to_string()))),
        Err("Failed to launch Sangfor client: denied".to_string())
    );
}

#[test]
fn window_selection() {
    assert_eq!(mstsc::select_mstsc_window(&strings(&["Notepad", "远程桌面连接", "Remote Desktop Connection"])), Some(1));
    assert_eq!(mstsc::select_mstsc_window(&strings(&["Settings", "Other"])), None);
    assert_eq!(sangfor::select_login_window(&strings(&["Foo", "aDesk 接入"])), Some(1));
    assert_eq!(sangfor::select_login_window(&strings(&["Foo", "Bar"])), Some(0));
    assert_eq!(sangfor::select_login_window(&strings(&[])), None);
}

#[test]
fn connect_button_selection() {
    assert_eq!(mstsc::select_connect_button(&strings(&["显示选项", "连接(&N)", "帮助"])), Some(1));
    assert_eq!(mstsc::select_connect_button(&strings(&["Connect to host", "&Connect"])), Some(1));
    assert_eq!(mstsc::select_connect_button(&strings(&["CONNECT now", "Help"])), Some(0));
    assert_eq!(mstsc::select_connect_button(&strings(&["Help"])), None);
}

#[test]
fn login_button_selection() {
    assert_eq!(sangfor::select_login_button(&strings(&["自动登录", " 登录 "])), Some(1));
    assert_eq!(sangfor::select_login_button(&strings(&["自动登录", "登录系统"])), Some(1));
    assert_eq!(sangfor::select_login_button(&strings(&["自动登录", "取消"])), None);
}

fn field(visible: bool, readonly: bool, password: bool, width: i32, height: i32) -> EditInfo {
    EditInfo { visible, readonly, password, width, height }
}

#[test]
fn credential_fields() {
    let edits = vec![
        field(false, false, false, 200, 24),
        field(true, true, false, 200, 24),
        field(true, false, false, 60, 24),
        field(true, false, false, 200, 24),
        field(true, false, true, 200, 17),
        field(true, false, true, 200, 18),
    ];
    assert_eq!(sangfor::select_credential_fields(&edits), Ok((3, 5)));
    assert_eq!(
        sangfor::select_credential_fields(&edits[..5].to_vec()),
        Err(sangfor::NO_PASSWORD_FIELD.to_string())
    );
    assert_eq!(
        sangfor::select_credential_fields(&vec![field(true, false, true, 200, 24)]),
        Err(sangfor::NO_USERNAME_FIELD.to_string())
    );
    let e = sangfor::edit_info(0x0820, true, Some((10, 20, 210, 44)));
    assert_eq!(e, field(true, true, true, 200, 24));
    assert_eq!(sangfor::edit_info(0, false, None), field(false, false, false, 0, 0));
}

#[test]
fn typing_plans() {
    let p = plan_typing("a😀", 100);
    assert_eq!(p.units, vec![0x61, 0xD83D, 0xDE00]);
    assert_eq!(p.strokes.len(), 6);
    assert_eq!(p.strokes[0], KeyStroke { code_unit: 0x61, key_up: false });
    assert_eq!(p.strokes[1], KeyStroke { code_unit: 0x61, key_up: true });
    assert_eq!(p.strokes[4], KeyStroke { code_unit: 0xDE00, key_up: false });
    assert_eq!(p.drain_budget_ms, 130);
    assert_eq!(mstsc::plan_ip_typing(""), Err("IP string is empty".to_string()));
    assert_eq!(mstsc::plan_ip_typing("10.0.0.5").unwrap().drain_budget_ms, 230);
    assert_eq!(sangfor::plan_field_typing(""), None);
    assert_eq!(sangfor::plan_field_typing("ab").unwrap().drain_budget_ms, 120);
    assert_eq!(sangfor::password_settle_ms(6), 148);
    assert!(drain_finished(3, 3, 0, 100));
    assert!(drain_finished(0, 3, 101, 100));
    assert!(!drain_finished(2, 3, 100, 100));
}

#[test]
fn send_input_check() {
    assert_eq!(check_sent("password", 4, 4), Ok(()));
    assert_eq!(
        check_sent("mstsc ip", 3, 16),
        Err("SendInput partial for mstsc ip: 3/16 events accepted".to_string())
    );
}

#[test]
fn focus_and_visibility() {
    assert_eq!(focus_plan(5, 0), FocusPlan::Unavailable);
    assert_eq!(focus_plan(5, 5), FocusPlan::Direct);
    assert_eq!(focus_plan(5, 9), FocusPlan::AttachInput);
    assert_eq!(first_visible(&vec![false, true, true]), Some(1));
    assert_eq!(first_visible(&vec![false]), None);
}

#[test]
fn retry_decisions() {
    assert_eq!(mstsc::after_inject_attempt(1, Ok(())), RetryStep::Proceed);
    assert_eq!(mstsc::after_inject_attempt(3, Err(mstsc::NO_COMBOBOX.to_string())), RetryStep::Wait);
    assert_eq!(
        mstsc::after_inject_attempt(30, Err(mstsc::NO_COMBOBOX.to_string())),
        RetryStep::Fail("Window/UI did not become ready after 9s: No visible ComboBox found in mstsc dialog".to_string())
    );
    assert_eq!(
        mstsc::after_inject_attempt(2, Err(mstsc::EMPTY_IP.to_string())),
        RetryStep::Fail("IP string is empty".to_string())
    );
    assert_eq!(
        sangfor::after_inject_attempt(120, Err(sangfor::WINDOW_NOT_FOUND.to_string())),
        RetryStep::Fail(format!("Window/UI did not become ready after 60s: {}", sangfor::WINDOW_NOT_FOUND))
    );
    assert_eq!(sangfor::after_inject_attempt(119, Err(sangfor::NO_PASSWORD_FIELD.to_string())), RetryStep::Wait);
    assert_eq!(retry_step(1, 1, 2500, Err("x".to_string()), true), RetryStep::Fail("Window/UI did not become ready after 2s: x".to_string()));
}

#[test]
fn wide_text_reads_back() {
    for s in ["mstsc.exe", "远程桌面连接 😀", ""] {
        let mut buf: Vec<u16> = s.encode_utf16().collect();
        assert_eq!(mstsc::wide_to_string(&buf), s);
        buf.push(0);
        buf.extend_from_slice(&[0x41, 0xD800]);
        assert_eq!(sangfor::wide_to_string(&buf), s);
    }
}
