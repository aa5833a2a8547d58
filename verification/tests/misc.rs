use campus_net_auto_login::credentials::{
    check_new_password, decode_stored_password, encode_protected_password, password_from_plaintext,
};
use campus_net_auto_login::monitor::{NetworkState, NotificationKind};
use campus_net_auto_login::settings::Provider;
use campus_net_auto_login::settings::AppSettings;
use campus_net_auto_login::startup::{command_byte_count, stored_text_units, StartupManager};
use campus_net_auto_login::time_utils::{
    display_local_time, format_local_time, format_utc_rfc3339, parse_decimal,
    parse_utc_system_time, TimeFields,
};
use campus_net_auto_login::ui::{
    check_dialog_settings, combo_selection_index, fill_wide_array, settings_from_dialog,
    DialogInput, notification_icon, parse_dialog_i32, pause_menu_label,
    should_trim_working_set, status_text, submitted_account_preview, tray_tip_text,
    NotificationIcon,
};

#[test]
fn run_command_quotes_executable_and_keeps_autostart_argument() {
    let manager = StartupManager::with_value_name(
        r"C:\Program Files\校园网\CampusNetAutoLogin.exe".to_string(),
        "Test".to_owned(),
    )
    .unwrap();
    assert_eq!(
        manager.command_line(),
        r#""C:\Program Files\校园网\CampusNetAutoLogin.exe" --autostart"#
    );
}

#[test]
fn startup_entry_matches_ignoring_case() {
    let manager = StartupManager::new(r"C:\App\a.exe".to_string()).unwrap();
    assert_eq!(manager.value_name(), "CampusNetAutoLogin");
    assert!(manager.is_enabled(Ok(Some(r#""c:\app\A.EXE" --AUTOSTART"#.to_string()))));
    assert!(!manager.is_enabled(Ok(Some(r#""C:\Other\a.exe" --autostart"#.to_string()))));
    assert!(!manager.is_enabled(Ok(None)));
    assert!(!manager.is_enabled(Err("x".to_string())));
    assert_eq!(manager.is_enabled_inner(Err("e".to_string())).unwrap_err(), "e");
    assert_eq!(StartupManager::new(String::new()).err().unwrap(), "无法确定程序路径。");
}

#[test]
fn malformed_unicode_timestamp_does_not_panic() {
    let value = "校园网不是时间戳字符串";
    assert_eq!(
        display_local_time(Some(value), parse_utc_system_time(value)),
        "校园网不是时间戳字符串"
    );
}

#[test]
fn timestamps_parse_and_format() {
    let t = parse_utc_system_time("2024-03-05T07:08:09.123Z").unwrap();
    assert_eq!(
        t,
        TimeFields { year: 2024, month: 3, day: 5, hour: 7, minute: 8, second: 9, milliseconds: 0 }
    );
    assert_eq!(format_local_time(t), "2024-03-05 07:08:09");
    assert_eq!(
        format_utc_rfc3339(TimeFields { milliseconds: 7, ..t }),
        "2024-03-05T07:08:09.007Z"
    );
    assert_eq!(parse_utc_system_time("2024-03-05 07:08:09"), None);
    assert_eq!(parse_utc_system_time("2024-0x-05T07:08:09"), None);
    assert_eq!(display_local_time(None, None), "暂无");
    assert_eq!(display_local_time(Some("2024-03-05T07:08:09Z"), Some(t)), "2024-03-05 07:08:09");
    assert_eq!(parse_decimal(b"0042"), Some(42));
    assert_eq!(parse_decimal(b"4a"), None);
    assert_eq!(parse_decimal(b""), Some(0));
}

#[test]
fn stored_timestamp_reads_back() {
    let written = TimeFields {
        year: 2025,
        month: 12,
        day: 31,
        hour: 23,
        minute: 59,
        second: 58,
        milliseconds: 999,
    };
    let text = format_utc_rfc3339(written);
    assert_eq!(text, "2025-12-31T23:59:58.999Z");
    assert_eq!(parse_utc_system_time(&text), Some(TimeFields { milliseconds: 0, ..written }));
    let early = TimeFields { year: 7, month: 1, day: 2, hour: 0, minute: 0, second: 0, milliseconds: 0 };
    assert_eq!(parse_utc_system_time(&format_utc_rfc3339(early)), Some(early));
}

#[test]
fn stored_password_text_round_trips() {
    let protected = [0u8, 1, 2, 250, 251, 252, 7];
    let text = encode_protected_password(&protected);
    assert_eq!(text, "AAEC+vv8Bw==");
    assert_eq!(decode_stored_password(&format!("  {text}\n")).unwrap(), protected);
    assert_eq!(
        decode_stored_password("not-base64").unwrap_err(),
        "已保存的密码格式无效，请重新输入。"
    );
    assert_eq!(check_new_password("  ").unwrap_err(), "密码不能为空。");
    assert!(check_new_password("复杂 密码!@#").is_ok());
    assert_eq!(password_from_plaintext("复杂 密码!@#".as_bytes().to_vec()).unwrap(), "复杂 密码!@#");
    assert_eq!(
        password_from_plaintext(vec![0xff, 0xfe]).unwrap_err(),
        "已保存的密码不是有效的 UTF-8 文本。"
    );
}

#[test]
fn tray_and_dialog_texts() {
    assert_eq!(tray_tip_text(NetworkState::Online, "ok"), "南湖校园网自动登录：已连接\nok");
    assert_eq!(status_text(NetworkState::Paused, "m"), "已暂停 — m");
    assert_eq!(pause_menu_label(true), "恢复自动登录");
    assert_eq!(pause_menu_label(false), "暂停自动登录");
    assert!(should_trim_working_set(NetworkState::Online));
    assert!(!should_trim_working_set(NetworkState::Checking));
    assert_eq!(notification_icon(NotificationKind::Success), NotificationIcon::Information);
    assert_eq!(notification_icon(NotificationKind::Error), NotificationIcon::Error);
    assert_eq!(submitted_account_preview("  ", Provider::ChinaMobile), "—");
    assert_eq!(submitted_account_preview(" 12 ", Provider::ChinaMobile), "12@cmcc");
    assert_eq!(parse_dialog_i32(" -1 ", "失败冷却"), Ok(-1));
    assert_eq!(parse_dialog_i32("+30", "检测间隔"), Ok(30));
    assert_eq!(parse_dialog_i32("-2147483648", "x"), Ok(i32::MIN));
    assert_eq!(parse_dialog_i32("2147483648", "检测间隔").unwrap_err(), "检测间隔必须是整数。");
    assert_eq!(parse_dialog_i32("", "失败冷却").unwrap_err(), "失败冷却必须是整数。");
    assert_eq!(combo_selection_index(-1), 0);
    assert_eq!(combo_selection_index(2), 2);
}

#[test]
fn wide_buffers_are_cut_and_terminated() {
    let mut buffer = [7u16; 4];
    fill_wide_array(&mut buffer, "abcdef");
    assert_eq!(buffer, [97, 98, 99, 0]);
    let mut buffer = [7u16; 6];
    fill_wide_array(&mut buffer, "a😀");
    assert_eq!(buffer, [97, 0xd83d, 0xde00, 0, 0, 0]);
    let mut empty: [u16; 0] = [];
    fill_wide_array(&mut empty, "x");
}

fn dialog_input(interval: &str, cooldown: &str) -> DialogInput {
    DialogInput {
        account: " 11230909 ".to_string(),
        fallback_probe_url: " https://example.com/ping ".to_string(),
        check_interval: interval.to_string(),
        failure_cooldown: cooldown.to_string(),
        provider_selection: 2,
        auto_start: true,
        notifications_enabled: false,
        autostart_login_once: true,
        pause_periods: " 23:00-07:00 ".to_string(),
    }
}

#[test]
fn settings_window_fields_become_settings() {
    let previous = AppSettings {
        encrypted_password: "cipher".to_string(),
        last_successful_login_utc: Some("2024-01-01T00:00:00.000Z".to_string()),
        ..Default::default()
    };
    let s = settings_from_dialog(&previous, &dialog_input(" 60 ", "-1")).unwrap();
    assert_eq!(s.account, "11230909");
    assert_eq!(s.fallback_probe_url, "https://example.com/ping");
    assert_eq!(s.check_interval_seconds, 60);
    assert_eq!(s.failure_cooldown_seconds, -1);
    assert_eq!(s.provider, Provider::ChinaUnicom);
    assert!(s.auto_start && !s.notifications_enabled && s.autostart_login_once);
    assert_eq!(s.pause_periods, "23:00-07:00");
    assert_eq!(s.encrypted_password, "cipher");
    assert_eq!(s.last_successful_login_utc.as_deref(), Some("2024-01-01T00:00:00.000Z"));
    assert!(check_dialog_settings(&s).is_ok());

    assert_eq!(
        settings_from_dialog(&previous, &dialog_input("x", "y")).err().unwrap(),
        "检测间隔必须是整数。"
    );
    assert_eq!(
        settings_from_dialog(&previous, &dialog_input("30", "1.5")).err().unwrap(),
        "失败冷却必须是整数。"
    );
    let mut none_selected = dialog_input("30", "5");
    none_selected.provider_selection = -1;
    assert_eq!(settings_from_dialog(&previous, &none_selected).unwrap().provider, Provider::Campus);

    let fresh = settings_from_dialog(&AppSettings::default(), &dialog_input("5", "20")).unwrap();
    assert_eq!(
        check_dialog_settings(&fresh).err().unwrap(),
        "首次保存时必须输入密码。\n检测间隔必须在 10 到 3600 秒之间。"
    );
}

#[test]
fn registry_sizes_and_stored_text() {
    assert_eq!(command_byte_count(10), Ok(20));
    assert_eq!(command_byte_count(2147483647), Ok(4294967294));
    assert_eq!(command_byte_count(2147483648).err().unwrap(), "开机自启命令过长。");
    let buffer = [65u16, 66, 0, 67, 68];
    assert_eq!(stored_text_units(&buffer, 10), 2);
    assert_eq!(stored_text_units(&buffer, 2), 1);
    assert_eq!(stored_text_units(&buffer[..2], 100), 2);
    assert_eq!(stored_text_units(&buffer, 0), 0);
}

#[test]
fn written_autostart_command_checks_enabled() {
    let manager = StartupManager::new(r"C:\Apps\Campus.exe".to_string()).unwrap();
    let written = manager.command_line();
    assert!(manager.is_enabled(Ok(Some(written.clone()))));
    assert!(manager.is_enabled(Ok(Some(written.to_uppercase()))));
    assert!(!manager.is_enabled(Ok(None)));
}

#[test]
fn password_bytes_and_stored_text_read_back() {
    let password = "复杂 密码!@#";
    assert_eq!(password_from_plaintext(password.as_bytes().to_vec()).unwrap(), password);
    let protected = [9u8, 200, 0, 77];
    let text = encode_protected_password(&protected);
    assert_eq!(decode_stored_password(&text).unwrap(), protected);
    assert!(decode_stored_password("not-base64").is_err());
    assert_eq!(check_new_password("  ").unwrap_err(), "密码不能为空。");
}
