use campus_net_auto_login::network::is_valid_https_url;
use campus_net_auto_login::settings::{
    is_valid_fallback_url, parse_pause_periods, pause_remaining_seconds, AppSettings, Provider,
    DEFAULT_FALLBACK_PROBE_URL,
};

#[test]
fn daily_pause_boundaries_and_invalid_inputs() {
    let periods = "23:00-07:00;12:00-13:00";
    assert_eq!(pause_remaining_seconds(periods, 23 * 3600), Some(8 * 3600));
    assert_eq!(pause_remaining_seconds(periods, 0), Some(7 * 3600));
    assert_eq!(pause_remaining_seconds(periods, 7 * 3600), None);
    assert_eq!(pause_remaining_seconds(periods, 12 * 3600), Some(3600));
    assert_eq!(pause_remaining_seconds(periods, 13 * 3600), None);
    for invalid in [
        "24:00-07:00",
        "12:60-13:00",
        "00:00-00:00",
        "学校-时间",
        "1:00-02:00",
        "12:00-13:00;",
    ] {
        assert!(parse_pause_periods(invalid).is_err());
    }
    assert!(parse_pause_periods("").unwrap().is_empty());
}

#[test]
fn provider_suffixes_match_legacy_client() {
    assert_eq!(Provider::Campus.submitted_account("123"), "123");
    assert_eq!(Provider::ChinaMobile.submitted_account("123"), "123@cmcc");
    assert_eq!(Provider::ChinaUnicom.submitted_account("123"), "123@unicom");
    assert_eq!(Provider::ChinaTelecom.submitted_account("123"), "123@telecom");
}

#[test]
fn schema_one_zero_cooldown_migrates_to_pause() {
    let settings = AppSettings {
        schema_version: 1,
        account: " 11230909 ".to_string(),
        provider: Provider::ChinaUnicom,
        encrypted_password: "legacy-dpapi".to_string(),
        check_interval_seconds: 30,
        failure_cooldown_seconds: 0,
        fallback_probe_url: "https://example.com/ping".to_string(),
        auto_start: true,
        notifications_enabled: false,
        ..Default::default()
    };
    let settings = settings.normalize();
    assert_eq!(settings.schema_version, 2);
    assert_eq!(settings.failure_cooldown_seconds, -1);
    assert_eq!(settings.account, "11230909");
    assert_eq!(settings.provider, Provider::ChinaUnicom);
    assert!(settings.auto_start);
    assert!(!settings.notifications_enabled);
}

#[test]
fn fallback_must_be_https_without_credentials() {
    assert!(is_valid_fallback_url("https://example.com/ping"));
    assert!(is_valid_fallback_url("HTTPS://example.com?probe=1"));
    assert!(!is_valid_fallback_url("http://example.com/ping"));
    assert!(!is_valid_fallback_url("https://user@example.com/ping"));
    assert!(!is_valid_fallback_url("https://example.com:bad/ping"));
    assert!(!is_valid_fallback_url("https://example.com/#fragment"));
}

#[test]
fn fallback_ports_follow_integer_parsing() {
    assert!(is_valid_fallback_url("https://example.com:8443/ping"));
    assert!(is_valid_fallback_url("https://example.com:+443/"));
    assert!(!is_valid_fallback_url("https://example.com:0/"));
    assert!(!is_valid_fallback_url("https://example.com:65536/"));
    assert!(!is_valid_fallback_url("https://exa mple.com/"));
    assert!(!is_valid_fallback_url("https://例子.com/"));
    assert!(is_valid_fallback_url("  https://example.com  "));
    assert!(is_valid_fallback_url(DEFAULT_FALLBACK_PROBE_URL));
}

#[test]
fn provider_positions_round_trip() {
    for (i, p) in Provider::ALL.iter().enumerate() {
        assert_eq!(p.index(), i);
        assert_eq!(Provider::from_index(i), *p);
    }
    assert_eq!(Provider::from_index(7), Provider::Campus);
    assert_eq!(Provider::ChinaTelecom.display_name(), "中国电信");
    assert_eq!(Provider::default(), Provider::Campus);
}

#[test]
fn normalize_clamps_and_replaces_invalid_fallback() {
    let settings = AppSettings {
        check_interval_seconds: 5,
        failure_cooldown_seconds: 99999,
        fallback_probe_url: "http://insecure.example/".to_string(),
        ..Default::default()
    }
    .normalize();
    assert_eq!(settings.check_interval_seconds, 10);
    assert_eq!(settings.failure_cooldown_seconds, 3600);
    assert_eq!(settings.fallback_probe_url, DEFAULT_FALLBACK_PROBE_URL);
    let again = settings.clone().normalize();
    assert_eq!(again.check_interval_seconds, settings.check_interval_seconds);
    assert_eq!(again.fallback_probe_url, settings.fallback_probe_url);
    // A schema-2 cooldown of 0 stays 0.
    let kept = AppSettings { failure_cooldown_seconds: 0, ..Default::default() }.normalize();
    assert_eq!(kept.failure_cooldown_seconds, 0);
}

#[test]
fn validation_reports_every_problem_in_order() {
    let settings = AppSettings {
        account: "123@cmcc".to_string(),
        check_interval_seconds: 5,
        failure_cooldown_seconds: -2,
        pause_periods: "bad".to_string(),
        fallback_probe_url: "ftp://x".to_string(),
        ..Default::default()
    };
    let errors = settings.validate(true);
    assert_eq!(
        errors,
        [
            "账号中不要填写运营商后缀，请通过服务商下拉框选择。",
            "首次保存时必须输入密码。",
            "检测间隔必须在 10 到 3600 秒之间。",
            "失败冷却时间必须在 -1 到 3600 秒之间。",
            "暂停时段格式应为 HH:MM-HH:MM，多个时段用分号分隔，起止时间不能相同。",
            "国内备用探测地址必须是有效的 HTTPS 地址。",
        ]
    );
    assert_eq!(AppSettings::default().validate(false), ["请输入学号或账号。"]);
    let good = AppSettings {
        account: "123".to_string(),
        encrypted_password: "x".to_string(),
        ..Default::default()
    };
    assert!(good.validate(true).is_empty());
    assert!(good.has_credentials());
    assert!(!AppSettings::default().has_credentials());
}

#[test]
fn prepare_for_save_joins_messages() {
    let refused = AppSettings { pause_periods: "x".to_string(), ..Default::default() }
        .prepare_for_save()
        .unwrap_err();
    assert_eq!(
        refused,
        "请输入学号或账号。\n暂停时段格式应为 HH:MM-HH:MM，多个时段用分号分隔，起止时间不能相同。"
    );
    let saved = AppSettings {
        account: " 42 ".to_string(),
        check_interval_seconds: 99999,
        ..Default::default()
    }
    .prepare_for_save()
    .unwrap();
    assert_eq!(saved.account, "42");
    assert_eq!(saved.check_interval_seconds, 3600);
}

#[test]
fn pause_periods_accept_full_width_separator_and_spaces() {
    assert_eq!(
        parse_pause_periods(" 23:00 - 07:00 ；12:00-13:00 ").unwrap(),
        vec![(23 * 60, 7 * 60), (12 * 60, 13 * 60)]
    );
    assert!(parse_pause_periods("   ").unwrap().is_empty());
    assert!(parse_pause_periods("12:00").is_err());
    assert_eq!(pause_remaining_seconds("bad", 100), None);
    // Overlapping periods: the longest remaining pause wins.
    assert_eq!(pause_remaining_seconds("10:00-12:00;11:00-14:00", 11 * 3600), Some(3 * 3600));
}

#[test]
fn fallback_check_agrees_with_secure_parse() {
    for value in [
        "https://example.com/ping",
        "HTTPS://example.com?probe=1",
        "http://example.com/ping",
        "https://user@example.com/ping",
        "https://example.com:bad/ping",
        "https://example.com/#fragment",
        "https://example.com:0/",
        "https://example.com:65536/",
        "https://exa mple.com/",
        "https://:443/",
        "https:///path",
        "  https://a.b:8443  ",
        "ftp://x",
    ] {
        assert_eq!(is_valid_fallback_url(value), is_valid_https_url(value), "{value}");
    }
    // A port with a leading `+` is read by the fallback check only.
    assert!(is_valid_fallback_url("https://example.com:+443/"));
    assert!(!is_valid_https_url("https://example.com:+443/"));
}
