use std::collections::VecDeque;

use campus_net_auto_login::monitor::{
    failure_delay, next_wake_delay, MonitorCommand, NetworkState, NotificationKind, PauseFlags,
    Phase, Worker, WorkerAction, WorkerEvent, WorkerOutput,
};
use campus_net_auto_login::settings::{AppSettings, Provider};

struct FakeBackend {
    internet: VecDeque<bool>,
    auth_reachable: bool,
    login_count: usize,
    logout_result: Result<(), String>,
    logout_count: usize,
    delays: Vec<u64>,
    outputs: Vec<WorkerOutput>,
}

impl FakeBackend {
    fn new(internet: impl IntoIterator<Item = bool>) -> Self {
        FakeBackend {
            internet: internet.into_iter().collect(),
            auth_reachable: true,
            login_count: 0,
            logout_result: Ok(()),
            logout_count: 0,
            delays: Vec::new(),
            outputs: Vec::new(),
        }
    }

    fn last_state(&self) -> Option<NetworkState> {
        self.outputs.iter().rev().find_map(|o| match o {
            WorkerOutput::Status(state, _) => Some(*state),
            _ => None,
        })
    }

    fn notification_count(&self) -> usize {
        self.outputs
            .iter()
            .filter(|o| matches!(o, WorkerOutput::Notification(_)))
            .count()
    }
}

fn fixture_settings(cooldown: i32) -> AppSettings {
    AppSettings {
        account: "11230909".to_string(),
        provider: Provider::ChinaMobile,
        encrypted_password: "cipher".to_string(),
        failure_cooldown_seconds: cooldown,
        ..Default::default()
    }
    .normalize()
}

const NOW: u32 = 12 * 3600 + 34 * 60 + 56;

/// Runs the worker from `event` until it asks to wait for a command, performing every other
/// action against the fake backend; returns the wait.
fn drive(
    worker: &mut Worker,
    flags: &mut PauseFlags,
    settings: &mut AppSettings,
    backend: &mut FakeBackend,
    event: WorkerEvent,
) -> u64 {
    let mut event = event;
    loop {
        assert!(worker.accepts(&event));
        let step = worker.step(flags, settings, NOW, event);
        backend.outputs.extend(step.outputs);
        event = match step.action {
            WorkerAction::Wait(seconds) => return seconds,
            WorkerAction::Stop => return 0,
            WorkerAction::ProbeInternet(_) => WorkerEvent::Internet(
                backend.internet.pop_front().expect("internet result exhausted"),
            ),
            WorkerAction::ProbeAuthServer => WorkerEvent::AuthServer(backend.auth_reachable),
            WorkerAction::Sleep(seconds) => {
                backend.delays.push(seconds);
                WorkerEvent::Elapsed
            }
            WorkerAction::Decrypt(_) => WorkerEvent::Decrypted(Ok("password".to_string())),
            WorkerAction::Login { .. } => {
                backend.login_count += 1;
                WorkerEvent::LoginSent
            }
            WorkerAction::SaveLastLogin => {
                settings.last_successful_login_utc = Some("2024-01-01T00:00:00.000Z".to_string());
                WorkerEvent::Saved(Ok(settings.clone()))
            }
            WorkerAction::Logout => {
                backend.logout_count += 1;
                WorkerEvent::LoggedOut(backend.logout_result.clone())
            }
        };
    }
}

fn detect(
    worker: &mut Worker,
    flags: &mut PauseFlags,
    settings: &mut AppSettings,
    backend: &mut FakeBackend,
) -> u64 {
    drive(worker, flags, settings, backend, WorkerEvent::Command(MonitorCommand::Detect))
}

#[test]
fn cooldown_doubles_after_third_failure_and_caps() {
    let settings = AppSettings::default();
    let seconds: Vec<_> = (1..=11).map(|n| failure_delay(&settings, n)).collect();
    assert_eq!(seconds, [20, 20, 40, 80, 160, 320, 640, 1280, 1800, 1800, 1800]);
    assert_eq!(failure_delay(&settings, u32::MAX), 1800);
}

#[test]
fn one_shot_never_retries_and_manual_launch_does_not_probe() {
    let mut settings = fixture_settings(20);
    settings.autostart_login_once = true;
    let mut backend = FakeBackend::new([false, false, false]);
    let mut flags = PauseFlags::new();
    let mut worker = Worker::new(true);
    detect(&mut worker, &mut flags, &mut settings, &mut backend);
    detect(&mut worker, &mut flags, &mut settings, &mut backend);
    assert_eq!(backend.login_count, 1);
    assert!(backend.internet.is_empty());
    // A manually launched worker starts with its automatic opportunity consumed.
    let mut manual = Worker::new(false);
    detect(&mut manual, &mut flags, &mut settings, &mut backend);
    assert_eq!(backend.login_count, 1);
}

#[test]
fn pause_window_prevents_all_automatic_network_requests() {
    let mut settings = fixture_settings(20);
    settings.pause_periods = "00:00-12:00;12:00-00:00".into();
    let mut backend = FakeBackend::new([]);
    let mut flags = PauseFlags::new();
    let mut worker = Worker::new(true);
    detect(&mut worker, &mut flags, &mut settings, &mut backend);
    assert_eq!(backend.login_count, 0);
    assert!(!worker.once_consumed());
    assert_eq!(backend.last_state(), Some(NetworkState::Paused));
}

#[test]
fn recovery_resets_failure_backoff() {
    let mut settings = fixture_settings(20);
    let mut backend = FakeBackend::new([false, false].repeat(8).into_iter().chain([true]));
    backend.auth_reachable = false;
    let mut flags = PauseFlags::new();
    let mut worker = Worker::new(true);
    for _ in 0..8 {
        detect(&mut worker, &mut flags, &mut settings, &mut backend);
    }
    assert_eq!(worker.consecutive_failures(), 8);
    detect(&mut worker, &mut flags, &mut settings, &mut backend);
    assert_eq!(worker.consecutive_failures(), 0);
}

#[test]
fn notification_switch_suppresses_every_kind() {
    let mut settings = fixture_settings(20);
    settings.notifications_enabled = false;
    let mut flags = PauseFlags::new();
    let mut worker = Worker::new(true);
    let mut backend = FakeBackend::new([false; 6]);
    backend.logout_result = Err("test".to_string());
    // Error notifications: a failed login and a failed logout.
    detect(&mut worker, &mut flags, &mut settings, &mut backend);
    drive(
        &mut worker,
        &mut flags,
        &mut settings,
        &mut backend,
        WorkerEvent::Command(MonitorCommand::Logout),
    );
    // Information: a confirmed logout; warning: manual login without credentials.
    backend.logout_result = Ok(());
    drive(
        &mut worker,
        &mut flags,
        &mut settings,
        &mut backend,
        WorkerEvent::Command(MonitorCommand::Logout),
    );
    let mut blank = AppSettings { notifications_enabled: false, ..Default::default() };
    drive(
        &mut worker,
        &mut flags,
        &mut blank,
        &mut backend,
        WorkerEvent::Command(MonitorCommand::ManualLogin),
    );
    assert_eq!(backend.notification_count(), 0);
    settings.notifications_enabled = true;
    backend.logout_result = Err("test".to_string());
    drive(
        &mut worker,
        &mut flags,
        &mut settings,
        &mut backend,
        WorkerEvent::Command(MonitorCommand::Logout),
    );
    assert_eq!(backend.notification_count(), 1);
}

#[test]
fn transient_failure_recovers_without_login() {
    let mut settings = fixture_settings(300);
    let mut backend = FakeBackend::new([false, true]);
    let mut flags = PauseFlags::new();
    let mut worker = Worker::new(true);
    let next = detect(&mut worker, &mut flags, &mut settings, &mut backend);
    assert_eq!(backend.login_count, 0);
    assert_eq!(backend.last_state(), Some(NetworkState::Online));
    assert_eq!(next, 1800);
    assert_eq!(backend.delays, [2]);
}

#[test]
fn automatic_login_uses_one_attempt_per_cycle() {
    let mut settings = fixture_settings(300);
    let mut backend = FakeBackend::new([false; 6]);
    let mut flags = PauseFlags::new();
    let mut worker = Worker::new(true);
    let next = detect(&mut worker, &mut flags, &mut settings, &mut backend);
    assert_eq!(backend.login_count, 1);
    assert_eq!(backend.last_state(), Some(NetworkState::LoginFailed));
    assert_eq!(next, 300);
    assert_eq!(backend.delays, [2, 3]);
}

#[test]
fn negative_cooldown_pauses_future_login() {
    let mut settings = fixture_settings(-1);
    let mut backend = FakeBackend::new([false; 6]);
    let mut flags = PauseFlags::new();
    let mut worker = Worker::new(true);
    detect(&mut worker, &mut flags, &mut settings, &mut backend);
    assert!(flags.failure_paused);
    assert_eq!(backend.last_state(), Some(NetworkState::Paused));
}

#[test]
fn user_pause_still_probes_but_does_not_login() {
    let mut settings = fixture_settings(300);
    let mut backend = FakeBackend::new([false, false]);
    let mut flags = PauseFlags::new();
    flags.user_paused = true;
    let mut worker = Worker::new(true);
    let next = detect(&mut worker, &mut flags, &mut settings, &mut backend);
    assert_eq!(backend.login_count, 0);
    assert_eq!(backend.last_state(), Some(NetworkState::Paused));
    assert_eq!(next, 1800);
}

#[test]
fn zero_cooldown_returns_to_normal_interval() {
    let mut settings = fixture_settings(0);
    let mut backend = FakeBackend::new([false; 6]);
    let mut flags = PauseFlags::new();
    let mut worker = Worker::new(true);
    assert_eq!(detect(&mut worker, &mut flags, &mut settings, &mut backend), 1800);
    assert!(!flags.failure_paused);
}

#[test]
fn successful_logout_pauses_automatic_reconnect() {
    let mut settings = fixture_settings(300);
    let mut backend = FakeBackend::new([]);
    let mut flags = PauseFlags::new();
    let mut worker = Worker::new(true);
    drive(
        &mut worker,
        &mut flags,
        &mut settings,
        &mut backend,
        WorkerEvent::Command(MonitorCommand::Logout),
    );
    assert_eq!(backend.logout_count, 1);
    assert!(flags.user_paused);
    assert!(!flags.failure_paused);
    assert_eq!(backend.last_state(), Some(NetworkState::Paused));
}

#[test]
fn failed_logout_does_not_change_pause_state() {
    let mut settings = fixture_settings(300);
    let mut backend = FakeBackend::new([]);
    backend.logout_result = Err("认证服务器未确认注销成功。".to_string());
    let mut flags = PauseFlags::new();
    let mut worker = Worker::new(true);
    drive(
        &mut worker,
        &mut flags,
        &mut settings,
        &mut backend,
        WorkerEvent::Command(MonitorCommand::Logout),
    );
    assert_eq!(backend.logout_count, 1);
    assert!(!flags.user_paused);
    assert_eq!(backend.last_state(), Some(NetworkState::LogoutFailed));
}

#[test]
fn successful_automatic_login_records_time_and_notifies() {
    let mut settings = fixture_settings(20);
    let mut backend = FakeBackend::new([false, false, true]);
    let mut flags = PauseFlags::new();
    let mut worker = Worker::new(true);
    let next = detect(&mut worker, &mut flags, &mut settings, &mut backend);
    assert_eq!(next, 1800);
    assert_eq!(backend.login_count, 1);
    assert!(backend
        .outputs
        .iter()
        .any(|o| matches!(o, WorkerOutput::SettingsChanged(s) if s.last_successful_login_utc.is_some())));
    assert!(backend.outputs.iter().any(|o| matches!(
        o,
        WorkerOutput::Notification(n) if n.kind == NotificationKind::Success
    )));
    assert_eq!(backend.last_state(), Some(NetworkState::Online));
}

#[test]
fn unreachable_portal_backs_off_and_counts_failures() {
    let mut settings = fixture_settings(20);
    let mut backend = FakeBackend::new([false, false, false, false, false, false]);
    backend.auth_reachable = false;
    let mut flags = PauseFlags::new();
    let mut worker = Worker::new(true);
    let delays: Vec<u64> = (0..3)
        .map(|_| detect(&mut worker, &mut flags, &mut settings, &mut backend))
        .collect();
    assert_eq!(delays, [20, 20, 40]);
    assert_eq!(backend.last_state(), Some(NetworkState::AuthServerUnavailable));
}

#[test]
fn interrupted_settle_runs_the_command_at_once() {
    let mut settings = fixture_settings(20);
    let mut flags = PauseFlags::new();
    let mut worker = Worker::new(true);
    let step = worker.step(&mut flags, &settings, NOW, WorkerEvent::Command(MonitorCommand::Detect));
    assert!(matches!(step.action, WorkerAction::ProbeInternet(_)));
    let step = worker.step(&mut flags, &settings, NOW, WorkerEvent::Internet(false));
    assert!(matches!(step.action, WorkerAction::Sleep(2)));
    let step = worker.step(&mut flags, &settings, NOW, WorkerEvent::Command(MonitorCommand::Logout));
    assert!(matches!(step.action, WorkerAction::Logout));
    assert_eq!(worker.phase(), Phase::LoggingOut);
    let step = worker.step(&mut flags, &settings, NOW, WorkerEvent::LoggedOut(Ok(())));
    assert!(matches!(step.action, WorkerAction::Wait(1800)));
    let step = worker.step(&mut flags, &settings, NOW, WorkerEvent::Disconnected);
    assert!(matches!(step.action, WorkerAction::Stop));
    assert_eq!(worker.phase(), Phase::Stopped);
    settings.account.clear();
}

#[test]
fn pause_toggle_flips_and_resume_clears_both() {
    let mut flags = PauseFlags::new();
    assert!(!flags.is_paused());
    flags.toggle_pause();
    assert!(flags.is_user_paused() && flags.is_paused());
    flags.failure_paused = true;
    flags.toggle_pause();
    assert!(!flags.is_paused());
    assert!(!flags.failure_paused);
    flags.failure_paused = true;
    assert!(flags.is_paused() && !flags.is_user_paused());
    flags.set_user_paused(false);
    assert!(!flags.is_paused());
}

#[test]
fn wake_up_at_next_pause_boundary() {
    // 12:00 now, a period starting at 12:30: wait at most 30 minutes.
    assert_eq!(next_wake_delay(1800, "12:30-13:00", 12 * 3600), 1800);
    assert_eq!(next_wake_delay(3600, "12:30-13:00", 12 * 3600), 1800);
    assert_eq!(next_wake_delay(3600, "12:10-13:00", 12 * 3600), 600);
    assert_eq!(next_wake_delay(0, "12:10-13:00", 12 * 3600), 0);
    assert_eq!(next_wake_delay(3600, "bad", 12 * 3600), 3600);
    // A boundary at this very second is not a reason to wake.
    assert_eq!(next_wake_delay(3600, "12:00-23:00", 12 * 3600), 3600);
}

#[test]
fn state_names_and_icons() {
    assert_eq!(NetworkState::Online.display_name(), "已连接");
    assert_eq!(NetworkState::AuthServerUnavailable.display_name(), "认证服务器不可达");
    assert!(NetworkState::Checking.uses_blue_icon());
    assert!(NetworkState::Online.uses_blue_icon());
    assert!(!NetworkState::Paused.uses_blue_icon());
}

#[test]
fn manual_login_works_in_login_once_mode_and_pause_window() {
    let mut settings = fixture_settings(20);
    settings.autostart_login_once = true;
    settings.pause_periods = "00:00-12:00;12:00-00:00".into();
    let mut backend = FakeBackend::new([true]);
    let mut flags = PauseFlags::new();
    flags.set_user_paused(true);
    let mut worker = Worker::new(false);
    let wait = drive(
        &mut worker,
        &mut flags,
        &mut settings,
        &mut backend,
        WorkerEvent::Command(MonitorCommand::ManualLogin),
    );
    assert_eq!(backend.login_count, 1);
    assert_eq!(backend.delays, [3]);
    assert_eq!(backend.last_state(), Some(NetworkState::Online));
    assert!(settings.last_successful_login_utc.is_some());
    assert!(wait <= 1800);
    assert_eq!(worker.phase(), Phase::Idle);
}
