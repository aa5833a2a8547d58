//! The network monitor: status and notification types, the pause switches, the login
//! backoff, and the worker's decisions as a state machine. The caller performs each action
//! the machine asks for (probe, sleep, login, ...) and hands back what came of it.

use vstd::prelude::*;

use crate::settings::{
    AppSettings, SettingsView, pause_remaining_seconds, pause_second_in_range, spec_has_credentials,
    spec_pause_periods, spec_pause_remaining,
};

verus! {

/// What the tray shows about the connection.
#[derive(Clone, Copy, Debug, PartialEq, Eq, Structural)]
pub enum NetworkState {
    NotConfigured,
    Checking,
    Online,
    Offline,
    Authenticating,
    LoggingOut,
    AuthServerUnavailable,
    LoginFailed,
    LogoutFailed,
    Paused,
}

impl NetworkState {
    pub open spec fn spec_display_name(self) -> Seq<char> {
        match self {
            NetworkState::NotConfigured => "未配置"@,
            NetworkState::Checking => "检测中"@,
            NetworkState::Online => "已连接"@,
            NetworkState::Offline => "网络不可用"@,
            NetworkState::Authenticating => "正在登录"@,
            NetworkState::LoggingOut => "正在注销"@,
            NetworkState::AuthServerUnavailable => "认证服务器不可达"@,
            NetworkState::LoginFailed => "登录失败"@,
            NetworkState::LogoutFailed => "注销失败"@,
            NetworkState::Paused => "已暂停"@,
        }
    }

    pub fn display_name(self) -> (r: &'static str)
        ensures
            r@ == self.spec_display_name(),
    {
        match self {
            NetworkState::NotConfigured => "未配置",
            NetworkState::Checking => "检测中",
            NetworkState::Online => "已连接",
            NetworkState::Offline => "网络不可用",
            NetworkState::Authenticating => "正在登录",
            NetworkState::LoggingOut => "正在注销",
            NetworkState::AuthServerUnavailable => "认证服务器不可达",
            NetworkState::LoginFailed => "登录失败",
            NetworkState::LogoutFailed => "注销失败",
            NetworkState::Paused => "已暂停",
        }
    }

    /// Only the checking and online states use the blue tray icon.
    pub fn uses_blue_icon(self) -> (r: bool)
        ensures
            r == (self == NetworkState::Checking || self == NetworkState::Online),
    {
        match self {
            NetworkState::Checking | NetworkState::Online => true,
            _ => false,
        }
    }
}

/// The last published status.
#[derive(Clone, Debug)]
pub struct NetworkStatusSnapshot {
    pub state: NetworkState,
    pub message: String,
    pub updated_at_utc: String,
}

impl NetworkStatusSnapshot {
    /// The status before the first detection.
    pub fn waiting(updated_at_utc: String) -> (r: NetworkStatusSnapshot)
        ensures
            r.state == NetworkState::Checking,
            r.message@ == "等待首次检测"@,
            r.updated_at_utc == updated_at_utc,
    {
        NetworkStatusSnapshot {
            state: NetworkState::Checking,
            message: "等待首次检测".to_owned(),
            updated_at_utc,
        }
    }
}

#[derive(Clone, Copy, Debug, PartialEq, Eq, Structural)]
pub enum NotificationKind {
    Information,
    Success,
    Warning,
    Error,
}

#[derive(Clone, Debug)]
pub struct AppNotification {
    pub kind: NotificationKind,
    pub title: String,
    pub message: String,
}

/// What the monitor reports to the user interface.
#[derive(Clone, Debug)]
pub enum MonitorEvent {
    Status(NetworkStatusSnapshot),
    Notification(AppNotification),
    SettingsChanged(AppSettings),
}

/// Requests from the user interface to the worker.
#[derive(Clone, Copy, Debug, PartialEq, Eq, Structural)]
pub enum MonitorCommand {
    Detect,
    ManualLogin,
    Logout,
    SettingsChanged,
    PauseChanged,
    Stop,
}

/// The two reasons to hold back automatic login: the user paused it, or a failed login
/// with a negative cooldown stopped it.
#[derive(Clone, Copy, Debug, PartialEq, Eq, Structural)]
pub struct PauseFlags {
    pub user_paused: bool,
    pub failure_paused: bool,
}

impl PauseFlags {
    pub open spec fn spec_is_paused(self) -> bool {
        self.user_paused || self.failure_paused
    }

    pub fn new() -> (r: PauseFlags)
        ensures
            !r.user_paused,
            !r.failure_paused,
    {
        PauseFlags { user_paused: false, failure_paused: false }
    }

    pub fn is_user_paused(&self) -> (r: bool)
        ensures
            r == self.user_paused,
    {
        self.user_paused
    }

    pub fn is_paused(&self) -> (r: bool)
        ensures
            r == self.spec_is_paused(),
    {
        self.user_paused || self.failure_paused
    }

    /// Pausing sets the user switch; resuming clears both switches.
    pub fn set_user_paused(&mut self, paused: bool)
        ensures
            final(self).user_paused == paused,
            final(self).failure_paused == (paused && old(self).failure_paused),
    {
        self.user_paused = paused;
        if !paused {
            self.failure_paused = false;
        }
    }

    pub fn toggle_pause(&mut self)
        ensures
            final(self).user_paused == !old(self).spec_is_paused(),
            final(self).failure_paused == (!old(self).spec_is_paused() && old(self).failure_paused),
    {
        let paused = self.is_paused();
        self.set_user_paused(!paused);
    }
}

/// `2^n`.
pub open spec fn power_of_two(n: nat) -> nat
    decreases n,
{
    if n == 0 {
        1
    } else {
        2 * power_of_two((n - 1) as nat)
    }
}

/// The exponent of the backoff after `failures` consecutive failures: doubling starts with
/// the third failure and stops growing after 32 doublings.
pub open spec fn backoff_exponent(failures: u32) -> nat {
    let e: int = if failures >= 2 {
        failures - 2
    } else {
        0
    };
    if e > 32 {
        32
    } else {
        e as nat
    }
}

/// Seconds to wait after `failures` consecutive failed cycles: the cooldown (negative counts
/// as 0) doubled per failure from the third on, saturating, and never above the check
/// interval; a zero cooldown waits the check interval.
pub open spec fn spec_failure_delay(s: SettingsView, failures: u32) -> u64 {
    let cap = s.check_interval_seconds as u64;
    let base: nat = if s.failure_cooldown_seconds > 0 {
        s.failure_cooldown_seconds as nat
    } else {
        0
    };
    if base == 0 {
        cap
    } else {
        let product = base * power_of_two(backoff_exponent(failures));
        let saturated: nat = if product > u64::MAX {
            u64::MAX as nat
        } else {
            product
        };
        if saturated <= cap {
            saturated as u64
        } else {
            cap
        }
    }
}

pub fn failure_delay(settings: &AppSettings, failures: u32) -> (r: u64)
    ensures
        r == spec_failure_delay(settings@, failures),
{
    let cap = settings.check_interval_seconds as u64;
    let base: u64 = if settings.failure_cooldown_seconds > 0 {
        settings.failure_cooldown_seconds as u64
    } else {
        0
    };
    if base == 0 {
        return cap;
    }
    let e: u32 = if failures >= 2 {
        failures - 2
    } else {
        0
    };
    let e: u32 = if e > 32 {
        32
    } else {
        e
    };
    let mut factor: u64 = 1;
    let mut i: u32 = 0;
    while i < e
        invariant
            i <= e <= 32,
            factor == power_of_two(i as nat),
            factor <= 0x1_0000_0000,
        decreases e - i,
    {
        proof {
            lemma_power_of_two_bound(i as nat);
        }
        factor = factor * 2;
        i = i + 1;
    }
    let seconds: u64 = match base.checked_mul(factor) {
        Some(v) => v,
        None => u64::MAX,
    };
    if seconds <= cap {
        seconds
    } else {
        cap
    }
}

/// `2^n` grows with `n`.
pub proof fn lemma_power_of_two_monotonic(n: nat, m: nat)
    requires
        n <= m,
    ensures
        power_of_two(n) <= power_of_two(m),
    decreases m,
{
    if n < m {
        lemma_power_of_two_monotonic(n, (m - 1) as nat);
    }
}

proof fn lemma_power_of_two_bound(n: nat)
    requires
        n < 32,
    ensures
        power_of_two(n) < 0x1_0000_0000,
        power_of_two(n + 1) <= 0x1_0000_0000,
{
    reveal_with_fuel(power_of_two, 33);
    assert(power_of_two(32) == 0x1_0000_0000);
    lemma_power_of_two_monotonic(n + 1, 32);
}

/// The seconds from `now` until `minute` (of some day), 0 when `now` is that very second.
pub open spec fn seconds_until(minute: u16, now: int) -> int {
    (minute * 60 + 86400 - now) % 86400
}

pub open spec fn earlier_boundary(delay: u64, minute: u16, now: int) -> u64 {
    let s = seconds_until(minute, now);
    if s > 0 && s < delay {
        s as u64
    } else {
        delay
    }
}

/// `delay` shortened to the first start or end of a pause period after `now`.
pub open spec fn wake_before_boundaries(ps: Seq<(u16, u16)>, now: int, delay: u64) -> u64
    decreases ps.len(),
{
    if ps.len() == 0 {
        delay
    } else {
        let d = wake_before_boundaries(ps.drop_last(), now, delay);
        earlier_boundary(earlier_boundary(d, ps.last().0, now), ps.last().1, now)
    }
}

/// The wait before the next detection: `delay`, but waking at the next daily pause
/// boundary even when the normal interval is long.
pub open spec fn spec_next_wake(delay: u64, periods: Seq<char>, now: int) -> u64 {
    match spec_pause_periods(periods) {
        Some(ps) => wake_before_boundaries(ps, now, delay),
        None => delay,
    }
}

pub fn next_wake_delay(delay: u64, periods: &str, now: u32) -> (r: u64)
    requires
        now < 86400,
    ensures
        r == spec_next_wake(delay, periods@, now as int),
{
    let list = match crate::settings::parse_pause_periods(periods) {
        Ok(list) => list,
        Err(_) => return delay,
    };
    let ghost ps = list@;
    let mut next = delay;
    for i in 0..list.len()
        invariant
            ps == list@,
            now < 86400,
            next == wake_before_boundaries(ps.take(i as int), now as int, delay),
    {
        let (start, end) = list[i];
        let ghost prefix = ps.take(i + 1);
        assert(prefix.drop_last() =~= ps.take(i as int));
        let s1: u32 = (start as u32 * 60 + 86400 - now) % 86400;
        if s1 > 0 && (s1 as u64) < next {
            next = s1 as u64;
        }
        let s2: u32 = (end as u32 * 60 + 86400 - now) % 86400;
        if s2 > 0 && (s2 as u64) < next {
            next = s2 as u64;
        }
    }
    assert(ps.take(list.len() as int) =~= ps);
    next
}

/// What the worker is waiting for.
#[derive(Clone, Copy, Debug, PartialEq, Eq, Structural)]
pub enum Phase {
    /// The next command, or the end of the wait that starts a detection.
    Idle,
    /// Detection: the first Internet probe.
    DetectFirstProbe,
    /// Detection: the short settle before probing again.
    DetectSettle,
    /// Detection: the second Internet probe.
    DetectSecondProbe,
    /// Detection: the authentication server probe.
    DetectAuthProbe,
    /// Automatic login: the stored password's decryption.
    AutoDecrypt,
    /// Automatic login: the login request.
    AutoLogin,
    /// Automatic login: the settle after the request.
    AutoSettle,
    /// Automatic login: the Internet probe after the request.
    AutoProbe,
    /// Automatic login: saving the login time.
    AutoSave,
    ManualDecrypt,
    ManualLogin,
    ManualSettle,
    ManualProbe,
    ManualSave,
    /// The logout request.
    LoggingOut,
    /// The worker has stopped.
    Stopped,
}

/// Something the caller must do, then report back.
pub enum WorkerAction {
    /// Wait up to this many seconds for a command; 0 takes only a queued one. When the time
    /// passes, report `Elapsed` and the worker detects.
    Wait(u64),
    /// Probe the Internet, with this fallback address.
    ProbeInternet(String),
    ProbeAuthServer,
    /// Sleep this many seconds, cut short by any command.
    Sleep(u64),
    /// Decrypt this stored password.
    Decrypt(String),
    /// Send the login request; its result is not used.
    Login { account: String, password: String },
    /// Record the current time as the last successful login in the saved settings.
    SaveLastLogin,
    Logout,
    Stop,
}

/// What came of an action.
pub enum WorkerEvent {
    Elapsed,
    Command(MonitorCommand),
    Disconnected,
    Internet(bool),
    AuthServer(bool),
    Decrypted(Result<String, String>),
    LoginSent,
    Saved(Result<AppSettings, String>),
    LoggedOut(Result<(), String>),
}

/// What the worker tells the user interface.
pub enum WorkerOutput {
    Status(NetworkState, String),
    Notification(AppNotification),
    SettingsChanged(AppSettings),
}

pub enum ActionView {
    Wait(u64),
    ProbeInternet(Seq<char>),
    ProbeAuthServer,
    Sleep(u64),
    Decrypt(Seq<char>),
    Login(Seq<char>, Seq<char>),
    SaveLastLogin,
    Logout,
    Stop,
}

pub enum OutputView {
    Status(NetworkState, Seq<char>),
    Notification(NotificationKind, Seq<char>, Seq<char>),
    SettingsChanged(SettingsView),
}

impl View for WorkerAction {
    type V = ActionView;

    open spec fn view(&self) -> ActionView {
        match self {
            WorkerAction::Wait(s) => ActionView::Wait(*s),
            WorkerAction::ProbeInternet(u) => ActionView::ProbeInternet(u@),
            WorkerAction::ProbeAuthServer => ActionView::ProbeAuthServer,
            WorkerAction::Sleep(s) => ActionView::Sleep(*s),
            WorkerAction::Decrypt(p) => ActionView::Decrypt(p@),
            WorkerAction::Login { account, password } => ActionView::Login(account@, password@),
            WorkerAction::SaveLastLogin => ActionView::SaveLastLogin,
            WorkerAction::Logout => ActionView::Logout,
            WorkerAction::Stop => ActionView::Stop,
        }
    }
}

impl View for WorkerOutput {
    type V = OutputView;

    open spec fn view(&self) -> OutputView {
        match self {
            WorkerOutput::Status(s, m) => OutputView::Status(*s, m@),
            WorkerOutput::Notification(n) => OutputView::Notification(n.kind, n.title@, n.message@),
            WorkerOutput::SettingsChanged(s) => OutputView::SettingsChanged(s@),
        }
    }
}

pub open spec fn outputs_view(v: Seq<WorkerOutput>) -> Seq<OutputView> {
    Seq::new(v.len(), |i: int| v[i]@)
}

/// The worker's decisions between actions.
pub struct Worker {
    phase: Phase,
    once_consumed: bool,
    consecutive_failures: u32,
    cycle: AppSettings,
}

pub struct WorkerView {
    pub phase: Phase,
    /// The one automatic opportunity of "log in once at autostart" has been used.
    pub once_consumed: bool,
    pub consecutive_failures: u32,
    /// The settings taken when the current cycle or manual login began.
    pub cycle: SettingsView,
}

impl View for Worker {
    type V = WorkerView;

    closed spec fn view(&self) -> WorkerView {
        WorkerView {
            phase: self.phase,
            once_consumed: self.once_consumed,
            consecutive_failures: self.consecutive_failures,
            cycle: self.cycle@,
        }
    }
}

/// Everything a step can change: the worker, the pause switches and the reports so far.
pub struct Machine {
    pub worker: WorkerView,
    pub flags: PauseFlags,
    pub outputs: Seq<OutputView>,
}

pub open spec fn machine(w: WorkerView, flags: PauseFlags, outputs: Seq<WorkerOutput>) -> Machine {
    Machine { worker: w, flags, outputs: outputs_view(outputs) }
}

pub open spec fn with_phase(m: Machine, phase: Phase) -> Machine {
    Machine { worker: WorkerView { phase, ..m.worker }, ..m }
}

pub open spec fn publish(m: Machine, state: NetworkState, message: Seq<char>) -> Machine {
    Machine { outputs: m.outputs.push(OutputView::Status(state, message)), ..m }
}

/// A notification, dropped when notifications are switched off.
pub open spec fn notify(
    m: Machine,
    fresh: SettingsView,
    kind: NotificationKind,
    title: Seq<char>,
    message: Seq<char>,
) -> Machine {
    if fresh.notifications_enabled {
        Machine { outputs: m.outputs.push(OutputView::Notification(kind, title, message)), ..m }
    } else {
        m
    }
}

pub open spec fn normal_interval(fresh: SettingsView) -> u64 {
    fresh.check_interval_seconds as u64
}

/// A pause period covers `now` for these settings.
pub open spec fn in_pause_window(s: SettingsView, now: int) -> bool {
    spec_pause_remaining(s.pause_periods, now) is Some
}

/// The command is done: wait `delay` (shortened to the next pause boundary) for the next one.
pub open spec fn finish(m: Machine, fresh: SettingsView, now: int, delay: u64) -> (
    Machine,
    ActionView,
) {
    (with_phase(m, Phase::Idle), ActionView::Wait(spec_next_wake(delay, fresh.pause_periods, now)))
}

/// A command interrupted a sleep: the interrupted work ends and the command runs at once.
pub open spec fn run_interrupting(m: Machine, fresh: SettingsView, now: int, c: MonitorCommand) -> (
    Machine,
    ActionView,
) {
    spec_begin_command(with_phase(m, Phase::Idle), fresh, now, c)
}

/// The worker turns to a command.
pub open spec fn spec_begin_command(
    m: Machine,
    fresh: SettingsView,
    now: int,
    c: MonitorCommand,
) -> (Machine, ActionView) {
    match c {
        MonitorCommand::Stop => (with_phase(m, Phase::Stopped), ActionView::Stop),
        MonitorCommand::ManualLogin => {
            if !spec_has_credentials(fresh) {
                let m1 = publish(m, NetworkState::NotConfigured, "请先填写账号和密码。"@);
                let m2 = notify(
                    m1,
                    fresh,
                    NotificationKind::Warning,
                    "校园网自动登录"@,
                    "请先在设置中填写账号和密码。"@,
                );
                finish(m2, fresh, now, normal_interval(fresh))
            } else {
                let m1 = Machine {
                    worker: WorkerView { phase: Phase::ManualDecrypt, cycle: fresh, ..m.worker },
                    ..m
                };
                (m1, ActionView::Decrypt(fresh.encrypted_password))
            }
        },
        MonitorCommand::Logout => {
            let m1 = publish(m, NetworkState::LoggingOut, "正在向校园网认证服务器发送注销请求。"@);
            (with_phase(m1, Phase::LoggingOut), ActionView::Logout)
        },
        MonitorCommand::PauseChanged => {
            if m.flags.spec_is_paused() {
                let m1 = publish(m, NetworkState::Paused, "自动重连已暂停，仍会继续检测网络。"@);
                finish(m1, fresh, now, normal_interval(fresh))
            } else {
                finish(m, fresh, now, 0)
            }
        },
        MonitorCommand::SettingsChanged => {
            let m1 = Machine { worker: WorkerView { consecutive_failures: 0, ..m.worker }, ..m };
            finish(m1, fresh, now, 0)
        },
        MonitorCommand::Detect => spec_begin_detection(m, fresh, now),
    }
}

/// A detection cycle starts from the current settings.
pub open spec fn spec_begin_detection(m: Machine, fresh: SettingsView, now: int) -> (
    Machine,
    ActionView,
) {
    let m0 = Machine { worker: WorkerView { cycle: fresh, ..m.worker }, ..m };
    if !spec_has_credentials(fresh) {
        let m1 = publish(m0, NetworkState::NotConfigured, "请先填写账号和密码。"@);
        finish(m1, fresh, now, normal_interval(fresh))
    } else if in_pause_window(fresh, now) {
        let remaining = spec_pause_remaining(fresh.pause_periods, now)->0;
        let m1 = publish(
            m0,
            NetworkState::Paused,
            "当前处于暂停时段，自动登录和检测均已暂停。"@,
        );
        finish(
            m1,
            fresh,
            now,
            if remaining < 60 {
                remaining as u64
            } else {
                60
            },
        )
    } else if fresh.autostart_login_once && m.worker.once_consumed {
        let m1 = publish(
            m0,
            NetworkState::Paused,
            "仅开机自启登录一次模式：自动任务已暂停，可手动登录。"@,
        );
        finish(m1, fresh, now, normal_interval(fresh))
    } else {
        let m1 = publish(m0, NetworkState::Checking, "正在检测公网连接。"@);
        (with_phase(m1, Phase::DetectFirstProbe), ActionView::ProbeInternet(fresh.fallback_probe_url))
    }
}

/// The Internet answered during detection: failures and the failure pause are cleared.
pub open spec fn detected_online(m: Machine, fresh: SettingsView, now: int) -> (
    Machine,
    ActionView,
) {
    let m1 = Machine {
        worker: WorkerView { once_consumed: true, consecutive_failures: 0, ..m.worker },
        flags: PauseFlags { failure_paused: false, ..m.flags },
        ..m
    };
    let m2 = publish(m1, NetworkState::Online, "公网连接正常。"@);
    finish(m2, fresh, now, normal_interval(fresh))
}

pub open spec fn saturating_increment(n: u32) -> u32 {
    if n == u32::MAX {
        n
    } else {
        (n + 1) as u32
    }
}

/// The outputs of a recorded successful login.
pub open spec fn recorded_success(m: Machine, fresh: SettingsView, saved: Result<SettingsView, Seq<char>>) -> Machine {
    match saved {
        Ok(s) => {
            let m1 = Machine { outputs: m.outputs.push(OutputView::SettingsChanged(s)), ..m };
            let m2 = publish(m1, NetworkState::Online, "登录成功，公网连接已恢复。"@);
            if s.notifications_enabled {
                notify(m2, fresh, NotificationKind::Success, "校园网登录成功"@, "公网连接已恢复。"@)
            } else {
                m2
            }
        },
        Err(message) => {
            let m1 = publish(m, NetworkState::Online, "公网已恢复，但最近登录时间保存失败。"@);
            notify(m1, fresh, NotificationKind::Warning, "校园网自动登录"@, message)
        },
    }
}

pub open spec fn saved_view(r: Result<AppSettings, String>) -> Result<SettingsView, Seq<char>> {
    match r {
        Ok(s) => Ok(s@),
        Err(m) => Err(m@),
    }
}

/// The phase accepts the event.
pub open spec fn accepts(phase: Phase, event: WorkerEvent) -> bool {
    match phase {
        Phase::Idle | Phase::DetectSettle | Phase::AutoSettle | Phase::ManualSettle => match event {
            WorkerEvent::Elapsed | WorkerEvent::Command(_) | WorkerEvent::Disconnected => true,
            _ => false,
        },
        Phase::DetectFirstProbe | Phase::DetectSecondProbe | Phase::AutoProbe
        | Phase::ManualProbe => event is Internet,
        Phase::DetectAuthProbe => event is AuthServer,
        Phase::AutoDecrypt | Phase::ManualDecrypt => event is Decrypted,
        Phase::AutoLogin | Phase::ManualLogin => event is LoginSent,
        Phase::AutoSave | Phase::ManualSave => event is Saved,
        Phase::LoggingOut => event is LoggedOut,
        Phase::Stopped => false,
    }
}

/// One step of the worker: what the event leads to, and the next action.
pub open spec fn spec_step(m: Machine, fresh: SettingsView, now: int, event: WorkerEvent) -> (
    Machine,
    ActionView,
) {
    let cycle = m.worker.cycle;
    match m.worker.phase {
        Phase::Idle => match event {
            WorkerEvent::Command(c) => spec_begin_command(m, fresh, now, c),
            WorkerEvent::Disconnected => (with_phase(m, Phase::Stopped), ActionView::Stop),
            _ => spec_begin_detection(m, fresh, now),
        },
        Phase::DetectFirstProbe | Phase::DetectSecondProbe => match event {
            WorkerEvent::Internet(true) => detected_online(m, fresh, now),
            _ => if m.worker.phase == Phase::DetectFirstProbe {
                (with_phase(m, Phase::DetectSettle), ActionView::Sleep(2))
            } else if m.flags.spec_is_paused() {
                let m1 = publish(m, NetworkState::Paused, "网络不可用，自动重连当前已暂停。"@);
                finish(m1, fresh, now, normal_interval(fresh))
            } else {
                let m1 = publish(m, NetworkState::Offline, "公网不可用，正在检查认证服务器。"@);
                (with_phase(m1, Phase::DetectAuthProbe), ActionView::ProbeAuthServer)
            },
        },
        Phase::DetectSettle | Phase::AutoSettle => match event {
            WorkerEvent::Command(c) => run_interrupting(m, fresh, now, c),
            WorkerEvent::Disconnected => run_interrupting(m, fresh, now, MonitorCommand::Stop),
            _ => if in_pause_window(cycle, now) {
                finish(m, fresh, now, 0)
            } else if m.worker.phase == Phase::DetectSettle {
                (with_phase(m, Phase::DetectSecondProbe), ActionView::ProbeInternet(cycle.fallback_probe_url))
            } else {
                (with_phase(m, Phase::AutoProbe), ActionView::ProbeInternet(cycle.fallback_probe_url))
            },
        },
        Phase::DetectAuthProbe => match event {
            WorkerEvent::AuthServer(true) => if in_pause_window(cycle, now) {
                finish(m, fresh, now, 0)
            } else {
                let m1 = Machine {
                    worker: WorkerView { phase: Phase::AutoDecrypt, once_consumed: true, ..m.worker },
                    ..m
                };
                (m1, ActionView::Decrypt(cycle.encrypted_password))
            },
            _ => {
                let m1 = publish(m, NetworkState::AuthServerUnavailable, "无法访问校园网认证服务器。"@);
                let failures = saturating_increment(m.worker.consecutive_failures);
                let m2 = Machine {
                    worker: WorkerView { once_consumed: true, consecutive_failures: failures, ..m1.worker },
                    ..m1
                };
                finish(m2, fresh, now, spec_failure_delay(cycle, failures))
            },
        },
        Phase::AutoDecrypt | Phase::ManualDecrypt => match event {
            WorkerEvent::Decrypted(Ok(password)) => {
                let account = cycle.provider.spec_submitted_account(cycle.account);
                if m.worker.phase == Phase::AutoDecrypt {
                    if in_pause_window(cycle, now) {
                        finish(m, fresh, now, 0)
                    } else {
                        let m1 = publish(m, NetworkState::Authenticating, "正在自动登录。"@);
                        let m2 = Machine {
                            worker: WorkerView { phase: Phase::AutoLogin, once_consumed: true, ..m1.worker },
                            ..m1
                        };
                        (m2, ActionView::Login(account, password@))
                    }
                } else {
                    let m1 = publish(m, NetworkState::Authenticating, "正在执行手动重新登录。"@);
                    (with_phase(m1, Phase::ManualLogin), ActionView::Login(account, password@))
                }
            },
            WorkerEvent::Decrypted(Err(message)) => {
                let m1 = publish(m, NetworkState::NotConfigured, message@);
                let m2 = notify(m1, fresh, NotificationKind::Error, "校园网自动登录"@, message@);
                finish(m2, fresh, now, normal_interval(fresh))
            },
            _ => (m, ActionView::Stop),
        },
        Phase::AutoLogin => (with_phase(m, Phase::AutoSettle), ActionView::Sleep(3)),
        Phase::ManualLogin => (with_phase(m, Phase::ManualSettle), ActionView::Sleep(3)),
        Phase::AutoProbe => match event {
            WorkerEvent::Internet(true) => {
                let m1 = Machine {
                    worker: WorkerView { phase: Phase::AutoSave, consecutive_failures: 0, ..m.worker },
                    ..m
                };
                (m1, ActionView::SaveLastLogin)
            },
            _ => {
                let failures = saturating_increment(m.worker.consecutive_failures);
                let m1 = Machine {
                    worker: WorkerView { consecutive_failures: failures, ..m.worker },
                    ..m
                };
                let m2 = publish(m1, NetworkState::LoginFailed, "登录后公网仍未恢复。"@);
                let m3 = notify(
                    m2,
                    fresh,
                    NotificationKind::Error,
                    "校园网登录失败"@,
                    "公网仍未恢复，请检查账号、密码或运营商。"@,
                );
                if cycle.failure_cooldown_seconds < 0 {
                    let m4 = Machine { flags: PauseFlags { failure_paused: true, ..m3.flags }, ..m3 };
                    let m5 = publish(m4, NetworkState::Paused, "登录失败，已按设置停止自动重试。"@);
                    finish(m5, fresh, now, normal_interval(fresh))
                } else {
                    finish(m3, fresh, now, spec_failure_delay(cycle, failures))
                }
            },
        },
        Phase::ManualSettle => match event {
            WorkerEvent::Command(c) => run_interrupting(m, fresh, now, c),
            WorkerEvent::Disconnected => run_interrupting(m, fresh, now, MonitorCommand::Stop),
            _ => (with_phase(m, Phase::ManualProbe), ActionView::ProbeInternet(fresh.fallback_probe_url)),
        },
        Phase::ManualProbe => match event {
            WorkerEvent::Internet(true) => {
                let m1 = Machine {
                    worker: WorkerView { phase: Phase::ManualSave, consecutive_failures: 0, ..m.worker },
                    flags: PauseFlags { failure_paused: false, ..m.flags },
                    ..m
                };
                (m1, ActionView::SaveLastLogin)
            },
            _ => {
                let m1 = publish(m, NetworkState::LoginFailed, "手动登录后公网仍未恢复。"@);
                let m2 = notify(
                    m1,
                    fresh,
                    NotificationKind::Error,
                    "校园网登录失败"@,
                    "登录请求已发送，但公网仍未恢复。"@,
                );
                finish(m2, fresh, now, normal_interval(fresh))
            },
        },
        Phase::AutoSave | Phase::ManualSave => match event {
            WorkerEvent::Saved(r) => finish(recorded_success(m, fresh, saved_view(r)), fresh, now, normal_interval(fresh)),
            _ => (m, ActionView::Stop),
        },
        Phase::LoggingOut => match event {
            WorkerEvent::LoggedOut(Ok(())) => {
                let m1 = Machine { flags: PauseFlags { user_paused: true, failure_paused: false }, ..m };
                let m2 = publish(m1, NetworkState::Paused, "校园网已注销，自动重连已暂停。"@);
                let m3 = notify(
                    m2,
                    fresh,
                    NotificationKind::Information,
                    "校园网已注销"@,
                    "自动重连已暂停；需要联网时请从托盘恢复。"@,
                );
                finish(m3, fresh, now, normal_interval(fresh))
            },
            WorkerEvent::LoggedOut(Err(message)) => {
                let m1 = publish(m, NetworkState::LogoutFailed, message@);
                let m2 = notify(m1, fresh, NotificationKind::Error, "校园网注销失败"@, message@);
                finish(m2, fresh, now, normal_interval(fresh))
            },
            _ => (m, ActionView::Stop),
        },
        Phase::Stopped => (m, ActionView::Stop),
    }
}

/// The action the caller performs next, with the reports the step produced.
pub struct WorkerStep {
    pub action: WorkerAction,
    pub outputs: Vec<WorkerOutput>,
}

pub open spec fn config(w: Worker, flags: PauseFlags, outputs: Seq<WorkerOutput>) -> Machine {
    machine(w@, flags, outputs)
}

/// Every second of a day is in range for the pause computation.
pub proof fn lemma_day_second_in_range(periods: Seq<char>, second: int)
    requires
        0 <= second <= 86400,
    ensures
        pause_second_in_range(periods, second),
{
}

fn emit(out: &mut Vec<WorkerOutput>, o: WorkerOutput)
    ensures
        outputs_view(final(out)@) == outputs_view(old(out)@).push(o@),
{
    let ghost ov = o@;
    out.push(o);
    assert(outputs_view(out@) =~= outputs_view(old(out)@).push(ov));
}

fn publish_text(out: &mut Vec<WorkerOutput>, state: NetworkState, message: &str)
    ensures
        outputs_view(final(out)@) == outputs_view(old(out)@).push(OutputView::Status(state, message@)),
{
    emit(out, WorkerOutput::Status(state, message.to_owned()));
}

fn notify_text(
    out: &mut Vec<WorkerOutput>,
    fresh: &AppSettings,
    kind: NotificationKind,
    title: &str,
    message: &str,
)
    ensures
        outputs_view(final(out)@) == if fresh@.notifications_enabled {
            outputs_view(old(out)@).push(OutputView::Notification(kind, title@, message@))
        } else {
            outputs_view(old(out)@)
        },
{
    if fresh.notifications_enabled {
        emit(
            out,
            WorkerOutput::Notification(
                AppNotification { kind, title: title.to_owned(), message: message.to_owned() },
            ),
        );
    }
}

impl Worker {
    /// A worker that has not detected yet; a worker started by hand has no automatic
    /// opportunity left for "log in once at autostart".
    pub fn new(auto_started: bool) -> (r: Worker)
        ensures
            r@.phase == Phase::Idle,
            r@.once_consumed == !auto_started,
            r@.consecutive_failures == 0,
            r@.cycle == crate::settings::default_settings(),
    {
        Worker {
            phase: Phase::Idle,
            once_consumed: !auto_started,
            consecutive_failures: 0,
            cycle: AppSettings::default(),
        }
    }

    /// A new worker first takes a queued command, if any, without waiting.
    pub fn first_action(&self) -> (r: WorkerAction)
        ensures
            r@ == ActionView::Wait(0),
    {
        WorkerAction::Wait(0)
    }

    pub fn phase(&self) -> (r: Phase)
        ensures
            r == self@.phase,
    {
        self.phase
    }

    pub fn consecutive_failures(&self) -> (r: u32)
        ensures
            r == self@.consecutive_failures,
    {
        self.consecutive_failures
    }

    pub fn once_consumed(&self) -> (r: bool)
        ensures
            r == self@.once_consumed,
    {
        self.once_consumed
    }

    pub fn accepts(&self, event: &WorkerEvent) -> (r: bool)
        ensures
            r == accepts(self@.phase, *event),
    {
        match self.phase {
            Phase::Idle | Phase::DetectSettle | Phase::AutoSettle | Phase::ManualSettle => match event {
                WorkerEvent::Elapsed | WorkerEvent::Command(_) | WorkerEvent::Disconnected => true,
                _ => false,
            },
            Phase::DetectFirstProbe | Phase::DetectSecondProbe | Phase::AutoProbe
            | Phase::ManualProbe => match event {
                WorkerEvent::Internet(_) => true,
                _ => false,
            },
            Phase::DetectAuthProbe => match event {
                WorkerEvent::AuthServer(_) => true,
                _ => false,
            },
            Phase::AutoDecrypt | Phase::ManualDecrypt => match event {
                WorkerEvent::Decrypted(_) => true,
                _ => false,
            },
            Phase::AutoLogin | Phase::ManualLogin => match event {
                WorkerEvent::LoginSent => true,
                _ => false,
            },
            Phase::AutoSave | Phase::ManualSave => match event {
                WorkerEvent::Saved(_) => true,
                _ => false,
            },
            Phase::LoggingOut => match event {
                WorkerEvent::LoggedOut(_) => true,
                _ => false,
            },
            Phase::Stopped => false,
        }
    }

    fn normal_interval(fresh: &AppSettings) -> (r: u64)
        ensures
            r == normal_interval(fresh@),
    {
        fresh.check_interval_seconds as u64
    }

    fn cycle_paused(&self, now: u32) -> (r: bool)
        requires
            now < 86400,
        ensures
            r == in_pause_window(self@.cycle, now as int),
    {
        proof {
            lemma_day_second_in_range(self.cycle.pause_periods@, now as int);
        }
        pause_remaining_seconds(self.cycle.pause_periods.as_str(), now).is_some()
    }

    fn finish(&mut self, fresh: &AppSettings, now: u32, delay: u64) -> (r: WorkerAction)
        requires
            now < 86400,
        ensures
            final(self)@ == (WorkerView { phase: Phase::Idle, ..old(self)@ }),
            r@ == ActionView::Wait(spec_next_wake(delay, fresh@.pause_periods, now as int)),
    {
        self.phase = Phase::Idle;
        WorkerAction::Wait(next_wake_delay(delay, fresh.pause_periods.as_str(), now))
    }

    fn begin_command(
        &mut self,
        flags: &mut PauseFlags,
        out: &mut Vec<WorkerOutput>,
        fresh: &AppSettings,
        now: u32,
        command: MonitorCommand,
    ) -> (r: WorkerAction)
        requires
            now < 86400,
        ensures
            (config(*final(self), *final(flags), final(out)@), r@) == spec_begin_command(
                config(*old(self), *old(flags), old(out)@),
                fresh@,
                now as int,
                command,
            ),
    {
        match command {
            MonitorCommand::Stop => {
                self.phase = Phase::Stopped;
                WorkerAction::Stop
            },
            MonitorCommand::ManualLogin => self.execute_manual_login(out, fresh, now),
            MonitorCommand::Logout => self.execute_logout(out),
            MonitorCommand::PauseChanged => {
                if flags.is_paused() {
                    publish_text(out, NetworkState::Paused, "自动重连已暂停，仍会继续检测网络。");
                    self.finish(fresh, now, Self::normal_interval(fresh))
                } else {
                    self.finish(fresh, now, 0)
                }
            },
            MonitorCommand::SettingsChanged => {
                self.consecutive_failures = 0;
                self.finish(fresh, now, 0)
            },
            MonitorCommand::Detect => self.execute_detection_cycle(flags, out, fresh, now),
        }
    }

    fn execute_manual_login(&mut self, out: &mut Vec<WorkerOutput>, fresh: &AppSettings, now: u32) -> (r: WorkerAction)
        requires
            now < 86400,
        ensures
            forall|f: PauseFlags| (config(*final(self), f, final(out)@), r@) == #[trigger] spec_begin_command(
                config(*old(self), f, old(out)@),
                fresh@,
                now as int,
                MonitorCommand::ManualLogin,
            ),
    {
        if !fresh.has_credentials() {
            publish_text(out, NetworkState::NotConfigured, "请先填写账号和密码。");
            notify_text(
                out,
                fresh,
                NotificationKind::Warning,
                "校园网自动登录",
                "请先在设置中填写账号和密码。",
            );
            return self.finish(fresh, now, Self::normal_interval(fresh));
        }
        self.cycle = fresh.duplicate();
        self.phase = Phase::ManualDecrypt;
        WorkerAction::Decrypt(fresh.encrypted_password.clone())
    }

    fn execute_logout(&mut self, out: &mut Vec<WorkerOutput>) -> (r: WorkerAction)
        ensures
            final(self)@ == (WorkerView { phase: Phase::LoggingOut, ..old(self)@ }),
            outputs_view(final(out)@) == outputs_view(old(out)@).push(
                OutputView::Status(NetworkState::LoggingOut, "正在向校园网认证服务器发送注销请求。"@),
            ),
            r@ == ActionView::Logout,
    {
        publish_text(out, NetworkState::LoggingOut, "正在向校园网认证服务器发送注销请求。");
        self.phase = Phase::LoggingOut;
        WorkerAction::Logout
    }

    fn execute_detection_cycle(
        &mut self,
        flags: &PauseFlags,
        out: &mut Vec<WorkerOutput>,
        fresh: &AppSettings,
        now: u32,
    ) -> (r: WorkerAction)
        requires
            now < 86400,
        ensures
            (config(*final(self), *flags, final(out)@), r@) == spec_begin_detection(
                config(*old(self), *flags, old(out)@),
                fresh@,
                now as int,
            ),
    {
        self.cycle = fresh.duplicate();
        if !fresh.has_credentials() {
            publish_text(out, NetworkState::NotConfigured, "请先填写账号和密码。");
            return self.finish(fresh, now, Self::normal_interval(fresh));
        }
        proof {
            lemma_day_second_in_range(fresh.pause_periods@, now as int);
        }
        if let Some(seconds) = pause_remaining_seconds(fresh.pause_periods.as_str(), now) {
            publish_text(
                out,
                NetworkState::Paused,
                "当前处于暂停时段，自动登录和检测均已暂停。",
            );
            let delay: u64 = if seconds < 60 {
                seconds
            } else {
                60
            };
            return self.finish(fresh, now, delay);
        }
        if fresh.autostart_login_once && self.once_consumed {
            publish_text(
                out,
                NetworkState::Paused,
                "仅开机自启登录一次模式：自动任务已暂停，可手动登录。",
            );
            return self.finish(fresh, now, Self::normal_interval(fresh));
        }
        publish_text(out, NetworkState::Checking, "正在检测公网连接。");
        self.phase = Phase::DetectFirstProbe;
        WorkerAction::ProbeInternet(fresh.fallback_probe_url.clone())
    }
}


impl Worker {
    /// The reports of a recorded successful login.
    fn record_success(
        out: &mut Vec<WorkerOutput>,
        fresh: &AppSettings,
        saved: Result<AppSettings, String>,
    )
        ensures
            forall|w: WorkerView, f: PauseFlags|
                #![trigger recorded_success(machine(w, f, old(out)@), fresh@, saved_view(saved))]
                machine(w, f, final(out)@) == recorded_success(
                    machine(w, f, old(out)@),
                    fresh@,
                    saved_view(saved),
                ),
    {
        match saved {
            Ok(settings) => {
                let enabled = settings.notifications_enabled;
                emit(out, WorkerOutput::SettingsChanged(settings));
                publish_text(out, NetworkState::Online, "登录成功，公网连接已恢复。");
                if enabled {
                    notify_text(
                        out,
                        fresh,
                        NotificationKind::Success,
                        "校园网登录成功",
                        "公网连接已恢复。",
                    );
                }
            },
            Err(message) => {
                publish_text(out, NetworkState::Online, "公网已恢复，但最近登录时间保存失败。");
                notify_text(out, fresh, NotificationKind::Warning, "校园网自动登录", message.as_str());
            },
        }
    }

    fn detected_online(
        &mut self,
        flags: &mut PauseFlags,
        out: &mut Vec<WorkerOutput>,
        fresh: &AppSettings,
        now: u32,
    ) -> (r: WorkerAction)
        requires
            now < 86400,
        ensures
            (config(*final(self), *final(flags), final(out)@), r@) == detected_online(
                config(*old(self), *old(flags), old(out)@),
                fresh@,
                now as int,
            ),
    {
        flags.failure_paused = false;
        self.consecutive_failures = 0;
        self.once_consumed = true;
        publish_text(out, NetworkState::Online, "公网连接正常。");
        self.finish(fresh, now, Self::normal_interval(fresh))
    }

    /// The detection cycle's Internet probes.
    fn on_detect_probe(
        &mut self,
        flags: &mut PauseFlags,
        out: &mut Vec<WorkerOutput>,
        fresh: &AppSettings,
        now: u32,
        event: WorkerEvent,
    ) -> (r: WorkerAction)
        requires
            now < 86400,
            old(self)@.phase == Phase::DetectFirstProbe || old(self)@.phase == Phase::DetectSecondProbe,
        ensures
            (config(*final(self), *final(flags), final(out)@), r@) == spec_step(
                config(*old(self), *old(flags), old(out)@),
                fresh@,
                now as int,
                event,
            ),
    {
        if let WorkerEvent::Internet(true) = event {
            return self.detected_online(flags, out, fresh, now);
        }
        if self.phase == Phase::DetectFirstProbe {
            self.phase = Phase::DetectSettle;
            WorkerAction::Sleep(2)
        } else if flags.is_paused() {
            publish_text(out, NetworkState::Paused, "网络不可用，自动重连当前已暂停。");
            self.finish(fresh, now, Self::normal_interval(fresh))
        } else {
            publish_text(out, NetworkState::Offline, "公网不可用，正在检查认证服务器。");
            self.phase = Phase::DetectAuthProbe;
            WorkerAction::ProbeAuthServer
        }
    }

    /// The end of a settle pause after a probe or a login request.
    fn on_settled(
        &mut self,
        flags: &mut PauseFlags,
        out: &mut Vec<WorkerOutput>,
        fresh: &AppSettings,
        now: u32,
        event: WorkerEvent,
    ) -> (r: WorkerAction)
        requires
            now < 86400,
            old(self)@.phase == Phase::DetectSettle || old(self)@.phase == Phase::AutoSettle
                || old(self)@.phase == Phase::ManualSettle,
        ensures
            (config(*final(self), *final(flags), final(out)@), r@) == spec_step(
                config(*old(self), *old(flags), old(out)@),
                fresh@,
                now as int,
                event,
            ),
    {
        match event {
            WorkerEvent::Command(c) => {
                self.phase = Phase::Idle;
                return self.begin_command(flags, out, fresh, now, c);
            },
            WorkerEvent::Disconnected => {
                self.phase = Phase::Idle;
                return self.begin_command(flags, out, fresh, now, MonitorCommand::Stop);
            },
            _ => {},
        }
        if self.phase == Phase::ManualSettle {
            self.phase = Phase::ManualProbe;
            return WorkerAction::ProbeInternet(fresh.fallback_probe_url.clone());
        }
        if self.cycle_paused(now) {
            return self.finish(fresh, now, 0);
        }
        if self.phase == Phase::DetectSettle {
            self.phase = Phase::DetectSecondProbe;
        } else {
            self.phase = Phase::AutoProbe;
        }
        WorkerAction::ProbeInternet(self.cycle.fallback_probe_url.clone())
    }

    /// The authentication server probe.
    fn on_auth_probe(
        &mut self,
        out: &mut Vec<WorkerOutput>,
        fresh: &AppSettings,
        now: u32,
        reachable: bool,
    ) -> (r: WorkerAction)
        requires
            now < 86400,
            old(self)@.phase == Phase::DetectAuthProbe,
        ensures
            forall|f: PauseFlags|
                (config(*final(self), f, final(out)@), r@) == #[trigger] spec_step(
                    config(*old(self), f, old(out)@),
                    fresh@,
                    now as int,
                    WorkerEvent::AuthServer(reachable),
                ),
    {
        if reachable {
            if self.cycle_paused(now) {
                return self.finish(fresh, now, 0);
            }
            self.once_consumed = true;
            self.phase = Phase::AutoDecrypt;
            return WorkerAction::Decrypt(self.cycle.encrypted_password.clone());
        }
        publish_text(out, NetworkState::AuthServerUnavailable, "无法访问校园网认证服务器。");
        self.once_consumed = true;
        self.consecutive_failures = self.consecutive_failures.saturating_add(1);
        let delay = failure_delay(&self.cycle, self.consecutive_failures);
        self.finish(fresh, now, delay)
    }

    /// The stored password's decryption, before an automatic or manual login.
    fn on_decrypted(
        &mut self,
        out: &mut Vec<WorkerOutput>,
        fresh: &AppSettings,
        now: u32,
        decrypted: Result<String, String>,
    ) -> (r: WorkerAction)
        requires
            now < 86400,
            old(self)@.phase == Phase::AutoDecrypt || old(self)@.phase == Phase::ManualDecrypt,
        ensures
            forall|f: PauseFlags|
                (config(*final(self), f, final(out)@), r@) == #[trigger] spec_step(
                    config(*old(self), f, old(out)@),
                    fresh@,
                    now as int,
                    WorkerEvent::Decrypted(decrypted),
                ),
    {
        match decrypted {
            Err(message) => {
                publish_text(out, NetworkState::NotConfigured, message.as_str());
                notify_text(out, fresh, NotificationKind::Error, "校园网自动登录", message.as_str());
                self.finish(fresh, now, Self::normal_interval(fresh))
            },
            Ok(password) => {
                let account = self.cycle.provider.submitted_account(self.cycle.account.as_str());
                if self.phase == Phase::AutoDecrypt {
                    if self.cycle_paused(now) {
                        return self.finish(fresh, now, 0);
                    }
                    self.once_consumed = true;
                    publish_text(out, NetworkState::Authenticating, "正在自动登录。");
                    self.phase = Phase::AutoLogin;
                } else {
                    publish_text(out, NetworkState::Authenticating, "正在执行手动重新登录。");
                    self.phase = Phase::ManualLogin;
                }
                WorkerAction::Login { account, password }
            },
        }
    }

    /// The Internet probe after an automatic login request.
    fn on_auto_probe(
        &mut self,
        flags: &mut PauseFlags,
        out: &mut Vec<WorkerOutput>,
        fresh: &AppSettings,
        now: u32,
        online: bool,
    ) -> (r: WorkerAction)
        requires
            now < 86400,
            old(self)@.phase == Phase::AutoProbe,
        ensures
            (config(*final(self), *final(flags), final(out)@), r@) == spec_step(
                config(*old(self), *old(flags), old(out)@),
                fresh@,
                now as int,
                WorkerEvent::Internet(online),
            ),
    {
        if online {
            self.consecutive_failures = 0;
            self.phase = Phase::AutoSave;
            return WorkerAction::SaveLastLogin;
        }
        self.consecutive_failures = self.consecutive_failures.saturating_add(1);
        publish_text(out, NetworkState::LoginFailed, "登录后公网仍未恢复。");
        notify_text(
            out,
            fresh,
            NotificationKind::Error,
            "校园网登录失败",
            "公网仍未恢复，请检查账号、密码或运营商。",
        );
        if self.cycle.failure_cooldown_seconds < 0 {
            flags.failure_paused = true;
            publish_text(out, NetworkState::Paused, "登录失败，已按设置停止自动重试。");
            self.finish(fresh, now, Self::normal_interval(fresh))
        } else {
            let delay = failure_delay(&self.cycle, self.consecutive_failures);
            self.finish(fresh, now, delay)
        }
    }

    /// The Internet probe after a manual login request.
    fn on_manual_probe(
        &mut self,
        flags: &mut PauseFlags,
        out: &mut Vec<WorkerOutput>,
        fresh: &AppSettings,
        now: u32,
        online: bool,
    ) -> (r: WorkerAction)
        requires
            now < 86400,
            old(self)@.phase == Phase::ManualProbe,
        ensures
            (config(*final(self), *final(flags), final(out)@), r@) == spec_step(
                config(*old(self), *old(flags), old(out)@),
                fresh@,
                now as int,
                WorkerEvent::Internet(online),
            ),
    {
        if online {
            flags.failure_paused = false;
            self.consecutive_failures = 0;
            self.phase = Phase::ManualSave;
            return WorkerAction::SaveLastLogin;
        }
        publish_text(out, NetworkState::LoginFailed, "手动登录后公网仍未恢复。");
        notify_text(
            out,
            fresh,
            NotificationKind::Error,
            "校园网登录失败",
            "登录请求已发送，但公网仍未恢复。",
        );
        self.finish(fresh, now, Self::normal_interval(fresh))
    }

    /// The logout request's outcome.
    fn on_logged_out(
        &mut self,
        flags: &mut PauseFlags,
        out: &mut Vec<WorkerOutput>,
        fresh: &AppSettings,
        now: u32,
        result: Result<(), String>,
    ) -> (r: WorkerAction)
        requires
            now < 86400,
            old(self)@.phase == Phase::LoggingOut,
        ensures
            (config(*final(self), *final(flags), final(out)@), r@) == spec_step(
                config(*old(self), *old(flags), old(out)@),
                fresh@,
                now as int,
                WorkerEvent::LoggedOut(result),
            ),
    {
        match result {
            Ok(()) => {
                flags.user_paused = true;
                flags.failure_paused = false;
                publish_text(out, NetworkState::Paused, "校园网已注销，自动重连已暂停。");
                notify_text(
                    out,
                    fresh,
                    NotificationKind::Information,
                    "校园网已注销",
                    "自动重连已暂停；需要联网时请从托盘恢复。",
                );
            },
            Err(message) => {
                publish_text(out, NetworkState::LogoutFailed, message.as_str());
                notify_text(out, fresh, NotificationKind::Error, "校园网注销失败", message.as_str());
            },
        }
        self.finish(fresh, now, Self::normal_interval(fresh))
    }

    /// One step: the outcome of the last action comes in, the next action goes out.
    pub fn step(
        &mut self,
        flags: &mut PauseFlags,
        settings: &AppSettings,
        now: u32,
        event: WorkerEvent,
    ) -> (r: WorkerStep)
        requires
            now < 86400,
            accepts(old(self)@.phase, event),
        ensures
            (config(*final(self), *final(flags), r.outputs@), r.action@) == spec_step(
                config(*old(self), *old(flags), Seq::empty()),
                settings@,
                now as int,
                event,
            ),
    {
        let mut out: Vec<WorkerOutput> = Vec::new();
        assert(outputs_view(out@) =~= Seq::<OutputView>::empty());
        let fresh = settings;
        let action = match self.phase {
            Phase::Idle => match event {
                WorkerEvent::Command(c) => self.begin_command(flags, &mut out, fresh, now, c),
                WorkerEvent::Disconnected => {
                    self.phase = Phase::Stopped;
                    WorkerAction::Stop
                },
                _ => self.execute_detection_cycle(flags, &mut out, fresh, now),
            },
            Phase::DetectFirstProbe | Phase::DetectSecondProbe => self.on_detect_probe(
                flags,
                &mut out,
                fresh,
                now,
                event,
            ),
            Phase::DetectSettle | Phase::AutoSettle | Phase::ManualSettle => self.on_settled(
                flags,
                &mut out,
                fresh,
                now,
                event,
            ),
            Phase::DetectAuthProbe => match event {
                WorkerEvent::AuthServer(reachable) => self.on_auth_probe(&mut out, fresh, now, reachable),
                _ => WorkerAction::Stop,
            },
            Phase::AutoDecrypt | Phase::ManualDecrypt => match event {
                WorkerEvent::Decrypted(d) => self.on_decrypted(&mut out, fresh, now, d),
                _ => WorkerAction::Stop,
            },
            Phase::AutoLogin => {
                self.phase = Phase::AutoSettle;
                WorkerAction::Sleep(3)
            },
            Phase::ManualLogin => {
                self.phase = Phase::ManualSettle;
                WorkerAction::Sleep(3)
            },
            Phase::AutoProbe => match event {
                WorkerEvent::Internet(online) => self.on_auto_probe(flags, &mut out, fresh, now, online),
                _ => WorkerAction::Stop,
            },
            Phase::ManualProbe => match event {
                WorkerEvent::Internet(online) => self.on_manual_probe(flags, &mut out, fresh, now, online),
                _ => WorkerAction::Stop,
            },
            Phase::AutoSave | Phase::ManualSave => match event {
                WorkerEvent::Saved(saved) => {
                    Self::record_success(&mut out, fresh, saved);
                    self.finish(fresh, now, Self::normal_interval(fresh))
                },
                _ => WorkerAction::Stop,
            },
            Phase::LoggingOut => match event {
                WorkerEvent::LoggedOut(result) => self.on_logged_out(flags, &mut out, fresh, now, result),
                _ => WorkerAction::Stop,
            },
            Phase::Stopped => WorkerAction::Stop,
        };
        WorkerStep { action, outputs: out }
    }
}

} // verus!
