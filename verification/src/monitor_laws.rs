//! Properties of the monitor's decisions, over every state and every input.

use vstd::prelude::*;

use crate::monitor::{
    accepts, in_pause_window, normal_interval, spec_failure_delay, spec_next_wake, spec_step,
    wake_before_boundaries, ActionView, Machine, MonitorCommand, NetworkState, OutputView, Phase,
    WorkerEvent, backoff_exponent, lemma_power_of_two_monotonic, power_of_two,
};
use crate::settings::{SettingsView, spec_has_credentials, spec_pause_periods};
use crate::text::trim;

verus! {

/// Outputs only grow: a step appends to what was reported before.
pub open spec fn appends(before: Seq<OutputView>, after: Seq<OutputView>) -> bool {
    &&& before.len() <= after.len()
    &&& after.take(before.len() as int) == before
}

/// With notifications switched off, no step of the worker emits a notification, whatever
/// its kind.
pub proof fn law_notifications_off_silences_every_kind(
    m: Machine,
    fresh: SettingsView,
    now: int,
    event: WorkerEvent,
)
    requires
        !fresh.notifications_enabled,
    ensures
        ({
            let r = spec_step(m, fresh, now, event).0;
            &&& appends(m.outputs, r.outputs)
            &&& forall|i: int|
                m.outputs.len() <= i < r.outputs.len() ==> !(#[trigger] r.outputs[i] is Notification)
        }),
{
    let r = spec_step(m, fresh, now, event).0;
    assert(r.outputs.take(m.outputs.len() as int) =~= m.outputs);
}

/// A detection that starts inside a daily pause period sends no request at all: it reports
/// the pause, leaves the autostart opportunity unused and waits.
pub proof fn law_pause_window_blocks_detection(m: Machine, fresh: SettingsView, now: int)
    requires
        m.worker.phase == Phase::Idle,
        spec_has_credentials(fresh),
        in_pause_window(fresh, now),
    ensures
        ({
            let (r, a) = spec_step(m, fresh, now, WorkerEvent::Elapsed);
            &&& a is Wait
            &&& r.worker.once_consumed == m.worker.once_consumed
            &&& r.worker.phase == Phase::Idle
            &&& r.outputs.last() matches OutputView::Status(NetworkState::Paused, _)
        }),
{
}

/// Inside a detection cycle, every point that leads to a network request (the second probe,
/// the decryption before login, the login request and the probe after it) checks the cycle's
/// pause periods first: when one covers `now`, the worker waits instead.
pub proof fn law_pause_window_checked_before_requests(
    m: Machine,
    fresh: SettingsView,
    now: int,
    event: WorkerEvent,
)
    requires
        accepts(m.worker.phase, event),
        in_pause_window(m.worker.cycle, now),
        m.worker.phase == Phase::DetectSettle && event is Elapsed
            || m.worker.phase == Phase::AutoSettle && event is Elapsed
            || m.worker.phase == Phase::DetectAuthProbe && event == WorkerEvent::AuthServer(true)
            || m.worker.phase == Phase::AutoDecrypt && event matches WorkerEvent::Decrypted(Ok(_)),
    ensures
        ({
            let (r, a) = spec_step(m, fresh, now, event);
            &&& a is Wait
            &&& r.worker.phase == Phase::Idle
            &&& r.outputs == m.outputs
        }),
{
}

/// While automatic reconnection is paused (by the user or after failures) the worker still
/// probes, but when the network is down it neither probes the portal nor logs in.
pub proof fn law_pause_still_probes_but_never_logs_in(m: Machine, fresh: SettingsView, now: int)
    requires
        m.worker.phase == Phase::DetectSecondProbe,
        m.flags.user_paused || m.flags.failure_paused,
    ensures
        ({
            let (r, a) = spec_step(m, fresh, now, WorkerEvent::Internet(false));
            &&& a == ActionView::Wait(spec_next_wake(normal_interval(fresh), fresh.pause_periods, now))
            &&& r.outputs.last() matches OutputView::Status(NetworkState::Paused, _)
        }),
{
}

/// An automatic cycle sends at most one login request: from the request until the cycle
/// ends, no step asks for another one.
pub proof fn law_one_login_per_cycle(m: Machine, fresh: SettingsView, now: int, event: WorkerEvent)
    requires
        accepts(m.worker.phase, event),
        m.worker.phase == Phase::AutoLogin || m.worker.phase == Phase::AutoSettle
            || m.worker.phase == Phase::AutoProbe || m.worker.phase == Phase::AutoSave,
    ensures
        !(spec_step(m, fresh, now, event).1 is Login),
{
}

/// No step raises the failure count by more than one.
pub proof fn law_failures_grow_by_at_most_one(
    m: Machine,
    fresh: SettingsView,
    now: int,
    event: WorkerEvent,
)
    ensures
        spec_step(m, fresh, now, event).0.worker.consecutive_failures <= m.worker.consecutive_failures
            + 1,
{
}

/// When the Internet answers during detection the backoff starts over: failures are reset,
/// the failure pause is lifted and the autostart opportunity counts as used.
pub proof fn law_recovery_resets_backoff(m: Machine, fresh: SettingsView, now: int)
    requires
        m.worker.phase == Phase::DetectFirstProbe || m.worker.phase == Phase::DetectSecondProbe,
    ensures
        ({
            let (r, a) = spec_step(m, fresh, now, WorkerEvent::Internet(true));
            &&& r.worker.consecutive_failures == 0
            &&& !r.flags.failure_paused
            &&& r.flags.user_paused == m.flags.user_paused
            &&& r.worker.once_consumed
            &&& a == ActionView::Wait(spec_next_wake(normal_interval(fresh), fresh.pause_periods, now))
            &&& r.outputs.last() matches OutputView::Status(NetworkState::Online, _)
        }),
{
}

/// A confirmed logout pauses automatic reconnection (so the worker does not log straight
/// back in) and clears the failure pause.
pub proof fn law_logout_pauses_reconnect(m: Machine, fresh: SettingsView, now: int)
    requires
        m.worker.phase == Phase::LoggingOut,
    ensures
        ({
            let (r, _) = spec_step(m, fresh, now, WorkerEvent::LoggedOut(Ok(())));
            &&& r.flags.user_paused
            &&& !r.flags.failure_paused
            &&& r.outputs[m.outputs.len() as int] matches OutputView::Status(NetworkState::Paused, _)
        }),
{
}

/// A failed logout leaves both pause switches as they were.
pub proof fn law_failed_logout_keeps_pause_state(
    m: Machine,
    fresh: SettingsView,
    now: int,
    message: String,
)
    requires
        m.worker.phase == Phase::LoggingOut,
    ensures
        ({
            let (r, _) = spec_step(m, fresh, now, WorkerEvent::LoggedOut(Err(message)));
            &&& r.flags == m.flags
            &&& r.outputs[m.outputs.len() as int] == OutputView::Status(NetworkState::LogoutFailed, message@)
        }),
{
}

/// With a negative cooldown a failed automatic login stops automatic retries.
pub proof fn law_negative_cooldown_stops_retries(m: Machine, fresh: SettingsView, now: int)
    requires
        m.worker.phase == Phase::AutoProbe,
        m.worker.cycle.failure_cooldown_seconds < 0,
    ensures
        ({
            let (r, a) = spec_step(m, fresh, now, WorkerEvent::Internet(false));
            &&& r.flags.failure_paused
            &&& a == ActionView::Wait(spec_next_wake(normal_interval(fresh), fresh.pause_periods, now))
            &&& r.outputs.last() matches OutputView::Status(NetworkState::Paused, _)
        }),
{
}

/// In "log in once at autostart" mode, once the opportunity is used, detection sends nothing.
pub proof fn law_login_once_mode_stays_quiet(m: Machine, fresh: SettingsView, now: int)
    requires
        m.worker.phase == Phase::Idle,
        fresh.autostart_login_once,
        m.worker.once_consumed,
    ensures
        spec_step(m, fresh, now, WorkerEvent::Elapsed).1 is Wait,
        spec_step(m, fresh, now, WorkerEvent::Command(MonitorCommand::Detect)).1 is Wait,
{
}

/// Logging in by hand stays available whatever the pause switches, the pause periods and the
/// "log in once" mode say: with credentials, the worker decrypts the stored password and then
/// sends the login request.
pub proof fn law_manual_login_always_available(
    m: Machine,
    fresh: SettingsView,
    now: int,
    password: String,
)
    requires
        m.worker.phase == Phase::Idle,
        spec_has_credentials(fresh),
    ensures
        ({
            let (r, a) = spec_step(m, fresh, now, WorkerEvent::Command(MonitorCommand::ManualLogin));
            &&& r.worker.phase == Phase::ManualDecrypt
            &&& a == ActionView::Decrypt(fresh.encrypted_password)
            &&& spec_step(r, fresh, now, WorkerEvent::Decrypted(Ok(password))).1 == ActionView::Login(
                fresh.provider.spec_submitted_account(fresh.account),
                password@,
            )
        }),
{
}

/// Changed settings start the backoff over and detect at once.
pub proof fn law_settings_change_resets_failures(m: Machine, fresh: SettingsView, now: int)
    requires
        m.worker.phase == Phase::Idle,
    ensures
        ({
            let (r, a) = spec_step(m, fresh, now, WorkerEvent::Command(MonitorCommand::SettingsChanged));
            &&& r.worker.consecutive_failures == 0
            &&& a == ActionView::Wait(spec_next_wake(0, fresh.pause_periods, now))
        }),
{
}

/// A closed command channel, or a stop command, stops the worker from any waiting point.
pub proof fn law_stop_is_final(m: Machine, fresh: SettingsView, now: int)
    requires
        m.worker.phase == Phase::Idle || m.worker.phase == Phase::DetectSettle
            || m.worker.phase == Phase::AutoSettle || m.worker.phase == Phase::ManualSettle,
    ensures
        spec_step(m, fresh, now, WorkerEvent::Disconnected).1 == ActionView::Stop,
        spec_step(m, fresh, now, WorkerEvent::Command(MonitorCommand::Stop)).1 == ActionView::Stop,
        spec_step(m, fresh, now, WorkerEvent::Disconnected).0.worker.phase == Phase::Stopped,
{
}

/// The delay between failed cycles never exceeds the check interval (for a non-negative
/// interval), and with a cooldown of zero or below it is the check interval.
pub proof fn law_backoff_capped_by_interval(s: SettingsView, failures: u32)
    requires
        s.check_interval_seconds >= 0,
    ensures
        spec_failure_delay(s, failures) <= s.check_interval_seconds,
        s.failure_cooldown_seconds <= 0 ==> spec_failure_delay(s, failures) == s.check_interval_seconds,
{
}

/// More failures never shorten the wait.
pub proof fn law_backoff_monotonic(s: SettingsView, fewer: u32, more: u32)
    requires
        fewer <= more,
    ensures
        spec_failure_delay(s, fewer) <= spec_failure_delay(s, more),
{
    lemma_power_of_two_monotonic(backoff_exponent(fewer), backoff_exponent(more));
    if s.failure_cooldown_seconds > 0 {
        let base = s.failure_cooldown_seconds as nat;
        assert(base * power_of_two(backoff_exponent(fewer)) <= base * power_of_two(
            backoff_exponent(more),
        )) by (nonlinear_arith)
            requires
                power_of_two(backoff_exponent(fewer)) <= power_of_two(backoff_exponent(more)),
        ;
    }
}

/// The cooldown is doubled for each failure after the second.
pub proof fn law_backoff_doubles(s: SettingsView, failures: u32)
    requires
        2 <= failures < 34,
        s.failure_cooldown_seconds > 0,
        s.check_interval_seconds >= 0,
    ensures
        ({
            let base = s.failure_cooldown_seconds as int;
            let doubled = 2 * (spec_failure_delay(s, failures) as int);
            spec_failure_delay(s, (failures + 1) as u32) == if spec_failure_delay(s, failures)
                == s.check_interval_seconds as u64 {
                s.check_interval_seconds as int
            } else if doubled <= s.check_interval_seconds {
                doubled
            } else {
                s.check_interval_seconds as int
            }
        }),
{
    let e = backoff_exponent(failures);
    assert(backoff_exponent((failures + 1) as u32) == e + 1);
    assert(power_of_two(e + 1) == 2 * power_of_two(e));
    let base = s.failure_cooldown_seconds as nat;
    assert(base * power_of_two(e + 1) == 2 * (base * power_of_two(e))) by (nonlinear_arith)
        requires
            power_of_two(e + 1) == 2 * power_of_two(e),
    ;
}

/// The wake-up delay never exceeds the planned delay.
pub proof fn law_wake_never_later(delay: u64, periods: Seq<char>, now: int)
    ensures
        spec_next_wake(delay, periods, now) <= delay,
{
    if let Some(ps) = spec_pause_periods(periods) {
        lemma_wake_before_boundaries_bound(ps, now, delay);
    }
}

proof fn lemma_wake_before_boundaries_bound(ps: Seq<(u16, u16)>, now: int, delay: u64)
    ensures
        wake_before_boundaries(ps, now, delay) <= delay,
    decreases ps.len(),
{
    if ps.len() > 0 {
        lemma_wake_before_boundaries_bound(ps.drop_last(), now, delay);
    }
}

/// A failed first probe is not trusted: the worker waits two seconds and probes again.
pub proof fn law_transient_failure_is_confirmed(m: Machine, fresh: SettingsView, now: int)
    requires
        m.worker.phase == Phase::DetectFirstProbe,
    ensures
        ({
            let (r, a) = spec_step(m, fresh, now, WorkerEvent::Internet(false));
            &&& a == ActionView::Sleep(2)
            &&& r.worker.phase == Phase::DetectSettle
            &&& r.outputs == m.outputs
            &&& r.flags == m.flags
        }),
{
}

/// Once an automatic cycle asks for the password or a login, or finds the portal
/// unreachable, the autostart opportunity counts as used: "log in once" never retries.
pub proof fn law_login_once_never_retries(m: Machine, fresh: SettingsView, now: int, event: WorkerEvent)
    requires
        accepts(m.worker.phase, event),
        m.worker.phase == Phase::DetectAuthProbe || m.worker.phase == Phase::AutoDecrypt,
    ensures
        ({
            let (r, a) = spec_step(m, fresh, now, event);
            (a is Login || a is Decrypt || m.worker.phase == Phase::DetectAuthProbe && event
                == WorkerEvent::AuthServer(false)) ==> r.worker.once_consumed
        }),
{
}

/// The login request of a cycle carries the account as the portal expects it: the trimmed
/// account followed by the provider's suffix, and the decrypted password unchanged. This holds
/// for the automatic login (outside a pause period) and for the manual one alike.
pub proof fn law_login_sends_suffixed_account(
    m: Machine,
    fresh: SettingsView,
    now: int,
    password: String,
)
    requires
        (m.worker.phase == Phase::AutoDecrypt && spec_pause_remaining_none(m.worker.cycle, now))
            || m.worker.phase == Phase::ManualDecrypt,
    ensures
        spec_step(m, fresh, now, WorkerEvent::Decrypted(Ok(password))).1 == ActionView::Login(
            trim(m.worker.cycle.account) + m.worker.cycle.provider.spec_suffix(),
            password@,
        ),
{
}

/// No pause period of the settings covers `now`.
pub open spec fn spec_pause_remaining_none(s: SettingsView, now: int) -> bool {
    crate::settings::spec_pause_remaining(s.pause_periods, now) is None
}

proof fn lemma_wake_from_zero(ps: Seq<(u16, u16)>, now: int)
    ensures
        wake_before_boundaries(ps, now, 0) == 0,
    decreases ps.len(),
{
    if ps.len() > 0 {
        lemma_wake_from_zero(ps.drop_last(), now);
    }
}

/// Resuming detects at once: a pause change that leaves neither pause switch set makes the
/// idle worker wait zero seconds, whatever the check interval and the pause periods, and
/// leaves the switches and the reports as they were.
pub proof fn law_resume_detects_at_once(m: Machine, fresh: SettingsView, now: int)
    requires
        m.worker.phase == Phase::Idle,
        !m.flags.user_paused,
        !m.flags.failure_paused,
    ensures
        ({
            let (r, a) = spec_step(m, fresh, now, WorkerEvent::Command(MonitorCommand::PauseChanged));
            &&& a == ActionView::Wait(0)
            &&& r.flags == m.flags
            &&& r.outputs == m.outputs
            &&& r.worker.phase == Phase::Idle
        }),
{
    if let Some(ps) = spec_pause_periods(fresh.pause_periods) {
        lemma_wake_from_zero(ps, now);
    }
}

proof fn lemma_wake_before_every_boundary(ps: Seq<(u16, u16)>, now: int, delay: u64)
    ensures
        wake_before_boundaries(ps, now, delay) <= delay,
        forall|k: int|
            #![trigger ps[k]]
            0 <= k < ps.len() ==> {
                let s = (ps[k].0 as int * 60 + 86400 - now) % 86400;
                0 < s < delay ==> wake_before_boundaries(ps, now, delay) <= s
            },
        forall|k: int|
            #![trigger ps[k]]
            0 <= k < ps.len() ==> {
                let e = (ps[k].1 as int * 60 + 86400 - now) % 86400;
                0 < e < delay ==> wake_before_boundaries(ps, now, delay) <= e
            },
    decreases ps.len(),
{
    if ps.len() > 0 {
        let prev = ps.drop_last();
        lemma_wake_before_every_boundary(prev, now, delay);
        assert forall|k: int| 0 <= k < prev.len() implies #[trigger] ps[k] == prev[k] by {}
    }
}

/// The wake-up never passes a start or an end of a pause period: for every period that the
/// settings hold and each of its two boundaries, when the boundary comes after `now` and
/// sooner than the planned delay, the worker wakes no later than that boundary.
pub proof fn law_wake_stops_at_every_boundary(delay: u64, periods: Seq<char>, now: int, k: int)
    requires
        spec_pause_periods(periods) is Some,
        0 <= k < spec_pause_periods(periods)->0.len(),
    ensures
        ({
            let p = spec_pause_periods(periods)->0[k];
            let s = (p.0 as int * 60 + 86400 - now) % 86400;
            let e = (p.1 as int * 60 + 86400 - now) % 86400;
            &&& 0 < s < delay ==> spec_next_wake(delay, periods, now) <= s
            &&& 0 < e < delay ==> spec_next_wake(delay, periods, now) <= e
        }),
{
    let ps = spec_pause_periods(periods)->0;
    lemma_wake_before_every_boundary(ps, now, delay);
}

/// Every failed cycle counts: an unreachable portal, or an automatic login after which the
/// Internet is still down, raises the failure count by exactly one (it stays at its largest
/// value once there) and backs off by the cooldown for the new count, waking no later than
/// that.
pub proof fn law_failed_cycle_counts_one_failure(m: Machine, fresh: SettingsView, now: int)
    requires
        m.worker.consecutive_failures < u32::MAX,
    ensures
        m.worker.phase == Phase::DetectAuthProbe ==> ({
            let (r, a) = spec_step(m, fresh, now, WorkerEvent::AuthServer(false));
            &&& r.worker.consecutive_failures == m.worker.consecutive_failures + 1
            &&& a matches ActionView::Wait(w) && w <= spec_failure_delay(
                m.worker.cycle,
                r.worker.consecutive_failures,
            )
        }),
        m.worker.phase == Phase::AutoProbe ==> ({
            let (r, a) = spec_step(m, fresh, now, WorkerEvent::Internet(false));
            &&& r.worker.consecutive_failures == m.worker.consecutive_failures + 1
            &&& m.worker.cycle.failure_cooldown_seconds >= 0 ==> (a matches ActionView::Wait(w)
                && w <= spec_failure_delay(m.worker.cycle, r.worker.consecutive_failures))
        }),
{
    let f = (m.worker.consecutive_failures + 1) as u32;
    law_wake_never_later(spec_failure_delay(m.worker.cycle, f), fresh.pause_periods, now);
}

} // verus!
