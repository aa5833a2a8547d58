//! Texts and small rules of the tray and settings window that do not touch Windows.

use vstd::prelude::*;

use crate::monitor::{NetworkState, NotificationKind};
use crate::settings::{spec_validation_errors, AppSettings, Provider, SettingsView};
use crate::text::{
    append_str, chars_of, join_lines, join_with, parse_i32, string_from_chars, trim, trim_str,
};
use crate::AppResult;

verus! {

pub const APP_TITLE: &'static str = "南湖校园网自动登录";

/// The tray icon's tooltip: title, state and message.
pub fn tray_tip_text(state: NetworkState, message: &str) -> (r: String)
    ensures
        r@ == APP_TITLE@ + "："@ + state.spec_display_name() + "\n"@ + message@,
{
    let mut out = chars_of(APP_TITLE);
    append_str(&mut out, "：");
    append_str(&mut out, state.display_name());
    append_str(&mut out, "\n");
    append_str(&mut out, message);
    string_from_chars(&out)
}

/// The status line of the settings window.
pub fn status_text(state: NetworkState, message: &str) -> (r: String)
    ensures
        r@ == state.spec_display_name() + " — "@ + message@,
{
    let mut out = chars_of(state.display_name());
    append_str(&mut out, " — ");
    append_str(&mut out, message);
    string_from_chars(&out)
}

/// The pause entry of the tray menu offers the opposite of the current state.
pub fn pause_menu_label(paused: bool) -> (r: &'static str)
    ensures
        paused ==> r@ == "恢复自动登录"@,
        !paused ==> r@ == "暂停自动登录"@,
{
    if paused {
        "恢复自动登录"
    } else {
        "暂停自动登录"
    }
}

/// States after which the process gives memory back: every state that is not transient.
pub fn should_trim_working_set(state: NetworkState) -> (r: bool)
    ensures
        r == !(state == NetworkState::Checking || state == NetworkState::Offline || state
            == NetworkState::Authenticating || state == NetworkState::LoggingOut),
{
    match state {
        NetworkState::NotConfigured | NetworkState::Online | NetworkState::AuthServerUnavailable
        | NetworkState::LoginFailed | NetworkState::LogoutFailed | NetworkState::Paused => true,
        _ => false,
    }
}

/// The balloon icon of a notification.
#[derive(Clone, Copy, Debug, PartialEq, Eq, Structural)]
pub enum NotificationIcon {
    Information,
    Warning,
    Error,
}

/// Success and information share the information icon.
pub fn notification_icon(kind: NotificationKind) -> (r: NotificationIcon)
    ensures
        kind == NotificationKind::Error ==> r == NotificationIcon::Error,
        kind == NotificationKind::Warning ==> r == NotificationIcon::Warning,
        (kind == NotificationKind::Information || kind == NotificationKind::Success) ==> r
            == NotificationIcon::Information,
{
    match kind {
        NotificationKind::Error => NotificationIcon::Error,
        NotificationKind::Warning => NotificationIcon::Warning,
        NotificationKind::Information | NotificationKind::Success => NotificationIcon::Information,
    }
}

/// The preview of the submitted account: a dash while the account is blank.
pub fn submitted_account_preview(account: &str, provider: Provider) -> (r: String)
    ensures
        trim(account@).len() == 0 ==> r@ == "—"@,
        trim(account@).len() > 0 ==> r@ == provider.spec_submitted_account(account@),
{
    let trimmed = trim_str(account);
    if trimmed.len() == 0 {
        "—".to_owned()
    } else {
        let text = string_from_chars(&trimmed);
        proof {
            crate::text::lemma_trim_idempotent(account@);
        }
        provider.submitted_account(text.as_str())
    }
}

/// A number typed into the settings window, or the message naming the field.
pub fn parse_dialog_i32(text: &str, label: &str) -> (r: AppResult<i32>)
    ensures
        match parse_i32(trim(text@)) {
            Some(v) => r matches Ok(n) && n as int == v,
            None => r matches Err(m) && m@ == label@ + "必须是整数。"@,
        },
{
    let trimmed = trim_str(text);
    match crate::text::parse_i32_chars(&trimmed) {
        Some(v) => Ok(v),
        None => {
            let mut out = chars_of(label);
            append_str(&mut out, "必须是整数。");
            Err(string_from_chars(&out))
        },
    }
}

/// The selected list position; none selected (negative) means the first.
pub fn combo_selection_index(value: isize) -> (r: usize)
    ensures
        value < 0 ==> r == 0,
        value >= 0 ==> r == value,
{
    if value < 0 {
        0
    } else {
        value as usize
    }
}

/// The UTF-16 code units of one character.
pub open spec fn utf16_of_char(c: char) -> Seq<u16> {
    let v = c as u32;
    if v <= 0xffff {
        seq![v as u16]
    } else {
        let w = v - 0x10000;
        seq![(0xd800 + w / 1024) as u16, (0xdc00 + w % 1024) as u16]
    }
}

/// The UTF-16 encoding of a text.
pub open spec fn utf16_of(s: Seq<char>) -> Seq<u16>
    decreases s.len(),
{
    if s.len() == 0 {
        Seq::empty()
    } else {
        utf16_of(s.drop_last()) + utf16_of_char(s.last())
    }
}

fn push_utf16(units: &mut Vec<u16>, c: char)
    ensures
        final(units)@ == old(units)@ + utf16_of_char(c),
{
    let v = c as u32;
    if v <= 0xffff {
        units.push(v as u16);
    } else {
        let w = v - 0x10000;
        units.push((0xd800 + w / 1024) as u16);
        units.push((0xdc00 + w % 1024) as u16);
    }
    assert(units@ =~= old(units)@ + utf16_of_char(c));
}

/// Writes `value` as a NUL-terminated UTF-16 string into a fixed buffer, cut to fit and
/// zero-filled.
pub fn fill_wide_array<const N: usize>(destination: &mut [u16; N], value: &str)
    ensures
        final(destination)@.len() == N,
        forall|i: int|
            0 <= i < N ==> #[trigger] final(destination)@[i] == if i < N - 1 && i < utf16_of(
                value@,
            ).len() {
                utf16_of(value@)[i]
            } else {
                0u16
            },
{
    let chars = chars_of(value);
    let mut units: Vec<u16> = Vec::new();
    for k in 0..chars.len()
        invariant
            units@ == utf16_of(chars@.take(k as int)),
    {
        push_utf16(&mut units, chars[k]);
        assert(chars@.take(k + 1).drop_last() =~= chars@.take(k as int));
    }
    assert(chars@.take(chars.len() as int) =~= chars@);
    let mut i: usize = 0;
    while i < N
        invariant
            i <= N,
            units@ == utf16_of(value@),
            forall|j: int|
                0 <= j < i ==> #[trigger] destination@[j] == if j < N - 1 && j < units@.len() {
                    units@[j]
                } else {
                    0u16
                },
        decreases N - i,
    {
        let unit: u16 = if i + 1 < N && i < units.len() {
            units[i]
        } else {
            0
        };
        destination[i] = unit;
        i = i + 1;
    }
}

/// What the settings window holds when the user saves it.
pub struct DialogInput {
    pub account: String,
    pub fallback_probe_url: String,
    pub check_interval: String,
    pub failure_cooldown: String,
    pub provider_selection: isize,
    pub auto_start: bool,
    pub notifications_enabled: bool,
    pub autostart_login_once: bool,
    pub pause_periods: String,
}

/// The list position a selection value names; none selected (negative) is the first.
pub open spec fn selection_index(value: isize) -> int {
    if value < 0 {
        0
    } else {
        value as int
    }
}

/// The settings the window describes: its fields over `previous`, whose password, schema
/// and last login stay.
pub open spec fn spec_dialog_settings(
    previous: SettingsView,
    input: DialogInput,
    interval: int,
    cooldown: int,
) -> SettingsView {
    SettingsView {
        schema_version: previous.schema_version,
        account: trim(input.account@),
        provider: Provider::spec_from_index(selection_index(input.provider_selection)),
        encrypted_password: previous.encrypted_password,
        check_interval_seconds: interval as i32,
        failure_cooldown_seconds: cooldown as i32,
        fallback_probe_url: trim(input.fallback_probe_url@),
        auto_start: input.auto_start,
        notifications_enabled: input.notifications_enabled,
        autostart_login_once: input.autostart_login_once,
        pause_periods: trim(input.pause_periods@),
        last_successful_login_utc: previous.last_successful_login_utc,
    }
}

/// The settings from the window's fields, or the message for the first number that is not
/// an integer (the check interval is read first).
pub fn settings_from_dialog(previous: &AppSettings, input: &DialogInput) -> (r: AppResult<
    AppSettings,
>)
    ensures
        match (parse_i32(trim(input.check_interval@)), parse_i32(trim(input.failure_cooldown@))) {
            (None, _) => r matches Err(m) && m@ == "检测间隔必须是整数。"@,
            (Some(_), None) => r matches Err(m) && m@ == "失败冷却必须是整数。"@,
            (Some(i), Some(c)) => r matches Ok(s) && s@ == spec_dialog_settings(
                previous@,
                *input,
                i,
                c,
            ),
        },
{
    let account = string_from_chars(&trim_str(input.account.as_str()));
    let fallback = string_from_chars(&trim_str(input.fallback_probe_url.as_str()));
    let interval = parse_dialog_i32(input.check_interval.as_str(), "检测间隔");
    let interval = match interval {
        Ok(v) => v,
        Err(m) => {
            proof {
                reveal_strlit("检测间隔");
                reveal_strlit("必须是整数。");
                reveal_strlit("检测间隔必须是整数。");
                assert("检测间隔"@ + "必须是整数。"@ =~= "检测间隔必须是整数。"@);
            }
            return Err(m);
        },
    };
    let cooldown = parse_dialog_i32(input.failure_cooldown.as_str(), "失败冷却");
    let cooldown = match cooldown {
        Ok(v) => v,
        Err(m) => {
            proof {
                reveal_strlit("失败冷却");
                reveal_strlit("必须是整数。");
                reveal_strlit("失败冷却必须是整数。");
                assert("失败冷却"@ + "必须是整数。"@ =~= "失败冷却必须是整数。"@);
            }
            return Err(m);
        },
    };
    let provider = Provider::from_index(combo_selection_index(input.provider_selection));
    let pause = string_from_chars(&trim_str(input.pause_periods.as_str()));
    let base = previous.duplicate();
    Ok(
        AppSettings {
            schema_version: base.schema_version,
            account,
            provider,
            encrypted_password: base.encrypted_password,
            check_interval_seconds: interval,
            failure_cooldown_seconds: cooldown,
            fallback_probe_url: fallback,
            auto_start: input.auto_start,
            notifications_enabled: input.notifications_enabled,
            autostart_login_once: input.autostart_login_once,
            pause_periods: pause,
            last_successful_login_utc: base.last_successful_login_utc,
        },
    )
}

/// Whether settings from the window may be saved: a password is required while none is
/// stored, and every validation message, joined by line breaks, refuses them.
pub fn check_dialog_settings(candidate: &AppSettings) -> (r: AppResult<()>)
    ensures
        spec_validation_errors(candidate@, trim(candidate@.encrypted_password).len() == 0).len()
            == 0 ==> r is Ok,
        spec_validation_errors(candidate@, trim(candidate@.encrypted_password).len() == 0).len()
            > 0 ==> (r matches Err(m) && m@ == join_with(
            spec_validation_errors(candidate@, trim(candidate@.encrypted_password).len() == 0),
            "\n"@,
        )),
{
    let require_password = trim_str(candidate.encrypted_password.as_str()).len() == 0;
    let errors = candidate.validate(require_password);
    if errors.len() == 0 {
        Ok(())
    } else {
        Err(join_lines(&errors))
    }
}

} // verus!
