//! The per-user autostart entry: its command line and whether the stored entry is ours.

use vstd::prelude::*;

use crate::text::{append_str, chars_of, eq_ignore_ascii_case, string_from_chars};
use crate::AppResult;

verus! {

pub const RUN_SUBKEY: &'static str = "Software\\Microsoft\\Windows\\CurrentVersion\\Run";

pub const RUN_VALUE_NAME: &'static str = "CampusNetAutoLogin";

pub const MAX_RUN_VALUE_CHARS: usize = 32768;

pub struct StartupManager {
    executable_path: String,
    value_name: String,
}

impl StartupManager {
    /// The quoted executable followed by the `--autostart` switch.
    pub open spec fn spec_command_line(path: Seq<char>) -> Seq<char> {
        "\""@ + path + "\" --autostart"@
    }

    pub closed spec fn spec_path(&self) -> Seq<char> {
        self.executable_path@
    }

    pub closed spec fn spec_value_name(&self) -> Seq<char> {
        self.value_name@
    }

    /// A manager for the executable at `executable_path`; an empty path is refused.
    pub fn new(executable_path: String) -> (r: AppResult<StartupManager>)
        ensures
            executable_path@.len() == 0 ==> (r matches Err(m) && m@ == "无法确定程序路径。"@),
            executable_path@.len() > 0 ==> (r matches Ok(s) && s.spec_path() == executable_path@
                && s.spec_value_name() == RUN_VALUE_NAME@),
    {
        Self::with_value_name(executable_path, RUN_VALUE_NAME.to_owned())
    }

    /// A manager that stores its entry under `value_name`.
    pub fn with_value_name(executable_path: String, value_name: String) -> (r: AppResult<
        StartupManager,
    >)
        ensures
            executable_path@.len() == 0 ==> (r matches Err(m) && m@ == "无法确定程序路径。"@),
            executable_path@.len() > 0 ==> (r matches Ok(s) && s.spec_path() == executable_path@
                && s.spec_value_name() == value_name@),
    {
        if executable_path.as_str().is_empty() {
            return Err("无法确定程序路径。".to_owned());
        }
        Ok(StartupManager { executable_path, value_name })
    }

    pub fn value_name(&self) -> (r: &str)
        ensures
            r@ == self.spec_value_name(),
    {
        self.value_name.as_str()
    }

    pub fn command_line(&self) -> (r: String)
        ensures
            r@ == Self::spec_command_line(self.spec_path()),
    {
        let mut out = chars_of("\"");
        append_str(&mut out, self.executable_path.as_str());
        append_str(&mut out, "\" --autostart");
        string_from_chars(&out)
    }

    /// Whether the stored autostart command (`Ok(None)` when there is none) is this
    /// program's, ignoring ASCII case; a failed read stays an error.
    pub fn is_enabled_inner(&self, stored: AppResult<Option<String>>) -> (r: AppResult<bool>)
        ensures
            match stored {
                Err(m) => r matches Err(e) && e@ == m@,
                Ok(None) => r matches Ok(b) && !b,
                Ok(Some(c)) => r matches Ok(b) && b == eq_ignore_ascii_case(
                    c@,
                    Self::spec_command_line(self.spec_path()),
                ),
            },
    {
        match stored {
            Err(message) => Err(message),
            Ok(None) => Ok(false),
            Ok(Some(command)) => {
                let expected = chars_of(self.command_line().as_str());
                let actual = chars_of(command.as_str());
                Ok(crate::text::chars_eq_ignore_ascii_case(&actual, &expected))
            },
        }
    }

    /// The autostart entry is this program's; a failed read counts as not enabled.
    pub fn is_enabled(&self, stored: AppResult<Option<String>>) -> (r: bool)
        ensures
            r == (stored matches Ok(Some(c)) && eq_ignore_ascii_case(
                c@,
                Self::spec_command_line(self.spec_path()),
            )),
    {
        match self.is_enabled_inner(stored) {
            Ok(b) => b,
            Err(_) => false,
        }
    }
}

/// The size in bytes of a UTF-16 command of `units` code units, as the registry takes it; a
/// command whose size does not fit in 32 bits is refused.
pub fn command_byte_count(units: usize) -> (r: AppResult<u32>)
    ensures
        units * 2 <= u32::MAX ==> (r matches Ok(n) && n == units * 2),
        units * 2 > u32::MAX ==> (r matches Err(m) && m@ == "开机自启命令过长。"@),
{
    if units > 2147483647 {
        Err("开机自启命令过长。".to_owned())
    } else {
        Ok((units * 2) as u32)
    }
}

/// How many code units of a registry string read into `buffer` (`byte_count` bytes) form its
/// text: those before the first NUL among the units read, never past the buffer.
pub fn stored_text_units(buffer: &[u16], byte_count: u32) -> (r: usize)
    ensures
        r <= byte_count / 2,
        r <= buffer@.len(),
        forall|k: int| 0 <= k < r ==> buffer@[k] != 0,
        r < byte_count / 2 && r < buffer@.len() ==> buffer@[r as int] == 0,
{
    let read: usize = (byte_count / 2) as usize;
    let limit: usize = if read < buffer.len() {
        read
    } else {
        buffer.len()
    };
    let mut i: usize = 0;
    while i < limit && buffer[i] != 0
        invariant
            i <= limit,
            limit <= buffer@.len(),
            limit <= byte_count / 2,
            limit == byte_count / 2 || limit == buffer@.len(),
            forall|k: int| 0 <= k < i ==> buffer@[k] != 0,
        decreases limit - i,
    {
        i = i + 1;
    }
    i
}

/// Reading back the command that `enable` writes checks as enabled: with `is_enabled`, an entry
/// holding `command_line()` gives `true`, while no entry or a failed read gives `false`.
pub proof fn law_written_command_is_enabled(m: StartupManager)
    ensures
        eq_ignore_ascii_case(
            StartupManager::spec_command_line(m.spec_path()),
            StartupManager::spec_command_line(m.spec_path()),
        ),
{
}

} // verus!
