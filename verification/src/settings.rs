//! Settings: providers, the settings record, its normalization and validation,
//! daily pause periods and the fallback probe address rule.

use vstd::prelude::*;

use crate::text::{
    append_str, chars_of, digit_value, eq_ignore_ascii_case, first_index, is_alphanumeric_ascii,
    is_digit, is_white_space, join_with, last_index, parse_unsigned, string_from_chars,
    string_views, trim, trim_str,
};

verus! {

pub const PROJECT_URL: &'static str = "https://github.com/yatools/CampusNetAutoLogin";

pub const APP_NAME: &'static str = "CampusNetAutoLogin";

pub const DEFAULT_FALLBACK_PROBE_URL: &'static str = "https://www.baidu.com/favicon.ico";

/// The network operator whose suffix is appended to the account.
#[derive(Clone, Copy, Debug, PartialEq, Eq, Structural)]
pub enum Provider {
    Campus,
    ChinaMobile,
    ChinaUnicom,
    ChinaTelecom,
}

impl Default for Provider {
    fn default() -> (r: Provider)
        ensures
            r == Provider::Campus,
    {
        Provider::Campus
    }
}

impl Provider {
    pub const ALL: [Provider; 4] = [
        Provider::Campus,
        Provider::ChinaMobile,
        Provider::ChinaUnicom,
        Provider::ChinaTelecom,
    ];

    /// The position of the provider in the selection list.
    pub open spec fn spec_index(self) -> nat {
        match self {
            Provider::Campus => 0,
            Provider::ChinaMobile => 1,
            Provider::ChinaUnicom => 2,
            Provider::ChinaTelecom => 3,
        }
    }

    /// The provider at a position of the selection list; `Campus` past its end.
    pub open spec fn spec_from_index(index: int) -> Provider {
        if index == 1 {
            Provider::ChinaMobile
        } else if index == 2 {
            Provider::ChinaUnicom
        } else if index == 3 {
            Provider::ChinaTelecom
        } else {
            Provider::Campus
        }
    }

    pub open spec fn spec_display_name(self) -> Seq<char> {
        match self {
            Provider::Campus => "校园网"@,
            Provider::ChinaMobile => "中国移动"@,
            Provider::ChinaUnicom => "中国联通"@,
            Provider::ChinaTelecom => "中国电信"@,
        }
    }

    pub open spec fn spec_suffix(self) -> Seq<char> {
        match self {
            Provider::Campus => ""@,
            Provider::ChinaMobile => "@cmcc"@,
            Provider::ChinaUnicom => "@unicom"@,
            Provider::ChinaTelecom => "@telecom"@,
        }
    }

    /// The account as the authentication server receives it.
    pub open spec fn spec_submitted_account(self, account: Seq<char>) -> Seq<char> {
        trim(account) + self.spec_suffix()
    }

    pub fn display_name(self) -> (r: &'static str)
        ensures
            r@ == self.spec_display_name(),
    {
        match self {
            Provider::Campus => "校园网",
            Provider::ChinaMobile => "中国移动",
            Provider::ChinaUnicom => "中国联通",
            Provider::ChinaTelecom => "中国电信",
        }
    }

    pub fn suffix(self) -> (r: &'static str)
        ensures
            r@ == self.spec_suffix(),
    {
        match self {
            Provider::Campus => "",
            Provider::ChinaMobile => "@cmcc",
            Provider::ChinaUnicom => "@unicom",
            Provider::ChinaTelecom => "@telecom",
        }
    }

    pub fn submitted_account(self, account: &str) -> (r: String)
        ensures
            r@ == self.spec_submitted_account(account@),
    {
        let mut chars = trim_str(account);
        append_str(&mut chars, self.suffix());
        string_from_chars(&chars)
    }

    pub fn index(self) -> (r: usize)
        ensures
            r == self.spec_index(),
    {
        match self {
            Provider::Campus => 0,
            Provider::ChinaMobile => 1,
            Provider::ChinaUnicom => 2,
            Provider::ChinaTelecom => 3,
        }
    }

    pub fn from_index(index: usize) -> (r: Provider)
        ensures
            r == Provider::spec_from_index(index as int),
    {
        if index == 1 {
            Provider::ChinaMobile
        } else if index == 2 {
            Provider::ChinaUnicom
        } else if index == 3 {
            Provider::ChinaTelecom
        } else {
            Provider::Campus
        }
    }
}

/// A provider's position in the selection list selects it again.
pub proof fn lemma_provider_index_round_trip(p: Provider)
    ensures
        Provider::spec_from_index(p.spec_index() as int) == p,
        p.spec_index() < 4,
{
}

/// A position in the selection list names the provider stored there.
pub proof fn lemma_provider_position_round_trip(index: int)
    requires
        0 <= index < 4,
    ensures
        Provider::spec_from_index(index).spec_index() == index,
{
}

/// Predicates for the separators that the parsers look for.
pub open spec fn colon() -> spec_fn(char) -> bool {
    |c: char| c == ':'
}

pub open spec fn dash() -> spec_fn(char) -> bool {
    |c: char| c == '-'
}

pub open spec fn path_start() -> spec_fn(char) -> bool {
    |c: char| c == '/' || c == '?'
}

/// Separators between pause periods: the ASCII and the full-width semicolon.
pub open spec fn is_period_separator(c: char) -> bool {
    c == ';' || c == '\u{ff1b}'
}

/// The pieces of `s` between separators, as `str::split` yields them.
pub open spec fn split_parts(s: Seq<char>) -> Seq<Seq<char>>
    decreases s.len(),
{
    if s.len() == 0 {
        seq![Seq::<char>::empty()]
    } else {
        let p = split_parts(s.drop_last());
        if is_period_separator(s.last()) {
            p.push(Seq::<char>::empty())
        } else {
            p.update(p.len() - 1, p.last().push(s.last()))
        }
    }
}

/// A time of day written `HH:MM` (surrounding white space allowed), as minutes after midnight.
pub open spec fn parse_minute(s: Seq<char>) -> Option<u16> {
    let t = trim(s);
    if t.len() == 5 && t[2] == ':' && is_digit(t[0]) && is_digit(t[1]) && is_digit(t[3])
        && is_digit(t[4]) {
        let h = digit_value(t[0]) * 10 + digit_value(t[1]);
        let m = digit_value(t[3]) * 10 + digit_value(t[4]);
        if h <= 23 && m <= 59 {
            Some((h * 60 + m) as u16)
        } else {
            None
        }
    } else {
        None
    }
}

/// One period `HH:MM-HH:MM`, split at its first `-`; start and end must differ.
pub open spec fn parse_period(part: Seq<char>) -> Option<(u16, u16)> {
    let t = trim(part);
    let j = first_index(t, dash());
    if j >= t.len() {
        None
    } else {
        match (parse_minute(t.take(j)), parse_minute(t.skip(j + 1))) {
            (Some(a), Some(b)) => if a == b {
                None
            } else {
                Some((a, b))
            },
            _ => None,
        }
    }
}

/// Every piece parses as a period; then the periods in order.
pub open spec fn parse_parts(ps: Seq<Seq<char>>) -> Option<Seq<(u16, u16)>> {
    if forall|k: int| 0 <= k < ps.len() ==> (#[trigger] parse_period(ps[k])) is Some {
        Some(Seq::new(ps.len(), |k: int| parse_period(ps[k])->0))
    } else {
        None
    }
}

/// The daily pause periods written in `value` (start inclusive, end exclusive, in minutes),
/// or `None` when `value` is malformed. Blank text means no period.
pub open spec fn spec_pause_periods(value: Seq<char>) -> Option<Seq<(u16, u16)>> {
    if trim(value).len() == 0 {
        Some(Seq::empty())
    } else {
        parse_parts(split_parts(value))
    }
}

fn parse_minute_chars(s: &Vec<char>) -> (r: Option<u16>)
    ensures
        r == parse_minute(s@),
{
    let t = crate::text::trim_chars(s);
    if t.len() == 5 && t[2] == ':' && crate::text::is_digit_char(t[0])
        && crate::text::is_digit_char(t[1]) && crate::text::is_digit_char(t[3])
        && crate::text::is_digit_char(t[4]) {
        let h: u16 = ((t[0] as u32 - '0' as u32) * 10 + (t[1] as u32 - '0' as u32)) as u16;
        let m: u16 = ((t[3] as u32 - '0' as u32) * 10 + (t[4] as u32 - '0' as u32)) as u16;
        if h <= 23 && m <= 59 {
            Some(h * 60 + m)
        } else {
            None
        }
    } else {
        None
    }
}

fn parse_period_chars(part: &Vec<char>) -> (r: Option<(u16, u16)>)
    ensures
        r == parse_period(part@),
{
    let t = crate::text::trim_chars(part);
    let mut j: usize = 0;
    while j < t.len() && t[j] != '-'
        invariant
            j <= t.len(),
            forall|k: int| 0 <= k < j ==> t@[k] != '-',
        decreases t.len() - j,
    {
        j = j + 1;
    }
    proof {
        crate::text::lemma_first_index(t@, dash(), j as int);
    }
    if j >= t.len() {
        return None;
    }
    let start = crate::text::slice_chars(&t, 0, j);
    let end = crate::text::slice_chars(&t, j + 1, t.len());
    assert(start@ =~= t@.take(j as int));
    assert(end@ =~= t@.skip(j + 1));
    match (parse_minute_chars(&start), parse_minute_chars(&end)) {
        (Some(a), Some(b)) => if a == b {
            None
        } else {
            Some((a, b))
        },
        _ => None,
    }
}

/// Daily local-time intervals, start inclusive and end exclusive.
pub fn parse_pause_periods(value: &str) -> (r: Result<Vec<(u16, u16)>, ()>)
    ensures
        r matches Ok(v) ==> spec_pause_periods(value@) == Some(v@),
        r is Err <==> spec_pause_periods(value@) is None,
{
    let chars = chars_of(value);
    let trimmed = crate::text::trim_chars(&chars);
    if trimmed.len() == 0 {
        return Ok(Vec::new());
    }
    assert(trim(value@).len() != 0);
    let mut periods: Vec<(u16, u16)> = Vec::new();
    let mut current: Vec<char> = Vec::new();
    let ghost mut done: Seq<Seq<char>> = Seq::empty();
    assert(chars@.take(0) =~= Seq::<char>::empty());
    for i in 0..chars.len()
        invariant
            chars@ == value@,
            trim(value@).len() != 0,
            split_parts(chars@.take(i as int)) == done.push(current@),
            periods@.len() == done.len(),
            forall|k: int|
                0 <= k < done.len() ==> parse_period(#[trigger] done[k]) == Some(periods@[k]),
    {
        let c = chars[i];
        let ghost prefix = chars@.take(i + 1);
        assert(prefix.drop_last() =~= chars@.take(i as int));
        assert(prefix.last() == c);
        if c == ';' || c == '\u{ff1b}' {
            match parse_period_chars(&current) {
                None => {
                    proof {
                        assert(split_parts(prefix) == done.push(current@).push(Seq::<char>::empty()));
                        assert(split_parts(prefix)[done.len() as int] == current@);
                        assert(trim(value@).len() != 0);
                        lemma_split_parts_grows(chars@, i + 1);
                        let whole = split_parts(chars@);
                        assert(whole[done.len() as int] == current@);
                        assert(!(parse_period(whole[done.len() as int]) is Some));
                    }
                    return Err(());
                },
                Some(p) => {
                    periods.push(p);
                    proof {
                        done = done.push(current@);
                    }
                    current = Vec::new();
                    assert(split_parts(prefix) =~= done.push(current@));
                },
            }
        } else {
            current.push(c);
            assert(split_parts(prefix) =~= done.push(current@));
        }
    }
    assert(chars@.take(chars.len() as int) =~= chars@);
    assert(trim(value@).len() != 0);
    match parse_period_chars(&current) {
        None => {
            assert(split_parts(value@)[done.len() as int] == current@);
            Err(())
        },
        Some(p) => {
            periods.push(p);
            proof {
                done = done.push(current@);
                assert(split_parts(value@) =~= done);
                assert(periods@ =~= Seq::new(done.len(), |k: int| parse_period(done[k])->0));
            }
            Ok(periods)
        },
    }
}

/// The pieces of a longer text start with the finished pieces of its prefix.
proof fn lemma_split_parts_grows(s: Seq<char>, i: int)
    requires
        0 <= i <= s.len(),
    ensures
        split_parts(s).len() >= split_parts(s.take(i)).len() >= 1,
        forall|k: int|
            0 <= k < split_parts(s.take(i)).len() - 1 ==> #[trigger] split_parts(s)[k]
                == split_parts(s.take(i))[k],
    decreases s.len() - i,
{
    if i == s.len() {
        assert(s.take(i) =~= s);
        lemma_split_parts_nonempty(s);
    } else {
        lemma_split_parts_grows(s, i + 1);
        let a = s.take(i);
        let b = s.take(i + 1);
        assert(b.drop_last() =~= a);
        lemma_split_parts_nonempty(a);
    }
}

proof fn lemma_split_parts_nonempty(s: Seq<char>)
    ensures
        split_parts(s).len() >= 1,
    decreases s.len(),
{
    if s.len() > 0 {
        lemma_split_parts_nonempty(s.drop_last());
    }
}

/// The period covers the second of the day `second`.
pub open spec fn period_active(p: (u16, u16), second: int) -> bool {
    let start = p.0 * 60;
    let end = p.1 * 60;
    if start < end {
        start <= second < end
    } else {
        second >= start || second < end
    }
}

/// Seconds from `second` until the end of the period, within one day.
pub open spec fn period_remaining(p: (u16, u16), second: int) -> int {
    (p.1 * 60 + 86400 - second) % 86400
}

/// The largest remaining time over the periods that cover `second`.
pub open spec fn max_remaining(ps: Seq<(u16, u16)>, second: int) -> Option<int>
    decreases ps.len(),
{
    if ps.len() == 0 {
        None
    } else {
        let before = max_remaining(ps.drop_last(), second);
        if period_active(ps.last(), second) {
            let v = period_remaining(ps.last(), second);
            match before {
                Some(x) => Some(if x >= v { x } else { v }),
                None => Some(v),
            }
        } else {
            before
        }
    }
}

/// How long the pause in force at `second` still lasts; `None` when no period covers
/// `second` or the text is malformed.
pub open spec fn spec_pause_remaining(periods: Seq<char>, second: int) -> Option<int> {
    match spec_pause_periods(periods) {
        Some(ps) => max_remaining(ps, second),
        None => None,
    }
}

/// `second` is no later than a day past the end of every period that covers it.
pub open spec fn pause_second_in_range(periods: Seq<char>, second: int) -> bool {
    match spec_pause_periods(periods) {
        Some(ps) => forall|k: int|
            0 <= k < ps.len() && period_active(#[trigger] ps[k], second) ==> second <= ps[k].1
                * 60 + 86400,
        None => true,
    }
}

pub fn pause_remaining_seconds(periods: &str, second: u32) -> (r: Option<u64>)
    requires
        pause_second_in_range(periods@, second as int),
    ensures
        r matches Some(v) ==> spec_pause_remaining(periods@, second as int) == Some(v as int),
        r is None <==> spec_pause_remaining(periods@, second as int) is None,
{
    let parsed = parse_pause_periods(periods);
    let list = match parsed {
        Ok(list) => list,
        Err(_) => return None,
    };
    let ghost ps = list@;
    let mut best: Option<u64> = None;
    for i in 0..list.len()
        invariant
            ps == list@,
            spec_pause_periods(periods@) == Some(ps),
            pause_second_in_range(periods@, second as int),
            best matches Some(v) ==> max_remaining(ps.take(i as int), second as int) == Some(
                v as int,
            ),
            best is None <==> max_remaining(ps.take(i as int), second as int) is None,
    {
        let (start_minute, end_minute) = list[i];
        let ghost prefix = ps.take(i + 1);
        assert(prefix.drop_last() =~= ps.take(i as int));
        assert(prefix.last() == ps[i as int]);
        let start: u32 = start_minute as u32 * 60;
        let end: u32 = end_minute as u32 * 60;
        let active = if start < end {
            second >= start && second < end
        } else {
            second >= start || second < end
        };
        if active {
            assert(end_minute == ps[i as int].1 && start_minute == ps[i as int].0);
            assert(period_active(ps[i as int], second as int));
            assert(second as int <= ps[i as int].1 * 60 + 86400) by {
                assert(0 <= i < ps.len());
                assert(spec_pause_periods(periods@) is Some);
                assert(spec_pause_periods(periods@)->0 == ps);
            }
            let v: u64 = ((end + 86400 - second) % 86400) as u64;
            best = match best {
                Some(x) => Some(if x >= v { x } else { v }),
                None => Some(v),
            };
        }
    }
    assert(ps.take(list.len() as int) =~= ps);
    best
}

/// A byte allowed in a host name: ASCII letters, digits, `.` and `-`.
pub open spec fn is_host_char(c: char) -> bool {
    is_alphanumeric_ascii(c) || c == '.' || c == '-'
}

/// `host[:port]` with a non-empty host of letters, digits, dots and hyphens, no white space,
/// and, when a port is given, a port in 1..=65535 as `str::parse::<u16>` reads it.
pub open spec fn spec_valid_authority(a: Seq<char>) -> bool {
    &&& a.len() > 0
    &&& !(exists|i: int| 0 <= i < a.len() && is_white_space(#[trigger] a[i]))
    &&& authority_host(a).len() > 0
    &&& forall|i: int| 0 <= i < authority_host(a).len() ==> is_host_char(#[trigger] authority_host(a)[i])
    &&& last_index(a, colon()) >= 0 ==> match parse_unsigned(a.skip(last_index(a, colon()) + 1), 65535) {
        Some(p) => p != 0,
        None => false,
    }
}

/// The part of an authority before its last `:` (all of it when there is none).
pub open spec fn authority_host(a: Seq<char>) -> Seq<char> {
    if last_index(a, colon()) >= 0 {
        a.take(last_index(a, colon()))
    } else {
        a
    }
}

/// A fallback probe address: `https://` (any ASCII case), then a valid authority, then
/// optionally a path or query; no user information (`@`) and no fragment (`#`).
pub open spec fn spec_valid_fallback_url(value: Seq<char>) -> bool {
    let v = trim(value);
    let rest = v.skip(8);
    &&& v.len() >= 8
    &&& eq_ignore_ascii_case(v.take(8), "https://"@)
    &&& rest.len() > 0
    &&& rest[0] != '/'
    &&& !rest.contains('@')
    &&& !rest.contains('#')
    &&& spec_valid_authority(rest.take(first_index(rest, path_start())))
}

fn valid_authority(a: &Vec<char>) -> (r: bool)
    ensures
        r == spec_valid_authority(a@),
{
    if a.len() == 0 {
        return false;
    }
    let mut i: usize = 0;
    while i < a.len()
        invariant
            i <= a.len(),
            forall|k: int| 0 <= k < i ==> !is_white_space(#[trigger] a@[k]),
        decreases a.len() - i,
    {
        if crate::text::is_whitespace_char(a[i]) {
            assert(is_white_space(a@[i as int]));
            return false;
        }
        i = i + 1;
    }
    let mut j: usize = a.len();
    while j > 0 && a[j - 1] != ':'
        invariant
            j <= a.len(),
            forall|k: int| j <= k < a.len() ==> a@[k] != ':',
        decreases j,
    {
        j = j - 1;
    }
    let ghost jj: int = j - 1;
    proof {
        crate::text::lemma_last_index(a@, colon(), jj);
    }
    let host = if j > 0 {
        crate::text::slice_chars(a, 0, j - 1)
    } else {
        crate::text::copy_chars(a)
    };
    assert(j > 0 ==> host@ =~= a@.take(jj));
    assert(host@ == authority_host(a@));
    if host.len() == 0 {
        return false;
    }
    let mut k: usize = 0;
    while k < host.len()
        invariant
            k <= host.len(),
            host@ == authority_host(a@),
            forall|m: int| 0 <= m < k ==> is_host_char(#[trigger] host@[m]),
        decreases host.len() - k,
    {
        let c = host[k];
        if !(crate::text::is_alphanumeric_ascii_char(c) || c == '.' || c == '-') {
            assert(!is_host_char(host@[k as int]));
            return false;
        }
        k = k + 1;
    }
    if j > 0 {
        let port = crate::text::slice_chars(a, j, a.len());
        assert(port@ =~= a@.skip(jj + 1));
        match crate::text::parse_u16_chars(&port) {
            Some(p) => p != 0,
            None => false,
        }
    } else {
        true
    }
}

pub fn is_valid_fallback_url(value: &str) -> (r: bool)
    ensures
        r == spec_valid_fallback_url(value@),
{
    let v = trim_str(value);
    if v.len() < 8 {
        return false;
    }
    let head = crate::text::slice_chars(&v, 0, 8);
    let scheme = chars_of("https://");
    assert(head@ =~= v@.take(8));
    if !crate::text::chars_eq_ignore_ascii_case(&head, &scheme) {
        return false;
    }
    let rest = crate::text::slice_chars(&v, 8, v.len());
    assert(rest@ =~= v@.skip(8));
    if rest.len() == 0 || rest[0] == '/' || crate::text::has_char(&rest, '@')
        || crate::text::has_char(&rest, '#') {
        return false;
    }
    let mut e: usize = 0;
    while e < rest.len() && rest[e] != '/' && rest[e] != '?'
        invariant
            e <= rest.len(),
            forall|k: int| 0 <= k < e ==> rest@[k] != '/' && rest@[k] != '?',
        decreases rest.len() - e,
    {
        e = e + 1;
    }
    proof {
        crate::text::lemma_first_index(rest@, path_start(), e as int);
    }
    let authority = crate::text::slice_chars(&rest, 0, e);
    assert(authority@ =~= rest@.take(e as int));
    valid_authority(&authority)
}

/// The user's settings as stored on disk.
#[derive(Clone, Debug)]
pub struct AppSettings {
    pub schema_version: i32,
    pub account: String,
    pub provider: Provider,
    pub encrypted_password: String,
    pub check_interval_seconds: i32,
    pub failure_cooldown_seconds: i32,
    pub fallback_probe_url: String,
    pub auto_start: bool,
    pub notifications_enabled: bool,
    pub autostart_login_once: bool,
    pub pause_periods: String,
    pub last_successful_login_utc: Option<String>,
}

/// The contents of a settings record.
pub struct SettingsView {
    pub schema_version: i32,
    pub account: Seq<char>,
    pub provider: Provider,
    pub encrypted_password: Seq<char>,
    pub check_interval_seconds: i32,
    pub failure_cooldown_seconds: i32,
    pub fallback_probe_url: Seq<char>,
    pub auto_start: bool,
    pub notifications_enabled: bool,
    pub autostart_login_once: bool,
    pub pause_periods: Seq<char>,
    pub last_successful_login_utc: Option<Seq<char>>,
}

pub open spec fn option_string_view(o: Option<String>) -> Option<Seq<char>> {
    match o {
        Some(s) => Some(s@),
        None => None,
    }
}

impl View for AppSettings {
    type V = SettingsView;

    open spec fn view(&self) -> SettingsView {
        SettingsView {
            schema_version: self.schema_version,
            account: self.account@,
            provider: self.provider,
            encrypted_password: self.encrypted_password@,
            check_interval_seconds: self.check_interval_seconds,
            failure_cooldown_seconds: self.failure_cooldown_seconds,
            fallback_probe_url: self.fallback_probe_url@,
            auto_start: self.auto_start,
            notifications_enabled: self.notifications_enabled,
            autostart_login_once: self.autostart_login_once,
            pause_periods: self.pause_periods@,
            last_successful_login_utc: option_string_view(self.last_successful_login_utc),
        }
    }
}

/// Settings of a fresh installation.
pub open spec fn default_settings() -> SettingsView {
    SettingsView {
        schema_version: 2,
        account: Seq::empty(),
        provider: Provider::Campus,
        encrypted_password: Seq::empty(),
        check_interval_seconds: 1800,
        failure_cooldown_seconds: 20,
        fallback_probe_url: DEFAULT_FALLBACK_PROBE_URL@,
        auto_start: false,
        notifications_enabled: true,
        autostart_login_once: false,
        pause_periods: Seq::empty(),
        last_successful_login_utc: None,
    }
}

pub open spec fn clamp(v: int, lo: int, hi: int) -> int {
    if v < lo {
        lo
    } else if v > hi {
        hi
    } else {
        v
    }
}

/// Settings brought to the current schema: a schema-1 cooldown of 0 (which meant "stop")
/// becomes -1, text is trimmed, numbers are clamped to their ranges, and an invalid fallback
/// address is replaced by the default one.
pub open spec fn spec_normalize(s: SettingsView) -> SettingsView {
    let cooldown = if s.schema_version < 2 && s.failure_cooldown_seconds == 0 {
        -1
    } else {
        s.failure_cooldown_seconds as int
    };
    let fallback = trim(s.fallback_probe_url);
    SettingsView {
        schema_version: 2,
        account: trim(s.account),
        provider: s.provider,
        encrypted_password: s.encrypted_password,
        check_interval_seconds: clamp(s.check_interval_seconds as int, 10, 3600) as i32,
        failure_cooldown_seconds: clamp(cooldown, -1, 3600) as i32,
        fallback_probe_url: if spec_valid_fallback_url(fallback) {
            fallback
        } else {
            DEFAULT_FALLBACK_PROBE_URL@
        },
        auto_start: s.auto_start,
        notifications_enabled: s.notifications_enabled,
        autostart_login_once: s.autostart_login_once,
        pause_periods: s.pause_periods,
        last_successful_login_utc: s.last_successful_login_utc,
    }
}

/// The messages that `validate` reports for `s`, in order.
pub open spec fn spec_validation_errors(s: SettingsView, require_password: bool) -> Seq<
    Seq<char>,
> {
    let e1: Seq<Seq<char>> = if trim(s.account).len() == 0 {
        seq!["请输入学号或账号。"@]
    } else if s.account.contains('@') {
        seq!["账号中不要填写运营商后缀，请通过服务商下拉框选择。"@]
    } else {
        Seq::empty()
    };
    let e2 = if require_password && trim(s.encrypted_password).len() == 0 {
        e1.push("首次保存时必须输入密码。"@)
    } else {
        e1
    };
    let e3 = if !(10 <= s.check_interval_seconds <= 3600) {
        e2.push("检测间隔必须在 10 到 3600 秒之间。"@)
    } else {
        e2
    };
    let e4 = if !(-1 <= s.failure_cooldown_seconds <= 3600) {
        e3.push("失败冷却时间必须在 -1 到 3600 秒之间。"@)
    } else {
        e3
    };
    let e5 = if spec_pause_periods(s.pause_periods) is None {
        e4.push("暂停时段格式应为 HH:MM-HH:MM，多个时段用分号分隔，起止时间不能相同。"@)
    } else {
        e4
    };
    if !spec_valid_fallback_url(s.fallback_probe_url) {
        e5.push("国内备用探测地址必须是有效的 HTTPS 地址。"@)
    } else {
        e5
    }
}

/// Account and stored password are both non-blank.
pub open spec fn spec_has_credentials(s: SettingsView) -> bool {
    trim(s.account).len() > 0 && trim(s.encrypted_password).len() > 0
}

/// What saving the settings does: normalize, then refuse with every validation message
/// (joined by line breaks) when any check fails.
pub open spec fn spec_prepare_for_save(s: SettingsView) -> Result<SettingsView, Seq<char>> {
    let n = spec_normalize(s);
    let errors = spec_validation_errors(n, false);
    if errors.len() == 0 {
        Ok(n)
    } else {
        Err(join_with(errors, "\n"@))
    }
}

impl Default for AppSettings {
    fn default() -> (r: AppSettings)
        ensures
            r@ == default_settings(),
    {
        AppSettings {
            schema_version: 2,
            account: String::new(),
            provider: Provider::Campus,
            encrypted_password: String::new(),
            check_interval_seconds: 1800,
            failure_cooldown_seconds: 20,
            fallback_probe_url: DEFAULT_FALLBACK_PROBE_URL.to_owned(),
            auto_start: false,
            notifications_enabled: true,
            autostart_login_once: false,
            pause_periods: String::new(),
            last_successful_login_utc: None,
        }
    }
}

fn clamp_i32(v: i32, lo: i32, hi: i32) -> (r: i32)
    requires
        lo <= hi,
    ensures
        r == clamp(v as int, lo as int, hi as int),
{
    if v < lo {
        lo
    } else if v > hi {
        hi
    } else {
        v
    }
}

fn push_message(errors: &mut Vec<String>, message: &str)
    ensures
        string_views(final(errors)@) == string_views(old(errors)@).push(message@),
{
    errors.push(message.to_owned());
    assert(string_views(errors@) =~= string_views(old(errors)@).push(message@));
}

impl AppSettings {
    /// An identical, separately owned copy.
    pub fn duplicate(&self) -> (r: AppSettings)
        ensures
            r@ == self@,
    {
        AppSettings {
            schema_version: self.schema_version,
            account: self.account.clone(),
            provider: self.provider,
            encrypted_password: self.encrypted_password.clone(),
            check_interval_seconds: self.check_interval_seconds,
            failure_cooldown_seconds: self.failure_cooldown_seconds,
            fallback_probe_url: self.fallback_probe_url.clone(),
            auto_start: self.auto_start,
            notifications_enabled: self.notifications_enabled,
            autostart_login_once: self.autostart_login_once,
            pause_periods: self.pause_periods.clone(),
            last_successful_login_utc: match &self.last_successful_login_utc {
                Some(v) => Some(v.clone()),
                None => None,
            },
        }
    }

    pub fn normalize(self) -> (r: AppSettings)
        ensures
            r@ == spec_normalize(self@),
    {
        let mut s = self;
        if s.schema_version < 2 && s.failure_cooldown_seconds == 0 {
            s.failure_cooldown_seconds = -1;
        }
        s.schema_version = 2;
        s.account = string_from_chars(&trim_str(s.account.as_str()));
        s.check_interval_seconds = clamp_i32(s.check_interval_seconds, 10, 3600);
        s.failure_cooldown_seconds = clamp_i32(s.failure_cooldown_seconds, -1, 3600);
        s.fallback_probe_url = string_from_chars(&trim_str(s.fallback_probe_url.as_str()));
        if !is_valid_fallback_url(s.fallback_probe_url.as_str()) {
            s.fallback_probe_url = DEFAULT_FALLBACK_PROBE_URL.to_owned();
        }
        s
    }

    pub fn has_credentials(&self) -> (r: bool)
        ensures
            r == spec_has_credentials(self@),
    {
        trim_str(self.account.as_str()).len() > 0 && trim_str(self.encrypted_password.as_str()).len()
            > 0
    }

    pub fn validate(&self, require_password: bool) -> (r: Vec<String>)
        ensures
            string_views(r@) == spec_validation_errors(self@, require_password),
    {
        let mut errors: Vec<String> = Vec::new();
        assert(string_views(errors@) =~= Seq::<Seq<char>>::empty());
        let account = chars_of(self.account.as_str());
        if trim_str(self.account.as_str()).len() == 0 {
            push_message(&mut errors, "请输入学号或账号。");
        } else if crate::text::has_char(&account, '@') {
            push_message(&mut errors, "账号中不要填写运营商后缀，请通过服务商下拉框选择。");
        }
        if require_password && trim_str(self.encrypted_password.as_str()).len() == 0 {
            push_message(&mut errors, "首次保存时必须输入密码。");
        }
        if !(10 <= self.check_interval_seconds && self.check_interval_seconds <= 3600) {
            push_message(&mut errors, "检测间隔必须在 10 到 3600 秒之间。");
        }
        if !(-1 <= self.failure_cooldown_seconds && self.failure_cooldown_seconds <= 3600) {
            push_message(&mut errors, "失败冷却时间必须在 -1 到 3600 秒之间。");
        }
        if parse_pause_periods(self.pause_periods.as_str()).is_err() {
            push_message(
                &mut errors,
                "暂停时段格式应为 HH:MM-HH:MM，多个时段用分号分隔，起止时间不能相同。",
            );
        }
        if !is_valid_fallback_url(self.fallback_probe_url.as_str()) {
            push_message(&mut errors, "国内备用探测地址必须是有效的 HTTPS 地址。");
        }
        errors
    }

    /// The settings that saving `self` stores, or the validation messages that refuse it.
    pub fn prepare_for_save(self) -> (r: Result<AppSettings, String>)
        ensures
            match r {
                Ok(n) => spec_prepare_for_save(self@) == Ok::<SettingsView, Seq<char>>(n@),
                Err(m) => spec_prepare_for_save(self@) == Err::<SettingsView, Seq<char>>(m@),
            },
    {
        let normalized = self.normalize();
        let errors = normalized.validate(false);
        if errors.len() > 0 {
            Err(crate::text::join_lines(&errors))
        } else {
            Ok(normalized)
        }
    }
}

} // verus!
