//! Properties of settings normalization, stated over the whole input space.

use vstd::prelude::*;

use crate::settings::{
    authority_host, colon, default_settings, is_host_char, max_remaining, path_start,
    period_active,
    spec_normalize, spec_valid_authority, spec_valid_fallback_url, SettingsView,
    DEFAULT_FALLBACK_PROBE_URL,
};
use crate::network::{
    authority_and_path, host_and_port, is_control, scheme_split, spec_is_valid_https_url,
};
use crate::text::{
    all_digits, eq_ignore_ascii_case, first_index, is_white_space, last_index,
    lemma_first_index, lemma_first_index_bounds, lemma_last_index, lemma_last_index_bounds,
    lemma_trim_end_fixed, lemma_trim_idempotent, lemma_trim_start_fixed, trim, unsigned_digits,
};

verus! {

/// The default fallback probe address is itself a valid fallback address.
pub proof fn law_default_fallback_is_valid()
    ensures
        spec_valid_fallback_url(DEFAULT_FALLBACK_PROBE_URL@),
{
    reveal_strlit("https://www.baidu.com/favicon.ico");
    reveal_strlit("https://");
    let d = DEFAULT_FALLBACK_PROBE_URL@;
    assert(d.len() == 33);
    lemma_trim_start_fixed(d);
    lemma_trim_end_fixed(d);
    assert(trim(d) == d);
    let rest = d.skip(8);
    assert(forall|k: int| 0 <= k < 13 ==> #[trigger] rest[k] != '/' && rest[k] != '?');
    assert(rest[13] == '/');
    lemma_first_index(rest, path_start(), 13);
    let authority = rest.take(13);
    assert(forall|k: int| 0 <= k < authority.len() ==> #[trigger] authority[k] != ':');
    lemma_last_index(authority, colon(), -1);
    assert(forall|k: int| 0 <= k < authority.len() ==> is_host_char(#[trigger] authority[k]));
    assert(!rest.contains('@'));
    assert(!rest.contains('#'));
    assert(spec_valid_authority(authority));
}

/// Normalizing twice changes nothing more than normalizing once.
pub proof fn law_normalize_idempotent(s: SettingsView)
    ensures
        spec_normalize(spec_normalize(s)) == spec_normalize(s),
{
    let n = spec_normalize(s);
    lemma_trim_idempotent(s.account);
    lemma_trim_idempotent(s.fallback_probe_url);
    law_default_fallback_is_valid();
    reveal_strlit("https://www.baidu.com/favicon.ico");
    let d = DEFAULT_FALLBACK_PROBE_URL@;
    lemma_trim_start_fixed(d);
    lemma_trim_end_fixed(d);
    assert(trim(n.fallback_probe_url) == n.fallback_probe_url);
}

/// Normalized settings satisfy every range rule and carry a valid fallback address, so
/// validation can only object to the account and the pause periods.
pub proof fn law_normalized_settings_pass_range_checks(s: SettingsView, require_password: bool)
    ensures
        ({
            let n = spec_normalize(s);
            &&& n.schema_version == 2
            &&& 10 <= n.check_interval_seconds <= 3600
            &&& -1 <= n.failure_cooldown_seconds <= 3600
            &&& spec_valid_fallback_url(n.fallback_probe_url)
            &&& trim(n.account) == n.account
        }),
{
    lemma_trim_idempotent(s.account);
    lemma_trim_idempotent(s.fallback_probe_url);
    law_default_fallback_is_valid();
}

/// Fresh settings hold the documented defaults: a 1800 s check interval and a 20 s cooldown,
/// notifications on, autostart off.
pub proof fn law_defaults()
    ensures
        default_settings().check_interval_seconds == 1800,
        default_settings().failure_cooldown_seconds == 20,
        default_settings().notifications_enabled,
        !default_settings().auto_start,
        !default_settings().autostart_login_once,
        spec_normalize(default_settings()) == default_settings(),
{
    law_default_fallback_is_valid();
    reveal_strlit("https://www.baidu.com/favicon.ico");
    let d = DEFAULT_FALLBACK_PROBE_URL@;
    lemma_trim_start_fixed(d);
    lemma_trim_end_fixed(d);
    assert(trim(Seq::<char>::empty()) =~= Seq::<char>::empty());
}

/// Periods include their start and exclude their end.
pub proof fn law_period_start_inclusive_end_exclusive(p: (u16, u16))
    requires
        p.0 != p.1,
        p.0 < 1440,
        p.1 < 1440,
    ensures
        period_active(p, p.0 * 60),
        !period_active(p, p.1 * 60),
        period_active(p, p.1 * 60 - 1) || p.1 == 0,
{
}

/// While a pause is in force, the remaining time is positive and shorter than a day.
pub proof fn law_pause_remaining_within_a_day(ps: Seq<(u16, u16)>, second: int)
    requires
        0 <= second < 86400,
        forall|k: int|
            0 <= k < ps.len() ==> (#[trigger] ps[k]).0 < 1440 && ps[k].1 < 1440 && ps[k].0 != ps[k].1,
    ensures
        max_remaining(ps, second) matches Some(r) ==> 0 < r < 86400,
    decreases ps.len(),
{
    if ps.len() > 0 {
        assert forall|k: int| 0 <= k < ps.drop_last().len() implies (#[trigger] ps.drop_last()[k]).0 < 1440
            && ps.drop_last()[k].1 < 1440 && ps.drop_last()[k].0 != ps.drop_last()[k].1 by {
            assert(ps.drop_last()[k] == ps[k]);
        }
        law_pause_remaining_within_a_day(ps.drop_last(), second);
        let p = ps.last();
        assert(p.0 < 1440 && p.1 < 1440 && p.0 != p.1);
        if period_active(p, second) {
            let x = p.1 * 60 + 86400 - second;
            assert(0 < x < 2 * 86400);
            assert(x != 86400);
            if x < 86400 {
                assert(x % 86400 == x);
            } else {
                assert(x % 86400 == x - 86400);
            }
        }
    }
}

/// The fallback-address check accepts exactly the addresses that the URL parser accepts as
/// `https`, for every address whose trimmed text holds no control character and no `+` (the
/// check reads a port like `str::parse::<u16>`, which takes a leading `+`; the parser wants
/// digits only).
pub proof fn law_fallback_check_matches_secure_parse(value: Seq<char>)
    requires
        forall|i: int|
            0 <= i < trim(value).len() ==> !is_control(#[trigger] trim(value)[i]) && trim(
                value,
            )[i] != '+',
    ensures
        spec_valid_fallback_url(value) == spec_is_valid_https_url(value),
{
    reveal_strlit("https://");
    reveal_strlit("http://");
    let v = trim(value);
    assert(!(exists|i: int| 0 <= i < v.len() && is_control(#[trigger] v[i])));
    if v.len() >= 8 && eq_ignore_ascii_case(v.take(8), "https://"@) {
        assert(scheme_split(v) == Some((true, 443u16, v.skip(8))));
        let rest = v.skip(8);
        if !(rest.len() == 0 || rest[0] == '/' || rest.contains('@') || rest.contains('#')) {
            let i = first_index(rest, path_start());
            lemma_first_index_bounds(rest, path_start());
            let a = rest.take(i);
            if i >= rest.len() {
                assert(a =~= rest);
            }
            assert(authority_and_path(rest).0 == a);
            lemma_last_index_bounds(a, colon());
            let j = last_index(a, colon());
            assert forall|k: int| 0 <= k < a.len() implies #[trigger] a[k] != '+' by {
                assert(a[k] == v[k + 8]);
            }
            if j >= 0 {
                let port = a.skip(j + 1);
                if port.len() > 0 {
                    assert(port[0] == a[j + 1]);
                }
                assert(unsigned_digits(port) == port);
                assert(authority_host(a) == a.take(j));
                let host = a.take(j);
                if host.len() > 0 && port.len() > 0 && all_digits(port) && (forall|m: int|
                    0 <= m < host.len() ==> is_host_char(#[trigger] host[m])) {
                    assert forall|k: int| 0 <= k < a.len() implies !is_white_space(
                        #[trigger] a[k],
                    ) by {
                        if k < j {
                            assert(a[k] == host[k]);
                            assert(is_host_char(host[k]));
                        } else if k == j {
                            assert(a[k] == ':');
                        } else {
                            assert(a[k] == port[k - j - 1]);
                        }
                    }
                }
            } else {
                assert(authority_host(a) == a);
                assert(host_and_port(a, 443u16) == Ok::<(Seq<char>, u16), Seq<char>>((a, 443u16)));
                if forall|m: int| 0 <= m < a.len() ==> is_host_char(#[trigger] a[m]) {
                    assert forall|k: int| 0 <= k < a.len() implies !is_white_space(
                        #[trigger] a[k],
                    ) by {
                        assert(is_host_char(a[k]));
                    }
                }
            }
        }
    }
}

/// The pause lasts until the latest end among the periods covering `second`: there is a
/// pause exactly when some period covers `second`, and then the remaining time is the time
/// until one covering period's end and no shorter than the time until any covering period's
/// end.
pub proof fn law_pause_lasts_until_latest_end(ps: Seq<(u16, u16)>, second: int)
    ensures
        max_remaining(ps, second) is None <==> forall|k: int|
            0 <= k < ps.len() ==> !period_active(#[trigger] ps[k], second),
        max_remaining(ps, second) matches Some(r) ==> {
            &&& exists|k: int|
                0 <= k < ps.len() && period_active(#[trigger] ps[k], second) && r == (ps[k].1
                    * 60 + 86400 - second) % 86400
            &&& forall|k: int|
                0 <= k < ps.len() && period_active(#[trigger] ps[k], second) ==> (ps[k].1 * 60
                    + 86400 - second) % 86400 <= r
        },
    decreases ps.len(),
{
    if ps.len() > 0 {
        let prev = ps.drop_last();
        law_pause_lasts_until_latest_end(prev, second);
        assert forall|k: int| 0 <= k < prev.len() implies #[trigger] prev[k] == ps[k] by {}
        let last = ps.len() - 1;
        assert(ps[last] == ps.last());
        if let Some(r) = max_remaining(ps, second) {
            let v = (ps.last().1 * 60 + 86400 - second) % 86400;
            if period_active(ps.last(), second) && r == v {
                assert(period_active(ps[last], second) && r == (ps[last].1 * 60 + 86400 - second)
                    % 86400);
            } else {
                let x = max_remaining(prev, second)->0;
                assert(r == x);
                let w = choose|k: int|
                    0 <= k < prev.len() && period_active(#[trigger] prev[k], second) && x == (
                    prev[k].1 * 60 + 86400 - second) % 86400;
                assert(ps[w] == prev[w]);
                assert(period_active(ps[w], second));
            }
            assert forall|k: int|
                0 <= k < ps.len() && period_active(#[trigger] ps[k], second) implies (ps[k].1 * 60
                + 86400 - second) % 86400 <= r by {
                if k < prev.len() {
                    assert(ps[k] == prev[k]);
                    assert(period_active(prev[k], second));
                } else {
                    assert(k == last);
                }
            }
        }
        if max_remaining(ps, second) is None {
            assert forall|k: int| 0 <= k < ps.len() implies !period_active(#[trigger] ps[k], second) by {
                if k < prev.len() {
                    assert(ps[k] == prev[k]);
                }
            }
        }
    }
}

} // verus!
