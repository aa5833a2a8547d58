//! Addresses and answers of the campus authentication portal: URL parsing, the login and
//! logout requests, and how probe and portal responses are judged.

use vstd::prelude::*;

use crate::text::{
    all_digits, append_chars, append_str, chars_of, decimal_text, eq_ignore_ascii_case,
    first_index, last_index, string_from_chars, trim, trim_str,
};
use crate::settings::{colon, is_host_char, path_start};
use crate::AppResult;

verus! {

pub const PRIMARY_PROBE_URL: &'static str = "http://www.msftconnecttest.com/connecttest.txt";

pub const PRIMARY_EXPECTED_BODY: &'static str = "Microsoft Connect Test";

pub const CAMPUS_LOGIN_PAGE_URL: &'static str = "http://10.2.5.251/";

pub const PORTAL_ENDPOINT: &'static str = "http://10.2.5.251:801/eportal/";

/// Unicode general category Cc, as `char::is_control` tests it.
pub open spec fn is_control(c: char) -> bool {
    c <= '\u{1f}' || ('\u{7f}' <= c <= '\u{9f}')
}

/// A parsed `http`/`https` address.
#[derive(Debug, PartialEq, Eq)]
pub struct ParsedUrl {
    pub secure: bool,
    pub host: String,
    pub port: u16,
    pub path_and_query: String,
}

pub struct UrlParts {
    pub secure: bool,
    pub host: Seq<char>,
    pub port: u16,
    pub path_and_query: Seq<char>,
}

impl View for ParsedUrl {
    type V = UrlParts;

    open spec fn view(&self) -> UrlParts {
        UrlParts {
            secure: self.secure,
            host: self.host@,
            port: self.port,
            path_and_query: self.path_and_query@,
        }
    }
}

/// The address after its scheme, with the scheme's security and default port.
pub open spec fn scheme_split(v: Seq<char>) -> Option<(bool, u16, Seq<char>)> {
    if v.len() >= 8 && eq_ignore_ascii_case(v.take(8), "https://"@) {
        Some((true, 443u16, v.skip(8)))
    } else if v.len() >= 7 && eq_ignore_ascii_case(v.take(7), "http://"@) {
        Some((false, 80u16, v.skip(7)))
    } else {
        None
    }
}

/// The authority of `rest` and the path with query that follows it (`/` when absent;
/// a bare query gets a `/` in front).
pub open spec fn authority_and_path(rest: Seq<char>) -> (Seq<char>, Seq<char>) {
    let i = first_index(rest, path_start());
    if i < rest.len() && rest[i] == '?' {
        (rest.take(i), seq!['/'] + rest.skip(i))
    } else if i < rest.len() {
        (rest.take(i), rest.skip(i))
    } else {
        (rest, seq!['/'])
    }
}

/// Host and port of an authority, or the port error.
pub open spec fn host_and_port(authority: Seq<char>, default_port: u16) -> Result<
    (Seq<char>, u16),
    Seq<char>,
> {
    let j = last_index(authority, colon());
    if j >= 0 {
        let host = authority.take(j);
        let port = authority.skip(j + 1);
        if host.len() == 0 || port.len() == 0 || !all_digits(port) {
            Err("网络地址端口无效。"@)
        } else if crate::text::decimal_value(port) > 65535 || crate::text::decimal_value(port)
            == 0 {
            Err("网络地址端口无效。"@)
        } else {
            Ok((host, crate::text::decimal_value(port) as u16))
        }
    } else {
        Ok((authority, default_port))
    }
}

/// What parsing `value` as an `http`/`https` address gives.
pub open spec fn spec_parse_url(value: Seq<char>) -> Result<UrlParts, Seq<char>> {
    let v = trim(value);
    if exists|i: int| 0 <= i < v.len() && is_control(#[trigger] v[i]) {
        Err("网络地址不能包含控制字符。"@)
    } else {
        match scheme_split(v) {
            None => Err("网络地址必须使用 HTTP 或 HTTPS。"@),
            Some((secure, default_port, rest)) => {
                if rest.len() == 0 || rest[0] == '/' || rest.contains('@') || rest.contains('#') {
                    Err("网络地址缺少有效主机名。"@)
                } else {
                    let (authority, path) = authority_and_path(rest);
                    match host_and_port(authority, default_port) {
                        Err(e) => Err(e),
                        Ok((host, port)) => {
                            if host.len() == 0 || !(forall|k: int|
                                0 <= k < host.len() ==> is_host_char(#[trigger] host[k])) {
                                Err("网络地址主机名无效。"@)
                            } else {
                                Ok(UrlParts { secure, host, port, path_and_query: path })
                            }
                        },
                    }
                }
            },
        }
    }
}

fn starts_with_ignoring_case(v: &Vec<char>, prefix: &str) -> (r: bool)
    ensures
        r == (v@.len() >= prefix@.len() && eq_ignore_ascii_case(
            v@.take(prefix@.len() as int),
            prefix@,
        )),
{
    let p = chars_of(prefix);
    if v.len() < p.len() {
        return false;
    }
    let head = crate::text::slice_chars(v, 0, p.len());
    assert(head@ =~= v@.take(prefix@.len() as int));
    crate::text::chars_eq_ignore_ascii_case(&head, &p)
}

fn host_and_port_of(authority: &Vec<char>, default_port: u16) -> (r: Result<(Vec<char>, u16), String>)
    ensures
        match r {
            Ok((h, p)) => host_and_port(authority@, default_port) == Ok::<(Seq<char>, u16), Seq<char>>((h@, p)),
            Err(e) => host_and_port(authority@, default_port) == Err::<(Seq<char>, u16), Seq<char>>(e@),
        },
{
    let a = authority;
    let mut j: usize = a.len();
    while j > 0 && a[j - 1] != ':'
        invariant
            j <= a.len(),
            forall|k: int| j <= k < a.len() ==> a@[k] != ':',
        decreases j,
    {
        j = j - 1;
    }
    proof {
        crate::text::lemma_last_index(a@, colon(), j - 1);
    }
    if j == 0 {
        return Ok((crate::text::copy_chars(a), default_port));
    }
    let host = crate::text::slice_chars(a, 0, j - 1);
    let port = crate::text::slice_chars(a, j, a.len());
    assert(host@ =~= a@.take(j - 1));
    assert(port@ =~= a@.skip(j as int));
    if host.len() == 0 || port.len() == 0 {
        return Err("网络地址端口无效。".to_owned());
    }
    match crate::text::capped_decimal(&port, 65536) {
        None => Err("网络地址端口无效。".to_owned()),
        Some(v) => {
            if v > 65535 || v == 0 {
                Err("网络地址端口无效。".to_owned())
            } else {
                Ok((host, v as u16))
            }
        },
    }
}

impl ParsedUrl {
    #[verifier::loop_isolation(false)]
    pub fn parse(value: &str) -> (r: AppResult<ParsedUrl>)
        ensures
            match r {
                Ok(u) => spec_parse_url(value@) == Ok::<UrlParts, Seq<char>>(u@),
                Err(e) => spec_parse_url(value@) == Err::<UrlParts, Seq<char>>(e@),
            },
    {
        proof {
            reveal_strlit("https://");
            reveal_strlit("http://");
        }
        let v = trim_str(value);
        let mut i: usize = 0;
        while i < v.len()
            invariant
                i <= v.len(),
                forall|k: int| 0 <= k < i ==> !is_control(#[trigger] v@[k]),
            decreases v.len() - i,
        {
            let c = v[i];
            if c <= '\u{1f}' || ('\u{7f}' <= c && c <= '\u{9f}') {
                assert(is_control(v@[i as int]));
                return Err("网络地址不能包含控制字符。".to_owned());
            }
            i = i + 1;
        }
        let (secure, default_port, rest) = if starts_with_ignoring_case(&v, "https://") {
            (true, 443u16, crate::text::slice_chars(&v, 8, v.len()))
        } else if starts_with_ignoring_case(&v, "http://") {
            (false, 80u16, crate::text::slice_chars(&v, 7, v.len()))
        } else {
            return Err("网络地址必须使用 HTTP 或 HTTPS。".to_owned());
        };
        assert(secure ==> rest@ =~= v@.skip(8));
        assert(!secure ==> rest@ =~= v@.skip(7));
        if rest.len() == 0 || rest[0] == '/' || crate::text::has_char(&rest, '@')
            || crate::text::has_char(&rest, '#') {
            return Err("网络地址缺少有效主机名。".to_owned());
        }
        let mut e: usize = 0;
        while e < rest.len() && rest[e] != '/' && rest[e] != '?'
            invariant
                e <= rest.len(),
                forall|k: int| 0 <= k < e ==> rest@[k] != '/' && rest@[k] != '?',
            decreases rest.len() - e,
        {
            e = e + 1;
        }
        proof {
            crate::text::lemma_first_index(rest@, path_start(), e as int);
        }
        let authority = crate::text::slice_chars(&rest, 0, e);
        let mut path: Vec<char> = Vec::new();
        if e < rest.len() && rest[e] == '?' {
            path.push('/');
            let tail = crate::text::slice_chars(&rest, e, rest.len());
            append_chars(&mut path, &tail);
        } else if e < rest.len() {
            path = crate::text::slice_chars(&rest, e, rest.len());
        } else {
            path.push('/');
        }
        assert(authority@ =~= authority_and_path(rest@).0);
        assert(path@ =~= authority_and_path(rest@).1);
        let (host, port) = match host_and_port_of(&authority, default_port) {
            Err(msg) => return Err(msg),
            Ok(hp) => hp,
        };
        if host.len() == 0 {
            return Err("网络地址主机名无效。".to_owned());
        }
        let mut k: usize = 0;
        while k < host.len()
            invariant
                k <= host.len(),
                forall|m: int| 0 <= m < k ==> is_host_char(#[trigger] host@[m]),
            decreases host.len() - k,
        {
            let c = host[k];
            if !(crate::text::is_alphanumeric_ascii_char(c) || c == '.' || c == '-') {
                assert(!is_host_char(host@[k as int]));
                return Err("网络地址主机名无效。".to_owned());
            }
            k = k + 1;
        }
        Ok(ParsedUrl {
            secure,
            host: string_from_chars(&host),
            port,
            path_and_query: string_from_chars(&path),
        })
    }
}

/// `value` parses as an address and uses `https`.
pub open spec fn spec_is_valid_https_url(value: Seq<char>) -> bool {
    match spec_parse_url(value) {
        Ok(u) => u.secure,
        Err(_) => false,
    }
}

pub fn is_valid_https_url(value: &str) -> (r: bool)
    ensures
        r == spec_is_valid_https_url(value@),
{
    match ParsedUrl::parse(value) {
        Ok(url) => url.secure,
        Err(_) => false,
    }
}

/// Bytes that travel unescaped in a query component.
pub open spec fn is_unreserved(b: u8) -> bool {
    ||| 65 <= b <= 90
    ||| 97 <= b <= 122
    ||| 48 <= b <= 57
    ||| b == 45
    ||| b == 95
    ||| b == 46
    ||| b == 126
}

/// Upper-case hexadecimal digit for `n < 16`.
pub open spec fn hex_digit(n: int) -> char {
    if n < 10 {
        ((n + 48) as u32) as char
    } else {
        ((n + 55) as u32) as char
    }
}

/// One byte as it appears in a percent-encoded component.
pub open spec fn encode_byte(b: u8) -> Seq<char> {
    if is_unreserved(b) {
        seq![(b as u32) as char]
    } else {
        seq!['%', hex_digit(b as int / 16), hex_digit(b as int % 16)]
    }
}

/// The percent-encoding of a byte sequence.
pub open spec fn percent_encoded(bytes: Seq<u8>) -> Seq<char>
    decreases bytes.len(),
{
    if bytes.len() == 0 {
        Seq::empty()
    } else {
        percent_encoded(bytes.drop_last()) + encode_byte(bytes.last())
    }
}

/// The percent-encoding of the UTF-8 bytes of `value`.
pub open spec fn spec_percent_encode(value: Seq<char>) -> Seq<char> {
    percent_encoded(vstd::utf8::encode_utf8(value))
}

fn hex_char(n: u8) -> (r: char)
    requires
        n < 16,
    ensures
        r == hex_digit(n as int),
{
    if n < 10 {
        (n + 48) as char
    } else {
        (n + 55) as char
    }
}

pub fn percent_encode(value: &str) -> (r: String)
    ensures
        r@ == spec_percent_encode(value@),
{
    let bytes = value.as_bytes();
    let mut out: Vec<char> = Vec::new();
    for i in 0..bytes.len()
        invariant
            bytes@ == vstd::utf8::encode_utf8(value@),
            out@ == percent_encoded(bytes@.take(i as int)),
    {
        let b = bytes[i];
        let ghost prefix = bytes@.take(i + 1);
        assert(prefix.drop_last() =~= bytes@.take(i as int));
        if (65 <= b && b <= 90) || (97 <= b && b <= 122) || (48 <= b && b <= 57) || b == 45 || b
            == 95 || b == 46 || b == 126 {
            out.push(b as char);
        } else {
            out.push('%');
            out.push(hex_char(b / 16));
            out.push(hex_char(b % 16));
        }
        assert(out@ =~= percent_encoded(prefix));
    }
    assert(bytes@.take(bytes@.len() as int) =~= bytes@);
    string_from_chars(&out)
}

/// The login request for an account (with its provider suffix) and a password.
pub open spec fn spec_login_url(account: Seq<char>, password: Seq<char>) -> Seq<char> {
    PORTAL_ENDPOINT@ + "?c=Portal&a=login&login_method=1&user_account="@ + spec_percent_encode(
        account,
    ) + "&user_password="@ + spec_percent_encode(password)
}

pub fn build_login_url(submitted_account: &str, password: &str) -> (r: String)
    ensures
        r@ == spec_login_url(submitted_account@, password@),
{
    let mut out = chars_of(PORTAL_ENDPOINT);
    append_str(&mut out, "?c=Portal&a=login&login_method=1&user_account=");
    let account = percent_encode(submitted_account);
    append_str(&mut out, account.as_str());
    append_str(&mut out, "&user_password=");
    let secret = percent_encode(password);
    append_str(&mut out, secret.as_str());
    string_from_chars(&out)
}

pub fn build_logout_url() -> (r: String)
    ensures
        r@ == PORTAL_ENDPOINT@ + "?c=Portal&a=logout"@,
{
    let mut out = chars_of(PORTAL_ENDPOINT);
    append_str(&mut out, "?c=Portal&a=logout");
    string_from_chars(&out)
}

/// The text of `bytes` as `String::from_utf8_lossy` decodes it.
pub uninterp spec fn utf8_lossy(bytes: Seq<u8>) -> Seq<char>;

/// `String::from_utf8_lossy`: decodes UTF-8, putting U+FFFD in place of invalid sequences.
/// The contract names the result; it states the decoding only for valid UTF-8 input.
#[verifier::external_body]
fn decode_lossy(bytes: &[u8]) -> (r: String)
    ensures
        r@ == utf8_lossy(bytes@),
        vstd::utf8::valid_utf8(bytes@) ==> r@ == vstd::utf8::decode_utf8(bytes@),
{
    String::from_utf8_lossy(bytes).into_owned()
}

/// The member of a JSON object that a response's logic reads.
pub enum JsonMember {
    /// The text is JSON, but not an object holding the key.
    Absent,
    /// A number, with its value when it is an integer that fits in `i64`.
    Number(Option<i64>),
    Text(String),
    /// Any other JSON value.
    Other,
}

pub enum JsonMemberView {
    Absent,
    Number(Option<i64>),
    Text(Seq<char>),
    Other,
}

impl View for JsonMember {
    type V = JsonMemberView;

    open spec fn view(&self) -> JsonMemberView {
        match self {
            JsonMember::Absent => JsonMemberView::Absent,
            JsonMember::Number(n) => JsonMemberView::Number(*n),
            JsonMember::Text(t) => JsonMemberView::Text(t@),
            JsonMember::Other => JsonMemberView::Other,
        }
    }
}

/// What `serde_json` finds under `key` in the JSON text `text`; `None` when `text` is not JSON.
pub uninterp spec fn json_member_of(text: Seq<char>, key: Seq<char>) -> Option<JsonMemberView>;

/// `serde_json::from_str::<serde_json::Value>`, then `Value::get(key)`, with a number read by
/// `Number::as_i64`. The contract only names the result: JSON parsing is not restated.
#[verifier::external_body]
fn json_member(text: &str, key: &str) -> (r: Option<JsonMember>)
    ensures
        match r {
            Some(m) => json_member_of(text@, key@) == Some(m@),
            None => json_member_of(text@, key@) is None,
        },
{
    match serde_json::from_str::<serde_json::Value>(text) {
        Err(_) => None,
        Ok(value) => Some(match value.get(key) {
            None => JsonMember::Absent,
            Some(serde_json::Value::Number(n)) => JsonMember::Number(n.as_i64()),
            Some(serde_json::Value::String(t)) => JsonMember::Text(t.clone()),
            Some(_) => JsonMember::Other,
        }),
    }
}

/// A `result` member that confirms the logout: the integer 1, or the text `1` or `ok`
/// (any ASCII case).
pub open spec fn confirms_logout(m: Option<JsonMemberView>) -> bool {
    match m {
        Some(JsonMemberView::Number(Some(n))) => n == 1,
        Some(JsonMemberView::Text(t)) => t == "1"@ || eq_ignore_ascii_case(t, "ok"@),
        _ => false,
    }
}

pub open spec fn open_brace() -> spec_fn(char) -> bool {
    |c: char| c == '{'
}

pub open spec fn close_brace() -> spec_fn(char) -> bool {
    |c: char| c == '}'
}

/// The portal confirms a logout: the response text holds a JSON object, from its first `{`
/// to its last `}`, whose `result` member confirms it.
pub open spec fn spec_logout_success(body: Seq<u8>) -> bool {
    let text = utf8_lossy(body);
    let start = first_index(text, open_brace());
    let end = last_index(text, close_brace());
    &&& start < text.len()
    &&& end >= 0
    &&& end > start
    &&& confirms_logout(json_member_of(text.subrange(start, end + 1), "result"@))
}

pub fn parse_logout_success(response_body: &[u8]) -> (r: bool)
    ensures
        r == spec_logout_success(response_body@),
{
    let body = decode_lossy(response_body);
    let text = chars_of(body.as_str());
    let mut start: usize = 0;
    while start < text.len() && text[start] != '{'
        invariant
            start <= text.len(),
            forall|k: int| 0 <= k < start ==> text@[k] != '{',
        decreases text.len() - start,
    {
        start = start + 1;
    }
    proof {
        crate::text::lemma_first_index(text@, open_brace(), start as int);
    }
    if start >= text.len() {
        return false;
    }
    let mut end: usize = text.len();
    while end > 0 && text[end - 1] != '}'
        invariant
            end <= text.len(),
            forall|k: int| end <= k < text.len() ==> text@[k] != '}',
        decreases end,
    {
        end = end - 1;
    }
    proof {
        crate::text::lemma_last_index(text@, close_brace(), end - 1);
    }
    if end == 0 || end - 1 <= start {
        return false;
    }
    let object = string_from_chars(&crate::text::slice_chars(&text, start, end));
    logout_confirmed(json_member(object.as_str(), "result"))
}

pub open spec fn member_view(m: Option<JsonMember>) -> Option<JsonMemberView> {
    match m {
        Some(v) => Some(v@),
        None => None,
    }
}

/// Whether the `result` member read from the portal's answer confirms the logout.
pub fn logout_confirmed(member: Option<JsonMember>) -> (r: bool)
    ensures
        r == confirms_logout(member_view(member)),
{
    proof {
        reveal_strlit("1");
        reveal_strlit("ok");
    }
    match member {
        Some(JsonMember::Number(Some(n))) => n == 1,
        Some(JsonMember::Text(t)) => {
            let t_chars = chars_of(t.as_str());
            let one = chars_of("1");
            let ok = chars_of("ok");
            chars_equal(&t_chars, &one) || crate::text::chars_eq_ignore_ascii_case(&t_chars, &ok)
        },
        _ => false,
    }
}

/// The status and (bounded) body of an HTTP response.
pub struct HttpResponse {
    pub status_code: u32,
    pub body: Vec<u8>,
}

pub open spec fn is_success_status(code: u32) -> bool {
    200 <= code < 300
}

/// How a login request ends: a transport failure, or a status outside 2xx, is an error.
pub open spec fn spec_login_result(response: Result<u32, ()>) -> Result<(), Seq<char>> {
    match response {
        Err(_) => Err("无法连接校园网认证服务器，或登录请求超时。"@),
        Ok(code) => if is_success_status(code) {
            Ok(())
        } else {
            Err("登录请求返回 HTTP "@ + decimal_text(code as nat) + "。"@)
        },
    }
}

/// How a logout request ends: it must reach the portal, answer 2xx with at most 4096 bytes,
/// and confirm the logout.
pub open spec fn spec_logout_result(response: Result<(u32, Seq<u8>), ()>) -> Result<
    (),
    Seq<char>,
> {
    match response {
        Err(_) => Err("无法连接校园网认证服务器，或注销请求超时。"@),
        Ok((code, body)) => if !is_success_status(code) {
            Err("注销请求返回 HTTP "@ + decimal_text(code as nat) + "。"@)
        } else if body.len() > 4096 {
            Err("认证服务器返回的注销结果过大。"@)
        } else if !spec_logout_success(body) {
            Err("认证服务器未确认注销成功。"@)
        } else {
            Ok(())
        },
    }
}

pub open spec fn response_status(response: AppResult<HttpResponse>) -> Result<u32, ()> {
    match response {
        Ok(r) => Ok(r.status_code),
        Err(_) => Err(()),
    }
}

pub open spec fn response_parts(response: AppResult<HttpResponse>) -> Result<(u32, Seq<u8>), ()> {
    match response {
        Ok(r) => Ok((r.status_code, r.body@)),
        Err(_) => Err(()),
    }
}

fn status_message(prefix: &str, code: u32) -> (r: String)
    ensures
        r@ == prefix@ + decimal_text(code as nat) + "。"@,
{
    let mut out = chars_of(prefix);
    crate::text::push_decimal(&mut out, code);
    append_str(&mut out, "。");
    string_from_chars(&out)
}

/// The outcome of a login request from the portal's response.
pub fn login_result(response: AppResult<HttpResponse>) -> (r: AppResult<()>)
    ensures
        match r {
            Ok(()) => spec_login_result(response_status(response)) == Ok::<(), Seq<char>>(()),
            Err(m) => spec_login_result(response_status(response)) == Err::<(), Seq<char>>(m@),
        },
{
    match response {
        Err(_) => Err("无法连接校园网认证服务器，或登录请求超时。".to_owned()),
        Ok(r) => if 200 <= r.status_code && r.status_code < 300 {
            Ok(())
        } else {
            Err(status_message("登录请求返回 HTTP ", r.status_code))
        },
    }
}

/// The outcome of a logout request from the portal's response.
pub fn logout_result(response: AppResult<HttpResponse>) -> (r: AppResult<()>)
    ensures
        match r {
            Ok(()) => spec_logout_result(response_parts(response)) == Ok::<(), Seq<char>>(()),
            Err(m) => spec_logout_result(response_parts(response)) == Err::<(), Seq<char>>(m@),
        },
{
    match response {
        Err(_) => Err("无法连接校园网认证服务器，或注销请求超时。".to_owned()),
        Ok(r) => if !(200 <= r.status_code && r.status_code < 300) {
            Err(status_message("注销请求返回 HTTP ", r.status_code))
        } else if r.body.len() > 4096 {
            Err("认证服务器返回的注销结果过大。".to_owned())
        } else if !parse_logout_success(r.body.as_slice()) {
            Err("认证服务器未确认注销成功。".to_owned())
        } else {
            Ok(())
        },
    }
}

/// `s` without its leading byte-order marks.
pub open spec fn strip_bom(s: Seq<char>) -> Seq<char>
    decreases s.len(),
{
    if s.len() > 0 && s[0] == '\u{feff}' {
        strip_bom(s.drop_first())
    } else {
        s
    }
}

/// The primary probe proves Internet access: status 200 and a body of at most 128 bytes that
/// reads `Microsoft Connect Test` after any leading byte-order marks.
pub open spec fn spec_primary_probe_ok(response: Result<(u32, Seq<u8>), ()>) -> bool {
    match response {
        Ok((code, body)) => code == 200 && body.len() <= 128 && strip_bom(utf8_lossy(body))
            == PRIMARY_EXPECTED_BODY@,
        Err(_) => false,
    }
}

pub fn primary_probe_ok(response: &AppResult<HttpResponse>) -> (r: bool)
    ensures
        r == spec_primary_probe_ok(response_parts(*response)),
{
    match response {
        Err(_) => false,
        Ok(resp) => {
            if resp.status_code != 200 || resp.body.len() > 128 {
                return false;
            }
            probe_text_ok(decode_lossy(resp.body.as_slice()).as_str())
        },
    }
}

/// The primary probe's text proves Internet access: after any leading byte-order marks it
/// reads exactly `Microsoft Connect Test`.
pub fn probe_text_ok(text: &str) -> (r: bool)
    ensures
        r == (strip_bom(text@) == PRIMARY_EXPECTED_BODY@),
{
    let chars = chars_of(text);
    let mut i: usize = 0;
    assert(chars@.skip(0) =~= chars@);
    while i < chars.len() && chars[i] == '\u{feff}'
        invariant
            i <= chars.len(),
            strip_bom(chars@) == strip_bom(chars@.skip(i as int)),
        decreases chars.len() - i,
    {
        assert(chars@.skip(i as int).drop_first() =~= chars@.skip(i + 1));
        i = i + 1;
    }
    let rest = crate::text::slice_chars(&chars, i, chars.len());
    assert(rest@ =~= chars@.skip(i as int));
    let expected = chars_of(PRIMARY_EXPECTED_BODY);
    chars_equal(&rest, &expected)
}

/// The fallback probe proves Internet access by any 2xx status.
pub open spec fn spec_fallback_probe_ok(response: Result<u32, ()>) -> bool {
    match response {
        Ok(code) => is_success_status(code),
        Err(_) => false,
    }
}

pub fn fallback_probe_ok(response: &AppResult<HttpResponse>) -> (r: bool)
    ensures
        r == spec_fallback_probe_ok(response_status(*response)),
{
    match response {
        Ok(resp) => 200 <= resp.status_code && resp.status_code < 300,
        Err(_) => false,
    }
}

fn chars_equal(a: &Vec<char>, b: &Vec<char>) -> (r: bool)
    ensures
        r == (a@ == b@),
{
    if a.len() != b.len() {
        return false;
    }
    for i in 0..a.len()
        invariant
            a.len() == b.len(),
            forall|k: int| 0 <= k < i ==> a@[k] == b@[k],
    {
        if a[i] != b[i] {
            return false;
        }
    }
    assert(a@ =~= b@);
    true
}

/// A character that may appear in percent-encoded text: an unreserved character, `%`, or an
/// upper-case hexadecimal digit.
pub open spec fn is_encoded_char(c: char) -> bool {
    ||| 'A' <= c <= 'Z'
    ||| 'a' <= c <= 'z'
    ||| '0' <= c <= '9'
    ||| c == '-'
    ||| c == '_'
    ||| c == '.'
    ||| c == '~'
    ||| c == '%'
}

/// Percent-encoding leaves no separator of a query in the text (no `&`, `=`, `@`, space and
/// the like): every character is unreserved, `%` or a hexadecimal digit.
pub proof fn law_percent_encoding_is_query_safe(bytes: Seq<u8>)
    ensures
        forall|i: int|
            0 <= i < percent_encoded(bytes).len() ==> is_encoded_char(
                #[trigger] percent_encoded(bytes)[i],
            ),
    decreases bytes.len(),
{
    if bytes.len() > 0 {
        law_percent_encoding_is_query_safe(bytes.drop_last());
        let prev = percent_encoded(bytes.drop_last());
        let e = encode_byte(bytes.last());
        let b = bytes.last();
        assert(forall|i: int| 0 <= i < e.len() ==> is_encoded_char(#[trigger] e[i])) by {
            if !is_unreserved(b) {
                let hi = b as int / 16;
                let lo = b as int % 16;
                assert(0 <= hi < 16 && 0 <= lo < 16);
            }
        }
        assert forall|i: int| 0 <= i < percent_encoded(bytes).len() implies is_encoded_char(
            #[trigger] percent_encoded(bytes)[i],
        ) by {
            if i < prev.len() {
                assert(percent_encoded(bytes)[i] == prev[i]);
            } else {
                assert(percent_encoded(bytes)[i] == e[i - prev.len()]);
            }
        }
    }
}

/// The value of an upper-case hexadecimal digit as percent-encoding writes it.
pub open spec fn hex_value(c: char) -> int {
    if '0' <= c <= '9' {
        c as int - 48
    } else {
        c as int - 55
    }
}

/// Reading percent-encoded text back into bytes: `%` and two hexadecimal digits stand for
/// one byte, every other character for itself.
pub open spec fn percent_decoded(s: Seq<char>) -> Seq<u8>
    decreases s.len(),
{
    if s.len() == 0 {
        Seq::empty()
    } else if s[0] == '%' && s.len() >= 3 {
        seq![(hex_value(s[1]) * 16 + hex_value(s[2])) as u8] + percent_decoded(s.skip(3))
    } else {
        seq![s[0] as u8] + percent_decoded(s.skip(1))
    }
}

proof fn lemma_percent_encoded_concat(a: Seq<u8>, b: Seq<u8>)
    ensures
        percent_encoded(a + b) == percent_encoded(a) + percent_encoded(b),
    decreases b.len(),
{
    if b.len() == 0 {
        assert(a + b =~= a);
        assert(percent_encoded(a) + percent_encoded(b) =~= percent_encoded(a));
    } else {
        lemma_percent_encoded_concat(a, b.drop_last());
        assert((a + b).drop_last() =~= a + b.drop_last());
        assert(percent_encoded(a + b) =~= percent_encoded(a) + percent_encoded(b));
    }
}

proof fn lemma_hex_digit_value(n: int)
    requires
        0 <= n < 16,
    ensures
        hex_value(hex_digit(n)) == n,
        hex_digit(n) != '%',
{
}

/// Reading a percent-encoding back gives exactly the bytes that were encoded, so the portal
/// receives the account and the password unchanged.
pub proof fn law_percent_encoding_round_trip(bytes: Seq<u8>)
    ensures
        percent_decoded(percent_encoded(bytes)) == bytes,
    decreases bytes.len(),
{
    if bytes.len() > 0 {
        let b = bytes[0];
        let rest = bytes.skip(1);
        assert(bytes =~= seq![b] + rest);
        lemma_percent_encoded_concat(seq![b], rest);
        assert(seq![b].drop_last() =~= Seq::<u8>::empty());
        assert(seq![b].last() == b);
        assert(percent_encoded(Seq::<u8>::empty()) =~= Seq::<char>::empty());
        assert(percent_encoded(seq![b]) =~= encode_byte(b));
        law_percent_encoding_round_trip(rest);
        let text = percent_encoded(bytes);
        let e = encode_byte(b);
        assert(text == e + percent_encoded(rest));
        if is_unreserved(b) {
            assert(text[0] == (b as u32) as char);
            assert(text[0] != '%');
            assert(text.skip(1) =~= percent_encoded(rest));
        } else {
            lemma_hex_digit_value(b as int / 16);
            lemma_hex_digit_value(b as int % 16);
            assert(text[0] == '%');
            assert(text[1] == hex_digit(b as int / 16));
            assert(text[2] == hex_digit(b as int % 16));
            assert(text.skip(3) =~= percent_encoded(rest));
        }
        assert(percent_decoded(text) =~= bytes);
    }
}

/// A parsed address always has a host, a port other than 0 and a path that starts with `/`;
/// it is secure exactly when the scheme is `https`.
pub proof fn law_parsed_url_shape(value: Seq<char>)
    ensures
        spec_parse_url(value) matches Ok(u) ==> {
            &&& u.host.len() > 0
            &&& u.port != 0
            &&& u.path_and_query.len() > 0
            &&& u.path_and_query[0] == '/'
            &&& u.secure == (trim(value).len() >= 8 && eq_ignore_ascii_case(
                trim(value).take(8),
                "https://"@,
            ))
        },
{
    let v = trim(value);
    if let Some((secure, default_port, rest)) = scheme_split(v) {
        if !(rest.len() == 0 || rest[0] == '/' || rest.contains('@') || rest.contains('#')) {
            let i = first_index(rest, path_start());
            crate::text::lemma_first_index_bounds(rest, path_start());
            if i < rest.len() && rest[i] != '?' {
                assert(path_start()(rest[i]));
                assert(rest.skip(i)[0] == rest[i]);
            }
        }
    }
}

/// An address without an explicit port gets its scheme's port: 443 for `https`, 80 for
/// `http`. (No `:` after the scheme means the authority names no port.)
pub proof fn law_default_ports(value: Seq<char>)
    ensures
        spec_parse_url(value) matches Ok(u) ==> {
            &&& u.secure && !trim(value).skip(8).contains(':') ==> u.port == 443
            &&& !u.secure && !trim(value).skip(7).contains(':') ==> u.port == 80
        },
{
    reveal_strlit("https://");
    reveal_strlit("http://");
    let v = trim(value);
    if let Some((secure, default_port, rest)) = scheme_split(v) {
        if !(rest.len() == 0 || rest[0] == '/' || rest.contains('@') || rest.contains('#')) {
            let i = first_index(rest, path_start());
            crate::text::lemma_first_index_bounds(rest, path_start());
            let a = authority_and_path(rest).0;
            if i >= rest.len() {
                assert(a =~= rest);
            }
            assert(forall|k: int| 0 <= k < a.len() ==> #[trigger] a[k] == rest[k]);
            crate::text::lemma_last_index_bounds(a, colon());
            let j = last_index(a, colon());
            if !rest.contains(':') && j >= 0 {
                assert(rest[j] == ':');
                assert(false);
            }
            if secure {
                assert(default_port == 443u16 && rest == v.skip(8));
            } else {
                assert(default_port == 80u16 && rest == v.skip(7));
            }
        }
    }
}

/// The fallback probe proves Internet access exactly for a status from 200 through 299; a
/// request that failed never does.
pub proof fn law_fallback_probe_accepts_2xx(code: u32)
    ensures
        spec_fallback_probe_ok(Ok(code)) == (200 <= code && code < 300),
        !spec_fallback_probe_ok(Err(())),
{
}

/// The primary probe proves Internet access only with status 200 and a body of at most 128
/// bytes; a request that failed never does.
pub proof fn law_primary_probe_needs_200(code: u32, body: Seq<u8>)
    ensures
        spec_primary_probe_ok(Ok((code, body))) ==> code == 200 && body.len() <= 128,
        !spec_primary_probe_ok(Err(())),
{
}

/// A login request succeeds exactly when the portal answers with a status from 200 through
/// 299; a logout also needs such a status, and with one, a body of at most 4096 bytes that
/// confirms the logout succeeds. A request that failed is an error for both.
pub proof fn law_portal_status_decides(code: u32, body: Seq<u8>)
    ensures
        spec_login_result(Ok(code)) is Ok <==> (200 <= code && code < 300),
        spec_logout_result(Ok((code, body))) is Ok <==> (200 <= code && code < 300
            && body.len() <= 4096 && spec_logout_success(body)),
        spec_login_result(Err(())) is Err,
        spec_logout_result(Err(())) is Err,
{
}

} // verus!
