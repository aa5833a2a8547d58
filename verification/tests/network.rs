use campus_net_auto_login::network::{logout_confirmed, probe_text_ok, JsonMember};
use campus_net_auto_login::network::{
    build_login_url, build_logout_url, fallback_probe_ok, is_valid_https_url, login_result,
    logout_result, parse_logout_success, percent_encode, primary_probe_ok, HttpResponse, ParsedUrl,
    CAMPUS_LOGIN_PAGE_URL,
};

#[test]
fn login_url_percent_encodes_credentials() {
    let url = build_login_url("user name@cmcc", "p@ss word&=");
    assert!(url.contains("user_account=user%20name%40cmcc"));
    assert!(url.contains("user_password=p%40ss%20word%26%3D"));
    assert!(!url.contains("p@ss word&="));
}

#[test]
fn logout_url_and_response_require_explicit_success() {
    assert_eq!(CAMPUS_LOGIN_PAGE_URL, "http://10.2.5.251/");
    assert_eq!(build_logout_url(), "http://10.2.5.251:801/eportal/?c=Portal&a=logout");
    assert!(parse_logout_success(br#"{"result":1}"#));
    assert!(parse_logout_success(br#"dr1003({"result":"ok"})"#));
    assert!(parse_logout_success(br#"{"result":"1"}"#));
    assert!(!parse_logout_success(br#"{"result":0}"#));
    assert!(!parse_logout_success(br#"{"result":"fail"}"#));
    assert!(!parse_logout_success(b"not json"));
}

#[test]
fn parses_http_urls_without_external_url_runtime() {
    assert_eq!(
        ParsedUrl::parse("https://example.com:8443/ping?q=1").unwrap(),
        ParsedUrl {
            secure: true,
            host: "example.com".to_string(),
            port: 8443,
            path_and_query: "/ping?q=1".to_string(),
        }
    );
    assert_eq!(ParsedUrl::parse("http://10.2.5.251:801/eportal/").unwrap().port, 801);
    assert_eq!(
        ParsedUrl::parse("HTTPS://example.com?probe=1").unwrap().path_and_query,
        "/?probe=1"
    );
    assert!(ParsedUrl::parse("ftp://example.com").is_err());
    assert!(ParsedUrl::parse("https://example.com:bad/ping").is_err());
}

#[test]
fn url_errors_name_their_cause() {
    assert_eq!(ParsedUrl::parse("http://a\u{7}b").unwrap_err(), "网络地址不能包含控制字符。");
    assert_eq!(ParsedUrl::parse("gopher://a").unwrap_err(), "网络地址必须使用 HTTP 或 HTTPS。");
    assert_eq!(ParsedUrl::parse("http://u@h").unwrap_err(), "网络地址缺少有效主机名。");
    assert_eq!(ParsedUrl::parse("http:///x").unwrap_err(), "网络地址缺少有效主机名。");
    assert_eq!(ParsedUrl::parse("http://h:0/").unwrap_err(), "网络地址端口无效。");
    assert_eq!(ParsedUrl::parse("http://h:70000/").unwrap_err(), "网络地址端口无效。");
    assert_eq!(ParsedUrl::parse("http://:80/").unwrap_err(), "网络地址端口无效。");
    assert_eq!(ParsedUrl::parse("http://h_x/").unwrap_err(), "网络地址主机名无效。");
    let plain = ParsedUrl::parse("  http://www.msftconnecttest.com/connecttest.txt ").unwrap();
    assert!(!plain.secure);
    assert_eq!(plain.port, 80);
    assert_eq!(plain.host, "www.msftconnecttest.com");
    assert_eq!(ParsedUrl::parse("https://h").unwrap().path_and_query, "/");
    assert!(is_valid_https_url("https://h:443/x"));
    assert!(!is_valid_https_url("http://h/x"));
}

#[test]
fn percent_encoding_escapes_utf8_bytes() {
    assert_eq!(percent_encode("Az09-_.~"), "Az09-_.~");
    assert_eq!(percent_encode("密"), "%E5%AF%86");
    assert_eq!(percent_encode(""), "");
    assert_eq!(
        build_login_url("a", "b"),
        "http://10.2.5.251:801/eportal/?c=Portal&a=login&login_method=1&user_account=a&user_password=b"
    );
}

fn response(status_code: u32, body: &[u8]) -> Result<HttpResponse, String> {
    Ok(HttpResponse { status_code, body: body.to_vec() })
}

#[test]
fn login_and_logout_outcomes() {
    assert!(login_result(response(200, b"")).is_ok());
    assert_eq!(login_result(response(302, b"")).unwrap_err(), "登录请求返回 HTTP 302。");
    assert_eq!(login_result(response(503, b"")).unwrap_err(), "登录请求返回 HTTP 503。");
    assert_eq!(
        login_result(Err("x".to_string())).unwrap_err(),
        "无法连接校园网认证服务器，或登录请求超时。"
    );
    assert!(logout_result(response(200, br#"dr1003({"result":1})"#)).is_ok());
    assert_eq!(logout_result(response(404, b"")).unwrap_err(), "注销请求返回 HTTP 404。");
    assert_eq!(
        logout_result(response(200, &[b' '; 4097])).unwrap_err(),
        "认证服务器返回的注销结果过大。"
    );
    assert_eq!(
        logout_result(response(200, br#"{"result":"no"}"#)).unwrap_err(),
        "认证服务器未确认注销成功。"
    );
    assert_eq!(
        logout_result(Err("x".to_string())).unwrap_err(),
        "无法连接校园网认证服务器，或注销请求超时。"
    );
}

#[test]
fn probe_answers() {
    assert!(primary_probe_ok(&response(200, b"Microsoft Connect Test")));
    assert!(primary_probe_ok(&response(200, b"\xef\xbb\xbfMicrosoft Connect Test")));
    assert!(!primary_probe_ok(&response(200, b"Microsoft Connect Test\n")));
    assert!(!primary_probe_ok(&response(302, b"Microsoft Connect Test")));
    assert!(!primary_probe_ok(&Err("x".to_string())));
    assert!(fallback_probe_ok(&response(204, b"")));
    assert!(!fallback_probe_ok(&response(301, b"")));
    assert!(!parse_logout_success(br#"}{"result":1"#));
    assert!(parse_logout_success(br#"{"result":"OK"}"#));
}

fn decode_percent(text: &str) -> Vec<u8> {
    let bytes = text.as_bytes();
    let mut out = Vec::new();
    let mut i = 0;
    while i < bytes.len() {
        if bytes[i] == b'%' && i + 2 < bytes.len() {
            let hex = std::str::from_utf8(&bytes[i + 1..i + 3]).unwrap();
            out.push(u8::from_str_radix(hex, 16).unwrap());
            i += 3;
        } else {
            out.push(bytes[i]);
            i += 1;
        }
    }
    out
}

#[test]
fn percent_encoding_reads_back_exactly() {
    for value in ["p@ss word&=", "校园网-密码_1.~", "", "%41", "a+b/c?d#e"] {
        let encoded = percent_encode(value);
        assert_eq!(decode_percent(&encoded), value.as_bytes());
    }
}

#[test]
fn logout_member_and_probe_text_rules() {
    assert!(logout_confirmed(Some(JsonMember::Number(Some(1)))));
    assert!(!logout_confirmed(Some(JsonMember::Number(Some(2)))));
    assert!(!logout_confirmed(Some(JsonMember::Number(None))));
    assert!(logout_confirmed(Some(JsonMember::Text("OK".to_string()))));
    assert!(logout_confirmed(Some(JsonMember::Text("1".to_string()))));
    assert!(!logout_confirmed(Some(JsonMember::Text("fail".to_string()))));
    assert!(!logout_confirmed(Some(JsonMember::Absent)));
    assert!(!logout_confirmed(Some(JsonMember::Other)));
    assert!(!logout_confirmed(None));
    assert!(probe_text_ok("Microsoft Connect Test"));
    assert!(probe_text_ok("\u{feff}\u{feff}Microsoft Connect Test"));
    assert!(!probe_text_ok("Microsoft Connect Test\n"));
    assert!(!probe_text_ok(""));
}
