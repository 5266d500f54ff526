use cloud_music::api::{
    player_info_request, playlist_detail_request, qr_login_check_request,
    qr_login_unikey_request, user_playlist_request, user_profile_request, ApiRequest,
};
use cloud_music::http::{cookie_string, cookies_to_store, post_body_fits, CloudMusic, Method};
use cloud_music::params::{query_string, Params};

fn pairs(p: &Params) -> Vec<(String, String)> {
    p.pairs().clone()
}

fn owned(v: &[(&str, &str)]) -> Vec<(String, String)> {
    v.iter().map(|(a, b)| (a.to_string(), b.to_string())).collect()
}

fn check(r: &ApiRequest, path: &str, expected: &[(&str, &str)]) {
    assert_eq!(r.path, path);
    assert_eq!(pairs(&r.params), owned(expected));
}

#[test]
fn params_insert_new_and_replace() {
    let mut p = Params::new();
    assert!(p.is_empty());
    assert_eq!(p.insert("a".to_string(), "1".to_string()), None);
    assert_eq!(p.insert("b".to_string(), "2".to_string()), None);
    assert_eq!(p.insert("a".to_string(), "3".to_string()), Some("1".to_string()));
    assert_eq!(p.len(), 2);
    assert_eq!(p.get(&"a".to_string()), Some(&"3".to_string()));
    assert_eq!(p.get(&"b".to_string()), Some(&"2".to_string()));
    assert_eq!(p.get(&"c".to_string()), None);
    assert_eq!(pairs(&p), owned(&[("a", "3"), ("b", "2")]));
}

#[test]
fn query_string_joins_pairs() {
    let mut p = Params::new();
    assert_eq!(query_string(&p), "");
    p.insert("id".to_string(), "7".to_string());
    assert_eq!(query_string(&p), "id=7");
    p.insert("n".to_string(), "100000".to_string());
    p.insert("s".to_string(), "0".to_string());
    assert_eq!(query_string(&p), "id=7&n=100000&s=0");
}

#[test]
fn endpoint_requests() {
    check(&qr_login_unikey_request(), "/weapi/login/qrcode/unikey", &[("type", "1")]);
    check(
        &qr_login_check_request("abc"),
        "/weapi/login/qrcode/client/login",
        &[("type", "1"), ("key", "abc")],
    );
    check(&user_profile_request(), "/weapi/nuser/account/get", &[("type", "1")]);
    check(
        &user_playlist_request("42"),
        "/weapi/user/playlist",
        &[("uid", "42"), ("limit", "30"), ("offset", "0"), ("includeVideo", "true")],
    );
    check(
        &playlist_detail_request("9"),
        "/weapi/v6/playlist/detail",
        &[("id", "9"), ("n", "100000"), ("s", "0")],
    );
    check(
        &player_info_request("1234"),
        "/weapi/song/enhance/player/url",
        &[("ids", "[1234]"), ("br", "999000")],
    );
}

#[test]
fn resolve_relative_and_absolute_urls() {
    let c = CloudMusic::default();
    assert_eq!(c.resolve_url("/weapi/user/playlist"), "https://music.163.com/weapi/user/playlist");
    assert_eq!(c.resolve_url("http://example.com/a"), "http://example.com/a");
    assert_eq!(c.resolve_url("https://music.163.com/x"), "https://music.163.com/x");
    assert_eq!(c.resolve_url("htt"), "https://music.163.comhtt");
    let once = c.resolve_url("/a");
    assert_eq!(c.resolve_url(&once), once);
}

fn enc_sec_key_field(body: &str) -> &str {
    body.split("&encSecKey=").nth(1).unwrap()
}

#[test]
fn post_adds_csrf_token_and_headers() {
    let c = CloudMusic::default();
    let mut p = Params::new();
    p.insert("type".to_string(), "1".to_string());
    assert!(post_body_fits(&p));
    let r = c.post("/weapi/nuser/account/get", &mut p, "MUSIC_U=x;");
    assert!(matches!(r.method, Method::Post));
    assert_eq!(r.url, "https://music.163.com/weapi/nuser/account/get");
    assert_eq!(pairs(&p), owned(&[("type", "1"), ("csrf_token", "")]));
    let body = r.body.unwrap();
    assert!(body.starts_with("params="));
    assert_ne!(body, "type=1&csrf_token=");
    let key = enc_sec_key_field(&body);
    assert_eq!(key.len(), 256);
    assert!(key.chars().all(|c| c.is_ascii_hexdigit() && !c.is_ascii_uppercase()));
    assert_eq!(
        r.headers,
        owned(&[
            ("content-type", "application/x-www-form-urlencoded"),
            ("accept", "*/*"),
            ("referer", "https://music.163.com"),
            (
                "user-agent",
                "User-Agent: Mozilla/5.0 (X11; Linux x86_64; rv:65.0) Gecko/20100101 Firefox/65.0",
            ),
            ("host", "music.163.com"),
            ("accept-encoding", "gzip,deflate"),
            ("cookie", "MUSIC_U=x;"),
        ])
    );
}

#[test]
fn post_replaces_an_existing_csrf_token() {
    let c = CloudMusic::default();
    let mut p = Params::new();
    p.insert("csrf_token".to_string(), "old".to_string());
    let r = c.post("/x", &mut p, "");
    assert_eq!(pairs(&p), owned(&[("csrf_token", "")]));
    assert!(r.body.unwrap().contains("&encSecKey="));
}

#[test]
fn post_uses_a_fresh_secret_key_each_time() {
    let c = CloudMusic::default();
    let mut p = Params::new();
    let a = c.post("/x", &mut p, "").body.unwrap();
    let b = c.post("/x", &mut p, "").body.unwrap();
    assert_ne!(enc_sec_key_field(&a), enc_sec_key_field(&b));
}

#[test]
fn get_puts_params_in_url() {
    let c = CloudMusic::default();
    let mut p = Params::new();
    let r = c.get("/a", &p, "");
    assert!(matches!(r.method, Method::Get));
    assert_eq!(r.url, "https://music.163.com/a");
    assert_eq!(r.body, None);
    p.insert("k".to_string(), "v".to_string());
    p.insert("q".to_string(), "w".to_string());
    let r = c.get("/a", &p, "");
    assert_eq!(r.url, "https://music.163.com/a?k=v&q=w");
    assert_eq!(r.headers.len(), 7);
}

#[test]
fn cookie_line_format() {
    assert_eq!(cookie_string(&vec![]), "");
    assert_eq!(cookie_string(&owned(&[("a", "1")])), "a=1;");
    assert_eq!(cookie_string(&owned(&[("a", "1"), ("b", "2")])), "a=1; b=2;");
}

#[test]
fn cookies_kept_only_from_login_check() {
    let cookies = owned(&[("MUSIC_U", "abc"), ("__csrf", "d")]);
    let login = "https://music.163.com/weapi/login/qrcode/client/login";
    assert_eq!(cookies_to_store(login, &cookies), Some("MUSIC_U=abc; __csrf=d;".to_string()));
    assert_eq!(cookies_to_store(login, &vec![]), None);
    assert_eq!(cookies_to_store("https://music.163.com/weapi/user/playlist", &cookies), None);
    assert_eq!(cookies_to_store("/weapi/login/qrcode/client/login", &cookies), None);
}
