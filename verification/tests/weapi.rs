use aes::Aes128;
use base64::Engine;
use cbc::cipher::block_padding::Pkcs7;
use cbc::cipher::{BlockDecryptMut, KeyIvInit};
use cloud_music::downloader::download_request;
use cloud_music::http::Method;
use cloud_music::params::Params;
use cloud_music::player::Task;
use cloud_music::weapi::{
    enc_sec_key, form_encode, hex_encode, json_text, secret_key, weapi_body,
};
use num_bigint::BigUint;

const IV: &[u8] = b"0102030405060708";
const PRESET: &[u8] = b"0CoJUm6Qyw8W8jud";
const MODULUS: &str = "00e0b509f6259df8642dbc35662901477df22677ec152b5ff68ace615bb7b725152b3ab17a876aea8a5aa76d2e417629ec4ee341f56135fccf695280104e0312ecbda92557c93870114af6c9d05c4f7f0c3685b7a46bee255932575cce10b424d813cfe4875d3e82047b97ddef52741d546b8e289dc6935b3ece0462db0a22b8e7";

fn params(pairs: &[(&str, &str)]) -> Params {
    let mut p = Params::new();
    for (k, v) in pairs {
        p.insert(k.to_string(), v.to_string());
    }
    p
}

fn form_decode(s: &str) -> Vec<u8> {
    let b = s.as_bytes();
    let mut out = Vec::new();
    let mut i = 0;
    while i < b.len() {
        if b[i] == b'%' {
            let h = std::str::from_utf8(&b[i + 1..i + 3]).unwrap();
            out.push(u8::from_str_radix(h, 16).unwrap());
            i += 3;
        } else if b[i] == b'+' {
            out.push(b' ');
            i += 1;
        } else {
            out.push(b[i]);
            i += 1;
        }
    }
    out
}

fn aes_decrypt(key: &[u8], data: &[u8]) -> Vec<u8> {
    cbc::Decryptor::<Aes128>::new(key.into(), IV.into())
        .decrypt_padded_vec_mut::<Pkcs7>(data)
        .unwrap()
}

fn b64(data: &[u8]) -> Vec<u8> {
    base64::engine::general_purpose::STANDARD.decode(data).unwrap()
}

#[test]
fn json_text_escapes_strings() {
    assert_eq!(json_text(&params(&[])), "{}");
    assert_eq!(json_text(&params(&[("type", "1")])), r#"{"type":"1"}"#);
    assert_eq!(
        json_text(&params(&[("ids", "[1]"), ("q", "a\"b\\c\nd\u{1}é")])),
        "{\"ids\":\"[1]\",\"q\":\"a\\\"b\\\\c\\nd\\u0001é\"}"
    );
    let expected = serde_json::to_string("tab\there\r\u{8}\u{c}\u{1f}").unwrap();
    let t = json_text(&params(&[("k", "tab\there\r\u{8}\u{c}\u{1f}")]));
    assert_eq!(t, format!("{{\"k\":{}}}", expected));
}

#[test]
fn form_and_hex_encoding() {
    assert_eq!(form_encode(&b"aZ09*-._ +/=%".to_vec()), "aZ09*-._+%2B%2F%3D%25");
    assert_eq!(hex_encode(&vec![0, 15, 16, 255]), "000f10ff");
}

#[test]
fn secret_key_letters() {
    let k = secret_key(&vec![0, 25, 26, 51, 52, 61, 62, 255]);
    assert_eq!(k, b"azAZ09ah".to_vec());
}

#[test]
fn body_decrypts_to_the_json_parameters() {
    let key = b"abcdefghABCDEF01".to_vec();
    let p = params(&[("type", "1"), ("csrf_token", "")]);
    let body = weapi_body(&p, &key);
    let rest = body.strip_prefix("params=").unwrap();
    let (enc_params, enc_key) = rest.split_once("&encSecKey=").unwrap();
    let first = aes_decrypt(&key, &b64(&form_decode(enc_params)));
    let text = aes_decrypt(PRESET, &b64(&first));
    assert_eq!(String::from_utf8(text).unwrap(), r#"{"type":"1","csrf_token":""}"#);
    assert_eq!(enc_key, enc_sec_key(&key));
}

#[test]
fn enc_sec_key_is_rsa_of_reversed_key() {
    let key = b"0123456789abcdef".to_vec();
    let mut reversed = key.clone();
    reversed.reverse();
    let n = BigUint::parse_bytes(MODULUS.as_bytes(), 16).unwrap();
    let v = BigUint::from_bytes_be(&reversed).modpow(&BigUint::from(65537u32), &n);
    let expected = format!("{:0>256}", v.to_str_radix(16));
    assert_eq!(enc_sec_key(&key), expected);
    assert_ne!(enc_sec_key(&key), enc_sec_key(&b"0123456789abcdeg".to_vec()));
}

#[test]
fn download_request_is_a_plain_get() {
    let r = download_request("http://m/1.mp3");
    assert!(matches!(r.method, Method::Get));
    assert_eq!(r.url, "http://m/1.mp3");
    assert_eq!(r.headers.len(), 6);
    assert_eq!(r.headers[0], ("cache-control".to_string(), "no-cache".to_string()));
    assert!(r.body.is_none());
}

#[test]
fn cache_plan_fetches_only_uncached_files() {
    let t = Task { key: "abc.mp3".to_string(), url: "http://m/1.mp3".to_string() };
    let cached = t.plan(true);
    assert_eq!(cached.path, "cache/abc.mp3");
    assert_eq!(cached.fetch_from, None);
    let fresh = t.plan(false);
    assert_eq!(fresh.path, "cache/abc.mp3");
    assert_eq!(fresh.fetch_from, Some("http://m/1.mp3".to_string()));
}
