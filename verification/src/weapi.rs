//! The `weapi` request body: the parameters as a JSON object, encrypted
//! twice with AES-128-CBC (a fixed key, then a random one), the random key
//! encrypted with the service's RSA public key, both sent form-encoded.

use vstd::prelude::*;
use vstd::arithmetic::power::pow;
use vstd::utf8::encode_utf8;
use aes::Aes128;
use base64::Engine;
use cbc::cipher::block_padding::Pkcs7;
use cbc::cipher::{BlockEncryptMut, KeyIvInit};
use num_bigint::BigUint;
use crate::params::{Params, pairs_view};
use crate::text::push_char;

verus! {

// ---------------------------------------------------------------- JSON text

/// The lower-case hexadecimal digit of `d` (for `d < 16`).
pub open spec fn hex_lower(d: nat) -> char {
    if d < 10 {
        (48 + d) as char
    } else {
        (87 + d) as char
    }
}

/// How one character is written inside a JSON string: quote and backslash
/// escaped, the control characters by their short escapes or `\u00xx`.
pub open spec fn json_escape(c: char) -> Seq<char> {
    if c == '"' {
        seq!['\\', '"']
    } else if c == '\\' {
        seq!['\\', '\\']
    } else if c == '\n' {
        seq!['\\', 'n']
    } else if c == '\r' {
        seq!['\\', 'r']
    } else if c == '\t' {
        seq!['\\', 't']
    } else if c == '\x08' {
        seq!['\\', 'b']
    } else if c == '\x0c' {
        seq!['\\', 'f']
    } else if (c as nat) < 32 {
        seq!['\\', 'u', '0', '0', hex_lower((c as nat) / 16), hex_lower((c as nat) % 16)]
    } else {
        seq![c]
    }
}

/// The escaped characters of a string.
pub open spec fn json_escaped(s: Seq<char>) -> Seq<char>
    decreases s.len(),
{
    if s.len() == 0 {
        Seq::empty()
    } else {
        json_escaped(s.drop_last()) + json_escape(s.last())
    }
}

/// A JSON string literal.
pub open spec fn json_string(s: Seq<char>) -> Seq<char> {
    seq!['"'] + json_escaped(s) + seq!['"']
}

/// One member `"name":"value"` of a JSON object.
pub open spec fn json_member(p: (Seq<char>, Seq<char>)) -> Seq<char> {
    json_string(p.0) + seq![':'] + json_string(p.1)
}

/// The members of a JSON object, separated by commas.
pub open spec fn json_members(s: Seq<(Seq<char>, Seq<char>)>) -> Seq<char>
    decreases s.len(),
{
    if s.len() == 0 {
        Seq::empty()
    } else if s.len() == 1 {
        json_member(s[0])
    } else {
        json_members(s.drop_last()) + seq![','] + json_member(s.last())
    }
}

/// The parameters as a JSON object of strings, in order.
pub open spec fn json_object(s: Seq<(Seq<char>, Seq<char>)>) -> Seq<char> {
    seq!['{'] + json_members(s) + seq!['}']
}

fn hex_digit(d: u32) -> (c: char)
    requires
        d < 16,
    ensures
        c == hex_lower(d as nat),
{
    if d < 10 {
        ((48 + d) as u8) as char
    } else {
        ((87 + d) as u8) as char
    }
}

fn push_escaped(out: &mut String, c: char)
    ensures
        final(out)@ == old(out)@ + json_escape(c),
{
    let ghost start = out@;
    if c == '"' {
        push_char(out, '\\');
        push_char(out, '"');
    } else if c == '\\' {
        push_char(out, '\\');
        push_char(out, '\\');
    } else if c == '\n' {
        push_char(out, '\\');
        push_char(out, 'n');
    } else if c == '\r' {
        push_char(out, '\\');
        push_char(out, 'r');
    } else if c == '\t' {
        push_char(out, '\\');
        push_char(out, 't');
    } else if c == '\x08' {
        push_char(out, '\\');
        push_char(out, 'b');
    } else if c == '\x0c' {
        push_char(out, '\\');
        push_char(out, 'f');
    } else if (c as u32) < 32 {
        let n = c as u32;
        push_char(out, '\\');
        push_char(out, 'u');
        push_char(out, '0');
        push_char(out, '0');
        push_char(out, hex_digit(n / 16));
        push_char(out, hex_digit(n % 16));
    } else {
        push_char(out, c);
    }
    assert(out@ =~= start + json_escape(c));
}

fn push_json_string(out: &mut String, s: &str)
    ensures
        final(out)@ == old(out)@ + json_string(s@),
{
    let ghost start = out@;
    push_char(out, '"');
    let n = s.unicode_len();
    let mut i: usize = 0;
    while i < n
        invariant
            n == s@.len(),
            i <= n,
            out@ == start + seq!['"'] + json_escaped(s@.take(i as int)),
        decreases n - i,
    {
        let c = s.get_char(i);
        push_escaped(out, c);
        proof {
            let t = s@.take(i + 1);
            assert(t.drop_last() =~= s@.take(i as int));
            assert(t.last() == c);
            assert(out@ =~= start + seq!['"'] + json_escaped(t));
        }
        i = i + 1;
    }
    push_char(out, '"');
    assert(s@.take(n as int) =~= s@);
    assert(out@ =~= start + json_string(s@));
}

/// The parameters as JSON text.
pub fn json_text(params: &Params) -> (t: String)
    ensures
        t@ == json_object(params@),
{
    let v = params.pairs();
    let n = v.len();
    let mut t = String::new();
    push_char(&mut t, '{');
    let mut i: usize = 0;
    while i < n
        invariant
            n == v@.len(),
            pairs_view(v@) == params@,
            i <= n,
            t@ == seq!['{'] + json_members(params@.take(i as int)),
        decreases n - i,
    {
        let ghost before = t@;
        if i > 0 {
            push_char(&mut t, ',');
        }
        push_json_string(&mut t, v[i].0.as_str());
        push_char(&mut t, ':');
        push_json_string(&mut t, v[i].1.as_str());
        proof {
            let s = params@.take(i + 1);
            assert(s.drop_last() =~= params@.take(i as int));
            assert(s.last() == params@[i as int]);
            assert(params@[i as int] == (v@[i as int].0@, v@[i as int].1@));
            assert(t@ =~= seq!['{'] + json_members(s));
        }
        i = i + 1;
    }
    push_char(&mut t, '}');
    assert(params@.take(n as int) =~= params@);
    assert(t@ =~= json_object(params@));
    t
}

// ------------------------------------------------------- bytes as text

/// The upper-case hexadecimal digit of `d` (for `d < 16`).
pub open spec fn hex_upper(d: nat) -> char {
    if d < 10 {
        (48 + d) as char
    } else {
        (55 + d) as char
    }
}

/// The bytes that form encoding leaves as they are: letters, digits and
/// `*-._`.
pub open spec fn form_unreserved(b: u8) -> bool {
    ||| 48 <= b <= 57
    ||| 65 <= b <= 90
    ||| 97 <= b <= 122
    ||| b == 42
    ||| b == 45
    ||| b == 46
    ||| b == 95
}

/// How one byte is written in a form-encoded value: as itself, a space as
/// `+`, any other byte as `%XX`.
pub open spec fn form_byte(b: u8) -> Seq<char> {
    if form_unreserved(b) {
        seq![b as char]
    } else if b == 32 {
        seq!['+']
    } else {
        seq!['%', hex_upper((b as nat) / 16), hex_upper((b as nat) % 16)]
    }
}

/// A byte string, form-encoded (`application/x-www-form-urlencoded`).
pub open spec fn form_encoded(s: Seq<u8>) -> Seq<char>
    decreases s.len(),
{
    if s.len() == 0 {
        Seq::empty()
    } else {
        form_encoded(s.drop_last()) + form_byte(s.last())
    }
}

/// A byte string in lower-case hexadecimal, two digits a byte.
pub open spec fn hex_bytes(s: Seq<u8>) -> Seq<char>
    decreases s.len(),
{
    if s.len() == 0 {
        Seq::empty()
    } else {
        hex_bytes(s.drop_last()) + seq![
            hex_lower((s.last() as nat) / 16),
            hex_lower((s.last() as nat) % 16),
        ]
    }
}

fn upper_digit(d: u8) -> (c: char)
    requires
        d < 16,
    ensures
        c == hex_upper(d as nat),
{
    if d < 10 {
        (48 + d) as char
    } else {
        (55 + d) as char
    }
}

/// Form-encodes a byte string.
pub fn form_encode(s: &Vec<u8>) -> (t: String)
    ensures
        t@ == form_encoded(s@),
{
    let n = s.len();
    let mut t = String::new();
    let mut i: usize = 0;
    while i < n
        invariant
            n == s@.len(),
            i <= n,
            t@ == form_encoded(s@.take(i as int)),
        decreases n - i,
    {
        let b = s[i];
        let ghost before = t@;
        if (48 <= b && b <= 57) || (65 <= b && b <= 90) || (97 <= b && b <= 122) || b == 42 || b
            == 45 || b == 46 || b == 95 {
            push_char(&mut t, b as char);
        } else if b == 32 {
            push_char(&mut t, '+');
        } else {
            push_char(&mut t, '%');
            push_char(&mut t, upper_digit(b / 16));
            push_char(&mut t, upper_digit(b % 16));
        }
        proof {
            let u = s@.take(i + 1);
            assert(u.drop_last() =~= s@.take(i as int));
            assert(u.last() == b);
            assert(t@ =~= before + form_byte(b));
        }
        i = i + 1;
    }
    assert(s@.take(n as int) =~= s@);
    t
}

/// Writes a byte string in lower-case hexadecimal.
pub fn hex_encode(s: &Vec<u8>) -> (t: String)
    ensures
        t@ == hex_bytes(s@),
{
    let n = s.len();
    let mut t = String::new();
    let mut i: usize = 0;
    while i < n
        invariant
            n == s@.len(),
            i <= n,
            t@ == hex_bytes(s@.take(i as int)),
        decreases n - i,
    {
        let b = s[i];
        let ghost before = t@;
        push_char(&mut t, hex_digit((b / 16) as u32));
        push_char(&mut t, hex_digit((b % 16) as u32));
        proof {
            let u = s@.take(i + 1);
            assert(u.drop_last() =~= s@.take(i as int));
            assert(u.last() == b);
            assert(t@ =~= hex_bytes(u));
        }
        i = i + 1;
    }
    assert(s@.take(n as int) =~= s@);
    t
}

// ------------------------------------------------------- big-endian numbers

/// The number that a byte string writes in base 256, most significant
/// byte first.
pub open spec fn be_value(s: Seq<u8>) -> nat
    decreases s.len(),
{
    if s.len() == 0 {
        0
    } else {
        be_value(s.drop_last()) * 256 + (s.last() as nat)
    }
}

/// The last `n` base-256 digits of `v`, most significant first.
pub open spec fn be_bytes(v: nat, n: nat) -> Seq<u8>
    decreases n,
{
    if n == 0 {
        Seq::empty()
    } else {
        be_bytes(v / 256, (n - 1) as nat).push((v % 256) as u8)
    }
}

/// `n` zero bytes.
pub open spec fn zeros(n: nat) -> Seq<u8> {
    Seq::new(n, |i: int| 0u8)
}

/// The last `n` digits of the number a byte string writes: its last `n`
/// bytes, or the whole string after enough zeros.
pub proof fn lemma_be_bytes_of_value(s: Seq<u8>, n: nat)
    ensures
        be_bytes(be_value(s), n) == if s.len() >= n {
            s.subrange(s.len() - n, s.len() as int)
        } else {
            zeros((n - s.len()) as nat) + s
        },
    decreases n,
{
    if n == 0 {
        assert(s.subrange(s.len() as int, s.len() as int) =~= Seq::<u8>::empty());
    } else if s.len() == 0 {
        lemma_be_bytes_of_value(s, (n - 1) as nat);
        assert(be_value(s) == 0);
        assert(zeros((n - 1) as nat).push(0u8) =~= zeros(n) + s);
    } else {
        let p = s.drop_last();
        let v = be_value(s);
        let b = s.last();
        assert(v == be_value(p) * 256 + b);
        assert(v / 256 == be_value(p) && v % 256 == b as nat) by (nonlinear_arith)
            requires
                v == be_value(p) * 256 + b,
                0 <= b < 256,
        ;
        lemma_be_bytes_of_value(p, (n - 1) as nat);
        if s.len() >= n {
            assert(p.subrange(p.len() - (n - 1), p.len() as int).push(b) =~= s.subrange(
                s.len() - n,
                s.len() as int,
            ));
        } else {
            assert((zeros((n - 1 - p.len()) as nat) + p).push(b) =~= zeros((n - s.len()) as nat)
                + s);
        }
    }
}

/// A byte string that writes zero holds zeros only.
pub proof fn lemma_be_value_zero(s: Seq<u8>)
    requires
        be_value(s) == 0,
    ensures
        forall|i: int| 0 <= i < s.len() ==> s[i] == 0,
    decreases s.len(),
{
    if s.len() > 0 {
        lemma_be_value_zero(s.drop_last());
        assert forall|i: int| 0 <= i < s.len() implies s[i] == 0 by {
            if i < s.len() - 1 {
                assert(s[i] == s.drop_last()[i]);
            }
        }
    }
}

/// The last 128 base-256 digits of the number that `r` writes.
fn be_fixed_128(r: &Vec<u8>) -> (out: Vec<u8>)
    ensures
        out@ == be_bytes(be_value(r@), 128),
{
    proof {
        lemma_be_bytes_of_value(r@, 128);
    }
    let n = r.len();
    let mut out: Vec<u8> = Vec::new();
    if n >= 128 {
        let mut i: usize = n - 128;
        while i < n
            invariant
                n == r@.len(),
                n >= 128,
                n - 128 <= i <= n,
                out@ == r@.subrange(n - 128, i as int),
            decreases n - i,
        {
            out.push(r[i]);
            assert(out@ =~= r@.subrange(n - 128, i + 1));
            i = i + 1;
        }
    } else {
        let mut k: usize = 0;
        while k < 128 - n
            invariant
                n < 128,
                k <= 128 - n,
                out@ == zeros(k as nat),
            decreases 128 - n - k,
        {
            out.push(0u8);
            assert(out@ =~= zeros((k + 1) as nat));
            k = k + 1;
        }
        let mut i: usize = 0;
        while i < n
            invariant
                n == r@.len(),
                n < 128,
                i <= n,
                out@ == zeros((128 - n) as nat) + r@.take(i as int),
            decreases n - i,
        {
            out.push(r[i]);
            assert(out@ =~= zeros((128 - n) as nat) + r@.take(i + 1));
            i = i + 1;
        }
        assert(r@.take(n as int) =~= r@);
    }
    out
}

// ------------------------------------------------------- outside primitives

/// The AES-128-CBC encryption, with PKCS#7 padding, of `plain` under `key`
/// and `iv`.
pub uninterp spec fn aes128_cbc_pkcs7(key: Seq<u8>, iv: Seq<u8>, plain: Seq<u8>) -> Seq<u8>;

/// The standard Base64 encoding (with `=` padding) of `data`, as ASCII bytes.
pub uninterp spec fn base64_standard(data: Seq<u8>) -> Seq<u8>;

/// Encrypts `data` with AES-128 in CBC mode under `key` and `iv`, padded
/// with PKCS#7.
///
/// Trusted: calls `cbc::Encryptor::<aes::Aes128>::encrypt_padded_vec_mut`
/// with `Pkcs7`; the ciphertext is named `aes128_cbc_pkcs7`. PKCS#7 always
/// adds between 1 and 16 bytes, so the ciphertext fills the next whole
/// block.
#[verifier::external_body]
fn aes_cbc_encrypt(key: &[u8], iv: &[u8], data: &[u8]) -> (c: Vec<u8>)
    requires
        key@.len() == 16,
        iv@.len() == 16,
        data@.len() / 16 + 1 <= usize::MAX / 16,
    ensures
        c@ == aes128_cbc_pkcs7(key@, iv@, data@),
        c@.len() == 16 * (data@.len() / 16 + 1),
{
    cbc::Encryptor::<Aes128>::new(key.into(), iv.into()).encrypt_padded_vec_mut::<Pkcs7>(data)
}

/// Encodes `data` in standard Base64 with padding.
///
/// Trusted: calls `base64::engine::general_purpose::STANDARD.encode`; the
/// text is named `base64_standard` and taken as its bytes. It is four
/// characters for every started group of three bytes; the crate panics
/// where that count overflows a `usize`.
#[verifier::external_body]
fn base64_encode(data: &[u8]) -> (e: Vec<u8>)
    requires
        data@.len() <= usize::MAX / 2,
    ensures
        e@ == base64_standard(data@),
        e@.len() == 4 * ((data@.len() + 2) / 3),
{
    base64::engine::general_purpose::STANDARD.encode(data).into_bytes()
}

/// Raises the number that `base` writes to the power that `exponent` writes,
/// modulo the number that `modulus` writes; all big-endian.
///
/// Trusted: calls `num_bigint::BigUint::modpow` on `BigUint::from_bytes_be`
/// of each argument and returns `to_bytes_be` of the result. The crate
/// documents `(self ^ exponent) % modulus` and a panic for a zero modulus.
#[verifier::external_body]
fn mod_pow(base: &[u8], exponent: &[u8], modulus: &[u8]) -> (r: Vec<u8>)
    requires
        be_value(modulus@) != 0,
    ensures
        be_value(r@) == pow(be_value(base@) as int, be_value(exponent@)) % (be_value(
            modulus@,
        ) as int),
{
    let m = BigUint::from_bytes_be(modulus);
    BigUint::from_bytes_be(base).modpow(&BigUint::from_bytes_be(exponent), &m).to_bytes_be()
}

/// Sixteen random bytes.
///
/// Trusted: calls `rand::random::<[u8; 16]>()`; nothing is stated of the
/// bytes but their number.
#[verifier::external_body]
fn random_bytes() -> (b: Vec<u8>)
    ensures
        b@.len() == 16,
{
    rand::random::<[u8; 16]>().to_vec()
}

// ------------------------------------------------------- the weapi scheme

/// The fixed key of the first encryption: `0CoJUm6Qyw8W8jud`.
pub open spec fn preset_key() -> Seq<u8> {
    seq![48u8, 67, 111, 74, 85, 109, 54, 81, 121, 119, 56, 87, 56, 106, 117, 100]
}

/// The initialisation vector of both encryptions: `0102030405060708`.
pub open spec fn weapi_iv() -> Seq<u8> {
    seq![48u8, 49, 48, 50, 48, 51, 48, 52, 48, 53, 48, 54, 48, 55, 48, 56]
}

/// The modulus of the service's RSA public key, big-endian.
pub open spec fn rsa_modulus() -> Seq<u8> {
    seq![
        0xe0u8, 0xb5, 0x09, 0xf6, 0x25, 0x9d, 0xf8, 0x64, 0x2d, 0xbc, 0x35, 0x66, 0x29, 0x01, 0x47, 0x7d,
        0xf2, 0x26, 0x77, 0xec, 0x15, 0x2b, 0x5f, 0xf6, 0x8a, 0xce, 0x61, 0x5b, 0xb7, 0xb7, 0x25, 0x15,
        0x2b, 0x3a, 0xb1, 0x7a, 0x87, 0x6a, 0xea, 0x8a, 0x5a, 0xa7, 0x6d, 0x2e, 0x41, 0x76, 0x29, 0xec,
        0x4e, 0xe3, 0x41, 0xf5, 0x61, 0x35, 0xfc, 0xcf, 0x69, 0x52, 0x80, 0x10, 0x4e, 0x03, 0x12, 0xec,
        0xbd, 0xa9, 0x25, 0x57, 0xc9, 0x38, 0x70, 0x11, 0x4a, 0xf6, 0xc9, 0xd0, 0x5c, 0x4f, 0x7f, 0x0c,
        0x36, 0x85, 0xb7, 0xa4, 0x6b, 0xee, 0x25, 0x59, 0x32, 0x57, 0x5c, 0xce, 0x10, 0xb4, 0x24, 0xd8,
        0x13, 0xcf, 0xe4, 0x87, 0x5d, 0x3e, 0x82, 0x04, 0x7b, 0x97, 0xdd, 0xef, 0x52, 0x74, 0x1d, 0x54,
        0x6b, 0x8e, 0x28, 0x9d, 0xc6, 0x93, 0x5b, 0x3e, 0xce, 0x04, 0x62, 0xdb, 0x0a, 0x22, 0xb8, 0xe7
    ]
}

/// The public exponent of the service's RSA key (65537), big-endian.
pub open spec fn rsa_exponent() -> Seq<u8> {
    seq![1u8, 0, 1]
}

/// The character of the 62-letter alphabet `a-z A-Z 0-9` at position `d`.
pub open spec fn base62_char(d: nat) -> u8 {
    if d < 26 {
        (97 + d) as u8
    } else if d < 52 {
        (65 + d - 26) as u8
    } else {
        (48 + d - 52) as u8
    }
}

/// The secret key made of random bytes: each byte picks a letter of the
/// 62-letter alphabet by its remainder modulo 62.
pub open spec fn secret_key_of(random: Seq<u8>) -> Seq<u8> {
    random.map_values(|b: u8| base62_char((b as nat) % 62))
}

/// A letter of the 62-letter alphabet `a-z A-Z 0-9`.
pub open spec fn is_base62(c: u8) -> bool {
    ||| 97 <= c <= 122
    ||| 65 <= c <= 90
    ||| 48 <= c <= 57
}

/// A possible secret key: 16 letters of the 62-letter alphabet.
pub open spec fn is_secret_key(k: Seq<u8>) -> bool {
    &&& k.len() == 16
    &&& forall|i: int| 0 <= i < 16 ==> is_base62(#[trigger] k[i])
}

/// The JSON text of the parameters fits in a quarter of the address space.
pub open spec fn weapi_text_fits(s: Seq<(Seq<char>, Seq<char>)>) -> bool {
    encode_utf8(json_object(s)).len() <= usize::MAX / 4
}

/// The value of the `params` field: the JSON text encrypted under the fixed
/// key, Base64-encoded, encrypted again under the secret key and
/// Base64-encoded again.
pub open spec fn weapi_params(s: Seq<(Seq<char>, Seq<char>)>, secret: Seq<u8>) -> Seq<u8> {
    let first = base64_standard(aes128_cbc_pkcs7(preset_key(), weapi_iv(), encode_utf8(json_object(s))));
    base64_standard(aes128_cbc_pkcs7(secret, weapi_iv(), first))
}

/// The value of the `encSecKey` field: the reversed secret key, read as a
/// big-endian number, raised to the public exponent modulo the public
/// modulus, written as 256 hexadecimal digits.
pub open spec fn weapi_enc_sec_key(secret: Seq<u8>) -> Seq<char> {
    let v = pow(be_value(secret.reverse()) as int, 65537) % (be_value(rsa_modulus()) as int);
    hex_bytes(be_bytes(v as nat, 128))
}

/// The request body: `params=<params>&encSecKey=<encSecKey>`, form-encoded.
pub open spec fn weapi_form(s: Seq<(Seq<char>, Seq<char>)>, secret: Seq<u8>) -> Seq<char> {
    "params="@ + form_encoded(weapi_params(s, secret)) + "&encSecKey="@ + weapi_enc_sec_key(
        secret,
    )
}

/// Turns random bytes into a secret key.
pub fn secret_key(random: &Vec<u8>) -> (k: Vec<u8>)
    ensures
        k@ == secret_key_of(random@),
{
    let n = random.len();
    let mut k: Vec<u8> = Vec::new();
    let mut i: usize = 0;
    while i < n
        invariant
            n == random@.len(),
            i <= n,
            k@ == secret_key_of(random@.take(i as int)),
        decreases n - i,
    {
        let d = random[i] % 62;
        let c: u8 = if d < 26 {
            97 + d
        } else if d < 52 {
            65 + d - 26
        } else {
            48 + d - 52
        };
        k.push(c);
        assert(k@ =~= secret_key_of(random@.take(i + 1)));
        i = i + 1;
    }
    assert(random@.take(n as int) =~= random@);
    k
}

/// The `encSecKey` field for a secret key.
pub fn enc_sec_key(secret: &Vec<u8>) -> (e: String)
    ensures
        e@ == weapi_enc_sec_key(secret@),
{
    let n = secret.len();
    let mut reversed: Vec<u8> = Vec::new();
    let mut i: usize = n;
    while i > 0
        invariant
            n == secret@.len(),
            i <= n,
            reversed@ == secret@.reverse().take((n - i) as int),
        decreases i,
    {
        i = i - 1;
        reversed.push(secret[i]);
        assert(reversed@ =~= secret@.reverse().take((n - i) as int));
    }
    assert(reversed@ =~= secret@.reverse());
    let modulus: Vec<u8> = vec![
        0xe0u8, 0xb5, 0x09, 0xf6, 0x25, 0x9d, 0xf8, 0x64, 0x2d, 0xbc, 0x35, 0x66, 0x29, 0x01, 0x47, 0x7d,
        0xf2, 0x26, 0x77, 0xec, 0x15, 0x2b, 0x5f, 0xf6, 0x8a, 0xce, 0x61, 0x5b, 0xb7, 0xb7, 0x25, 0x15,
        0x2b, 0x3a, 0xb1, 0x7a, 0x87, 0x6a, 0xea, 0x8a, 0x5a, 0xa7, 0x6d, 0x2e, 0x41, 0x76, 0x29, 0xec,
        0x4e, 0xe3, 0x41, 0xf5, 0x61, 0x35, 0xfc, 0xcf, 0x69, 0x52, 0x80, 0x10, 0x4e, 0x03, 0x12, 0xec,
        0xbd, 0xa9, 0x25, 0x57, 0xc9, 0x38, 0x70, 0x11, 0x4a, 0xf6, 0xc9, 0xd0, 0x5c, 0x4f, 0x7f, 0x0c,
        0x36, 0x85, 0xb7, 0xa4, 0x6b, 0xee, 0x25, 0x59, 0x32, 0x57, 0x5c, 0xce, 0x10, 0xb4, 0x24, 0xd8,
        0x13, 0xcf, 0xe4, 0x87, 0x5d, 0x3e, 0x82, 0x04, 0x7b, 0x97, 0xdd, 0xef, 0x52, 0x74, 0x1d, 0x54,
        0x6b, 0x8e, 0x28, 0x9d, 0xc6, 0x93, 0x5b, 0x3e, 0xce, 0x04, 0x62, 0xdb, 0x0a, 0x22, 0xb8, 0xe7
    ];
    assert(modulus@ =~= rsa_modulus());
    proof {
        if be_value(modulus@) == 0 {
            lemma_be_value_zero(modulus@);
            assert(modulus@[0] == 0xe0);
        }
    }
    let exponent: Vec<u8> = vec![1u8, 0, 1];
    proof {
        assert(exponent@ =~= rsa_exponent());
        let e1 = seq![1u8];
        let e2 = seq![1u8, 0];
        assert(e1.drop_last() =~= Seq::<u8>::empty());
        assert(be_value(Seq::<u8>::empty()) == 0);
        assert(e1.last() == 1u8);
        assert(be_value(e1) == 1);
        assert(e2.last() == 0u8);
        assert(exponent@.last() == 1u8);
        assert(e2.drop_last() =~= e1);
        assert(be_value(e2) == 256);
        assert(exponent@.drop_last() =~= e2);
        assert(be_value(exponent@) == 65537);
    }
    let r = mod_pow(&reversed, &exponent, &modulus);
    let fixed = be_fixed_128(&r);
    hex_encode(&fixed)
}

/// The request body for the parameters under a given secret key.
pub fn weapi_body(params: &Params, secret: &Vec<u8>) -> (body: String)
    requires
        secret@.len() == 16,
        weapi_text_fits(params@),
    ensures
        body@ == weapi_form(params@, secret@),
{
    let text = json_text(params);
    let preset: Vec<u8> = vec![48u8, 67, 111, 74, 85, 109, 54, 81, 121, 119, 56, 87, 56, 106, 117, 100];
    let iv: Vec<u8> = vec![48u8, 49, 48, 50, 48, 51, 48, 52, 48, 53, 48, 54, 48, 55, 48, 56];
    assert(preset@ =~= preset_key());
    assert(iv@ =~= weapi_iv());
    let bytes = text.as_str().as_bytes();
    let c1 = aes_cbc_encrypt(preset.as_slice(), iv.as_slice(), bytes);
    let b1 = base64_encode(c1.as_slice());
    let c2 = aes_cbc_encrypt(secret.as_slice(), iv.as_slice(), b1.as_slice());
    let b2 = base64_encode(c2.as_slice());
    let mut body = "params=".to_owned();
    let p = form_encode(&b2);
    body.append(p.as_str());
    body.append("&encSecKey=");
    let e = enc_sec_key(secret);
    body.append(e.as_str());
    body
}

/// The request body for the parameters under a fresh random secret key;
/// some possible secret key was used.
pub fn encrypt_login(params: &Params) -> (body: String)
    requires
        weapi_text_fits(params@),
    ensures
        exists|k: Seq<u8>| is_secret_key(k) && body@ == #[trigger] weapi_form(params@, k),
{
    let random = random_bytes();
    let key = secret_key(&random);
    proof {
        assert forall|i: int| 0 <= i < 16 implies is_base62(#[trigger] key@[i]) by {
            assert(key@[i] == base62_char((random@[i] as nat) % 62));
        }
        assert(is_secret_key(key@));
    }
    weapi_body(params, &key)
}

// ------------------------------------------------------- laws

/// The JSON text of the parameters is `{`, the members separated by exactly
/// one comma, `}`; a member is the escaped name in quotes, a colon and the
/// escaped value in quotes.
pub proof fn lemma_json_object_shape(
    s: Seq<(Seq<char>, Seq<char>)>,
    p: (Seq<char>, Seq<char>),
)
    ensures
        json_object(Seq::empty()) == seq!['{', '}'],
        json_object(seq![p]) == seq!['{'] + json_member(p) + seq!['}'],
        s.len() > 0 ==> json_object(s.push(p)) == seq!['{'] + json_members(s) + seq![',']
            + json_member(p) + seq!['}'],
        json_member(p) == seq!['"'] + json_escaped(p.0) + seq!['"', ':', '"'] + json_escaped(p.1)
            + seq!['"'],
{
    assert(Seq::<(Seq<char>, Seq<char>)>::empty().len() == 0);
    assert(json_members(Seq::<(Seq<char>, Seq<char>)>::empty()) =~= Seq::<char>::empty());
    assert(json_object(Seq::empty()) =~= seq!['{', '}']);
    assert(seq![p].len() == 1 && seq![p][0] == p);
    if s.len() > 0 {
        assert(s.push(p).drop_last() =~= s);
        assert(s.push(p).last() == p);
        assert(json_object(s.push(p)) =~= seq!['{'] + json_members(s) + seq![','] + json_member(p)
            + seq!['}']);
    }
    assert(json_member(p) =~= seq!['"'] + json_escaped(p.0) + seq!['"', ':', '"'] + json_escaped(
        p.1,
    ) + seq!['"']);
}

/// Escaping works character by character; printable characters other than
/// the quote and the backslash stand for themselves, and escaped text holds
/// no control character.
pub proof fn lemma_json_escaping(s: Seq<char>, c: char)
    ensures
        json_escaped(Seq::empty()) == Seq::<char>::empty(),
        json_escaped(s.push(c)) == json_escaped(s) + json_escape(c),
        (c as nat) >= 32 && c != '"' && c != '\\' ==> json_escape(c) == seq![c],
        c == '"' ==> json_escape(c) == seq!['\\', '"'],
        c == '\\' ==> json_escape(c) == seq!['\\', '\\'],
        (c as nat) < 32 ==> json_escape(c).len() >= 2 && json_escape(c)[0] == '\\',
        forall|i: int| 0 <= i < json_escaped(s).len() ==> (#[trigger] json_escaped(s)[i] as nat) >= 32,
    decreases s.len(),
{
    assert(s.push(c).drop_last() =~= s);
    if s.len() > 0 {
        lemma_json_escaping(s.drop_last(), s.last());
        let d = s.last();
        let e = json_escape(d);
        assert forall|i: int| 0 <= i < e.len() implies (#[trigger] e[i] as nat) >= 32 by {
            if (d as nat) < 32 && d != '\n' && d != '\r' && d != '\t' && d != '\x08' && d != '\x0c' {
                assert((d as nat) / 16 < 16 && (d as nat) % 16 < 16);
            }
        }
        assert forall|i: int| 0 <= i < json_escaped(s).len() implies (#[trigger] json_escaped(s)[i]
            as nat) >= 32 by {
            let a = json_escaped(s.drop_last());
            if i < a.len() {
                assert(json_escaped(s)[i] == a[i]);
            } else {
                assert(json_escaped(s)[i] == e[i - a.len()]);
            }
        }
    }
}

/// Form encoding works byte by byte, and writes the Base64 characters `+`,
/// `/` and `=` as `%2B`, `%2F` and `%3D`, letters and digits as themselves.
pub proof fn lemma_form_encoding(s: Seq<u8>, b: u8)
    ensures
        form_encoded(Seq::empty()) == Seq::<char>::empty(),
        form_encoded(s.push(b)) == form_encoded(s) + form_byte(b),
        (48 <= b <= 57 || 65 <= b <= 90 || 97 <= b <= 122) ==> form_byte(b) == seq![b as char],
        b == 43 ==> form_byte(b) == seq!['%', '2', 'B'],
        b == 47 ==> form_byte(b) == seq!['%', '2', 'F'],
        b == 61 ==> form_byte(b) == seq!['%', '3', 'D'],
        b == 32 ==> form_byte(b) == seq!['+'],
{
    assert(s.push(b).drop_last() =~= s);
}

/// Hexadecimal writes each byte as two lower-case digits, high nibble first,
/// at positions `2i` and `2i + 1`.
pub proof fn lemma_hex_bytes(s: Seq<u8>)
    ensures
        hex_bytes(s).len() == 2 * s.len(),
        forall|i: int|
            0 <= i < s.len() ==> hex_bytes(s)[2 * i] == hex_lower((#[trigger] s[i] as nat) / 16)
                && hex_bytes(s)[2 * i + 1] == hex_lower((s[i] as nat) % 16),
        forall|i: int|
            0 <= i < hex_bytes(s).len() ==> {
                let c = #[trigger] hex_bytes(s)[i];
                ('0' <= c <= '9') || ('a' <= c <= 'f')
            },
    decreases s.len(),
{
    if s.len() > 0 {
        let p = s.drop_last();
        lemma_hex_bytes(p);
        let b = s.last();
        assert(hex_bytes(s) == hex_bytes(p) + seq![
            hex_lower((b as nat) / 16),
            hex_lower((b as nat) % 16),
        ]);
        assert forall|i: int| 0 <= i < s.len() implies hex_bytes(s)[2 * i] == hex_lower(
            (#[trigger] s[i] as nat) / 16,
        ) && hex_bytes(s)[2 * i + 1] == hex_lower((s[i] as nat) % 16) by {
            if i < p.len() {
                assert(s[i] == p[i]);
            }
        }
        assert((b as nat) / 16 < 16 && (b as nat) % 16 < 16);
    }
}

/// The last `n` base-256 digits of `v` are `n` bytes that write `v` modulo
/// `256^n`.
pub proof fn lemma_be_bytes_value(v: nat, n: nat)
    ensures
        be_bytes(v, n).len() == n,
        be_value(be_bytes(v, n)) == v % (pow(256, n) as nat),
    decreases n,
{
    reveal(pow);
    if n == 0 {
        assert(v % 1 == 0);
    } else {
        lemma_be_bytes_value(v / 256, (n - 1) as nat);
        let q = pow(256, (n - 1) as nat);
        vstd::arithmetic::power::lemma_pow_positive(256, (n - 1) as nat);
        let t = be_bytes(v, n);
        assert(t.drop_last() =~= be_bytes(v / 256, (n - 1) as nat));
        assert(t.last() == (v % 256) as u8);
        vstd::arithmetic::div_mod::lemma_mod_breakdown(v as int, 256, q);
        assert(pow(256, n) == 256 * q);
        assert(be_value(t) == be_value(t.drop_last()) * 256 + (t.last() as nat));
        assert(((v / 256) % (q as nat)) * 256 == 256 * ((v as int / 256) % q)) by (nonlinear_arith)
            requires
                q > 0,
        ;
    }
}

/// Random bytes always give a possible secret key: sixteen letters of the
/// 62-letter alphabet.
pub proof fn lemma_secret_key_letters(random: Seq<u8>)
    requires
        random.len() == 16,
    ensures
        is_secret_key(secret_key_of(random)),
{
    assert forall|i: int| 0 <= i < 16 implies is_base62(#[trigger] secret_key_of(random)[i]) by {
        let d = (random[i] as nat) % 62;
        assert(secret_key_of(random)[i] == base62_char(d));
    }
}

/// The `encSecKey` field is 256 lower-case hexadecimal digits that write,
/// two per byte, the RSA value of the reversed key.
pub proof fn lemma_enc_sec_key_shape(secret: Seq<u8>)
    ensures
        weapi_enc_sec_key(secret).len() == 256,
        forall|i: int|
            0 <= i < 256 ==> {
                let c = #[trigger] weapi_enc_sec_key(secret)[i];
                ('0' <= c <= '9') || ('a' <= c <= 'f')
            },
        ({
            let v = pow(be_value(secret.reverse()) as int, 65537) % (be_value(rsa_modulus()) as int);
            be_value(be_bytes(v as nat, 128)) == (v as nat) % (pow(256, 128) as nat)
        }),
{
    let v = pow(be_value(secret.reverse()) as int, 65537) % (be_value(rsa_modulus()) as int);
    lemma_be_bytes_value(v as nat, 128);
    lemma_hex_bytes(be_bytes(v as nat, 128));
}

} // verus!
