//! Signing in by QR code: the code's content and image, and how long the
//! session is polled for.

use vstd::prelude::*;
use vstd::utf8::encode_utf8;
use qrcode_generator::{QRCodeError, QrCodeEcc};
use crate::model::login::QrcodeCheck;

verus! {

#[verifier::external_type_specification]
#[verifier::external_body]
pub struct ExQRCodeError(QRCodeError);

/// The error-correction level of a QR code.
#[derive(Clone, Copy, Debug, PartialEq, Eq, Structural)]
pub enum QrEcc {
    Low,
    Medium,
    Quartile,
    High,
}

/// The PNG image (`size` by `size` pixels) of the QR code of `data` at
/// error-correction level `ecc`, or `None` where the encoder refuses them.
pub uninterp spec fn qr_png_image(data: Seq<u8>, ecc: QrEcc, size: usize) -> Option<Seq<u8>>;

/// Encodes `data` as a QR code and renders it as a PNG image.
///
/// Trusted: calls `qrcode_generator::to_png_to_vec`, which computes the image
/// from its three arguments alone; its result is named `qr_png_image`, the
/// error left opaque. The sizes it is called with are bounded because the
/// crate allocates `size * size` bytes at once.
#[verifier::external_body]
fn qr_png(data: &[u8], ecc: QrEcc, size: usize) -> (r: Result<Vec<u8>, QRCodeError>)
    requires
        size <= 4096,
    ensures
        r is Ok <==> qr_png_image(data@, ecc, size) is Some,
        r matches Ok(png) ==> qr_png_image(data@, ecc, size) == Some(png@),
{
    let level = match ecc {
        QrEcc::Low => QrCodeEcc::Low,
        QrEcc::Medium => QrCodeEcc::Medium,
        QrEcc::Quartile => QrCodeEcc::Quartile,
        QrEcc::High => QrCodeEcc::High,
    };
    qrcode_generator::to_png_to_vec(data, level, size)
}

/// The QR code of a login session could not be made.
#[derive(Clone, Copy, Debug, PartialEq, Eq, Structural)]
pub enum LoginQrError {
    Encode,
}

/// What the login QR code of the session `unikey` holds.
pub open spec fn login_qr_content(unikey: Seq<char>) -> Seq<char> {
    "/login?codekey="@ + unikey
}

/// The text of the login QR code of the session `unikey`.
pub fn login_qr_text(unikey: &str) -> (t: String)
    ensures
        t@ == login_qr_content(unikey@),
{
    let mut t = "/login?codekey=".to_owned();
    t.append(unikey);
    t
}

/// The side length, in pixels, of the login QR code image.
pub const LOGIN_QR_SIZE: usize = 1024;

/// Keeps the image, or turns the encoder's error into the library's.
pub fn png_or_error(r: Result<Vec<u8>, QRCodeError>) -> (out: Result<Vec<u8>, LoginQrError>)
    ensures
        r is Ok <==> out is Ok,
        r matches Ok(png) ==> out == Ok::<Vec<u8>, LoginQrError>(png),
        r is Err ==> out == Err::<Vec<u8>, LoginQrError>(LoginQrError::Encode),
{
    match r {
        Ok(png) => Ok(png),
        Err(_) => Err(LoginQrError::Encode),
    }
}

/// The PNG image of the login QR code of the session `unikey`, at the low
/// error-correction level and `LOGIN_QR_SIZE` pixels wide.
pub fn login_qr_png(unikey: &str) -> (r: Result<Vec<u8>, LoginQrError>)
    ensures
        ({
            let image = qr_png_image(encode_utf8(login_qr_content(unikey@)), QrEcc::Low, 1024);
            match image {
                Some(png) => r matches Ok(v) && v@ == png,
                None => r == Err::<Vec<u8>, LoginQrError>(LoginQrError::Encode),
            }
        }),
{
    let text = login_qr_text(unikey);
    let png = qr_png(text.as_str().as_bytes(), QrEcc::Low, LOGIN_QR_SIZE);
    png_or_error(png)
}

/// The code with which the service answers once the QR code was confirmed.
pub const LOGIN_CONFIRMED: i32 = 803;

/// The number of the first check of a login session.
pub const FIRST_LOGIN_CHECK: u32 = 1;

/// The number of the last check of a login session.
pub const LAST_LOGIN_CHECK: u32 = 19;

/// What follows a check of a login session.
#[derive(Clone, Copy, Debug, PartialEq, Eq, Structural)]
pub enum LoginPoll {
    /// The login was confirmed.
    Confirmed,
    /// Check again; the number of the next check.
    Retry(u32),
    /// The last check passed without confirmation.
    GiveUp,
}

/// What follows the check number `attempt` that answered `code`.
pub open spec fn poll_after(attempt: u32, code: i32) -> LoginPoll {
    if code == 803 {
        LoginPoll::Confirmed
    } else if attempt < 19 {
        LoginPoll::Retry((attempt + 1) as u32)
    } else {
        LoginPoll::GiveUp
    }
}

/// Decides what follows the check number `attempt` of a login session.
pub fn next_login_poll(attempt: u32, check: &QrcodeCheck) -> (p: LoginPoll)
    requires
        FIRST_LOGIN_CHECK <= attempt <= LAST_LOGIN_CHECK,
    ensures
        p == poll_after(attempt, check.code),
        p == LoginPoll::Confirmed <==> check.code == LOGIN_CONFIRMED,
        check.code != LOGIN_CONFIRMED && attempt < LAST_LOGIN_CHECK ==> p == LoginPoll::Retry(
            (attempt + 1) as u32,
        ),
        check.code != LOGIN_CONFIRMED && attempt == LAST_LOGIN_CHECK ==> p == LoginPoll::GiveUp,
{
    if check.code == LOGIN_CONFIRMED {
        LoginPoll::Confirmed
    } else if attempt < LAST_LOGIN_CHECK {
        LoginPoll::Retry(attempt + 1)
    } else {
        LoginPoll::GiveUp
    }
}

/// Polling ends: each retry moves one check further, and none goes past the
/// last check, so a session is checked at most `LAST_LOGIN_CHECK` times.
pub proof fn lemma_poll_bounded(attempt: u32, code: i32)
    requires
        FIRST_LOGIN_CHECK <= attempt <= LAST_LOGIN_CHECK,
    ensures
        poll_after(attempt, code) matches LoginPoll::Retry(next) ==> next == attempt + 1 && next
            <= LAST_LOGIN_CHECK,
        attempt == LAST_LOGIN_CHECK ==> !(poll_after(attempt, code) is Retry),
        code == LOGIN_CONFIRMED ==> poll_after(attempt, code) == LoginPoll::Confirmed,
{
}

/// Only the confirmation code ends polling early: every other answer to a
/// check before the last asks for the next check, and the last check without
/// confirmation gives up.
pub proof fn lemma_poll_waits_for_confirmation(attempt: u32, code: i32)
    requires
        FIRST_LOGIN_CHECK <= attempt <= LAST_LOGIN_CHECK,
    ensures
        poll_after(attempt, code) == LoginPoll::Confirmed <==> code == 803,
        code != 803 && attempt < 19 ==> poll_after(attempt, code) == LoginPoll::Retry(
            (attempt + 1) as u32,
        ),
        code != 803 && attempt == 19 ==> poll_after(attempt, code) == LoginPoll::GiveUp,
{
}

} // verus!
