//! The login QR code: its picture, and the decisions of the login loop.

use vstd::prelude::*;
use crate::bili::QrPoll;

verus! {

/// The modules of the QR code that `qrcode` makes for `data`: its width and
/// whether each module, row by row, is dark.
pub uninterp spec fn qr_modules_of(data: Seq<u8>) -> Option<(nat, Seq<bool>)>;

/// `qrcode::QrCode::new(data)`, then `width` and `to_colors` of the code, each
/// color told apart as dark or light. The crate's source builds the colors
/// from a square canvas of `width * width` modules.
#[verifier::external_body]
fn qr_modules(data: &[u8]) -> (r: Option<(usize, Vec<bool>)>)
    ensures
        r is Some <==> qr_modules_of(data@) is Some,
        r matches Some((w, m)) ==> qr_modules_of(data@) == Some((w as nat, m@)) && m@.len() == w
            * w,
{
    let code = qrcode::QrCode::new(data).ok()?;
    let dark = code.to_colors().into_iter().map(|c| match c {
        qrcode::Color::Dark => true,
        qrcode::Color::Light => false,
    }).collect();
    Some((code.width(), dark))
}

/// A QR code picture: `width` modules a side, `dark` row by row.
pub struct QrImage {
    pub width: usize,
    pub dark: Vec<bool>,
}

/// The QR code picture of a login link; `None` when the link cannot be encoded.
pub fn qr_image(url: &str) -> (r: Option<QrImage>)
    ensures
        r is Some <==> qr_modules_of(vstd::utf8::encode_utf8(url@)) is Some,
        r matches Some(img) ==> qr_modules_of(vstd::utf8::encode_utf8(url@)) == Some((img.width as nat, img.dark@))
            && img.dark@.len() == img.width * img.width,
{
    match qr_modules(url.as_bytes()) {
        Some((width, dark)) => Some(QrImage { width, dark }),
        None => None,
    }
}

/// The most times the login state is polled before giving up.
pub const MAX_LOGIN_POLLS: u32 = 60;

/// What the login loop learned from one poll.
pub enum LoginEvent {
    Polled(QrPoll),
    PollFailed,
}

/// What the login loop does after a poll.
#[derive(Debug, PartialEq, Eq, Structural, Clone, Copy)]
pub enum LoginAction {
    /// Show that the code waits to be scanned.
    WaitForScan,
    /// Show that the code was scanned and waits for confirmation.
    WaitForConfirm,
    /// The login is done.
    Done,
    /// The code expired; stop.
    Expired,
    /// The poll failed; stop.
    Failed,
}

/// The decision after a poll: a confirmed login is done, an expired code or
/// a failed poll stops the loop, and a code that is waiting or scanned is
/// reported as such.
pub open spec fn login_next(event: LoginEvent) -> LoginAction {
    match event {
        LoginEvent::PollFailed => LoginAction::Failed,
        LoginEvent::Polled(QrPoll::Confirmed) => LoginAction::Done,
        LoginEvent::Polled(QrPoll::Expired) => LoginAction::Expired,
        LoginEvent::Polled(QrPoll::Scanned) => LoginAction::WaitForConfirm,
        LoginEvent::Polled(QrPoll::Waiting) => LoginAction::WaitForScan,
    }
}

/// Decides what the login loop does after a poll.
pub fn login_step(event: LoginEvent) -> (r: LoginAction)
    ensures
        r == login_next(event),
{
    match event {
        LoginEvent::PollFailed => LoginAction::Failed,
        LoginEvent::Polled(QrPoll::Confirmed) => LoginAction::Done,
        LoginEvent::Polled(QrPoll::Expired) => LoginAction::Expired,
        LoginEvent::Polled(QrPoll::Scanned) => LoginAction::WaitForConfirm,
        LoginEvent::Polled(QrPoll::Waiting) => LoginAction::WaitForScan,
    }
}

/// Whether the loop polls again after reporting the poll numbered `polls`
/// (from 1): it does while fewer than `MAX_LOGIN_POLLS` polls were made, and
/// otherwise gives up with a time-out.
pub open spec fn keeps_polling(polls: u32) -> bool {
    polls < MAX_LOGIN_POLLS
}

/// Decides whether the loop polls again after reporting a poll.
pub fn poll_again(polls: u32) -> (r: bool)
    ensures
        r == keeps_polling(polls),
{
    polls < MAX_LOGIN_POLLS
}

/// Every poll that finds the code waiting or scanned is reported, the last
/// one included, and after the poll numbered `MAX_LOGIN_POLLS` the loop
/// polls no more.
pub proof fn login_reports_then_gives_up(polls: u32)
    requires
        polls >= MAX_LOGIN_POLLS,
    ensures
        login_next(LoginEvent::Polled(QrPoll::Waiting)) == LoginAction::WaitForScan,
        login_next(LoginEvent::Polled(QrPoll::Scanned)) == LoginAction::WaitForConfirm,
        !keeps_polling(polls),
        forall|p: u32| 1 <= p < MAX_LOGIN_POLLS ==> #[trigger] keeps_polling(p),
{
}

} // verus!
