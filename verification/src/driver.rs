//! The decision layer of the hosting-service driver: the plain shapes of
//! the service's responses and the rules that read them. All transport,
//! sessions and JSON plumbing live outside the library; these functions
//! take the extracted plain values and decide what they mean.

use vstd::prelude::*;

verus! {

/// The response to a login QR-code request.
#[derive(Debug, PartialEq, Eq)]
pub struct QrRsp {
    pub code: i32,
    pub status: Option<bool>,
    pub timestamp: Option<u64>,
    pub data: Option<QrData>,
}

/// The payload of a login QR-code response.
#[derive(Debug, PartialEq, Eq)]
pub struct QrData {
    pub url: Option<String>,
    pub oauth_key: Option<String>,
}

/// What polling the QR login endpoint said, reduced to plain values.
#[derive(Debug, PartialEq, Eq)]
pub struct LoginQrData {
    pub success: bool,
    pub failed_code: Option<i64>,
    pub url: Option<String>,
}

/// The response to a self-info request.
#[derive(Debug, PartialEq, Eq)]
pub struct SelfInfoRsp {
    pub code: i32,
    pub message: Option<String>,
    pub ttl: Option<i32>,
    pub data: SelfInfo,
}

/// The account facts the service reports about the session.
#[derive(Debug, PartialEq, Eq)]
pub struct SelfInfo {
    pub is_login: bool,
    pub avatar: Option<String>,
    pub mid: Option<u64>,
    pub username: Option<String>,
}

/// The response to an album image upload.
#[derive(Debug, PartialEq, Eq)]
pub struct AlbumUploadRsp {
    pub code: i32,
    pub message: Option<String>,
    pub data: Option<AlbumUploadData>,
}

/// The payload of an album upload response.
#[derive(Debug, PartialEq, Eq)]
pub struct AlbumUploadData {
    pub image_url: Option<String>,
    pub image_width: Option<u32>,
    pub image_height: Option<u32>,
}

/// Why no cross-site token could be produced.
#[derive(Debug, PartialEq, Eq)]
pub enum GetCsrfError {
    /// The cookie store's lock was poisoned.
    LockPoison,
    /// No session token cookie is present: not logged in.
    NotLogin,
}

/// Why an upload response yields no locator.
#[derive(Debug, PartialEq, Eq)]
pub enum AlbumRspError {
    /// The service answered with a non-zero status code.
    Code { code: i32 },
    /// The response carries no payload.
    MissingData,
    /// The payload carries no image URL.
    MissingUrl,
}

/// The cross-site token is the value of the session token cookie; its
/// absence means the session is not logged in.
pub fn csrf_from_cookie(cookie_value: Option<String>) -> (r: Result<String, GetCsrfError>)
    ensures
        cookie_value matches Some(v) ==> r == Ok::<String, GetCsrfError>(v),
        cookie_value is None ==> r == Err::<String, GetCsrfError>(GetCsrfError::NotLogin),
{
    match cookie_value {
        Some(v) => Ok(v),
        None => Err(GetCsrfError::NotLogin),
    }
}

impl AlbumUploadRsp {
    /// The locator an upload response grants: only a zero status code with
    /// a payload that names an image URL counts as success.
    pub fn image_url(&self) -> (r: Result<String, AlbumRspError>)
        ensures
            self.code != 0 ==> r == Err::<String, AlbumRspError>(
                (AlbumRspError::Code { code: self.code }),
            ),
            self.code == 0 && self.data is None ==> r == Err::<String, AlbumRspError>(
                AlbumRspError::MissingData,
            ),
            (self.code == 0 && self.data is Some && self.data->Some_0.image_url is None) ==> r
                == Err::<String, AlbumRspError>(AlbumRspError::MissingUrl),
            (self.code == 0 && self.data is Some && self.data->Some_0.image_url is Some) ==> (
            r matches Ok(s) && s@ == self.data->Some_0.image_url->Some_0@),
    {
        if self.code != 0 {
            return Err(AlbumRspError::Code { code: self.code });
        }
        match &self.data {
            Some(d) => match &d.image_url {
                Some(u) => Ok(u.clone()),
                None => Err(AlbumRspError::MissingUrl),
            },
            None => Err(AlbumRspError::MissingData),
        }
    }
}

impl QrRsp {
    /// The URL the QR code should show, if the response carries one.
    pub fn login_url(&self) -> (r: Option<String>)
        ensures
            (self.data is Some && self.data->Some_0.url is Some) ==> (r matches Some(s) && s@
                == self.data->Some_0.url->Some_0@),
            (self.data is None || self.data->Some_0.url is None) ==> r is None,
    {
        match &self.data {
            Some(d) => match &d.url {
                Some(u) => Some(u.clone()),
                None => None,
            },
            None => None,
        }
    }

    /// The one-time key the login poll must present, if the response
    /// carries one.
    pub fn oauth_key(&self) -> (r: Option<String>)
        ensures
            (self.data is Some && self.data->Some_0.oauth_key is Some) ==> (r matches Some(s) && s@
                == self.data->Some_0.oauth_key->Some_0@),
            (self.data is None || self.data->Some_0.oauth_key is None) ==> r is None,
    {
        match &self.data {
            Some(d) => match &d.oauth_key {
                Some(k) => Some(k.clone()),
                None => None,
            },
            None => None,
        }
    }
}

/// Reads the login poll's raw payload: a login succeeded exactly when the
/// payload carried a URL; otherwise the numeric payload is the failure
/// code.
pub fn login_qr_data(failed_code: Option<i64>, url: Option<String>) -> (r: LoginQrData)
    ensures
        r.success == (url is Some),
        r.failed_code == failed_code,
        url matches Some(u) ==> (r.url matches Some(s) && s@ == u@),
        url is None ==> r.url is None,
{
    let success = url.is_some();
    LoginQrData { success, failed_code, url }
}

/// Whether one poll of the QR login endpoint ended the wait: the session
/// is established exactly when the poll's status code is zero.
pub fn login_poll_done(code: i32) -> (r: bool)
    ensures
        r == (code == 0),
{
    code == 0
}

impl SelfInfo {
    /// The name to show for the session's account; a nameless account
    /// shows as `Unknown`.
    pub fn display_name(&self) -> (r: String)
        ensures
            self.username matches Some(n) ==> r@ == n@,
            self.username is None ==> r@ == "Unknown"@,
    {
        match &self.username {
            Some(n) => n.clone(),
            None => String::from_str("Unknown"),
        }
    }
}


/// What the QR login loop should do next.
#[derive(Debug, PartialEq, Eq, Structural)]
pub enum QrPollDecision {
    /// The session is established; stop polling and persist it.
    Done,
    /// Keep waiting: poll again after the fixed interval.
    Retry,
    /// The code was never scanned within the allowed window; give up.
    TimedOut,
}

/// The number of seconds the QR login loop waits in all before giving up.
pub fn qr_login_window_seconds() -> (r: u64)
    ensures
        r == 120,
{
    120
}

/// One step of the QR login loop: a zero status code ends it successfully;
/// otherwise it retries until the window is spent. The surrounding program
/// performs the poll and the sleep and feeds the elapsed time back in.
pub fn qr_poll_decision(elapsed_seconds: u64, code: Option<i32>) -> (r: QrPollDecision)
    ensures
        code == Some(0i32) ==> r == QrPollDecision::Done,
        (code != Some(0i32) && elapsed_seconds >= 120) ==> r == QrPollDecision::TimedOut,
        (code != Some(0i32) && elapsed_seconds < 120) ==> r == QrPollDecision::Retry,
{
    match code {
        Some(c) if c == 0 => QrPollDecision::Done,
        _ => {
            if elapsed_seconds >= qr_login_window_seconds() {
                QrPollDecision::TimedOut
            } else {
                QrPollDecision::Retry
            }
        },
    }
}

} // verus!
