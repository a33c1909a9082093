use cutis::bytesize::parse_byte_size;
use cutis::dirs::{cache_dir, config_dir, data_dir, debug_work_dir, get_some_dir};
use cutis::driver::{
    csrf_from_cookie, login_poll_done, login_qr_data, qr_poll_decision, AlbumRspError,
    AlbumUploadData, AlbumUploadRsp, GetCsrfError, QrData, QrPollDecision, QrRsp, SelfInfo,
};
use cutis::locator::{abbr_url, check_can_parse, un_abbr_url};

#[test]
fn check_can_parse_test() {
    assert!(check_can_parse("bili://2569aaaa4f9b28787cf1f0c5b1134cc7e0900000"));
    assert!(check_can_parse(
        "http://i0.hdslb.com/bfs/album/2569aaaa4f9b28787cf1f0c5b1134cc7e0900000.png"
    ));
    assert!(check_can_parse(
        "https://i0.hdslb.com/bfs/album/2569aaaa4f9b28787cf1f0c5b1134cc7e0900000.png"
    ));
    assert!(!check_can_parse(
        "https://i0.hdslb.com/bfs/album/2569aaaa4f9b28787cf1f0c5b1134cc7e0900000.webm"
    ));
    assert!(!check_can_parse(
        "https://i0.hdslb.com/bfs/album/2569aa4f9b28787cf1f0c5b1134cc7e0900000.webm"
    ));
    assert!(!check_can_parse("bili://FAILED"));
    assert!(!check_can_parse("bili://2569aaaa4f9b28787cf1f0c5b1134cc7e0900000.png"));
    assert!(!check_can_parse("2569AAaa4f9b28787cf1f0c5b1134cc7e0900000"));
}

#[test]
fn abbr_unabbr_url_test() {
    assert_eq!(
        un_abbr_url("bili://2569aaaa4f9b28787cf1f0c5b1134cc7e0900000"),
        Some("https://i0.hdslb.com/bfs/album/2569aaaa4f9b28787cf1f0c5b1134cc7e0900000.png".to_string()),
    );
    assert_eq!(un_abbr_url("bili://2569aaaa4f9b28787cf1f0c5b1134cc7e090"), None);
    assert_eq!(
        abbr_url("https://i0.hdslb.com/bfs/album/2569aaaa4f9b28787cf1f0c5b1134cc7e0900000.png"),
        Some("bili://2569aaaa4f9b28787cf1f0c5b1134cc7e0900000".to_string()),
    );
}

#[test]
fn test() {
    assert_eq!(parse_byte_size("4 MiB"), Some(4 * 1024 * 1024));
}

#[test]
fn byte_sizes_parse_with_and_without_units() {
    assert_eq!(parse_byte_size("65536"), Some(65536));
    assert_eq!(parse_byte_size("512k"), Some(512 * 1024));
    assert_eq!(parse_byte_size("512K"), Some(512 * 1024));
    assert_eq!(parse_byte_size("2MB"), Some(2 * 1024 * 1024));
    assert_eq!(parse_byte_size("3 kib"), Some(3 * 1024));
    assert_eq!(parse_byte_size("7b"), Some(7));
    assert_eq!(parse_byte_size("0"), Some(0));
    assert_eq!(parse_byte_size("18446744073709551615"), Some(u64::MAX));
}

#[test]
fn bad_byte_sizes_are_refused() {
    assert_eq!(parse_byte_size(""), None);
    assert_eq!(parse_byte_size("abc"), None);
    assert_eq!(parse_byte_size("12 GiB"), None);
    assert_eq!(parse_byte_size("4 MiB "), None);
    assert_eq!(parse_byte_size("-3k"), None);
    assert_eq!(parse_byte_size("18446744073709551616"), None);
    assert_eq!(parse_byte_size("99999999999999999999m"), None);
    // The multiplier pushes the value past the machine's range.
    assert_eq!(parse_byte_size("18014398509481984M"), None);
}

#[test]
fn csrf_comes_from_the_session_cookie() {
    assert_eq!(csrf_from_cookie(Some("tok".to_string())), Ok("tok".to_string()));
    assert_eq!(csrf_from_cookie(None), Err(GetCsrfError::NotLogin));
}

#[test]
fn upload_response_grants_a_locator_only_on_success() {
    let ok = AlbumUploadRsp {
        code: 0,
        message: None,
        data: Some(AlbumUploadData {
            image_url: Some("https://example.org/x.png".to_string()),
            image_width: Some(64),
            image_height: Some(64),
        }),
    };
    assert_eq!(ok.image_url(), Ok("https://example.org/x.png".to_string()));

    let bad_code = AlbumUploadRsp { code: 114, message: None, data: None };
    assert_eq!(bad_code.image_url(), Err(AlbumRspError::Code { code: 114 }));

    let no_data = AlbumUploadRsp { code: 0, message: None, data: None };
    assert_eq!(no_data.image_url(), Err(AlbumRspError::MissingData));

    let no_url = AlbumUploadRsp {
        code: 0,
        message: None,
        data: Some(AlbumUploadData { image_url: None, image_width: None, image_height: None }),
    };
    assert_eq!(no_url.image_url(), Err(AlbumRspError::MissingUrl));
}

#[test]
fn qr_response_extraction() {
    let rsp = QrRsp {
        code: 0,
        status: Some(true),
        timestamp: Some(123),
        data: Some(QrData {
            url: Some("https://example.org/qr".to_string()),
            oauth_key: Some("key".to_string()),
        }),
    };
    assert_eq!(rsp.login_url(), Some("https://example.org/qr".to_string()));
    assert_eq!(rsp.oauth_key(), Some("key".to_string()));
    let empty = QrRsp { code: 0, status: None, timestamp: None, data: None };
    assert_eq!(empty.login_url(), None);
    assert_eq!(empty.oauth_key(), None);
}

#[test]
fn login_poll_reads_the_payload() {
    let won = login_qr_data(None, Some("https://example.org".to_string()));
    assert!(won.success);
    let lost = login_qr_data(Some(-100), None);
    assert!(!lost.success);
    assert_eq!(lost.failed_code, Some(-100));
    assert!(login_poll_done(0));
    assert!(!login_poll_done(1));
}

#[test]
fn display_name_falls_back_to_unknown() {
    let named = SelfInfo {
        is_login: true,
        avatar: None,
        mid: Some(7),
        username: Some("reader".to_string()),
    };
    assert_eq!(named.display_name(), "reader");
    let nameless = SelfInfo { is_login: false, avatar: None, mid: None, username: None };
    assert_eq!(nameless.display_name(), "Unknown");
}

#[test]
fn directories_fall_back_in_order() {
    assert_eq!(
        debug_work_dir(true, "/src/tree"),
        Some("/src/tree/cutis-work".to_string())
    );
    assert_eq!(debug_work_dir(false, "/src/tree"), None);
    assert_eq!(
        get_some_dir("config", Some("/dev".to_string()), Some("/proj".to_string()), None),
        Some("/dev/./config".to_string())
    );
    assert_eq!(
        config_dir(None, Some("/proj/config".to_string()), None),
        Some("/proj/config".to_string())
    );
    assert_eq!(data_dir(None, None, Some("/cwd".to_string())), Some("/cwd/./data".to_string()));
    assert_eq!(cache_dir(None, None, None), None);
}

#[test]
fn jpeg_album_urls_abbreviate_too() {
    assert_eq!(
        abbr_url("http://i0.hdslb.com/bfs/album/2569aaaa4f9b28787cf1f0c5b1134cc7e0900000.jpeg"),
        Some("bili://2569aaaa4f9b28787cf1f0c5b1134cc7e0900000".to_string()),
    );
    assert_eq!(abbr_url("bili://2569aaaa4f9b28787cf1f0c5b1134cc7e0900000"), None);
}

#[test]
fn qr_polling_stops_on_success_or_timeout() {
    assert_eq!(qr_poll_decision(0, Some(0)), QrPollDecision::Done);
    assert_eq!(qr_poll_decision(119, Some(86038)), QrPollDecision::Retry);
    assert_eq!(qr_poll_decision(119, None), QrPollDecision::Retry);
    assert_eq!(qr_poll_decision(120, None), QrPollDecision::TimedOut);
    assert_eq!(qr_poll_decision(500, Some(0)), QrPollDecision::Done);
}
