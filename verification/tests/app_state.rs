use cloud_music::downloader::download_header_list;
use cloud_music::login::{
    login_qr_png, login_qr_text, next_login_poll, png_or_error, LoginPoll, LoginQrError,
};
use cloud_music::model::login::QrcodeCheck;
use cloud_music::model::playlist::{first_player_info, GetPlayerInfoRes, PlayList, PlayerInfo, Track};
use cloud_music::model::user::UserProfile;
use cloud_music::player::Task;
use cloud_music::state::{App, KeyAction, MenuType};
use cloud_music::text::{decimal_string, starts_with};

fn track(id: i64, name: &str) -> Track {
    Track { id, name: name.to_string() }
}

fn playlist(id: i64, tracks: Option<Vec<Track>>) -> PlayList {
    PlayList { id, name: format!("list {}", id), tracks }
}

fn info(md5: &str, typ: &str, url: &str) -> PlayerInfo {
    PlayerInfo {
        id: 5,
        br: 320000,
        size: 100,
        url: url.to_string(),
        level: "exhigh".to_string(),
        encodeType: "mp3".to_string(),
        md5: md5.to_string(),
        typ: typ.to_string(),
    }
}

fn loaded_app() -> App {
    let mut app = App::new();
    app.add_playlists(vec![playlist(10, None), playlist(20, None), playlist(30, None)]);
    app.add_tracks(playlist(10, Some(vec![track(1, "a"), track(2, "b")])));
    app
}

fn pair_list(r: &cloud_music::api::ApiRequest) -> Vec<(String, String)> {
    r.params.pairs().clone()
}

#[test]
fn decimal_rendering() {
    assert_eq!(decimal_string(0), "0");
    assert_eq!(decimal_string(7), "7");
    assert_eq!(decimal_string(1234567890), "1234567890");
    assert_eq!(decimal_string(-45), "-45");
    assert_eq!(decimal_string(i64::MAX), i64::MAX.to_string());
    assert_eq!(decimal_string(i64::MIN), "-9223372036854775808");
}

#[test]
fn prefix_test() {
    assert!(starts_with("https://x", "http"));
    assert!(starts_with("http", "http"));
    assert!(!starts_with("htt", "http"));
    assert!(!starts_with("/weapi", "http"));
    assert!(starts_with("anything", ""));
    assert!(starts_with("héllo", "hé"));
}

#[test]
fn initial_state() {
    let app = App::new();
    assert_eq!(app.menuType, MenuType::Playlists);
    assert!(app.user_profile.is_none());
    assert!(app.playlists.is_empty());
    assert_eq!(app.current_playlist, Some(0));
    assert!(app.local_tracks.is_empty());
    assert_eq!(app.current_track, None);
}

#[test]
fn startup_requests() {
    let mut app = App::new();
    app.user_profile = Some(UserProfile { userId: 123456, nickname: "me".to_string() });
    let r = app.playlists_request();
    assert_eq!(r.path, "/weapi/user/playlist");
    assert_eq!(pair_list(&r)[0], ("uid".to_string(), "123456".to_string()));
    app.add_playlists(vec![playlist(77, None)]);
    let r = app.first_playlist_request();
    assert_eq!(r.path, "/weapi/v6/playlist/detail");
    assert_eq!(pair_list(&r)[0], ("id".to_string(), "77".to_string()));
    app.add_tracks(playlist(77, Some(vec![track(1, "a")])));
    app.add_tracks(playlist(77, Some(vec![track(2, "b")])));
    assert_eq!(app.local_tracks.len(), 2);
    assert_eq!(app.local_tracks[1].id, 2);
}

#[test]
fn move_selection_wraps() {
    let mut app = loaded_app();
    assert_eq!(app.handle_key('w'), KeyAction::Nothing);
    assert_eq!(app.current_playlist, Some(2));
    assert_eq!(app.handle_key('s'), KeyAction::Nothing);
    assert_eq!(app.current_playlist, Some(0));
    app.handle_key('s');
    app.handle_key('s');
    assert_eq!(app.current_playlist, Some(2));
    app.handle_key('s');
    assert_eq!(app.current_playlist, Some(0));
}

#[test]
fn move_selection_in_tracks_from_none() {
    let mut app = loaded_app();
    app.handle_key('d');
    assert_eq!(app.menuType, MenuType::Tracks);
    assert_eq!(app.current_track, None);
    app.handle_key('s');
    assert_eq!(app.current_track, Some(1));
    assert_eq!(app.current_playlist, Some(0));
    let mut other = loaded_app();
    other.handle_key('a');
    other.handle_key('w');
    assert_eq!(other.current_track, Some(1));
}

#[test]
fn up_then_down_restores_state() {
    let mut app = loaded_app();
    app.current_playlist = Some(1);
    app.handle_key('w');
    assert_eq!(app.current_playlist, Some(0));
    app.handle_key('s');
    assert_eq!(app.current_playlist, Some(1));
}

#[test]
fn switch_and_select_keys() {
    let mut app = loaded_app();
    assert_eq!(app.handle_key('a'), KeyAction::Nothing);
    assert_eq!(app.menuType, MenuType::Tracks);
    app.handle_key('a');
    assert_eq!(app.menuType, MenuType::Playlists);
    assert_eq!(app.handle_key('f'), KeyAction::LoadPlaylist);
    assert_eq!(app.menuType, MenuType::Tracks);
    assert_eq!(app.handle_key('f'), KeyAction::PlayTrack);
    assert_eq!(app.menuType, MenuType::Tracks);
    assert_eq!(app.handle_key('x'), KeyAction::Quit);
    assert_eq!(app.handle_key('q'), KeyAction::Nothing);
    assert_eq!(app.menuType, MenuType::Tracks);
}

#[test]
fn select_playlist_and_track() {
    let mut app = loaded_app();
    app.current_playlist = Some(2);
    let r = app.selected_playlist_request();
    assert_eq!(pair_list(&r)[0], ("id".to_string(), "30".to_string()));
    app.load_tracks(playlist(30, Some(vec![track(-8, "x"), track(9, "y")])));
    assert_eq!(app.local_tracks.len(), 2);
    assert_eq!(app.current_track, Some(0));
    let r = app.selected_track_request();
    assert_eq!(r.path, "/weapi/song/enhance/player/url");
    assert_eq!(pair_list(&r)[0], ("ids".to_string(), "[-8]".to_string()));
    app.current_track = Some(1);
    let r = app.selected_track_request();
    assert_eq!(pair_list(&r)[0], ("ids".to_string(), "[9]".to_string()));
}

#[test]
fn playback_task_and_cache_path() {
    let res = GetPlayerInfoRes { code: 200, data: vec![info("abc", "mp3", "http://m/1.mp3"), info("z", "flac", "u")] };
    let first = first_player_info(res);
    assert_eq!(first.md5, "abc");
    let t = Task::from_player_info(&first);
    assert_eq!(t.key, "abc.mp3");
    assert_eq!(t.url, "http://m/1.mp3");
    assert_eq!(t.cache_path(), "cache/abc.mp3");
}

#[test]
fn download_headers_in_order() {
    let h = download_header_list();
    let names: Vec<&str> = h.iter().map(|p| p.0.as_str()).collect();
    assert_eq!(
        names,
        vec!["cache-control", "pragma", "upgrade-insecure-requests", "accept", "accept-encoding", "user-agent"]
    );
    assert_eq!(h[2].1, "1");
}

#[test]
fn login_polling() {
    let waiting = QrcodeCheck { message: "waiting".to_string(), code: 801 };
    let done = QrcodeCheck { message: "ok".to_string(), code: 803 };
    assert_eq!(next_login_poll(1, &waiting), LoginPoll::Retry(2));
    assert_eq!(next_login_poll(18, &waiting), LoginPoll::Retry(19));
    assert_eq!(next_login_poll(19, &waiting), LoginPoll::GiveUp);
    assert_eq!(next_login_poll(5, &done), LoginPoll::Confirmed);
    assert_eq!(next_login_poll(19, &done), LoginPoll::Confirmed);
    let mut attempt = 1;
    let mut checks = 0;
    loop {
        checks += 1;
        match next_login_poll(attempt, &waiting) {
            LoginPoll::Retry(n) => attempt = n,
            _ => break,
        }
    }
    assert_eq!(checks, 19);
}

#[test]
fn login_qr_code_image() {
    assert_eq!(login_qr_text("k-1"), "/login?codekey=k-1");
    let png = login_qr_png("k-1").unwrap();
    assert!(png.len() > 8);
    assert_eq!(&png[1..4], b"PNG");
    let expected = qrcode_generator::to_png_to_vec(
        "/login?codekey=k-1",
        qrcode_generator::QrCodeEcc::Low,
        1024,
    )
    .unwrap();
    assert_eq!(png, expected);
    assert_ne!(login_qr_png("other").unwrap(), png);
}

#[test]
fn qr_encoder_errors_are_mapped() {
    let err: Result<Vec<u8>, qrcode_generator::QRCodeError> =
        Err(qrcode_generator::QRCodeError::DataTooLong);
    assert_eq!(png_or_error(err), Err(LoginQrError::Encode));
    assert_eq!(png_or_error(Ok(vec![1, 2])), Ok(vec![1, 2]));
    let long = "x".repeat(8000);
    assert_eq!(login_qr_png(&long), Err(LoginQrError::Encode));
}
