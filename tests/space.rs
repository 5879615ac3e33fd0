use space_dl::space::{
    admin_list, bearer_header, output_file_name, sanitize_title, space_id, space_info_url,
    stream_status_url, title_char_allowed, SPACE_INFO_URL_HEAD, SPACE_INFO_URL_TAIL,
};
use space_dl::stream::Stream;
use space_dl::session::Action;

#[test]
fn space_id_from_url_or_id() {
    assert_eq!(space_id("https://twitter.com/i/spaces/1OdKrBnaEPXKX?s=20"), "1OdKrBnaEPXKX");
    assert_eq!(space_id("twitter.com/i/spaces/1OdKrBnaEPXKX/"), "1OdKrBnaEPXKX");
    assert_eq!(space_id("1OdKrBnaEPXKX"), "1OdKrBnaEPXKX");
    assert_eq!(space_id("?abc"), "");
}

#[test]
fn request_urls() {
    assert_eq!(space_info_url("ID9"), format!("{SPACE_INFO_URL_HEAD}ID9{SPACE_INFO_URL_TAIL}"));
    assert!(space_info_url("ID9").contains("%22id%22%3A%22ID9%22"));
    assert_eq!(
        stream_status_url("28_1"),
        "https://twitter.com/i/api/1.1/live_video_stream/status/28_1"
    );
    assert_eq!(bearer_header("tok"), "Bearer tok");
}

#[test]
fn title_keeps_allowed_characters() {
    assert_eq!(sanitize_title("Hello, World! \u{2014} test_1-2?"), "Hello World \u{2014} test_1-2");
    assert_eq!(sanitize_title("Çafé/日本"), "Çafé日本");
    assert_eq!(sanitize_title("a\tb"), "a\tb");
    assert_eq!(sanitize_title("!!!"), "");
}

#[test]
fn title_char_rule() {
    assert!(title_char_allowed('x', true, false));
    assert!(title_char_allowed(' ', false, true));
    assert!(title_char_allowed('-', false, false));
    assert!(title_char_allowed('_', false, false));
    assert!(title_char_allowed('\u{2014}', false, false));
    assert!(!title_char_allowed('!', false, false));
}

#[test]
fn admins_joined_with_commas() {
    assert_eq!(admin_list(&vec!["Ann".to_string(), "Bo".to_string()]), "Ann,Bo,");
    assert_eq!(admin_list(&Vec::new()), "");
}

#[test]
fn output_file_name_choice() {
    assert_eq!(output_file_name(&Some("mine".to_string()), &"Space".to_string()), "mine.aac");
    assert_eq!(output_file_name(&None, &"Space Title".to_string()), "Space Title.aac");
}

#[test]
fn stream_location_and_base_uri() {
    let s = Stream::new("https://prod.example/x/playlist_1679.m3u8?type=replay".to_string());
    assert_eq!(s.location(), "https://prod.example/x/playlist_1679.m3u8?type=replay");
    assert_eq!(s.base_uri(), "https://prod.example/x/");
    let plain = Stream::new("https://h/y.m3u8".to_string());
    assert_eq!(plain.base_uri(), "https://h/y.m3u8");
}

#[test]
fn stream_session_urls() {
    let s = Stream::new("https://h/a/playlist_1.m3u8".to_string());
    let frags = vec!["c1.aac".to_string(), "c2.aac".to_string()];
    let mut session = s.download_fragments(2, &frags);
    assert_eq!(session.remaining(), 2);
    match session.next_action() {
        Action::Fetch { index, url } => {
            assert_eq!(index, 0);
            assert_eq!(url, "https://h/a/c1.aac");
        }
        other => panic!("{other:?}"),
    }
    match session.next_action() {
        Action::Fetch { index, url } => {
            assert_eq!(index, 1);
            assert_eq!(url, "https://h/a/c2.aac");
        }
        other => panic!("{other:?}"),
    }
}
