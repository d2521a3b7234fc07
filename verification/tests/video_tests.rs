use ytdl_lib::video::{attach_signatures, player_config_json, VideoConfig};
use ytdl_lib::{between, ActionToken, OperationKind, SourceRecord, Video};

#[test]
fn new_video_is_uninitialized() {
    let video = Video::new("dQw4w9WgXcQ");
    assert_eq!(video.id(), "dQw4w9WgXcQ");
    assert!(video.video_sources().is_none());
    assert!(video.video_config().is_none());
}

#[test]
fn completed_video_hands_out_sources_and_config() {
    let mut video = Video::new("id01");
    let mut rec = SourceRecord::new();
    rec.set("url", "http://example/a".to_string());
    video.complete_initialization(VideoConfig::default(), vec![rec]);
    let sources = video.video_sources().expect("sources after initialization");
    assert_eq!(sources.len(), 1);
    assert_eq!(sources[0].get("url"), Some("http://example/a".to_string()));
    assert!(video.video_config().is_some());
}

#[test]
fn source_record_get_and_set() {
    let mut rec = SourceRecord::new();
    assert_eq!(rec.get("s"), None);
    rec.set("s", "abc".to_string());
    assert_eq!(rec.get("s"), Some("abc".to_string()));
    rec.set("s", "xyz".to_string());
    assert_eq!(rec.get("s"), Some("xyz".to_string()));
    assert_eq!(rec.get("other"), None);
}

#[test]
fn between_picks_first_left_and_last_right() {
    assert_eq!(between("xx[inner]yy", "[", "]"), Some("inner"));
    assert_eq!(between("a[b]c[d]e", "[", "]"), Some("b]c[d"));
    assert_eq!(between("no markers", "[", "]"), None);
    assert_eq!(between("]reversed[", "[", "]"), None);
}

#[test]
fn player_config_json_cuts_the_configuration() {
    let page = "<html><script>ytplayer.config = {\"a\":1};ytplayer.load();</script></html>";
    assert_eq!(player_config_json(page), Some("{\"a\":1}"));
}

#[test]
fn player_config_json_missing_markers() {
    assert_eq!(player_config_json("<html>no config</html>"), None);
    assert_eq!(player_config_json("ytplayer.config = {} </script>"), None);
}

#[test]
fn attach_signatures_deciphers_each_cipher() {
    let tokens = vec![ActionToken { kind: OperationKind::Reverse, operand: 0 }];
    let mut with_cipher = SourceRecord::new();
    with_cipher.set("s", "ABC".to_string());
    let mut empty_cipher = SourceRecord::new();
    empty_cipher.set("s", "".to_string());
    let without_cipher = SourceRecord::new();
    let out = attach_signatures(vec![with_cipher, empty_cipher, without_cipher], &tokens);
    assert_eq!(out.len(), 3);
    assert_eq!(out[0].get("signature"), Some("CBA".to_string()));
    assert_eq!(out[1].get("signature"), None);
    assert_eq!(out[1].get("s"), Some("".to_string()));
    assert_eq!(out[2].get("signature"), None);
    assert_eq!(out[2].get("s"), Some("".to_string()));
}
