use std::time::{Duration, UNIX_EPOCH};
use wechatbot::message::{detect_type, extract_text, incoming_message, parse_message};
use wechatbot::types::{
    CDNMedia, ContentType, FileItem, ImageItem, MessageItemType, MessageState, MessageType,
    RefMessage, TextItem, VideoItem, VoiceItem, WireMessage, WireMessageItem,
};

fn bare(item_type: MessageItemType) -> WireMessageItem {
    WireMessageItem {
        item_type,
        text_item: None,
        image_item: None,
        voice_item: None,
        file_item: None,
        video_item: None,
        ref_msg: None,
    }
}

fn text_item(text: &str) -> WireMessageItem {
    let mut item = bare(MessageItemType::Text);
    item.text_item = Some(TextItem { text: text.to_string() });
    item
}

fn media(param: &str) -> CDNMedia {
    CDNMedia { encrypt_query_param: param.to_string(), aes_key: "k".to_string(), encrypt_type: Some(1) }
}

fn wire(message_type: MessageType, items: Vec<WireMessageItem>) -> WireMessage {
    WireMessage {
        from_user_id: "alice".to_string(),
        to_user_id: "bot".to_string(),
        client_id: "c1".to_string(),
        create_time_ms: 1_700_000_000_123,
        message_type,
        message_state: MessageState::Finish,
        context_token: "ctx-1".to_string(),
        item_list: items,
    }
}

#[test]
fn bot_messages_are_not_parsed() {
    assert!(parse_message(&wire(MessageType::Bot, vec![text_item("hi")])).is_none());
}

#[test]
fn text_message_is_parsed() {
    let m = parse_message(&wire(MessageType::User, vec![text_item("hello")])).unwrap();
    assert_eq!(m.user_id, "alice");
    assert_eq!(m.text, "hello");
    assert_eq!(m.content_type, ContentType::Text);
    assert_eq!(m.context_token, "ctx-1");
    assert_eq!(m.timestamp, UNIX_EPOCH + Duration::from_millis(1_700_000_000_123));
    assert!(m.images.is_empty() && m.voices.is_empty() && m.files.is_empty() && m.videos.is_empty());
    assert!(m.quoted.is_none());
    assert_eq!(m.raw.from_user_id, "alice");
    assert_eq!(m.raw.item_list.len(), 1);
}

#[test]
fn text_of_each_item_type() {
    let mut image = bare(MessageItemType::Image);
    image.image_item = Some(ImageItem {
        media: None,
        thumb_media: None,
        aeskey: None,
        url: Some("http://img".to_string()),
        mid_size: None,
        thumb_width: None,
        thumb_height: None,
    });
    let mut voice = bare(MessageItemType::Voice);
    voice.voice_item = Some(VoiceItem { media: None, encode_type: None, text: Some("spoken".to_string()), playtime: None });
    let mut file = bare(MessageItemType::File);
    file.file_item = Some(FileItem { media: None, file_name: Some("a.pdf".to_string()), md5: None, len: None });
    let items = vec![text_item("hi"), image, voice, file, bare(MessageItemType::Video)];
    assert_eq!(extract_text(&items), "hi\nhttp://img\nspoken\na.pdf\n[video]");
}

#[test]
fn placeholders_for_items_without_content() {
    let items = vec![
        bare(MessageItemType::Image),
        bare(MessageItemType::Voice),
        bare(MessageItemType::File),
        bare(MessageItemType::Text),
        bare(MessageItemType::Video),
    ];
    assert_eq!(extract_text(&items), "[image]\n[voice]\n[file]\n[video]");
}

#[test]
fn no_items_give_empty_text() {
    assert_eq!(extract_text(&[]), "");
    assert_eq!(detect_type(&[]), ContentType::Text);
}

#[test]
fn content_type_is_that_of_the_first_item() {
    assert_eq!(detect_type(&[bare(MessageItemType::Voice), text_item("x")]), ContentType::Voice);
    assert_eq!(detect_type(&[bare(MessageItemType::Image)]), ContentType::Image);
    assert_eq!(detect_type(&[bare(MessageItemType::File)]), ContentType::File);
    assert_eq!(detect_type(&[bare(MessageItemType::Video)]), ContentType::Video);
    assert_eq!(detect_type(&[text_item("x"), bare(MessageItemType::Video)]), ContentType::Text);
}

#[test]
fn media_contents_are_collected() {
    let mut image = bare(MessageItemType::Image);
    image.image_item = Some(ImageItem {
        media: Some(media("m1")),
        thumb_media: Some(media("t1")),
        aeskey: Some("aes".to_string()),
        url: None,
        mid_size: Some(10),
        thumb_width: Some(64),
        thumb_height: Some(48),
    });
    let mut voice = bare(MessageItemType::Voice);
    voice.voice_item = Some(VoiceItem { media: Some(media("v")), encode_type: Some(6), text: None, playtime: Some(1500) });
    let mut video = bare(MessageItemType::Video);
    video.video_item = Some(VideoItem { media: Some(media("vid")), video_size: Some(99), play_length: Some(30), thumb_media: None });
    let m = parse_message(&wire(MessageType::User, vec![image, voice, video])).unwrap();
    assert_eq!(m.content_type, ContentType::Image);
    assert_eq!(m.images.len(), 1);
    assert_eq!(m.images[0].aes_key.as_deref(), Some("aes"));
    assert_eq!(m.images[0].width, Some(64));
    assert_eq!(m.images[0].height, Some(48));
    assert_eq!(m.images[0].media.as_ref().unwrap().encrypt_query_param, "m1");
    assert_eq!(m.voices.len(), 1);
    assert_eq!(m.voices[0].duration_ms, Some(1500));
    assert_eq!(m.voices[0].encode_type, Some(6));
    assert_eq!(m.videos.len(), 1);
    assert_eq!(m.videos[0].duration_ms, Some(30));
    assert_eq!(m.text, "[image]\n[voice]\n[video]");
}

fn file_with_len(len: Option<&str>) -> WireMessageItem {
    let mut file = bare(MessageItemType::File);
    file.file_item = Some(FileItem {
        media: None,
        file_name: Some("f".to_string()),
        md5: Some("abc".to_string()),
        len: len.map(|s| s.to_string()),
    });
    file
}

#[test]
fn file_size_is_read_as_a_decimal_number() {
    let cases: Vec<(Option<&str>, Option<i64>)> = vec![
        (Some("1024"), Some(1024)),
        (Some("+7"), Some(7)),
        (Some("-3"), Some(-3)),
        (Some("0"), Some(0)),
        (Some("9223372036854775807"), Some(i64::MAX)),
        (Some("-9223372036854775808"), Some(i64::MIN)),
        (Some("9223372036854775808"), None),
        (Some("-9223372036854775809"), None),
        (Some(""), None),
        (Some("+"), None),
        (Some("-"), None),
        (Some("12a"), None),
        (Some(" 12"), None),
        (Some("1.5"), None),
        (None, None),
    ];
    for (len, expected) in cases {
        let m = parse_message(&wire(MessageType::User, vec![file_with_len(len)])).unwrap();
        assert_eq!(m.files.len(), 1);
        assert_eq!(m.files[0].size, expected, "len {:?}", len);
        assert_eq!(m.files[0].md5.as_deref(), Some("abc"));
    }
}

#[test]
fn last_quote_wins() {
    let mut q1 = text_item("a");
    q1.ref_msg = Some(RefMessage { title: Some("first".to_string()), message_item: None });
    let mut q2 = text_item("b");
    q2.ref_msg = Some(RefMessage {
        title: Some("second".to_string()),
        message_item: Some(Box::new(text_item("quoted text"))),
    });
    let m = parse_message(&wire(MessageType::User, vec![q1, q2, text_item("c")])).unwrap();
    let q = m.quoted.unwrap();
    assert_eq!(q.title.as_deref(), Some("second"));
    assert_eq!(q.text.as_deref(), Some("quoted text"));
    assert_eq!(m.text, "a\nb\nc");
}

#[test]
fn zero_create_time_is_the_epoch() {
    let mut w = wire(MessageType::User, vec![]);
    w.create_time_ms = 0;
    let m = parse_message(&w).unwrap();
    assert_eq!(m.timestamp, UNIX_EPOCH);
    assert_eq!(m.text, "");
}

#[test]
fn message_is_built_at_the_given_time() {
    let w = wire(MessageType::User, vec![text_item("later")]);
    let at = UNIX_EPOCH + Duration::from_secs(42);
    let m = incoming_message(&w, at);
    assert_eq!(m.timestamp, at);
    assert_eq!(m.text, "later");
    assert_eq!(m.user_id, "alice");
    assert_eq!(m.context_token, "ctx-1");
}

#[test]
fn text_of_joined_items_is_joined_text() {
    let a = vec![text_item("one"), text_item("two")];
    let b = vec![bare(MessageItemType::Video)];
    let mut ab = a.clone();
    ab.extend(b.clone());
    assert_eq!(extract_text(&ab), format!("{}\n{}", extract_text(&a), extract_text(&b)));
    let silent = vec![bare(MessageItemType::Text)];
    let mut as_ = a.clone();
    as_.extend(silent);
    assert_eq!(extract_text(&as_), extract_text(&a));
}
