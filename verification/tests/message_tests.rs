use media_transfer::message::{first_media, flatten_text, quote_target, MediaKind, Segment};

#[test]
fn inline_image_wins_over_quote() {
    let segments = vec![
        Segment::Image { url: Some(String::from("https://x.test/i.png")) },
        Segment::Quote { id: String::from("1") },
    ];
    let m = first_media(&segments).unwrap();
    assert_eq!(m.url, "https://x.test/i.png");
    assert_eq!(m.kind, MediaKind::Image);
}

#[test]
fn image_without_url_is_skipped() {
    let segments = vec![
        Segment::Image { url: None },
        Segment::Video { url: None, file: Some(String::from("https://x.test/v.mp4")) },
    ];
    let m = first_media(&segments).unwrap();
    assert_eq!(m.url, "https://x.test/v.mp4");
    assert_eq!(m.kind, MediaKind::Video);
}

#[test]
fn video_url_preferred_over_file() {
    let segments = vec![Segment::Video {
        url: Some(String::from("https://u")),
        file: Some(String::from("https://f")),
    }];
    let m = first_media(&segments).unwrap();
    assert_eq!(m.url, "https://u");
    assert_eq!(m.kind, MediaKind::Video);
}

#[test]
fn video_file_fallback() {
    let segments = vec![Segment::Video { url: None, file: Some(String::from("https://v")) }];
    let m = first_media(&segments).unwrap();
    assert_eq!(m.url, "https://v");
    assert_eq!(m.kind, MediaKind::Video);
}

#[test]
fn no_media_in_text_only_message() {
    let segments = vec![Segment::Text { text: String::from("hi") }, Segment::Other];
    assert!(first_media(&segments).is_none());
}

#[test]
fn quote_target_parses_numeric_id() {
    let segments = vec![
        Segment::Text { text: String::from("hi") },
        Segment::Quote { id: String::from("123") },
    ];
    assert_eq!(quote_target(&segments), Some(123));
}

#[test]
fn quote_target_negative_id() {
    let segments = vec![Segment::Quote { id: String::from("-5") }];
    assert_eq!(quote_target(&segments), Some(-5));
}

#[test]
fn quote_target_rejects_non_numeric() {
    let segments = vec![Segment::Quote { id: String::from("abc") }];
    assert_eq!(quote_target(&segments), None);
}

#[test]
fn quote_target_rejects_out_of_range() {
    let segments = vec![Segment::Quote { id: String::from("2147483648") }];
    assert_eq!(quote_target(&segments), None);
}

#[test]
fn quote_target_without_quote() {
    let segments = vec![Segment::Text { text: String::from("hi") }];
    assert_eq!(quote_target(&segments), None);
}

#[test]
fn flatten_concatenates_text_segments() {
    let segments = vec![
        Segment::Text { text: String::from("see ") },
        Segment::Image { url: None },
        Segment::Text { text: String::from("this") },
    ];
    assert_eq!(flatten_text(&segments), Some(String::from("see this")));
}

#[test]
fn flatten_of_empty_text_is_nothing() {
    let segments = vec![Segment::Image { url: None }, Segment::Text { text: String::new() }];
    assert_eq!(flatten_text(&segments), None);
}
