use media_transfer::dispatch::{dispatch, dispatch_fetched, Action, Config, Pending, Reply};
use media_transfer::message::{MediaKind, Segment};

fn strings(items: &[&str]) -> Vec<String> {
    let mut v = Vec::new();
    for s in items {
        v.push(String::from(*s));
    }
    v
}

fn config(enabled: bool) -> Config {
    Config {
        enabled,
        prefixes: strings(&[]),
        cmd_to_url: strings(&["转链接", "url"]),
        cmd_to_media: strings(&["转图片", "转视频", "预览"]),
    }
}

#[test]
fn disabled_emits_nothing() {
    let cfg = config(false);
    let segments = vec![Segment::Image { url: Some(String::from("https://x.test/i.png")) }];
    let action = dispatch(&cfg, "转链接", &segments);
    assert!(matches!(action, Action::Nothing));
}

#[test]
fn unmatched_text_emits_nothing() {
    let cfg = config(true);
    let segments = vec![];
    let action = dispatch(&cfg, "hello there", &segments);
    assert!(matches!(action, Action::Nothing));
}

#[test]
fn video_url_becomes_video_attachment() {
    let cfg = config(true);
    let action = dispatch(&cfg, "转视频 https://x.test/v.mp4", &vec![]);
    match action {
        Action::Emit(Reply::Attachment { kind, url }) => {
            assert_eq!(kind, MediaKind::Video);
            assert_eq!(url, "https://x.test/v.mp4");
        }
        other => panic!("expected a video attachment, got {:?}", other),
    }
}

#[test]
fn quoted_text_becomes_image_attachment() {
    let cfg = config(true);
    let segments = vec![Segment::Quote { id: String::from("77") }];
    let action = dispatch(&cfg, "转图片", &segments);
    let pending = match action {
        Action::Fetch { id, pending } => {
            assert_eq!(id, 77);
            assert_eq!(pending, Pending::Link { video_cmd: false });
            pending
        }
        other => panic!("expected a fetch, got {:?}", other),
    };
    let fetched = vec![Segment::Text { text: String::from("see https://x.test/p.png now") }];
    let reply = dispatch_fetched(pending, Some(&fetched));
    match reply {
        Reply::Attachment { kind, url } => {
            assert_eq!(kind, MediaKind::Image);
            assert_eq!(url, "https://x.test/p.png");
        }
        other => panic!("expected an image attachment, got {:?}", other),
    }
}

#[test]
fn inline_media_answered_without_fetch() {
    let cfg = config(true);
    let segments = vec![
        Segment::Image { url: Some(String::from("https://x.test/i.png")) },
        Segment::Quote { id: String::from("9") },
    ];
    let action = dispatch(&cfg, "转链接", &segments);
    match action {
        Action::Emit(Reply::Extracted { kind, url }) => {
            assert_eq!(kind, MediaKind::Image);
            assert_eq!(url, "https://x.test/i.png");
        }
        other => panic!("expected an extracted URL, got {:?}", other),
    }
}

#[test]
fn link_match_suppresses_media_vocabulary() {
    let cfg = Config {
        enabled: true,
        prefixes: strings(&[]),
        cmd_to_url: strings(&["转"]),
        cmd_to_media: strings(&["转图片"]),
    };
    let segments = vec![Segment::Image { url: Some(String::from("https://i")) }];
    let action = dispatch(&cfg, "转图片 https://x.test/a.png", &segments);
    assert!(matches!(action, Action::Emit(Reply::Extracted { .. })));
}

#[test]
fn media_apology_without_media_or_quote() {
    let cfg = config(true);
    let action = dispatch(&cfg, "转链接", &vec![]);
    assert!(matches!(action, Action::Emit(Reply::MediaApology)));
}

#[test]
fn media_apology_on_unparsable_quote_id() {
    let cfg = config(true);
    let segments = vec![Segment::Quote { id: String::from("not-a-number") }];
    let action = dispatch(&cfg, "转链接", &segments);
    assert!(matches!(action, Action::Emit(Reply::MediaApology)));
}

#[test]
fn link_apology_without_url_or_quote() {
    let cfg = config(true);
    let action = dispatch(&cfg, "转图片", &vec![]);
    assert!(matches!(action, Action::Emit(Reply::LinkApology)));
}

#[test]
fn quoted_video_file_extracted() {
    let cfg = config(true);
    let segments = vec![Segment::Quote { id: String::from("5") }];
    let action = dispatch(&cfg, "转链接", &segments);
    let pending = match action {
        Action::Fetch { id, pending } => {
            assert_eq!(id, 5);
            assert_eq!(pending, Pending::Media);
            pending
        }
        other => panic!("expected a fetch, got {:?}", other),
    };
    let fetched = vec![Segment::Video { url: None, file: Some(String::from("https://v.file")) }];
    let reply = dispatch_fetched(pending, Some(&fetched));
    match reply {
        Reply::Extracted { kind, url } => {
            assert_eq!(kind, MediaKind::Video);
            assert_eq!(url, "https://v.file");
        }
        other => panic!("expected an extracted URL, got {:?}", other),
    }
}

#[test]
fn failed_fetch_degrades_to_apology() {
    assert!(matches!(dispatch_fetched(Pending::Media, None), Reply::MediaApology));
    assert!(matches!(
        dispatch_fetched(Pending::Link { video_cmd: false }, None),
        Reply::LinkApology
    ));
}

#[test]
fn fetched_message_without_media_is_apology() {
    let fetched = vec![Segment::Text { text: String::from("nothing here") }];
    assert!(matches!(dispatch_fetched(Pending::Media, Some(&fetched)), Reply::MediaApology));
}

#[test]
fn fetched_text_without_url_is_apology() {
    let fetched = vec![Segment::Text { text: String::from("no link") }];
    assert!(matches!(
        dispatch_fetched(Pending::Link { video_cmd: false }, Some(&fetched)),
        Reply::LinkApology
    ));
}

#[test]
fn video_word_in_command_forces_video() {
    let cfg = config(true);
    let action = dispatch(&cfg, "转视频 https://x.test/pic", &vec![]);
    match action {
        Action::Emit(Reply::Attachment { kind, .. }) => assert_eq!(kind, MediaKind::Video),
        other => panic!("expected an attachment, got {:?}", other),
    }
}

#[test]
fn mov_suffix_forces_video_under_image_command() {
    let cfg = config(true);
    let action = dispatch(&cfg, "转图片 https://x.test/v.mov", &vec![]);
    match action {
        Action::Emit(Reply::Attachment { kind, .. }) => assert_eq!(kind, MediaKind::Video),
        other => panic!("expected an attachment, got {:?}", other),
    }
}

#[test]
fn other_video_suffix_stays_image() {
    let cfg = config(true);
    let action = dispatch(&cfg, "转图片 https://x.test/v.webm", &vec![]);
    match action {
        Action::Emit(Reply::Attachment { kind, .. }) => assert_eq!(kind, MediaKind::Image),
        other => panic!("expected an attachment, got {:?}", other),
    }
}

#[test]
fn video_command_after_fetch_forces_video() {
    let fetched = vec![Segment::Text { text: String::from("go https://x.test/a.png") }];
    let reply = dispatch_fetched(Pending::Link { video_cmd: true }, Some(&fetched));
    match reply {
        Reply::Attachment { kind, url } => {
            assert_eq!(kind, MediaKind::Video);
            assert_eq!(url, "https://x.test/a.png");
        }
        other => panic!("expected an attachment, got {:?}", other),
    }
}
