use media_transfer::matcher::parse_command;

fn strings(items: &[&str]) -> Vec<String> {
    let mut v = Vec::new();
    for s in items {
        v.push(String::from(*s));
    }
    v
}

#[test]
fn longest_command_wins() {
    let prefixes = strings(&[]);
    let commands = strings(&["转图片", "转图片链接"]);
    let (matched, args, cmd) = parse_command("转图片链接 https://a.b", &prefixes, &commands);
    assert!(matched);
    assert_eq!(cmd, "转图片链接");
    assert_eq!(args, "https://a.b");
}

#[test]
fn shorter_command_still_matches_alone() {
    let prefixes = strings(&[]);
    let commands = strings(&["转图片", "转图片链接"]);
    let (matched, args, cmd) = parse_command("转图片 now", &prefixes, &commands);
    assert!(matched);
    assert_eq!(cmd, "转图片");
    assert_eq!(args, "now");
}

#[test]
fn missing_prefix_never_matches() {
    let prefixes = strings(&["/", "!"]);
    let commands = strings(&["转图片"]);
    let (matched, args, cmd) = parse_command("转图片 x", &prefixes, &commands);
    assert!(!matched);
    assert_eq!(args, "");
    assert_eq!(cmd, "");
}

#[test]
fn prefix_stripped_and_trimmed() {
    let prefixes = strings(&["bot"]);
    let commands = strings(&["转图片"]);
    let (matched, args, cmd) = parse_command("  bot  转图片   arg  ", &prefixes, &commands);
    assert!(matched);
    assert_eq!(cmd, "转图片");
    assert_eq!(args, "arg");
}

#[test]
fn longest_prefix_wins() {
    let prefixes = strings(&["b", "bot"]);
    let commands = strings(&["转图片"]);
    let (matched, _, cmd) = parse_command("bot转图片", &prefixes, &commands);
    assert!(matched);
    assert_eq!(cmd, "转图片");
}

#[test]
fn empty_command_literal_is_skipped() {
    let prefixes = strings(&[]);
    let commands = strings(&["", "ok"]);
    let (matched, args, cmd) = parse_command("hello", &prefixes, &commands);
    assert!(!matched);
    assert_eq!(args, "");
    assert_eq!(cmd, "");
    let (matched2, args2, cmd2) = parse_command("ok now", &prefixes, &commands);
    assert!(matched2);
    assert_eq!(cmd2, "ok");
    assert_eq!(args2, "now");
}

#[test]
fn no_prefix_required_when_list_empty() {
    let prefixes = strings(&[]);
    let commands = strings(&["url"]);
    let (matched, args, cmd) = parse_command("  url x ", &prefixes, &commands);
    assert!(matched);
    assert_eq!(cmd, "url");
    assert_eq!(args, "x");
}

#[test]
fn matching_is_case_sensitive() {
    let prefixes = strings(&[]);
    let commands = strings(&["URL"]);
    let (matched, _, _) = parse_command("url x", &prefixes, &commands);
    assert!(!matched);
}

#[test]
fn matcher_is_idempotent() {
    let prefixes = strings(&["/"]);
    let commands = strings(&["预览", "看看"]);
    let first = parse_command("/预览 https://x.test/a", &prefixes, &commands);
    let second = parse_command("/预览 https://x.test/a", &prefixes, &commands);
    assert_eq!(first, second);
}
