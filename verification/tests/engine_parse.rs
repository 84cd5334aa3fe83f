use gemini_draw::engine::{parse_ask_output, parse_indexed, parse_status_output};

#[test]
fn parses_generated_images_and_chat_id() {
    let stdout = "这是配图说明\n---\nGenerated images:\n  1) https://lh3.googleusercontent.com/aaa\n  2) https://lh3.googleusercontent.com/bbb\n---\nChat ID: c_1a2b3c\n";
    let r = parse_ask_output(stdout);
    assert_eq!(r.text, "这是配图说明");
    assert_eq!(
        r.images,
        vec![
            "https://lh3.googleusercontent.com/aaa".to_string(),
            "https://lh3.googleusercontent.com/bbb".to_string()
        ]
    );
    assert_eq!(r.chat_id.as_deref(), Some("c_1a2b3c"));
}

#[test]
fn parses_web_images_with_titles() {
    let stdout = "正文\n---\nImages:\n  1) https://example.com/a.png  标题A\n---\nGenerated images:\n  1) https://lh3.googleusercontent.com/x\n";
    let r = parse_ask_output(stdout);
    assert_eq!(
        r.images,
        vec![
            "https://example.com/a.png".to_string(),
            "https://lh3.googleusercontent.com/x".to_string()
        ]
    );
}

#[test]
fn parses_status_logged_in() {
    let stdout = "=== gemini-web-cli v1.2.3 (built x) ===\n\n=== Account Diagnostics ===\n  Model: unspecified\n  Init: OK (access token obtained)\n  User: Lee <lee@example.com>\n  Account status: available — 可用\n  Available models (2):\n    gemini-3-flash (Gemini 3 Flash)\n    gemini-3-pro (Gemini 3 Pro) [advanced]\n";
    let a = parse_status_output(stdout, "");
    assert!(a.logged_in);
    assert_eq!(a.user.as_deref(), Some("Lee <lee@example.com>"));
    assert_eq!(a.models.len(), 2);
    assert_eq!(a.models[0].name, "gemini-3-flash");
    assert_eq!(a.models[0].display_name, "Gemini 3 Flash");
    assert!(!a.models[0].advanced_only);
    assert!(a.models[1].advanced_only);
}

#[test]
fn parses_status_failed() {
    let stdout = "=== gemini-web-cli v1.2.3 (built x) ===\n  Init: FAILED — session expired\n";
    let a = parse_status_output(stdout, "");
    assert!(!a.logged_in);
    assert_eq!(a.message, "session expired");
}

#[test]
fn indexed_lines_only() {
    assert_eq!(
        parse_indexed("  3) https://x/y.png"),
        Some("https://x/y.png".to_string())
    );
    assert_eq!(parse_indexed("     Thumbnail: https://x/t.png"), None);
}

#[test]
fn ask_output_without_rule_is_all_text() {
    let r = parse_ask_output("just text\nmore text  \n");
    assert_eq!(r.text, "just text\nmore text");
    assert!(r.images.is_empty());
    assert_eq!(r.chat_id, None);
}

#[test]
fn ask_output_skips_duplicate_urls() {
    let stdout = "t\n---\nGenerated images:\n  1) https://a/x\n  2) https://a/x\n  3) https://a/y\n";
    let r = parse_ask_output(stdout);
    assert_eq!(r.images, vec!["https://a/x".to_string(), "https://a/y".to_string()]);
}

#[test]
fn ask_output_skips_videos_and_lines_outside_lists() {
    let stdout = "t\n---\n  1) https://outside/x\nGenerated videos:\n  1) https://video/v\nGenerated media:\n  2) https://media/m\nImages:\n  1) ftp://not/http\n  x) https://bad/index\n";
    let r = parse_ask_output(stdout);
    assert!(r.images.is_empty());
}

#[test]
fn ask_output_reads_windows_line_endings_and_last_chat_id() {
    let stdout = "answer\r\n---\r\nGenerated images:\r\n  1) https://g/1\r\nChat ID:  c_1 \r\nChat ID: c_2\r\n";
    let r = parse_ask_output(stdout);
    assert_eq!(r.text, "answer");
    assert_eq!(r.images, vec!["https://g/1".to_string()]);
    assert_eq!(r.chat_id.as_deref(), Some("c_2"));
}

#[test]
fn ask_output_chat_id_ends_the_list() {
    let stdout = "x\n---\nImages:\nChat ID: c\n  1) https://after/chat\n";
    let r = parse_ask_output(stdout);
    assert!(r.images.is_empty());
    assert_eq!(r.chat_id.as_deref(), Some("c"));
}

#[test]
fn ask_output_of_empty_text() {
    let r = parse_ask_output("");
    assert_eq!(r.text, "");
    assert!(r.images.is_empty());
}

#[test]
fn indexed_line_needs_digits_before_paren() {
    assert_eq!(parse_indexed(") https://x"), None);
    assert_eq!(parse_indexed("1a) https://x"), None);
    assert_eq!(parse_indexed("12)"), None);
    assert_eq!(parse_indexed("12)   http://x/y  rest"), Some("http://x/y".to_string()));
}

#[test]
fn status_message_defaults() {
    let a = parse_status_output("nothing useful\n", "");
    assert!(!a.logged_in);
    assert_eq!(a.message, "无法获取账号信息");
    assert_eq!(a.user, None);
    assert_eq!(a.tier, None);
    let b = parse_status_output("Available models (1):\n  m1 (Model One)\n", "");
    assert!(!b.logged_in);
    assert_eq!(b.message, "已登录");
    assert_eq!(b.models.len(), 1);
}

#[test]
fn status_models_end_at_blank_or_header() {
    let stdout = "Available models (3):\n  a (A)\n\n  b (B)\nAvailable models:\n  c (C) advanced\n=== next ===\n  d (D)\n";
    let a = parse_status_output(stdout, "");
    let names: Vec<&str> = a.models.iter().map(|m| m.name.as_str()).collect();
    assert_eq!(names, vec!["a", "c"]);
    assert!(a.models[1].advanced_only);
}

#[test]
fn status_model_lines_without_paren_or_name_are_skipped() {
    let stdout = "Available models (3):\n  plain-name\n  (No Name)\n  m2 (Unclosed\n";
    let a = parse_status_output(stdout, "");
    assert_eq!(a.models.len(), 1);
    assert_eq!(a.models[0].name, "m2");
    assert_eq!(a.models[0].display_name, "Unclosed");
    assert!(!a.models[0].advanced_only);
}

#[test]
fn status_failure_with_ascii_dash_and_tier() {
    let stdout = "  Init: FAILED -FAILED - bad cookie\n  Account status: limited\n";
    let a = parse_status_output(stdout, "ignored");
    assert!(!a.logged_in);
    assert_eq!(a.message, "bad cookie");
    assert_eq!(a.tier.as_deref(), Some("limited"));
}
