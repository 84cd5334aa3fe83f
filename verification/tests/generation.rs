use gemini_draw::generation::{generate_step, GenAction, GenEvent, Phase};

fn s(v: &str) -> String {
    v.to_string()
}

fn notes_of(a: &GenAction) -> Vec<(String, String)> {
    match a {
        GenAction::Download { notes, .. } | GenAction::Finish { notes, .. } => notes.clone(),
        _ => vec![],
    }
}

#[test]
fn stops_without_cookies() {
    let (p, a) = generate_step(Phase::Start, GenEvent::Cookies(false));
    assert!(matches!(p, Phase::Over));
    assert!(matches!(a, GenAction::Fail(e) if e == "还没有导入 Cookie，请先在设置里导入"));
    let (p, a) = generate_step(Phase::Start, GenEvent::Cookies(true));
    assert!(matches!(p, Phase::Asking));
    assert!(matches!(a, GenAction::Ask));
}

#[test]
fn stops_without_images() {
    let (p, a) = generate_step(
        Phase::Asking,
        GenEvent::Answered { images: 0, text: s("  "), chat_id: None },
    );
    assert!(matches!(p, Phase::Over));
    assert!(matches!(a, GenAction::Fail(e) if e == "Gemini 没有返回图片"));
    let (_, a) = generate_step(
        Phase::Asking,
        GenEvent::Answered { images: 0, text: s("只有文字"), chat_id: None },
    );
    assert!(matches!(a, GenAction::Fail(e) if e == "Gemini 没有返回图片，仅返回文本：只有文字"));
}

#[test]
fn downloads_go_on_after_a_failure() {
    let (p, a) = generate_step(
        Phase::Asking,
        GenEvent::Answered { images: 2, text: s("t"), chat_id: Some(s("c1")) },
    );
    assert!(matches!(a, GenAction::Download { index: 0, .. }));
    assert_eq!(notes_of(&a), vec![(s("download"), s("下载图片 1/2…"))]);
    let (p, a) = generate_step(p, GenEvent::Downloaded(Some(s("boom"))));
    assert!(matches!(a, GenAction::Download { index: 1, .. }));
    assert_eq!(
        notes_of(&a),
        vec![(s("download"), s("第 1 张下载失败：boom")), (s("download"), s("下载图片 2/2…"))]
    );
    let (p, a) = generate_step(p, GenEvent::Downloaded(None));
    assert!(matches!(p, Phase::Over));
    assert_eq!(notes_of(&a), vec![(s("done"), s("完成，共 2 张（会话 c1）"))]);
    assert!(matches!(&a, GenAction::Finish { downloaded, .. } if *downloaded == vec![false, true]));
    let (p, a) = generate_step(p, GenEvent::Downloaded(None));
    assert!(matches!(p, Phase::Over));
    assert!(matches!(a, GenAction::Ignore));
}
