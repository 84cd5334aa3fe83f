use gemini_draw::commands::{
    check_cookie_text, collect_results, cookies_imported, decode_ref_data, done_message, download_failed_message, download_message,
    download_targets, has_cookies, id_from, is_ref_file, new_id, no_images_message, opening_events, output_stem, progress,
    ref_bytes, ref_file_name, ref_file_path, ref_payload, require_cli, result_file_name, result_image, run_opts,
    safe_stem, stderr_progress, truncate, upload_message, AppState, EVT_INSTALL, EVT_PROGRESS,
};
use gemini_draw::engine::AskResult;
use gemini_draw::json::JsonValue;
use gemini_draw::model::{CliStatus, Config};

fn s(v: &str) -> String {
    v.to_string()
}

#[test]
fn default_config() {
    let c = Config::default();
    assert_eq!(c.cli_path, None);
    assert_eq!(c.model, "unspecified");
    assert_eq!(c.output_dir, None);
    assert_eq!(c.proxy, None);
    assert_eq!(c.account_index, None);
}

#[test]
fn options_from_config() {
    let cfg = Config { proxy: Some(s("socks5://h:1")), account_index: Some(2), ..Config::default() };
    let o = run_opts(&cfg, "/d/cookies.json");
    assert_eq!(o.cookies, Some("/d/cookies.json"));
    assert_eq!(o.proxy, Some("socks5://h:1"));
    assert_eq!(o.account_index, Some(2));
    assert_eq!(o.stdin, None);
}

fn status(found: bool, path: Option<&str>, error: Option<&str>) -> CliStatus {
    CliStatus {
        found,
        path: path.map(s),
        version: None,
        source: s("x"),
        error: error.map(s),
    }
}

#[test]
fn engine_required() {
    assert_eq!(require_cli(&status(true, Some("/c"), None)), Ok(s("/c")));
    assert_eq!(
        require_cli(&status(false, Some("/c"), Some("配置的路径不存在"))),
        Err(s("配置的路径不存在"))
    );
    assert_eq!(require_cli(&status(true, None, None)), Err(s("未找到 gemini-web-cli")));
}

fn obj(fields: Vec<(&str, JsonValue)>) -> JsonValue {
    JsonValue::Object(fields.into_iter().map(|(k, v)| (s(k), v)).collect())
}

#[test]
fn cookie_files() {
    let flat = obj(vec![("__Secure-1PSID", JsonValue::Str(s("abc")))]);
    assert!(has_cookies(Some(&flat)));
    let nested = obj(vec![("cookies", obj(vec![("__Secure-1PSID", JsonValue::Str(s("x")))]))]);
    assert!(has_cookies(Some(&nested)));
    let empty = obj(vec![("__Secure-1PSID", JsonValue::Str(s("")))]);
    assert!(!has_cookies(Some(&empty)));
    let number = obj(vec![("__Secure-1PSID", JsonValue::Number(s("1")))]);
    assert!(!has_cookies(Some(&number)));
    let nested_miss = obj(vec![
        ("cookies", obj(vec![])),
        ("__Secure-1PSID", JsonValue::Str(s("top"))),
    ]);
    assert!(!has_cookies(Some(&nested_miss)));
    assert!(!has_cookies(Some(&JsonValue::Array(vec![]))));
    assert!(!has_cookies(None));
}

#[test]
fn cookie_text_checks() {
    assert_eq!(check_cookie_text("   \n"), Err(s("Cookie 内容为空")));
    assert_eq!(
        check_cookie_text("SID=1; HSID=2"),
        Err(s("看起来不是有效的 Cookie 串：缺少 __Secure-1PSID"))
    );
    assert_eq!(check_cookie_text("  __Secure-1PSID=a; b=c \n"), Ok(s("__Secure-1PSID=a; b=c")));
    assert_eq!(
        check_cookie_text("1PSID=z"),
        Err(s("看起来不是有效的 Cookie 串：缺少 __Secure-1PSID"))
    );
    assert_eq!(
        check_cookie_text("X1PSID=v"),
        Err(s("看起来不是有效的 Cookie 串：缺少 __Secure-1PSID"))
    );
}

#[test]
fn ids_are_hex() {
    let a = new_id();
    let b = new_id();
    assert!(a.len() >= 2 && a.len() <= 32);
    assert!(a.chars().all(|c| c.is_ascii_hexdigit() && !c.is_ascii_uppercase()));
    assert_ne!(a, b);
    assert_eq!(id_from(255, 1), "ff1");
    assert_eq!(id_from(0, 0), "00");
    assert_eq!(id_from(u64::MAX, 10), "ffffffffffffffffa");
}

#[test]
fn stems() {
    assert_eq!(safe_stem("  a cat, on a mat! "), "a_cat_on_a_mat");
    assert_eq!(safe_stem("__x__"), "x");
    assert_eq!(safe_stem("!!!"), "image");
    assert_eq!(safe_stem(""), "image");
    assert_eq!(safe_stem("画 一只-猫"), "画_一只-猫");
    let long = "a".repeat(50);
    assert_eq!(safe_stem(&long), "a".repeat(40));
}

#[test]
fn truncation() {
    assert_eq!(truncate("abc", 3), "abc");
    assert_eq!(truncate("abcd", 3), "abc…");
    assert_eq!(truncate("一二三四", 2), "一二…");
    assert_eq!(truncate("", 0), "");
}

#[test]
fn reference_payloads() {
    assert_eq!(ref_payload("data:image/png;base64, aGk= "), "aGk=");
    assert_eq!(ref_payload("aGk="), "aGk=");
    assert_eq!(ref_payload("a,b,c"), "c");
    assert_eq!(decode_ref_data("data:image/png;base64,aGk="), Ok(vec![b'h', b'i']));
    assert_eq!(decode_ref_data("not base64!"), Err(s("解码图片数据失败")));
    assert_eq!(ref_bytes(None), Err(s("解码图片数据失败")));
    assert_eq!(ref_bytes(Some(vec![1, 2])), Ok(vec![1, 2]));
}

#[test]
fn reference_file_names() {
    assert_eq!(ref_file_name("abc", "photo.JPG"), "abc.JPG");
    assert_eq!(ref_file_name("abc", "noext"), "abc.png");
    assert_eq!(ref_file_name("id", "a.tar.gz"), "id.gz");
    assert_eq!(ref_file_path("/d/refs/t1", "abc", "p.jpg"), "/d/refs/t1/abc.jpg");
    assert_eq!(ref_file_path("/d/refs/t1", "abc", "p"), "/d/refs/t1/abc.png");
    assert!(is_ref_file("abc.png", "abc"));
    assert!(!is_ref_file("ab.png", "abc"));
}

#[test]
fn progress_from_engine_lines() {
    let e = stderr_progress("t1", "  Uploading a.png 30%  ").unwrap();
    assert_eq!((e.task_id.as_str(), e.stage.as_str(), e.message.as_str()), ("t1", "upload", "Uploading a.png 30%"));
    assert_eq!(stderr_progress("t1", "Uploaded").unwrap().stage, "upload");
    assert_eq!(stderr_progress("t1", "Thinking...").unwrap().stage, "generate");
    assert!(stderr_progress("t1", "   ").is_none());
    let p = progress("t2", "prepare", "已就绪");
    assert_eq!((p.task_id, p.stage, p.message), (s("t2"), s("prepare"), s("已就绪")));
}

#[test]
fn messages() {
    assert_eq!(upload_message(3), "上传 3 张参考图…");
    assert_eq!(download_message(0, 2), "下载图片 1/2…");
    assert_eq!(download_failed_message(1, "x"), "第 2 张下载失败：x");
    assert_eq!(done_message(2, Some("c_1")), "完成，共 2 张（会话 c_1）");
    assert_eq!(done_message(0, None), "完成，共 0 张");
    assert_eq!(no_images_message("  "), "Gemini 没有返回图片");
    assert_eq!(no_images_message("只有文字"), "Gemini 没有返回图片，仅返回文本：只有文字");
    let long = "字".repeat(201);
    assert_eq!(
        no_images_message(&long),
        format!("Gemini 没有返回图片，仅返回文本：{}…", "字".repeat(200))
    );
    assert_eq!(EVT_PROGRESS, "gemini-draw://progress");
    assert_eq!(EVT_INSTALL, "gemini-draw://cli-install");
}

#[test]
fn output_names() {
    assert_eq!(output_stem("  ", "a cat"), "a_cat");
    assert_eq!(output_stem("Title", "a cat"), "Title");
    assert_eq!(result_file_name("cat", 1700000000, 0), "cat-1700000000-1.png");
    assert_eq!(result_file_name("cat", -5, 9), "cat--5-10.png");
}

#[test]
fn download_plan() {
    let r = AskResult { text: s(""), images: vec![s("https://a"), s("https://b")], chat_id: None };
    assert_eq!(
        download_targets(&r, "/out", "cat", 7).unwrap(),
        vec![s("/out/cat-7-1.png"), s("/out/cat-7-2.png")]
    );
    let none = AskResult { text: s("sorry"), images: vec![], chat_id: None };
    assert_eq!(
        download_targets(&none, "/out", "cat", 7).err().unwrap(),
        "Gemini 没有返回图片，仅返回文本：sorry"
    );
}

#[test]
fn result_records() {
    let ok = result_image(s("id1"), "https://a", "/out/a.png", true, 9);
    assert_eq!((ok.id.as_str(), ok.url.as_str(), ok.path.as_deref(), ok.created_at), ("id1", "https://a", Some("/out/a.png"), 9));
    let failed = result_image(s("id2"), "https://b", "/out/b.png", false, 9);
    assert_eq!(failed.path, None);
}

#[test]
fn app_state_holds_the_root() {
    let st = AppState { root: s("/d") };
    assert_eq!(st.root, "/d");
}

#[test]
fn results_in_order() {
    let urls = vec![s("https://a"), s("https://b")];
    let targets = vec![s("/o/1.png"), s("/o/2.png")];
    let r = collect_results(&urls, &targets, &vec![true, false], vec![s("i1"), s("i2")], 5);
    assert_eq!(r.len(), 2);
    assert_eq!((r[0].id.as_str(), r[0].url.as_str(), r[0].path.as_deref(), r[0].created_at), ("i1", "https://a", Some("/o/1.png"), 5));
    assert_eq!((r[1].id.as_str(), r[1].url.as_str(), r[1].path.as_deref()), ("i2", "https://b", None));
}

#[test]
fn opening_progress() {
    let none: Vec<(String, String, String)> = opening_events("t1", 0)
        .into_iter()
        .map(|e| (e.task_id, e.stage, e.message))
        .collect();
    assert_eq!(
        none,
        vec![
            (s("t1"), s("prepare"), s("已就绪，正在连接 Gemini…")),
            (s("t1"), s("generate"), s("生成中，通常需要 10~60 秒…")),
        ]
    );
    let two: Vec<(String, String, String)> = opening_events("t2", 2)
        .into_iter()
        .map(|e| (e.task_id, e.stage, e.message))
        .collect();
    assert_eq!(
        two,
        vec![
            (s("t2"), s("prepare"), s("已就绪，正在连接 Gemini…")),
            (s("t2"), s("upload"), s("上传 2 张参考图…")),
            (s("t2"), s("generate"), s("生成中，通常需要 10~60 秒…")),
        ]
    );
}

#[test]
fn cookie_file_texts() {
    assert!(cookies_imported(Some(r#"{"cookies":{"__Secure-1PSID":"x"}}"#)));
    assert!(cookies_imported(Some(r#"{"__Secure-1PSID":"y","b":2}"#)));
    assert!(!cookies_imported(Some(r#"{"__Secure-1PSID":""}"#)));
    assert!(!cookies_imported(Some("not json")));
    assert!(!cookies_imported(Some("")));
    assert!(!cookies_imported(None));
}
