use gemini_draw::json::{get, get_str, parse_json, JsonValue};
use gemini_draw::paths::{
    bin_dir, config_path, cookies_path, data_dir, data_dir_in, layout_dirs, output_dir,
    refs_dir, tasks_path,
};
use gemini_draw::picture::{open_image_error, read_image, thumbnail_side};

fn s(v: &str) -> String {
    v.to_string()
}

#[test]
fn data_files() {
    assert_eq!(config_path("/d"), "/d/config.json");
    assert_eq!(tasks_path("/d"), "/d/tasks.json");
    assert_eq!(cookies_path("/d/"), "/d/cookies.json");
    assert_eq!(bin_dir("/d"), "/d/bin");
    assert_eq!(refs_dir("/d", "t1"), "/d/refs/t1");
    assert_eq!(
        layout_dirs("/d"),
        vec![s("/d"), s("/d/refs"), s("/d/output"), s("/d/bin")]
    );
}

#[test]
fn output_directories() {
    assert_eq!(output_dir("/d", Some("/pics")), "/pics");
    assert_eq!(output_dir("/d", Some("  ")), "/d/output");
    assert_eq!(output_dir("/d", None), "/d/output");
}

#[test]
fn data_directory() {
    assert_eq!(data_dir_in(Some(s("/home/u/.local/share"))), Ok(s("/home/u/.local/share/gemini-draw")));
    assert_eq!(data_dir_in(None), Err(s("无法确定应用数据目录")));
    match data_dir() {
        Ok(p) => assert!(p.ends_with("gemini-draw")),
        Err(e) => assert_eq!(e, "无法确定应用数据目录"),
    }
}

#[test]
fn json_lookups() {
    let v = JsonValue::Object(vec![
        (s("a"), JsonValue::Str(s("x"))),
        (s("b"), JsonValue::Bool(true)),
    ]);
    assert!(matches!(get(&v, "a"), Some(JsonValue::Str(t)) if t == "x"));
    assert!(get(&v, "c").is_none());
    assert_eq!(get_str(&v, "a").map(|t| t.as_str()), Some("x"));
    assert!(get_str(&v, "b").is_none());
    assert!(get(&JsonValue::Array(vec![]), "a").is_none());
}

#[test]
fn thumbnail_sides() {
    assert_eq!(thumbnail_side(100, 50, Some(80)), Some(80));
    assert_eq!(thumbnail_side(50, 100, Some(80)), Some(80));
    assert_eq!(thumbnail_side(80, 80, Some(80)), None);
    assert_eq!(thumbnail_side(800, 800, Some(0)), None);
    assert_eq!(thumbnail_side(800, 800, None), None);
}

fn png_bytes(w: u32, h: u32) -> Vec<u8> {
    let img = image::RgbImage::new(w, h);
    let mut buf = Vec::new();
    image::DynamicImage::ImageRgb8(img)
        .write_to(&mut std::io::Cursor::new(&mut buf), image::ImageFormat::Png)
        .unwrap();
    buf
}

fn decode_b64_png(text: &str) -> image::DynamicImage {
    let bytes = base64::Engine::decode(&base64::engine::general_purpose::STANDARD, text).unwrap();
    image::load_from_memory_with_format(&bytes, image::ImageFormat::Png).unwrap()
}

#[test]
fn previews() {
    let big = png_bytes(40, 20);
    let shown = decode_b64_png(&read_image("/x/a.png", big.clone(), Some(10)).unwrap());
    assert_eq!((shown.width(), shown.height()), (10, 5));
    let same = decode_b64_png(&read_image("/x/a.PNG", big.clone(), None).unwrap());
    assert_eq!((same.width(), same.height()), (40, 20));
    assert_eq!(read_image("/x/a", big.clone(), None), Err(s("无法打开图片 /x/a")));
    assert_eq!(read_image("/x/a.txt", big, None), Err(s("无法打开图片 /x/a.txt")));
    assert_eq!(read_image("/x/b.png", vec![1, 2, 3], None), Err(s("无法打开图片 /x/b.png")));
    assert_eq!(open_image_error("p"), "无法打开图片 p");
}

#[test]
fn json_texts() {
    let v = parse_json(r#"{"b":[1,true,null],"a":"x"}"#).unwrap();
    match &v {
        JsonValue::Object(members) => {
            assert_eq!(members.len(), 2);
            assert!(matches!(get(&v, "a"), Some(JsonValue::Str(t)) if t == "x"));
            match get(&v, "b") {
                Some(JsonValue::Array(items)) => {
                    assert!(matches!(&items[0], JsonValue::Number(n) if n == "1"));
                    assert!(matches!(&items[1], JsonValue::Bool(true)));
                    assert!(matches!(&items[2], JsonValue::Null));
                }
                _ => panic!("b is not an array"),
            }
        }
        _ => panic!("not an object"),
    }
    assert!(parse_json("{").is_none());
    assert!(parse_json("").is_none());
}
