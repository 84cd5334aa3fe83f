//! The decisions behind the app's commands: which engine to use, whether
//! cookies are there, how reference images and results are named, and what the
//! user is told while an image is being made.

use vstd::prelude::*;

use crate::engine::{str_view, AskResult, RunOpts};
use crate::json::{get, get_str, json_document, json_get, json_str, parse_json, JsonValue};
use crate::model::{opt_view, CliStatus, Config, ProgressEvent, ResultImage};
use crate::paths::{joined_path, path_join};
use crate::picture::base64_standard;
use crate::text::{
    chars_of, contains_seq, contains_str, decimal, decimal_of, digits, digits_of, push_all,
    push_str, split_char, split_char_of, starts_with, starts_with_str, string_of, trim, trim_char,
    trim_char_of, trim_of, views,
};

verus! {

/// State shared by the commands: the app's data directory.
pub struct AppState {
    pub root: String,
}

/// Name of the event that carries generation progress.
pub const EVT_PROGRESS: &'static str = "gemini-draw://progress";

/// Name of the event that carries installation progress.
pub const EVT_INSTALL: &'static str = "gemini-draw://cli-install";

// ---------------------------------------------------------------------------
// Engine and cookies
// ---------------------------------------------------------------------------

/// The options of a run for the given settings and cookie file.
pub fn run_opts<'a>(cfg: &'a Config, cookies: &'a str) -> (r: RunOpts<'a>)
    ensures
        r.cookies == Some(cookies),
        str_view(r.proxy) == opt_view(cfg.proxy),
        r.account_index == cfg.account_index,
        r.stdin is None,
{
    let proxy = match &cfg.proxy {
        Some(p) => Some(p.as_str()),
        None => None,
    };
    RunOpts { cookies: Some(cookies), proxy, account_index: cfg.account_index, stdin: None }
}

/// The engine to run: its path when it was found, else the reason it was not.
pub fn require_cli(status: &CliStatus) -> (r: Result<String, String>)
    ensures
        match r {
            Ok(p) => status.found && status.path is Some && p@ == status.path->0@,
            Err(e) => !(status.found && status.path is Some) && e@ == (match status.error {
                Some(msg) => msg@,
                None => "未找到 gemini-web-cli"@,
            }),
        },
{
    match &status.path {
        Some(p) => {
            if status.found {
                return Ok(p.clone());
            }
        },
        None => {},
    }
    match &status.error {
        Some(msg) => Err(msg.clone()),
        None => Err(String::from_str("未找到 gemini-web-cli")),
    }
}

/// The cookie table of `cookies.json`: its `cookies` member when there is one,
/// else the whole document.
pub open spec fn cookie_table(doc: JsonValue) -> JsonValue {
    match json_get(doc, "cookies"@) {
        Some(c) => c,
        None => doc,
    }
}

/// Cookies count as imported when the table holds a non-empty string
/// `__Secure-1PSID`.
pub open spec fn has_cookies_spec(doc: Option<JsonValue>) -> bool {
    match doc {
        Some(d) => match json_str(json_get(cookie_table(d), "__Secure-1PSID"@)) {
            Some(s) => s.len() > 0,
            None => false,
        },
        None => false,
    }
}

/// Whether `cookies.json` (absent, unreadable or not JSON: `None`) holds a
/// login.
pub fn has_cookies(doc: Option<&JsonValue>) -> (r: bool)
    ensures
        r == has_cookies_spec(match doc {
            Some(d) => Some(*d),
            None => None,
        }),
{
    let d = match doc {
        Some(d) => d,
        None => return false,
    };
    let table = match get(d, "cookies") {
        Some(c) => c,
        None => d,
    };
    match get_str(table, "__Secure-1PSID") {
        Some(s) => s.as_str().unicode_len() > 0,
        None => false,
    }
}

/// Whether the text of `cookies.json` (`None` when the file is absent or
/// unreadable) holds a login: it is JSON and `has_cookies` accepts it.
pub fn cookies_imported(text: Option<&str>) -> (r: bool)
    ensures
        r == has_cookies_spec(match text {
            Some(t) => json_document(t@),
            None => None,
        }),
{
    match text {
        Some(t) => {
            let doc = parse_json(t);
            match &doc {
                Some(d) => has_cookies(Some(d)),
                None => false,
            }
        },
        None => false,
    }
}

/// Checks pasted cookie text before it is imported: the trimmed text, unless it
/// is empty or lacks the `__Secure-1PSID` cookie.
pub open spec fn cookie_text_spec(text: Seq<char>) -> Result<Seq<char>, Seq<char>> {
    let t = trim(text);
    if t.len() == 0 {
        Err("Cookie 内容为空"@)
    } else if !contains_seq(t, "__Secure-1PSID"@) {
        Err("看起来不是有效的 Cookie 串：缺少 __Secure-1PSID"@)
    } else {
        Ok(t)
    }
}

pub fn check_cookie_text(text: &str) -> (r: Result<String, String>)
    ensures
        match r {
            Ok(t) => cookie_text_spec(text@) == Ok::<Seq<char>, Seq<char>>(t@),
            Err(e) => cookie_text_spec(text@) == Err::<Seq<char>, Seq<char>>(e@),
        },
{
    let chars = chars_of(text);
    let t = trim_of(chars.as_slice());
    if t.len() == 0 {
        return Err(String::from_str("Cookie 内容为空"));
    }
    if !contains_str(t, "__Secure-1PSID") {
        return Err(String::from_str("看起来不是有效的 Cookie 串：缺少 __Secure-1PSID"));
    }
    Ok(string_of(t))
}

// ---------------------------------------------------------------------------
// Ids and names
// ---------------------------------------------------------------------------

/// `rand::random::<u64>()`: a value from the thread's random generator. Nothing
/// is claimed of the value.
#[verifier::external_body]
fn random_u64() -> (r: u64) {
    rand::random::<u64>()
}

/// A fresh id: two random 64-bit numbers in lower-case hexadecimal, one after
/// the other.
pub fn new_id() -> (r: String)
    ensures
        exists|a: u64, b: u64| r@ == digits(a as nat, 16) + digits(b as nat, 16),
{
    let a = random_u64();
    let b = random_u64();
    id_from(a, b)
}

/// The id made of two numbers: both in lower-case hexadecimal, one after the
/// other.
pub fn id_from(a: u64, b: u64) -> (r: String)
    ensures
        r@ == digits(a as nat, 16) + digits(b as nat, 16),
{
    let mut v = digits_of(a, 16);
    let w = digits_of(b, 16);
    push_all(&mut v, w.as_slice());
    string_of(v.as_slice())
}

/// `char::is_alphanumeric`: alphabetic or numeric in Unicode's sense.
pub uninterp spec fn alphanumeric(c: char) -> bool;

/// `char::is_alphanumeric`; the contract names the result after its argument
/// alone and states nothing of Unicode's tables.
#[verifier::external_body]
fn is_alphanumeric(c: char) -> (r: bool)
    ensures
        r == alphanumeric(c),
{
    c.is_alphanumeric()
}

/// The characters kept in a file name.
pub open spec fn stem_keeps(c: char) -> bool {
    alphanumeric(c) || c == '-' || c == '_' || c == ' '
}

/// The kept characters of `s`, in order, with spaces turned into `_`.
pub open spec fn stem_filter(s: Seq<char>) -> Seq<char>
    decreases s.len(),
{
    if s.len() == 0 {
        Seq::empty()
    } else {
        let r = stem_filter(s.drop_last());
        let c = s.last();
        if stem_keeps(c) {
            r.push(
                if c == ' ' {
                    '_'
                } else {
                    c
                },
            )
        } else {
            r
        }
    }
}

/// A file-name stem made from a title: the kept characters without `_` at
/// either end, at most 40 of them, and `image` when none is left.
pub open spec fn safe_stem_spec(name: Seq<char>) -> Seq<char> {
    let t = trim_char(stem_filter(name), '_');
    if t.len() == 0 {
        "image"@
    } else if t.len() > 40 {
        t.take(40)
    } else {
        t
    }
}

pub fn safe_stem(name: &str) -> (r: String)
    ensures
        r@ == safe_stem_spec(name@),
{
    let chars = chars_of(name);
    let mut out: Vec<char> = Vec::new();
    let mut i: usize = 0;
    assert(chars@.take(0) =~= Seq::<char>::empty());
    while i < chars.len()
        invariant
            chars@ == name@,
            i <= chars@.len(),
            out@ == stem_filter(chars@.take(i as int)),
        decreases chars@.len() - i,
    {
        assert(chars@.take(i + 1).drop_last() =~= chars@.take(i as int));
        let c = chars[i];
        if is_alphanumeric(c) || c == '-' || c == '_' || c == ' ' {
            out.push(if c == ' ' { '_' } else { c });
        }
        i += 1;
    }
    assert(chars@.take(chars@.len() as int) =~= chars@);
    let t = trim_char_of(out.as_slice(), '_');
    if t.len() == 0 {
        String::from_str("image")
    } else if t.len() > 40 {
        let head = vstd::slice::slice_subrange(t, 0, 40);
        assert(head@ =~= t@.take(40));
        string_of(head)
    } else {
        string_of(t)
    }
}

/// At most `max` characters of `s`; a longer text is cut and ends with `…`.
pub open spec fn truncate_spec(s: Seq<char>, max: nat) -> Seq<char> {
    if s.len() <= max {
        s
    } else {
        s.take(max as int) + "…"@
    }
}

pub fn truncate(s: &str, max: usize) -> (r: String)
    ensures
        r@ == truncate_spec(s@, max as nat),
{
    let chars = chars_of(s);
    if chars.len() <= max {
        return String::from_str(s);
    }
    let head = vstd::slice::slice_subrange(chars.as_slice(), 0, max);
    assert(head@ =~= s@.take(max as int));
    let mut v = vstd::slice::slice_to_vec(head);
    push_str(&mut v, "…");
    string_of(v.as_slice())
}

// ---------------------------------------------------------------------------
// Reference images
// ---------------------------------------------------------------------------

/// The Base64 text of a reference image: what follows the last `,` of a data
/// URL (or the whole text), trimmed.
pub open spec fn ref_payload_spec(data: Seq<char>) -> Seq<char> {
    trim(split_char(data, ',').last())
}

proof fn lemma_split_nonempty(s: Seq<char>, c: char)
    ensures
        split_char(s, c).len() > 0,
    decreases s.len(),
{
    if let Some(i) = crate::text::find_char(s, c) {
        if 0 <= i < s.len() {
            lemma_split_nonempty(s.skip(i + 1), c);
        }
    }
}

pub fn ref_payload(data: &str) -> (r: String)
    ensures
        r@ == ref_payload_spec(data@),
{
    let chars = chars_of(data);
    let parts = split_char_of(chars.as_slice(), ',');
    proof {
        lemma_split_nonempty(data@, ',');
    }
    let last = &parts[parts.len() - 1];
    assert(views(parts@).last() == last@);
    string_of(trim_of(last.as_slice()))
}

/// `base64::engine::general_purpose::STANDARD.decode`: the bytes whose
/// standard padded Base64 is exactly the text, or nothing when there are none
/// (this engine requires canonical padding and rejects trailing bits).
#[verifier::external_body]
fn base64_decode(text: &str) -> (r: Option<Vec<u8>>)
    ensures
        match r {
            Some(v) => text@ == base64_standard(v@),
            None => forall|b: Seq<u8>| text@ != #[trigger] base64_standard(b),
        },
{
    base64::Engine::decode(&base64::engine::general_purpose::STANDARD, text).ok()
}

/// The image bytes from a decoding result, or the error shown to the user.
pub fn ref_bytes(decoded: Option<Vec<u8>>) -> (r: Result<Vec<u8>, String>)
    ensures
        match r {
            Ok(v) => decoded == Some(v),
            Err(e) => decoded is None && e@ == "解码图片数据失败"@,
        },
{
    match decoded {
        Some(v) => Ok(v),
        None => Err(String::from_str("解码图片数据失败")),
    }
}

/// Decodes a reference image sent as Base64 or as a data URL.
pub fn decode_ref_data(data: &str) -> (r: Result<Vec<u8>, String>)
    ensures
        match r {
            Ok(v) => ref_payload_spec(data@) == base64_standard(v@),
            Err(e) => (forall|b: Seq<u8>| ref_payload_spec(data@) != #[trigger] base64_standard(b))
                && e@ == "解码图片数据失败"@,
        },
{
    let payload = ref_payload(data);
    ref_bytes(base64_decode(payload.as_str()))
}

/// The extension `Path::extension` finds in a file name.
pub uninterp spec fn path_extension(name: Seq<char>) -> Option<Seq<char>>;

/// `std::path::Path::extension`, read back as a string. The contract names the
/// result after the name alone; how the file name is cut out of a path is left
/// to the platform's rules.
#[verifier::external_body]
pub(crate) fn extension_of(name: &str) -> (r: Option<String>)
    ensures
        opt_view(r) == path_extension(name@),
{
    match std::path::Path::new(name).extension() {
        Some(e) => Some(e.to_string_lossy().into_owned()),
        None => None,
    }
}

/// The stored copy's file name: the new id and the given name's extension, or
/// `.png` when it has none.
pub open spec fn ref_file_name_spec(id: Seq<char>, name: Seq<char>) -> Seq<char> {
    id + match path_extension(name) {
        Some(e) => seq!['.'] + e,
        None => ".png"@,
    }
}

pub fn ref_file_name(id: &str, name: &str) -> (r: String)
    ensures
        r@ == ref_file_name_spec(id@, name@),
{
    let mut v = chars_of(id);
    match extension_of(name) {
        Some(e) => {
            v.push('.');
            push_str(&mut v, e.as_str());
            assert(v@ =~= id@ + (seq!['.'] + e@));
        },
        None => {
            push_str(&mut v, ".png");
        },
    }
    string_of(v.as_slice())
}

/// Where the stored copy of a reference image goes: its file name inside `dir`.
pub fn ref_file_path(dir: &str, id: &str, name: &str) -> (r: String)
    ensures
        r@ == joined_path(dir@, ref_file_name_spec(id@, name@)),
{
    let file = ref_file_name(id, name);
    path_join(dir, file.as_str())
}

/// Whether a stored file belongs to the reference image `ref_id`: its name
/// starts with the id (the extension is not known).
pub fn is_ref_file(file_name: &str, ref_id: &str) -> (r: bool)
    ensures
        r == starts_with(file_name@, ref_id@),
{
    let chars = chars_of(file_name);
    starts_with_str(chars.as_slice(), ref_id)
}

// ---------------------------------------------------------------------------
// Generating
// ---------------------------------------------------------------------------

/// The progress event for one line the engine wrote to standard error: none
/// for a blank line, stage `upload` for upload lines, else `generate`.
pub open spec fn stderr_progress_spec(line: Seq<char>) -> Option<(Seq<char>, Seq<char>)> {
    let t = trim(line);
    if t.len() == 0 {
        None
    } else if starts_with(t, "Uploading"@) || starts_with(t, "Uploaded"@) {
        Some(("upload"@, t))
    } else {
        Some(("generate"@, t))
    }
}

pub fn stderr_progress(task_id: &str, line: &str) -> (r: Option<ProgressEvent>)
    ensures
        match r {
            Some(e) => e.task_id@ == task_id@ && stderr_progress_spec(line@) == Some(
                (e.stage@, e.message@),
            ),
            None => stderr_progress_spec(line@) is None,
        },
{
    let chars = chars_of(line);
    let t = trim_of(chars.as_slice());
    if t.len() == 0 {
        return None;
    }
    let stage = if starts_with_str(t, "Uploading") || starts_with_str(t, "Uploaded") {
        "upload"
    } else {
        "generate"
    };
    Some(
        ProgressEvent {
            task_id: String::from_str(task_id),
            stage: String::from_str(stage),
            message: string_of(t),
        },
    )
}

/// A progress event.
pub fn progress(task_id: &str, stage: &str, message: &str) -> (r: ProgressEvent)
    ensures
        r.task_id@ == task_id@,
        r.stage@ == stage@,
        r.message@ == message@,
{
    ProgressEvent {
        task_id: String::from_str(task_id),
        stage: String::from_str(stage),
        message: String::from_str(message),
    }
}

fn text_with_number(before: &str, n: u64, after: &str) -> (r: Vec<char>)
    ensures
        r@ == before@ + digits(n as nat, 10) + after@,
{
    let mut v = chars_of(before);
    let d = digits_of(n, 10);
    push_all(&mut v, d.as_slice());
    push_str(&mut v, after);
    v
}

/// `上传 N 张参考图…`.
pub fn upload_message(count: u64) -> (r: String)
    ensures
        r@ == "上传 "@ + digits(count as nat, 10) + " 张参考图…"@,
{
    let v = text_with_number("上传 ", count, " 张参考图…");
    string_of(v.as_slice())
}

/// A progress event as plain text: task id, stage and message.
pub open spec fn event_view(e: ProgressEvent) -> (Seq<char>, Seq<char>, Seq<char>) {
    (e.task_id@, e.stage@, e.message@)
}

/// What a generation reports before the engine runs: ready, then the upload
/// of the reference images when there are any, then that generating began.
pub open spec fn opening_events_spec(task_id: Seq<char>, n_refs: nat) -> Seq<
    (Seq<char>, Seq<char>, Seq<char>),
> {
    let upload = if n_refs > 0 {
        seq![(task_id, "upload"@, "上传 "@ + digits(n_refs, 10) + " 张参考图…"@)]
    } else {
        Seq::empty()
    };
    seq![(task_id, "prepare"@, "已就绪，正在连接 Gemini…"@)] + upload + seq![
        (task_id, "generate"@, "生成中，通常需要 10~60 秒…"@),
    ]
}

/// The progress events to send, in order, before the engine is run for a task
/// with `n_refs` reference images.
pub fn opening_events(task_id: &str, n_refs: u64) -> (r: Vec<ProgressEvent>)
    ensures
        r@.map_values(|e: ProgressEvent| event_view(e)) == opening_events_spec(task_id@, n_refs as nat),
{
    let mut v: Vec<ProgressEvent> = Vec::new();
    v.push(progress(task_id, "prepare", "已就绪，正在连接 Gemini…"));
    if n_refs > 0 {
        let m = upload_message(n_refs);
        v.push(progress(task_id, "upload", m.as_str()));
    }
    v.push(progress(task_id, "generate", "生成中，通常需要 10~60 秒…"));
    assert(v@.map_values(|e: ProgressEvent| event_view(e)) =~= opening_events_spec(
        task_id@,
        n_refs as nat,
    ));
    v
}

/// `下载图片 i/n…`, counting from one.
pub fn download_message(index: u64, count: u64) -> (r: String)
    requires
        index < u64::MAX,
    ensures
        r@ == "下载图片 "@ + digits((index + 1) as nat, 10) + "/"@ + digits(count as nat, 10)
            + "…"@,
{
    let mut v = text_with_number("下载图片 ", index + 1, "/");
    let d = digits_of(count, 10);
    push_all(&mut v, d.as_slice());
    push_str(&mut v, "…");
    string_of(v.as_slice())
}

/// `第 i 张下载失败：<error>`, counting from one.
pub fn download_failed_message(index: u64, error: &str) -> (r: String)
    requires
        index < u64::MAX,
    ensures
        r@ == "第 "@ + digits((index + 1) as nat, 10) + " 张下载失败："@ + error@,
{
    let mut v = text_with_number("第 ", index + 1, " 张下载失败：");
    push_str(&mut v, error);
    string_of(v.as_slice())
}

/// `完成，共 N 张`, followed by `（会话 <id>）` when the chat id is known.
pub open spec fn done_message_spec(count: nat, chat_id: Option<Seq<char>>) -> Seq<char> {
    "完成，共 "@ + digits(count, 10) + " 张"@ + match chat_id {
        Some(c) => "（会话 "@ + c + "）"@,
        None => Seq::empty(),
    }
}

pub fn done_message(count: u64, chat_id: Option<&str>) -> (r: String)
    ensures
        r@ == done_message_spec(count as nat, str_view(chat_id)),
{
    let mut v = text_with_number("完成，共 ", count, " 张");
    let ghost head = v@;
    match chat_id {
        Some(c) => {
            push_str(&mut v, "（会话 ");
            push_str(&mut v, c);
            push_str(&mut v, "）");
            assert(v@ =~= head + ("（会话 "@ + c@ + "）"@));
        },
        None => {
            assert(v@ =~= head + Seq::<char>::empty());
        },
    }
    string_of(v.as_slice())
}

/// The error when Gemini answered without an image: with the first 200
/// characters of its text, when it sent any.
pub open spec fn no_images_spec(text: Seq<char>) -> Seq<char> {
    if trim(text).len() == 0 {
        "Gemini 没有返回图片"@
    } else {
        "Gemini 没有返回图片，仅返回文本："@ + truncate_spec(text, 200)
    }
}

pub fn no_images_message(text: &str) -> (r: String)
    ensures
        r@ == no_images_spec(text@),
{
    let chars = chars_of(text);
    if trim_of(chars.as_slice()).len() == 0 {
        return String::from_str("Gemini 没有返回图片");
    }
    let mut v = chars_of("Gemini 没有返回图片，仅返回文本：");
    let t = truncate(text, 200);
    push_str(&mut v, t.as_str());
    string_of(v.as_slice())
}

/// The stem of the saved files: from the title, or from the prompt when the
/// title is blank.
pub fn output_stem(title: &str, prompt: &str) -> (r: String)
    ensures
        r@ == safe_stem_spec(
            if trim(title@).len() == 0 {
                prompt@
            } else {
                title@
            },
        ),
{
    let chars = chars_of(title);
    if trim_of(chars.as_slice()).len() == 0 {
        safe_stem(prompt)
    } else {
        safe_stem(title)
    }
}

/// `<stem>-<time>-<i>.png`, counting from one.
pub open spec fn result_file_spec(stem: Seq<char>, now: int, index: nat) -> Seq<char> {
    stem + "-"@ + decimal(now) + "-"@ + digits(index + 1, 10) + ".png"@
}

pub fn result_file_name(stem: &str, now: i64, index: u64) -> (r: String)
    requires
        index < u64::MAX,
    ensures
        r@ == result_file_spec(stem@, now as int, index as nat),
{
    let mut v = chars_of(stem);
    push_str(&mut v, "-");
    let d = decimal_of(now);
    push_all(&mut v, d.as_slice());
    push_str(&mut v, "-");
    let e = digits_of(index + 1, 10);
    push_all(&mut v, e.as_slice());
    push_str(&mut v, ".png");
    string_of(v.as_slice())
}

/// Where each returned image is saved, in order; an error when there is none.
pub fn download_targets(result: &AskResult, out_dir: &str, stem: &str, now: i64) -> (r: Result<
    Vec<String>,
    String,
>)
    requires
        result.images@.len() < u64::MAX,
    ensures
        match r {
            Ok(targets) => result.images@.len() > 0 && targets@.len() == result.images@.len()
                && forall|i: int|
                0 <= i < targets@.len() ==> #[trigger] targets@[i]@ == joined_path(
                    out_dir@,
                    result_file_spec(stem@, now as int, i as nat),
                ),
            Err(e) => result.images@.len() == 0 && e@ == no_images_spec(result.text@),
        },
{
    if result.images.len() == 0 {
        return Err(no_images_message(result.text.as_str()));
    }
    let mut targets: Vec<String> = Vec::new();
    let mut i: usize = 0;
    while i < result.images.len()
        invariant
            i <= result.images@.len(),
            result.images@.len() < u64::MAX,
            targets@.len() == i,
            forall|k: int|
                0 <= k < i ==> #[trigger] targets@[k]@ == joined_path(
                    out_dir@,
                    result_file_spec(stem@, now as int, k as nat),
                ),
        decreases result.images@.len() - i,
    {
        let name = result_file_name(stem, now, i as u64);
        targets.push(path_join(out_dir, name.as_str()));
        i += 1;
    }
    Ok(targets)
}

/// The record of one returned image: with its local path when the download
/// succeeded.
pub fn result_image(id: String, url: &str, target: &str, downloaded: bool, now: i64) -> (r:
    ResultImage)
    ensures
        r.id == id,
        r.url@ == url@,
        opt_view(r.path) == (if downloaded {
            Some(target@)
        } else {
            None
        }),
        r.created_at == now,
{
    ResultImage {
        id,
        url: String::from_str(url),
        path: if downloaded {
            Some(String::from_str(target))
        } else {
            None
        },
        created_at: now,
    }
}

/// The records of a generation's images, in order: image `i` has id `ids[i]`,
/// its URL, and its target as local path when `downloaded[i]`.
pub fn collect_results(
    urls: &Vec<String>,
    targets: &Vec<String>,
    downloaded: &Vec<bool>,
    ids: Vec<String>,
    now: i64,
) -> (r: Vec<ResultImage>)
    requires
        targets@.len() == urls@.len(),
        downloaded@.len() == urls@.len(),
        ids@.len() == urls@.len(),
    ensures
        r@.len() == urls@.len(),
        forall|i: int|
            0 <= i < r@.len() ==> #[trigger] r@[i].id == ids@[i] && r@[i].url@ == urls@[i]@ && opt_view(
                r@[i].path,
            ) == (if downloaded@[i] {
                Some(targets@[i]@)
            } else {
                None
            }) && r@[i].created_at == now,
{
    let mut out: Vec<ResultImage> = Vec::new();
    let mut ids = ids;
    let ghost all_ids = ids@;
    let mut i: usize = 0;
    while i < urls.len()
        invariant
            targets@.len() == urls@.len(),
            downloaded@.len() == urls@.len(),
            all_ids.len() == urls@.len(),
            i <= urls@.len(),
            out@.len() == i,
            ids@ == all_ids.skip(i as int),
            forall|k: int|
                0 <= k < i ==> #[trigger] out@[k].id == all_ids[k] && out@[k].url@ == urls@[k]@
                    && opt_view(out@[k].path) == (if downloaded@[k] {
                    Some(targets@[k]@)
                } else {
                    None
                }) && out@[k].created_at == now,
        decreases urls@.len() - i,
    {
        assert(ids@[0] == all_ids[i as int]);
        let id = ids.remove(0);
        assert(ids@ =~= all_ids.skip(i + 1));
        let ghost before = out@;
        let rec = result_image(id, urls[i].as_str(), targets[i].as_str(), downloaded[i], now);
        out.push(rec);
        assert forall|k: int| 0 <= k < i + 1 implies #[trigger] out@[k].id == all_ids[k]
            && out@[k].url@ == urls@[k]@ && opt_view(out@[k].path) == (if downloaded@[k] {
            Some(targets@[k]@)
        } else {
            None
        }) && out@[k].created_at == now by {
            if k < i {
                assert(out@[k] == before[k]);
            }
        }
        i += 1;
    }
    out
}

} // verus!
