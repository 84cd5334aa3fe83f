//! The bridge to `gemini-web-cli`: the arguments each command is run with, and
//! what its output means. Running the process is left to the caller.

use vstd::prelude::*;
use vstd::slice::slice_subrange;

use crate::json::{get, get_str, json_get, json_items, json_str, JsonValue};
use crate::model::{
    opt_view, strings, AccountInfo, AccountView, CliStatus, CliStatusView, ModelInfo, ModelView,
};
use crate::paths::{bin_dir, joined_path, path_join};
use crate::text::{
    chars_of, contains_seq, contains_str, decimal, decimal_of, ends_with, ends_with_str, eq_chars,
    push_all, push_str, replace_all, replace_str, split_char, split_char_of, eq_str, find_char, find_char_in, first_word, first_word_of, is_digit, join,
    join_range, lines, lines_of, starts_with, starts_with_str, string_of, strip_prefix,
    strip_prefix_str, trim, trim_end, trim_start_matches, trim_start_matches_str, trim_end_of, trim_of, trim_start, trim_start_of, vec_of,
    views,
};

verus! {

pub const REPO: &'static str = "Leechael/gemini-web-cli";

// ---------------------------------------------------------------------------
// Platform
// ---------------------------------------------------------------------------

/// The operating system the app was built for.
#[derive(Clone, Copy, Debug)]
pub enum Os {
    Windows,
    MacOs,
    /// Any other system; releases for Linux are used.
    Linux,
}

/// The processor architecture the app was built for.
#[derive(Clone, Copy, Debug)]
pub enum Arch {
    Aarch64,
    X86_64,
    Other,
}

pub open spec fn exe_name_spec(os: Os) -> Seq<char> {
    match os {
        Os::Windows => "gemini-web-cli.exe"@,
        _ => "gemini-web-cli"@,
    }
}

/// The file name of the engine's executable.
pub fn exe_name(os: Os) -> (r: &'static str)
    ensures
        r@ == exe_name_spec(os),
{
    match os {
        Os::Windows => "gemini-web-cli.exe",
        _ => "gemini-web-cli",
    }
}

/// The words that name this platform's release package: system, architecture,
/// and whether the package is a zip (else a `.tar.gz`).
pub open spec fn target_keywords_spec(os: Os, arch: Arch) -> (Seq<char>, Seq<char>, bool) {
    let a = match arch {
        Arch::Aarch64 => "arm64"@,
        _ => "amd64"@,
    };
    match os {
        Os::Windows => ("windows"@, a, true),
        Os::MacOs => ("darwin"@, a, false),
        Os::Linux => ("linux"@, a, false),
    }
}

pub fn target_keywords(os: Os, arch: Arch) -> (r: (&'static str, &'static str, bool))
    ensures
        (r.0@, r.1@, r.2) == target_keywords_spec(os, arch),
{
    let a = match arch {
        Arch::Aarch64 => "arm64",
        _ => "amd64",
    };
    match os {
        Os::Windows => ("windows", a, true),
        Os::MacOs => ("darwin", a, false),
        Os::Linux => ("linux", a, false),
    }
}

// ---------------------------------------------------------------------------
// Running the engine
// ---------------------------------------------------------------------------

/// Options shared by every command.
pub struct RunOpts<'a> {
    pub cookies: Option<&'a str>,
    pub proxy: Option<&'a str>,
    pub account_index: Option<u32>,
    /// Text written to the engine's standard input.
    pub stdin: Option<&'a str>,
}

pub open spec fn str_view(o: Option<&str>) -> Option<Seq<char>> {
    match o {
        Some(s) => Some(s@),
        None => None,
    }
}

impl<'a> Default for RunOpts<'a> {
    fn default() -> (r: Self)
        ensures
            r.cookies is None,
            r.proxy is None,
            r.account_index is None,
            r.stdin is None,
    {
        RunOpts { cookies: None, proxy: None, account_index: None, stdin: None }
    }
}

/// What a finished engine process left behind.
pub struct CmdOutput {
    pub stdout: String,
    pub stderr: String,
    pub code: i32,
}

/// The options that go before every sub-command.
pub open spec fn global_args_spec(
    cookies: Option<Seq<char>>,
    proxy: Option<Seq<char>>,
    account_index: Option<u32>,
) -> Seq<Seq<char>> {
    (match cookies {
        Some(c) => seq!["--cookies-json"@, c],
        None => Seq::empty(),
    }) + (match proxy {
        Some(p) => if trim(p).len() > 0 {
            seq!["--proxy"@, trim(p)]
        } else {
            Seq::empty()
        },
        None => Seq::empty(),
    }) + (match account_index {
        Some(i) => seq!["--account-index"@, decimal(i as int)],
        None => Seq::empty(),
    })
}

pub open spec fn opts_args(opts: RunOpts) -> Seq<Seq<char>> {
    global_args_spec(str_view(opts.cookies), str_view(opts.proxy), opts.account_index)
}

fn push_string(v: &mut Vec<String>, s: String)
    ensures
        strings(final(v)@) == strings(old(v)@).push(s@),
{
    let ghost before = v@;
    v.push(s);
    assert(strings(v@) =~= strings(before).push(s@));
}

fn push_text(v: &mut Vec<String>, s: &str)
    ensures
        strings(final(v)@) == strings(old(v)@).push(s@),
{
    push_string(v, String::from_str(s));
}

pub fn global_args(opts: &RunOpts) -> (r: Vec<String>)
    ensures
        strings(r@) == opts_args(*opts),
{
    let mut args: Vec<String> = Vec::new();
    let ghost a = Seq::<Seq<char>>::empty();
    let ghost b = Seq::<Seq<char>>::empty();
    let ghost c = Seq::<Seq<char>>::empty();
    if let Some(ck) = opts.cookies {
        push_text(&mut args, "--cookies-json");
        push_text(&mut args, ck);
        proof {
            a = seq!["--cookies-json"@, ck@];
        }
    }
    assert(strings(args@) =~= a);
    if let Some(p) = opts.proxy {
        let chars = chars_of(p);
        let t = trim_of(chars.as_slice());
        if t.len() > 0 {
            push_text(&mut args, "--proxy");
            push_string(&mut args, string_of(t));
            proof {
                b = seq!["--proxy"@, trim(p@)];
            }
        }
    }
    assert(strings(args@) =~= a + b);
    if let Some(i) = opts.account_index {
        push_text(&mut args, "--account-index");
        let d = decimal_of(i as i64);
        push_string(&mut args, string_of(d.as_slice()));
        proof {
            c = seq!["--account-index"@, decimal(i as int)];
        }
    }
    assert(strings(args@) =~= a + b + c);
    args
}

fn append_strings(v: &mut Vec<String>, more: &Vec<String>)
    ensures
        strings(final(v)@) == strings(old(v)@) + strings(more@),
{
    let ghost start = strings(v@);
    let mut i: usize = 0;
    while i < more.len()
        invariant
            i <= more@.len(),
            strings(v@) == start + strings(more@).take(i as int),
        decreases more@.len() - i,
    {
        push_string(v, more[i].clone());
        assert(strings(more@).take(i + 1) =~= strings(more@).take(i as int).push(more@[i as int]@));
        assert(start + strings(more@).take(i + 1) =~= (start + strings(more@).take(i as int)).push(
            more@[i as int]@,
        ));
        i += 1;
    }
    assert(strings(more@).take(more@.len() as int) =~= strings(more@));
}

/// The full argument list of a run: the shared options, then the sub-command.
pub fn run_args(opts: &RunOpts, sub: &Vec<String>) -> (r: Vec<String>)
    ensures
        strings(r@) == opts_args(*opts) + strings(sub@),
{
    let mut args = global_args(opts);
    append_strings(&mut args, sub);
    args
}

/// The detail of a failed run: its trimmed standard error, else its trimmed
/// standard output, else its exit code.
pub open spec fn failure_detail(stdout: Seq<char>, stderr: Seq<char>, code: int) -> Seq<char> {
    if trim(stderr).len() > 0 {
        trim(stderr)
    } else if trim(stdout).len() > 0 {
        trim(stdout)
    } else {
        "exit code "@ + decimal(code)
    }
}

/// `<what>失败：<detail>`.
pub open spec fn fail_message(out: CmdOutput, what: Seq<char>) -> Seq<char> {
    what + "失败："@ + failure_detail(out.stdout@, out.stderr@, out.code as int)
}

/// The error message of a failed run of `what`.
pub fn fail(out: &CmdOutput, what: &str) -> (r: String)
    ensures
        r@ == fail_message(*out, what@),
{
    let mut msg = chars_of(what);
    push_str(&mut msg, "失败：");
    let err = chars_of(out.stderr.as_str());
    let err_t = trim_of(err.as_slice());
    let std_out = chars_of(out.stdout.as_str());
    let out_t = trim_of(std_out.as_slice());
    if err_t.len() > 0 {
        push_all(&mut msg, err_t);
    } else if out_t.len() > 0 {
        push_all(&mut msg, out_t);
    } else {
        push_str(&mut msg, "exit code ");
        let d = decimal_of(out.code as i64);
        push_all(&mut msg, d.as_slice());
        assert(msg@ =~= what@ + "失败："@ + ("exit code "@ + decimal(out.code as int)));
    }
    string_of(msg.as_slice())
}

// ---------------------------------------------------------------------------
// Commands
// ---------------------------------------------------------------------------

/// The option that hands the engine a reference image.
pub open spec fn ref_flag() -> Seq<char> {
    "-f"@
}

/// `-f <ref>` for each reference image, in order.
pub open spec fn ref_args(refs: Seq<Seq<char>>) -> Seq<Seq<char>>
    decreases refs.len(),
{
    if refs.len() == 0 {
        Seq::empty()
    } else {
        ref_args(refs.drop_last()) + seq![ref_flag(), refs.last()]
    }
}

/// `ask --no-stream --mode image [--model M] [-f ref...] <prompt>`.
pub open spec fn ask_args_spec(prompt: Seq<char>, model: Seq<char>, refs: Seq<Seq<char>>) -> Seq<
    Seq<char>,
> {
    seq!["ask"@, "--no-stream"@, "--mode"@, "image"@] + (if trim(model).len() > 0 {
        seq!["--model"@, trim(model)]
    } else {
        Seq::empty()
    }) + ref_args(refs) + seq![prompt]
}

/// The sub-command that asks for an image.
pub fn ask_image_args(prompt: &str, model: &str, refs: &Vec<String>) -> (r: Vec<String>)
    ensures
        strings(r@) == ask_args_spec(prompt@, model@, strings(refs@)),
{
    let mut sub: Vec<String> = Vec::new();
    push_text(&mut sub, "ask");
    push_text(&mut sub, "--no-stream");
    push_text(&mut sub, "--mode");
    push_text(&mut sub, "image");
    let ghost head = seq!["ask"@, "--no-stream"@, "--mode"@, "image"@];
    assert(strings(sub@) =~= head);
    let chars = chars_of(model);
    let m = trim_of(chars.as_slice());
    if m.len() > 0 {
        push_text(&mut sub, "--model");
        push_string(&mut sub, string_of(m));
    }
    let ghost with_model = strings(sub@);
    assert(with_model =~= head + (if trim(model@).len() > 0 {
        seq!["--model"@, trim(model@)]
    } else {
        Seq::empty()
    }));
    let mut i: usize = 0;
    assert(strings(refs@).take(0) =~= Seq::<Seq<char>>::empty());
    assert(with_model + ref_args(strings(refs@).take(0)) =~= with_model);
    while i < refs.len()
        invariant
            i <= refs@.len(),
            strings(sub@) == with_model + ref_args(strings(refs@).take(i as int)),
        decreases refs@.len() - i,
    {
        let ghost before = strings(sub@);
        push_text(&mut sub, "-f");
        push_string(&mut sub, refs[i].clone());
        let ghost part = strings(refs@).take(i + 1);
        assert(part.drop_last() =~= strings(refs@).take(i as int));
        assert(part.last() == refs@[i as int]@);
        assert(strings(sub@) =~= with_model + ref_args(part));
        i += 1;
    }
    assert(strings(refs@).take(refs@.len() as int) =~= strings(refs@));
    push_text(&mut sub, prompt);
    sub
}

/// What a run of `ask` means: its parsed output when it exited with 0, else
/// the failure message for "生成图片".
pub fn ask_image(out: &CmdOutput) -> (r: Result<AskResult, String>)
    ensures
        match r {
            Ok(a) => out.code == 0 && a@ == ask_output(out.stdout@),
            Err(e) => out.code != 0 && e@ == fail_message(*out, "生成图片"@),
        },
{
    if out.code != 0 {
        return Err(fail(out, "生成图片"));
    }
    Ok(parse_ask_output(out.stdout.as_str()))
}

/// `download <url> -o <target>`.
pub fn download_args(url: &str, target: &str) -> (r: Vec<String>)
    ensures
        strings(r@) == seq!["download"@, url@, "-o"@, target@],
{
    let mut sub: Vec<String> = Vec::new();
    push_text(&mut sub, "download");
    push_text(&mut sub, url);
    push_text(&mut sub, "-o");
    push_text(&mut sub, target);
    assert(strings(sub@) =~= seq!["download"@, url@, "-o"@, target@]);
    sub
}

/// What a run of `download` means.
pub fn download(out: &CmdOutput) -> (r: Result<(), String>)
    ensures
        match r {
            Ok(_) => out.code == 0,
            Err(e) => out.code != 0 && e@ == fail_message(*out, "下载图片"@),
        },
{
    if out.code != 0 {
        return Err(fail(out, "下载图片"));
    }
    Ok(())
}

/// `import - -o <target>`: the cookie text goes through standard input, so a
/// long cookie string never reaches the command line.
pub fn import_cookies_args(target: &str) -> (r: Vec<String>)
    ensures
        strings(r@) == seq!["import"@, "-"@, "-o"@, target@],
{
    let mut sub: Vec<String> = Vec::new();
    push_text(&mut sub, "import");
    push_text(&mut sub, "-");
    push_text(&mut sub, "-o");
    push_text(&mut sub, target);
    assert(strings(sub@) =~= seq!["import"@, "-"@, "-o"@, target@]);
    sub
}

/// The options of an `import` run: only the cookie text on standard input.
pub fn import_cookies_opts<'a>(cookie_text: &'a str) -> (r: RunOpts<'a>)
    ensures
        r.stdin == Some(cookie_text),
        r.cookies is None,
        r.proxy is None,
        r.account_index is None,
{
    RunOpts { stdin: Some(cookie_text), ..Default::default() }
}

/// What a run of `import` means.
pub fn import_cookies(out: &CmdOutput) -> (r: Result<(), String>)
    ensures
        match r {
            Ok(_) => out.code == 0,
            Err(e) => out.code != 0 && e@ == fail_message(*out, "导入 Cookie"@),
        },
{
    if out.code != 0 {
        return Err(fail(out, "导入 Cookie"));
    }
    Ok(())
}

/// `status`.
pub fn status_args() -> (r: Vec<String>)
    ensures
        strings(r@) == seq!["status"@],
{
    let mut sub: Vec<String> = Vec::new();
    push_text(&mut sub, "status");
    assert(strings(sub@) =~= seq!["status"@]);
    sub
}

/// What a run of `status` means, whatever its exit code.
pub fn status(out: &CmdOutput) -> (r: AccountInfo)
    ensures
        r@ == status_output(out.stdout@),
{
    parse_status_output(out.stdout.as_str(), out.stderr.as_str())
}

// ---------------------------------------------------------------------------
// Finding the engine
// ---------------------------------------------------------------------------

/// The engine's version from what `--version` printed (`gemini-web-cli version
/// v1.2.3 (built ...)` or `v1.2.3`): the first word once the program's name is
/// taken out; nothing when the run failed or printed no word.
pub open spec fn version_spec(success: bool, stdout: Seq<char>) -> Option<Seq<char>> {
    let text = trim(stdout);
    if !success || text.len() == 0 {
        None
    } else {
        first_word(
            replace_all(
                replace_all(text, "gemini-web-cli version"@, Seq::empty()),
                "gemini-web-cli"@,
                Seq::empty(),
            ),
        )
    }
}

/// Reads the output of `gemini-web-cli --version`.
pub fn detect_version(success: bool, stdout: &str) -> (r: Option<String>)
    ensures
        opt_view(r) == version_spec(success, stdout@),
{
    if !success {
        return None;
    }
    let chars = chars_of(stdout);
    let text = trim_of(chars.as_slice());
    if text.len() == 0 {
        return None;
    }
    proof {
        reveal_strlit("");
        assert(""@ =~= Seq::<char>::empty());
    }
    let a = replace_str(text, "gemini-web-cli version", "");
    let b = replace_str(a.as_slice(), "gemini-web-cli", "");
    match first_word_of(b.as_slice()) {
        Some(w) => Some(string_of(w)),
        None => None,
    }
}

/// A place where the engine may be, with a description of it.
pub struct CliCandidate {
    pub path: String,
    pub source: String,
}

pub open spec fn candidate_views(v: Seq<CliCandidate>) -> Seq<(Seq<char>, Seq<char>)> {
    v.map_values(|c: CliCandidate| (c.path@, c.source@))
}

/// The places looked at after a path set by hand, in order: the path in
/// `GEMINI_WEB_CLI_PATH`, the installed copy under `bin/`, next to the app's
/// executable, and in a macOS bundle's `Resources`.
pub open spec fn cli_candidates_spec(
    root: Seq<char>,
    env_path: Option<Seq<char>>,
    exe_dir: Option<Seq<char>>,
    os: Os,
) -> Seq<(Seq<char>, Seq<char>)> {
    (match env_path {
        Some(p) => seq![(trim(p), "环境变量 GEMINI_WEB_CLI_PATH"@)],
        None => Seq::empty(),
    }) + seq![(joined_path(joined_path(root, "bin"@), exe_name_spec(os)), "内置（已安装）"@)] + (
    match exe_dir {
        Some(d) => seq![
            (joined_path(d, exe_name_spec(os)), "应用目录"@),
            (joined_path(joined_path(d, "../Resources"@), exe_name_spec(os)), "应用资源目录"@),
        ],
        None => Seq::empty(),
    })
}

fn push_candidate(v: &mut Vec<CliCandidate>, path: String, source: &str)
    ensures
        candidate_views(final(v)@) == candidate_views(old(v)@).push((path@, source@)),
{
    let ghost before = v@;
    let ghost pv = path@;
    v.push(CliCandidate { path, source: String::from_str(source) });
    assert(candidate_views(v@) =~= candidate_views(before).push((pv, source@)));
}

pub fn cli_candidates(root: &str, env_path: Option<&str>, exe_dir: Option<&str>, os: Os) -> (r: Vec<
    CliCandidate,
>)
    ensures
        candidate_views(r@) == cli_candidates_spec(root@, str_view(env_path), str_view(exe_dir), os),
{
    let exe = exe_name(os);
    let mut v: Vec<CliCandidate> = Vec::new();
    if let Some(p) = env_path {
        let chars = chars_of(p);
        push_candidate(&mut v, string_of(trim_of(chars.as_slice())), "环境变量 GEMINI_WEB_CLI_PATH");
    }
    let bin = bin_dir(root);
    push_candidate(&mut v, path_join(bin.as_str(), exe), "内置（已安装）");
    if let Some(d) = exe_dir {
        push_candidate(&mut v, path_join(d, exe), "应用目录");
        let res = path_join(d, "../Resources");
        push_candidate(&mut v, path_join(res.as_str(), exe), "应用资源目录");
    }
    assert(candidate_views(v@) =~= cli_candidates_spec(
        root@,
        str_view(env_path),
        str_view(exe_dir),
        os,
    ));
    v
}

/// Where to look on `PATH`: each non-empty entry joined with the executable's
/// name, in order.
pub open spec fn path_dirs(dirs: Seq<Seq<char>>, exe: Seq<char>) -> Seq<Seq<char>>
    decreases dirs.len(),
{
    if dirs.len() == 0 {
        Seq::empty()
    } else {
        let rest = path_dirs(dirs.drop_last(), exe);
        if dirs.last().len() == 0 {
            rest
        } else {
            rest.push(joined_path(dirs.last(), exe))
        }
    }
}

/// The separator of `PATH` entries.
pub open spec fn path_sep(os: Os) -> char {
    match os {
        Os::Windows => ';',
        _ => ':',
    }
}

/// The places on `PATH` where the engine may be.
pub fn path_candidates(path_var: &str, os: Os) -> (r: Vec<String>)
    ensures
        strings(r@) == path_dirs(split_char(path_var@, path_sep(os)), exe_name_spec(os)),
{
    let sep = match os {
        Os::Windows => ';',
        _ => ':',
    };
    let exe = exe_name(os);
    let chars = chars_of(path_var);
    let dirs = split_char_of(chars.as_slice(), sep);
    let ghost dv = views(dirs@);
    let mut out: Vec<String> = Vec::new();
    let mut i: usize = 0;
    assert(dv.take(0) =~= Seq::<Seq<char>>::empty());
    while i < dirs.len()
        invariant
            dv == views(dirs@),
            i <= dirs@.len(),
            strings(out@) == path_dirs(dv.take(i as int), exe@),
        decreases dirs@.len() - i,
    {
        assert(dv.take(i + 1).drop_last() =~= dv.take(i as int));
        assert(dv.take(i + 1).last() == dirs@[i as int]@);
        if dirs[i].len() > 0 {
            let d = string_of(dirs[i].as_slice());
            push_string(&mut out, path_join(d.as_str(), exe));
        }
        i += 1;
    }
    assert(dv.take(dirs@.len() as int) =~= dv);
    out
}

/// The index of the first `true`.
pub open spec fn first_true(v: Seq<bool>) -> Option<int>
    decreases v.len(),
{
    if v.len() == 0 {
        None
    } else if v[0] {
        Some(0)
    } else {
        match first_true(v.drop_first()) {
            Some(i) => Some(i + 1),
            None => None,
        }
    }
}

proof fn lemma_first_true(v: Seq<bool>, i: int)
    requires
        0 <= i <= v.len(),
        forall|k: int| 0 <= k < i ==> !v[k],
        i < v.len() ==> v[i],
    ensures
        first_true(v) == (if i < v.len() {
            Some(i)
        } else {
            None
        }),
    decreases i,
{
    if v.len() > 0 && i > 0 {
        assert forall|k: int| 0 <= k < i - 1 implies !v.drop_first()[k] by {
            assert(!v[k + 1]);
        }
        lemma_first_true(v.drop_first(), i - 1);
    }
}

/// The first place that exists.
pub fn first_hit(exists: &Vec<bool>) -> (r: Option<usize>)
    ensures
        match r {
            Some(i) => first_true(exists@) == Some(i as int) && i < exists@.len(),
            None => first_true(exists@) is None,
        },
{
    let mut i: usize = 0;
    while i < exists.len()
        invariant
            i <= exists@.len(),
            forall|k: int| 0 <= k < i ==> !exists@[k],
        decreases exists@.len() - i,
    {
        if exists[i] {
            proof {
                lemma_first_true(exists@, i as int);
            }
            return Some(i);
        }
        i += 1;
    }
    proof {
        lemma_first_true(exists@, i as int);
    }
    None
}

/// The path set by hand, trimmed, when it is not blank.
pub open spec fn explicit_spec(explicit: Option<Seq<char>>) -> Option<Seq<char>> {
    match explicit {
        Some(p) => if trim(p).len() > 0 {
            Some(trim(p))
        } else {
            None
        },
        None => None,
    }
}

pub fn explicit_cli(explicit: Option<&str>) -> (r: Option<String>)
    ensures
        opt_view(r) == explicit_spec(str_view(explicit)),
{
    match explicit {
        Some(p) => {
            let chars = chars_of(p);
            let t = trim_of(chars.as_slice());
            if t.len() > 0 {
                Some(string_of(t))
            } else {
                None
            }
        },
        None => None,
    }
}

/// The outcome of the search: a place to use, or a report of why there is none.
pub enum CliPick {
    Use { path: String, source: String },
    Missing(CliStatus),
}

pub enum CliPickView {
    Use { path: Seq<char>, source: Seq<char> },
    Missing(CliStatusView),
}

impl View for CliPick {
    type V = CliPickView;

    open spec fn view(&self) -> CliPickView {
        match self {
            CliPick::Use { path, source } => CliPickView::Use { path: path@, source: source@ },
            CliPick::Missing(s) => CliPickView::Missing(s@),
        }
    }
}

/// Which engine to use: the path set by hand when it is not blank (and a
/// report when it does not exist), else the first candidate that exists, else
/// the first hit on `PATH`, else a report that none was found.
pub open spec fn resolve_spec(
    explicit: Option<Seq<char>>,
    explicit_exists: bool,
    candidates: Seq<(Seq<char>, Seq<char>)>,
    exists: Seq<bool>,
    on_path: Option<Seq<char>>,
) -> CliPickView {
    match explicit_spec(explicit) {
        Some(p) => if explicit_exists {
            CliPickView::Use { path: p, source: "手动指定"@ }
        } else {
            CliPickView::Missing(
                CliStatusView {
                    found: false,
                    path: Some(p),
                    version: None,
                    source: "手动指定"@,
                    error: Some("配置的路径不存在"@),
                },
            )
        },
        None => match first_true(exists) {
            Some(i) => CliPickView::Use { path: candidates[i].0, source: candidates[i].1 },
            None => match on_path {
                Some(p) => CliPickView::Use { path: p, source: "PATH"@ },
                None => CliPickView::Missing(
                    CliStatusView {
                        found: false,
                        path: None,
                        version: None,
                        source: "未找到"@,
                        error: Some("未找到 gemini-web-cli，请在设置里安装或手动指定路径"@),
                    },
                ),
            },
        },
    }
}

/// Chooses the engine from what the caller found on disk: `explicit_exists`
/// tells whether `explicit_cli(explicit)` exists, `exists[i]` whether
/// `candidates[i]` does, and `on_path` is the first hit on `PATH`.
pub fn resolve_cli(
    explicit: Option<&str>,
    explicit_exists: bool,
    candidates: &Vec<CliCandidate>,
    exists: &Vec<bool>,
    on_path: Option<&str>,
) -> (r: CliPick)
    requires
        exists@.len() == candidates@.len(),
    ensures
        r@ == resolve_spec(
            str_view(explicit),
            explicit_exists,
            candidate_views(candidates@),
            exists@,
            str_view(on_path),
        ),
{
    if let Some(p) = explicit_cli(explicit) {
        if explicit_exists {
            return CliPick::Use { path: p, source: String::from_str("手动指定") };
        }
        return CliPick::Missing(
            CliStatus {
                found: false,
                path: Some(p),
                version: None,
                source: String::from_str("手动指定"),
                error: Some(String::from_str("配置的路径不存在")),
            },
        );
    }
    if let Some(i) = first_hit(exists) {
        let c = &candidates[i];
        return CliPick::Use { path: c.path.clone(), source: c.source.clone() };
    }
    if let Some(p) = on_path {
        return CliPick::Use { path: String::from_str(p), source: String::from_str("PATH") };
    }
    CliPick::Missing(
        CliStatus {
            found: false,
            path: None,
            version: None,
            source: String::from_str("未找到"),
            error: Some(String::from_str("未找到 gemini-web-cli，请在设置里安装或手动指定路径")),
        },
    )
}

/// The status of an engine that was found, with the version it reported.
pub fn status_of(path: Option<String>, source: &str, version: Option<String>) -> (r: CliStatus)
    ensures
        r@ == (CliStatusView {
            found: path is Some,
            path: opt_view(path),
            version: opt_view(version),
            source: source@,
            error: None,
        }),
{
    CliStatus {
        found: path.is_some(),
        path,
        version,
        source: String::from_str(source),
        error: None,
    }
}

// ---------------------------------------------------------------------------
// Installing the engine
// ---------------------------------------------------------------------------

/// Where the latest release is described.
pub fn latest_release_url() -> (r: String)
    ensures
        r@ == "https://api.github.com/repos/"@ + REPO@ + "/releases/latest"@,
{
    let mut v = chars_of("https://api.github.com/repos/");
    push_str(&mut v, REPO);
    push_str(&mut v, "/releases/latest");
    string_of(v.as_slice())
}

/// Where an installed engine is put: `bin/<exe>` under the data directory.
pub fn installed_cli_path(root: &str, os: Os) -> (r: String)
    ensures
        r@ == joined_path(joined_path(root@, "bin"@), exe_name_spec(os)),
{
    let bin = bin_dir(root);
    path_join(bin.as_str(), exe_name(os))
}

/// The package suffix: `.zip` or `.tar.gz`.
pub open spec fn package_ext(is_zip: bool) -> Seq<char> {
    if is_zip {
        ".zip"@
    } else {
        ".tar.gz"@
    }
}

/// The name of a release asset, or nothing when it has none.
pub open spec fn asset_name(a: JsonValue) -> Seq<char> {
    match json_str(json_get(a, "name"@)) {
        Some(n) => n,
        None => Seq::empty(),
    }
}

/// The package meant for exactly this platform: `gemini-web-cli-<os>-<arch><ext>`.
pub open spec fn exact_name(os_kw: Seq<char>, arch_kw: Seq<char>, ext: Seq<char>) -> Seq<char> {
    "gemini-web-cli-"@ + os_kw + "-"@ + arch_kw + ext
}

/// The choice so far, and whether the exact package was found.
pub struct AssetScan {
    pub pick: Option<(Seq<char>, Seq<char>)>,
    pub done: bool,
}

/// Looks at one asset: it fits when its name has the package suffix and names
/// the system, and names the architecture or is the exact name; a fitting asset
/// with a download URL becomes the choice, and the exact one ends the search.
pub open spec fn asset_step(
    st: AssetScan,
    a: JsonValue,
    os_kw: Seq<char>,
    arch_kw: Seq<char>,
    ext: Seq<char>,
) -> AssetScan {
    let name = asset_name(a);
    let exact = name == exact_name(os_kw, arch_kw, ext);
    if st.done || !ends_with(name, ext) || !contains_seq(name, os_kw) || (!contains_seq(
        name,
        arch_kw,
    ) && !exact) {
        st
    } else {
        match json_str(json_get(a, "browser_download_url"@)) {
            Some(url) => AssetScan { pick: Some((name, url)), done: exact },
            None => st,
        }
    }
}

pub open spec fn asset_scan(
    assets: Seq<JsonValue>,
    os_kw: Seq<char>,
    arch_kw: Seq<char>,
    ext: Seq<char>,
) -> AssetScan
    decreases assets.len(),
{
    if assets.len() == 0 {
        AssetScan { pick: None, done: false }
    } else {
        asset_step(asset_scan(assets.drop_last(), os_kw, arch_kw, ext), assets.last(), os_kw, arch_kw, ext)
    }
}

/// The package chosen from a release description (the `assets` array of the
/// GitHub API's answer), as its name and download URL.
pub open spec fn pick_asset_spec(body: JsonValue, os: Os, arch: Arch) -> Option<(Seq<char>, Seq<char>)> {
    let (os_kw, arch_kw, is_zip) = target_keywords_spec(os, arch);
    asset_scan(json_items(json_get(body, "assets"@)), os_kw, arch_kw, package_ext(is_zip)).pick
}

/// The error when no package fits.
pub open spec fn no_asset_message(os: Os, arch: Arch) -> Seq<char> {
    let (os_kw, arch_kw, is_zip) = target_keywords_spec(os, arch);
    "没有找到适用于 "@ + os_kw + "-"@ + arch_kw + " 的发布包（期望后缀 "@ + package_ext(is_zip) + "）"@
}

/// Chooses the release package for this platform.
pub fn pick_release_asset(body: &JsonValue, os: Os, arch: Arch) -> (r: Result<(String, String), String>)
    ensures
        match r {
            Ok((name, url)) => pick_asset_spec(*body, os, arch) == Some((name@, url@)),
            Err(e) => pick_asset_spec(*body, os, arch) is None && e@ == no_asset_message(os, arch),
        },
{
    let (os_kw, arch_kw, is_zip) = target_keywords(os, arch);
    let ext = if is_zip { ".zip" } else { ".tar.gz" };
    let mut exact_v = chars_of("gemini-web-cli-");
    push_str(&mut exact_v, os_kw);
    push_str(&mut exact_v, "-");
    push_str(&mut exact_v, arch_kw);
    push_str(&mut exact_v, ext);
    let empty: Vec<JsonValue> = Vec::new();
    let assets: &Vec<JsonValue> = match get(body, "assets") {
        Some(JsonValue::Array(items)) => items,
        _ => &empty,
    };
    assert(assets@ == json_items(json_get(*body, "assets"@)));
    let mut pick: Option<(String, String)> = None;
    let mut done = false;
    let mut i: usize = 0;
    assert(assets@.take(0) =~= Seq::<JsonValue>::empty());
    while i < assets.len() && !done
        invariant
            i <= assets@.len(),
            exact_v@ == exact_name(os_kw@, arch_kw@, ext@),
            ext@ == package_ext(is_zip),
            (AssetScan {
                pick: match pick {
                    Some((n, u)) => Some((n@, u@)),
                    None => None,
                },
                done: done,
            }) == asset_scan(assets@.take(i as int), os_kw@, arch_kw@, ext@),
        decreases assets@.len() - i,
    {
        assert(assets@.take(i + 1).drop_last() =~= assets@.take(i as int));
        let a = &assets[i];
        let name_v: Vec<char> = match get_str(a, "name") {
            Some(n) => chars_of(n.as_str()),
            None => Vec::new(),
        };
        assert(name_v@ == asset_name(*a));
        let name = name_v.as_slice();
        let exact = eq_chars(name, exact_v.as_slice());
        if ends_with_str(name, ext) && contains_str(name, os_kw) && (contains_str(name, arch_kw)
            || exact) {
            if let Some(url) = get_str(a, "browser_download_url") {
                pick = Some((string_of(name), url.clone()));
                done = exact;
            }
        }
        i += 1;
    }
    proof {
        // Once the exact package is chosen, the remaining assets change nothing.
        lemma_asset_scan_done(assets@, i as int, os_kw@, arch_kw@, ext@);
    }
    match pick {
        Some(p) => Ok(p),
        None => {
            let mut msg = chars_of("没有找到适用于 ");
            push_str(&mut msg, os_kw);
            push_str(&mut msg, "-");
            push_str(&mut msg, arch_kw);
            push_str(&mut msg, " 的发布包（期望后缀 ");
            push_str(&mut msg, ext);
            push_str(&mut msg, "）");
            Err(string_of(msg.as_slice()))
        },
    }
}

proof fn lemma_asset_scan_done(
    assets: Seq<JsonValue>,
    i: int,
    os_kw: Seq<char>,
    arch_kw: Seq<char>,
    ext: Seq<char>,
)
    requires
        0 <= i <= assets.len(),
        i < assets.len() ==> asset_scan(assets.take(i), os_kw, arch_kw, ext).done,
    ensures
        asset_scan(assets, os_kw, arch_kw, ext) == asset_scan(assets.take(i), os_kw, arch_kw, ext),
    decreases assets.len() - i,
{
    if i < assets.len() {
        assert(assets.take(i + 1).drop_last() =~= assets.take(i));
        lemma_asset_scan_done(assets, i + 1, os_kw, arch_kw, ext);
    } else {
        assert(assets.take(i) =~= assets);
    }
}

/// Whether an archive entry is the engine's executable.
pub open spec fn is_cli_entry_spec(name: Seq<char>, os: Os) -> bool {
    ends_with(name, exe_name_spec(os)) || ends_with(name, "gemini-web-cli"@)
}

pub fn is_cli_entry(name: &str, os: Os) -> (r: bool)
    ensures
        r == is_cli_entry_spec(name@, os),
{
    let chars = chars_of(name);
    ends_with_str(chars.as_slice(), exe_name(os)) || ends_with_str(chars.as_slice(), "gemini-web-cli")
}

// ---------------------------------------------------------------------------
// `ask` output
// ---------------------------------------------------------------------------

/// What `ask` printed: the answer text, the image URLs, and the chat id.
pub struct AskResult {
    pub text: String,
    pub images: Vec<String>,
    pub chat_id: Option<String>,
}

pub struct AskView {
    pub text: Seq<char>,
    pub images: Seq<Seq<char>>,
    pub chat_id: Option<Seq<char>>,
}

impl View for AskResult {
    type V = AskView;

    open spec fn view(&self) -> AskView {
        AskView { text: self.text@, images: strings(self.images@), chat_id: opt_view(self.chat_id) }
    }
}

/// All characters are ASCII digits.
pub open spec fn all_digits(s: Seq<char>) -> bool {
    forall|k: int| 0 <= k < s.len() ==> is_digit(s[k])
}

/// An indexed line `N) URL ...`: the URL, when the part before `)` is a
/// non-empty run of digits and the first word after it starts with `http`.
pub open spec fn indexed_url(line: Seq<char>) -> Option<Seq<char>> {
    let t = trim(line);
    match find_char(t, ')') {
        None => None,
        Some(close) => {
            let idx = t.take(close);
            if idx.len() == 0 || !all_digits(idx) {
                None
            } else {
                match first_word(trim(t.skip(close + 1))) {
                    None => None,
                    Some(url) => if starts_with(url, "http"@) {
                        Some(url)
                    } else {
                        None
                    },
                }
            }
        },
    }
}

fn indexed_url_of(line: &[char]) -> (r: Option<&[char]>)
    ensures
        r matches Some(u) ==> indexed_url(line@) == Some(u@),
        r is None ==> indexed_url(line@) is None,
{
    let t = trim_of(line);
    let found = find_char_in(t, ')');
    if found.is_none() {
        return None;
    }
    let close = found.unwrap();
    let tl = t.len();
    assert(close < tl);
    let idx = slice_subrange(t, 0, close);
    assert(idx@ =~= t@.take(close as int));
    if idx.len() == 0 {
        return None;
    }
    let mut k: usize = 0;
    while k < idx.len()
        invariant
            k <= idx@.len(),
            idx@ == t@.take(close as int),
            t@ == trim(line@),
            find_char(t@, ')') == Some(close as int),
            forall|j: int| 0 <= j < k ==> is_digit(idx@[j]),
        decreases idx@.len() - k,
    {
        if !('0' <= idx[k] && idx[k] <= '9') {
            assert(!is_digit(idx@[k as int]));
            return None;
        }
        k += 1;
    }
    let after = slice_subrange(t, close + 1, t.len());
    assert(after@ =~= t@.skip(close + 1));
    let rest = trim_of(after);
    match first_word_of(rest) {
        None => None,
        Some(url) => {
            if starts_with_str(url, "http") {
                Some(url)
            } else {
                None
            }
        },
    }
}

/// Reads one line of the form `  3) https://... title`, giving the URL.
pub fn parse_indexed(line: &str) -> (r: Option<String>)
    ensures
        opt_view(r) == indexed_url(line@),
{
    let chars = chars_of(line);
    match indexed_url_of(chars.as_slice()) {
        Some(u) => Some(string_of(u)),
        None => None,
    }
}

/// The list `ask` is printing at the moment.
#[derive(Clone, Copy)]
pub enum Section {
    /// `Images:`, pictures found on the web.
    Web,
    /// `Generated images:`.
    Generated,
    /// `Generated videos:` or `Generated media:`, which are skipped.
    Other,
}

/// Whether lines of this list are images to keep.
pub open spec fn keeps_images(s: Option<Section>) -> bool {
    s matches Some(Section::Web) || s matches Some(Section::Generated)
}

/// What has been read of `ask` output after the answer text.
pub struct AskScan {
    pub chat_id: Option<Seq<char>>,
    pub images: Seq<Seq<char>>,
    pub section: Option<Section>,
}

/// The section a heading line opens, when it is one.
pub open spec fn heading(t: Seq<char>) -> Option<Option<Section>> {
    if t == "---"@ {
        Some(None)
    } else if t == "Images:"@ {
        Some(Some(Section::Web))
    } else if t == "Generated images:"@ {
        Some(Some(Section::Generated))
    } else if t == "Generated videos:"@ || t == "Generated media:"@ {
        Some(Some(Section::Other))
    } else {
        None
    }
}

/// Reads one line after the answer text.
pub open spec fn ask_step(st: AskScan, line: Seq<char>) -> AskScan {
    let t = trim_end(line);
    match strip_prefix(trim_start(t), "Chat ID:"@) {
        Some(rest) => AskScan { chat_id: Some(trim(rest)), images: st.images, section: None },
        None => match heading(trim(t)) {
            Some(s) => AskScan { chat_id: st.chat_id, images: st.images, section: s },
            None => if keeps_images(st.section) {
                match indexed_url(t) {
                    Some(u) => if st.images.contains(u) {
                        st
                    } else {
                        AskScan { chat_id: st.chat_id, images: st.images.push(u), section: st.section }
                    },
                    None => st,
                }
            } else {
                st
            },
        },
    }
}

/// Reads the lines after the answer text, in order.
pub open spec fn ask_scan(ls: Seq<Seq<char>>) -> AskScan
    decreases ls.len(),
{
    if ls.len() == 0 {
        AskScan { chat_id: None, images: Seq::empty(), section: None }
    } else {
        ask_step(ask_scan(ls.drop_last()), ls.last())
    }
}

/// The index of the first line that is `---` once trimmed, or the number of lines.
pub open spec fn rule_index(ls: Seq<Seq<char>>) -> int
    decreases ls.len(),
{
    if ls.len() == 0 {
        0
    } else if trim(ls[0]) == "---"@ {
        0
    } else {
        1 + rule_index(ls.drop_first())
    }
}

pub proof fn lemma_rule_index(ls: Seq<Seq<char>>, i: int)
    requires
        0 <= i <= ls.len(),
        forall|k: int| 0 <= k < i ==> trim(ls[k]) != "---"@,
        i < ls.len() ==> trim(ls[i]) == "---"@,
    ensures
        rule_index(ls) == i,
    decreases i,
{
    if ls.len() > 0 && i > 0 {
        assert forall|k: int| 0 <= k < i - 1 implies trim(ls.drop_first()[k]) != "---"@ by {
            assert(trim(ls[k + 1]) != "---"@);
        }
        lemma_rule_index(ls.drop_first(), i - 1);
    }
}

/// What `parse_ask_output` returns for `stdout`: the trimmed text before the first
/// `---` line, then the URLs listed under `Images:` and `Generated images:`
/// (each once, in order of appearance) and the last `Chat ID:`.
pub open spec fn ask_output(stdout: Seq<char>) -> AskView {
    let ls = lines(stdout);
    let te = rule_index(ls);
    let st = ask_scan(ls.skip(te));
    AskView { text: trim_end(join(ls.take(te), "\n"@)), images: st.images, chat_id: st.chat_id }
}

/// Exec state mirroring `AskScan`.
struct AskState {
    chat_id: Option<Vec<char>>,
    images: Vec<Vec<char>>,
    section: Option<Section>,
}

impl AskState {
    spec fn scan(&self) -> AskScan {
        AskScan {
            chat_id: match self.chat_id {
                Some(c) => Some(c@),
                None => None,
            },
            images: views(self.images@),
            section: self.section,
        }
    }
}

fn contains_chars(v: &Vec<Vec<char>>, u: &[char]) -> (r: bool)
    ensures
        r == views(v@).contains(u@),
{
    let mut i: usize = 0;
    while i < v.len()
        invariant
            i <= v@.len(),
            forall|k: int| 0 <= k < i ==> v@[k]@ != u@,
        decreases v@.len() - i,
    {
        if eq_chars(v[i].as_slice(), u) {
            assert(views(v@)[i as int] == u@);
            return true;
        }
        i += 1;
    }
    assert forall|k: int| 0 <= k < views(v@).len() implies views(v@)[k] != u@ by {
        assert(views(v@)[k] == v@[k]@);
    }
    false
}

fn heading_of(t: &[char]) -> (r: Option<Option<Section>>)
    ensures
        r == heading(t@),
{
    if eq_str(t, "---") {
        Some(None)
    } else if eq_str(t, "Images:") {
        Some(Some(Section::Web))
    } else if eq_str(t, "Generated images:") {
        Some(Some(Section::Generated))
    } else if eq_str(t, "Generated videos:") || eq_str(t, "Generated media:") {
        Some(Some(Section::Other))
    } else {
        None
    }
}

fn ask_step_exec(st: &mut AskState, line: &[char])
    ensures
        final(st).scan() == ask_step(old(st).scan(), line@),
{
    let t = trim_end_of(line);
    let ts = trim_start_of(t);
    if let Some(rest) = strip_prefix_str(ts, "Chat ID:") {
        st.chat_id = Some(vec_of(trim_of(rest)));
        st.section = None;
        return ;
    }
    let tt = trim_of(t);
    match heading_of(tt) {
        Some(s) => {
            st.section = s;
        },
        None => {
            let keep = match st.section {
                Some(Section::Web) => true,
                Some(Section::Generated) => true,
                _ => false,
            };
            if keep {
                if let Some(u) = indexed_url_of(t) {
                    if !contains_chars(&st.images, u) {
                        let ghost before = st.images@;
                        st.images.push(vec_of(u));
                        assert(views(st.images@) =~= views(before).push(u@));
                    }
                }
            }
        },
    }
}

fn strings_of(v: &Vec<Vec<char>>) -> (r: Vec<String>)
    ensures
        strings(r@) == views(v@),
{
    let mut out: Vec<String> = Vec::new();
    let mut i: usize = 0;
    while i < v.len()
        invariant
            i <= v@.len(),
            strings(out@) == views(v@).take(i as int),
        decreases v@.len() - i,
    {
        let ghost before = out@;
        out.push(string_of(v[i].as_slice()));
        assert(strings(out@) =~= strings(before).push(v@[i as int]@));
        assert(views(v@).take(i + 1) =~= views(v@).take(i as int).push(v@[i as int]@));
        i += 1;
    }
    assert(views(v@).take(v@.len() as int) =~= views(v@));
    out
}

/// Reads the output of `ask`:
///
/// ```text
/// <answer text>
/// ---
/// Generated images:
///   1) https://...
/// ---
/// Chat ID: c_xxx
/// ```
pub fn parse_ask_output(stdout: &str) -> (r: AskResult)
    ensures
        r@ == ask_output(stdout@),
{
    let chars = chars_of(stdout);
    let ls = lines_of(chars.as_slice());
    let ghost lv = views(ls@);
    let mut te: usize = 0;
    while te < ls.len() && !eq_str(trim_of(ls[te].as_slice()), "---")
        invariant
            lv == views(ls@),
            te <= ls@.len(),
            forall|k: int| 0 <= k < te ==> trim(lv[k]) != "---"@,
        decreases ls@.len() - te,
    {
        te += 1;
    }
    proof {
        lemma_rule_index(lv, te as int);
    }
    let joined = join_range(&ls, 0, te, "\n");
    assert(lv.subrange(0, te as int) =~= lv.take(te as int));
    let text = string_of(trim_end_of(joined.as_slice()));

    let mut st = AskState { chat_id: None, images: Vec::new(), section: None };
    let mut i: usize = te;
    assert(st.scan() == ask_scan(lv.subrange(te as int, te as int))) by {
        assert(views(st.images@) =~= Seq::<Seq<char>>::empty());
        assert(lv.subrange(te as int, te as int) =~= Seq::<Seq<char>>::empty());
    }
    while i < ls.len()
        invariant
            lv == views(ls@),
            te <= i <= ls@.len(),
            st.scan() == ask_scan(lv.subrange(te as int, i as int)),
        decreases ls@.len() - i,
    {
        assert(lv.subrange(te as int, i + 1).drop_last() =~= lv.subrange(te as int, i as int));
        ask_step_exec(&mut st, ls[i].as_slice());
        i += 1;
    }
    assert(lv.subrange(te as int, ls@.len() as int) =~= lv.skip(te as int));
    let images = strings_of(&st.images);
    let chat_id = match &st.chat_id {
        Some(c) => Some(string_of(c.as_slice())),
        None => None,
    };
    AskResult { text, images, chat_id }
}

// ---------------------------------------------------------------------------
// `status` output
// ---------------------------------------------------------------------------

/// What has been read of `status` output so far.
pub struct StatusScan {
    pub logged_in: bool,
    pub message: Seq<char>,
    pub user: Option<Seq<char>>,
    pub tier: Option<Seq<char>>,
    pub models: Seq<ModelView>,
    pub in_models: bool,
}

/// The reason after `Init:` when it did not succeed: the text without the
/// leading `FAILED —` or `FAILED -` markers.
pub open spec fn failure_reason(v: Seq<char>) -> Seq<char> {
    trim(trim_start_matches(trim_start_matches(v, "FAILED —"@), "FAILED -"@))
}

/// A model line `name (Display Name) [advanced]`.
pub open spec fn model_line(t: Seq<char>) -> Option<ModelView> {
    match find_char(t, '(') {
        None => None,
        Some(open) => {
            let name = trim(t.take(open));
            let rest = t.skip(open + 1);
            let close = match find_char(rest, ')') {
                Some(c) => c,
                None => rest.len() as int,
            };
            if name.len() == 0 {
                None
            } else {
                Some(
                    ModelView {
                        name: name,
                        display_name: trim(rest.take(close)),
                        advanced_only: contains_seq(rest.skip(close), "advanced"@),
                    },
                )
            }
        },
    }
}

/// Reads one line of `status` output.
pub open spec fn status_step(st: StatusScan, line: Seq<char>) -> StatusScan {
    let t = trim(line);
    match strip_prefix(t, "Init:"@) {
        Some(rest) => {
            let v = trim(rest);
            if starts_with(v, "OK"@) {
                StatusScan {
                    logged_in: true,
                    message: "已登录"@,
                    in_models: false,
                    ..st
                }
            } else {
                StatusScan { message: failure_reason(v), in_models: false, ..st }
            }
        },
        None => match strip_prefix(t, "User:"@) {
            Some(rest) => StatusScan { user: Some(trim(rest)), in_models: false, ..st },
            None => match strip_prefix(t, "Account status:"@) {
                Some(rest) => StatusScan { tier: Some(trim(rest)), in_models: false, ..st },
                None => if starts_with(t, "Available models"@) {
                    StatusScan { in_models: true, ..st }
                } else if st.in_models {
                    if starts_with(t, "=== "@) || t.len() == 0 {
                        StatusScan { in_models: false, ..st }
                    } else {
                        match model_line(t) {
                            Some(m) => StatusScan { models: st.models.push(m), ..st },
                            None => st,
                        }
                    }
                } else {
                    st
                },
            },
        },
    }
}

/// Reads the lines of `status` output, in order.
pub open spec fn status_scan(ls: Seq<Seq<char>>) -> StatusScan
    decreases ls.len(),
{
    if ls.len() == 0 {
        StatusScan {
            logged_in: false,
            message: Seq::empty(),
            user: None,
            tier: None,
            models: Seq::empty(),
            in_models: false,
        }
    } else {
        status_step(status_scan(ls.drop_last()), ls.last())
    }
}

/// What `parse_status_output` returns for `stdout`: the last `Init:`,
/// `User:` and `Account status:` lines, the models listed after
/// `Available models`, and a message that is never left empty.
pub open spec fn status_output(stdout: Seq<char>) -> AccountView {
    let st = status_scan(lines(stdout));
    AccountView {
        logged_in: st.logged_in,
        message: if st.message.len() > 0 {
            st.message
        } else if st.models.len() == 0 {
            "无法获取账号信息"@
        } else {
            "已登录"@
        },
        user: st.user,
        tier: st.tier,
        models: st.models,
    }
}

struct StatusState {
    logged_in: bool,
    message: Vec<char>,
    user: Option<Vec<char>>,
    tier: Option<Vec<char>>,
    models: Vec<ModelInfo>,
    in_models: bool,
}

impl StatusState {
    spec fn scan(&self) -> StatusScan {
        StatusScan {
            logged_in: self.logged_in,
            message: self.message@,
            user: match self.user {
                Some(u) => Some(u@),
                None => None,
            },
            tier: match self.tier {
                Some(u) => Some(u@),
                None => None,
            },
            models: self.models@.map_values(|m: ModelInfo| m@),
            in_models: self.in_models,
        }
    }
}

fn model_line_of(t: &[char]) -> (r: Option<ModelInfo>)
    ensures
        r matches Some(m) ==> model_line(t@) == Some(m@),
        r is None ==> model_line(t@) is None,
{
    let tl = t.len();
    let open = match find_char_in(t, '(') {
        None => return None,
        Some(o) => o,
    };
    assert(open < tl);
    let head = slice_subrange(t, 0, open);
    assert(head@ =~= t@.take(open as int));
    let name = trim_of(head);
    let rest = slice_subrange(t, open + 1, tl);
    assert(rest@ =~= t@.skip(open + 1));
    let close = match find_char_in(rest, ')') {
        Some(c) => c,
        None => rest.len(),
    };
    if name.len() == 0 {
        return None;
    }
    let shown = slice_subrange(rest, 0, close);
    assert(shown@ =~= rest@.take(close as int));
    let tail = slice_subrange(rest, close, rest.len());
    assert(tail@ =~= rest@.skip(close as int));
    Some(
        ModelInfo {
            name: string_of(name),
            display_name: string_of(trim_of(shown)),
            advanced_only: contains_str(tail, "advanced"),
        },
    )
}

fn status_step_exec(st: &mut StatusState, line: &[char])
    ensures
        final(st).scan() == status_step(old(st).scan(), line@),
{
    let t = trim_of(line);
    if let Some(rest) = strip_prefix_str(t, "Init:") {
        let v = trim_of(rest);
        if starts_with_str(v, "OK") {
            st.logged_in = true;
            st.message = chars_of("已登录");
        } else {
            let a = trim_start_matches_str(v, "FAILED —");
            let b = trim_start_matches_str(a, "FAILED -");
            st.message = vec_of(trim_of(b));
        }
        st.in_models = false;
        return ;
    }
    if let Some(rest) = strip_prefix_str(t, "User:") {
        st.user = Some(vec_of(trim_of(rest)));
        st.in_models = false;
        return ;
    }
    if let Some(rest) = strip_prefix_str(t, "Account status:") {
        st.tier = Some(vec_of(trim_of(rest)));
        st.in_models = false;
        return ;
    }
    if starts_with_str(t, "Available models") {
        st.in_models = true;
        return ;
    }
    if st.in_models {
        if starts_with_str(t, "=== ") || t.len() == 0 {
            st.in_models = false;
            return ;
        }
        if let Some(m) = model_line_of(t) {
            let ghost before = st.models@;
            let ghost mv = m@;
            st.models.push(m);
            assert(st.models@.map_values(|m: ModelInfo| m@) =~= before.map_values(
                |m: ModelInfo| m@,
            ).push(mv));
        }
    }
}

/// Reads the output of `status`: sign-in state, user, account tier and the
/// models the account may use.
pub fn parse_status_output(stdout: &str, _stderr: &str) -> (r: AccountInfo)
    ensures
        r@ == status_output(stdout@),
{
    let chars = chars_of(stdout);
    let ls = lines_of(chars.as_slice());
    let ghost lv = views(ls@);
    let mut st = StatusState {
        logged_in: false,
        message: Vec::new(),
        user: None,
        tier: None,
        models: Vec::new(),
        in_models: false,
    };
    let mut i: usize = 0;
    assert(st.scan() == status_scan(lv.take(0))) by {
        assert(st.message@ =~= Seq::<char>::empty());
        assert(st.models@.map_values(|m: ModelInfo| m@) =~= Seq::<ModelView>::empty());
        assert(lv.take(0) =~= Seq::<Seq<char>>::empty());
    }
    while i < ls.len()
        invariant
            lv == views(ls@),
            i <= ls@.len(),
            st.scan() == status_scan(lv.take(i as int)),
        decreases ls@.len() - i,
    {
        assert(lv.take(i + 1).drop_last() =~= lv.take(i as int));
        status_step_exec(&mut st, ls[i].as_slice());
        i += 1;
    }
    assert(lv.take(ls@.len() as int) =~= lv);
    let message = if st.message.len() > 0 {
        string_of(st.message.as_slice())
    } else if st.models.len() == 0 {
        String::from_str("无法获取账号信息")
    } else {
        String::from_str("已登录")
    };
    let user = match &st.user {
        Some(u) => Some(string_of(u.as_slice())),
        None => None,
    };
    let tier = match &st.tier {
        Some(u) => Some(string_of(u.as_slice())),
        None => None,
    };
    AccountInfo { logged_in: st.logged_in, message, user, tier, models: st.models }
}

} // verus!
