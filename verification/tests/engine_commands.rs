use gemini_draw::engine::{
    ask_image, ask_image_args, cli_candidates, detect_version, download, download_args,
    exe_name, explicit_cli, fail, first_hit, global_args, import_cookies, import_cookies_args,
    import_cookies_opts, installed_cli_path, is_cli_entry, latest_release_url, path_candidates,
    pick_release_asset, resolve_cli, run_args, status, status_args, status_of, target_keywords,
    Arch, CliPick, CmdOutput, Os, RunOpts, REPO,
};
use gemini_draw::json::JsonValue;

fn s(v: &str) -> String {
    v.to_string()
}

fn out(stdout: &str, stderr: &str, code: i32) -> CmdOutput {
    CmdOutput { stdout: s(stdout), stderr: s(stderr), code }
}

#[test]
fn exe_names() {
    assert_eq!(exe_name(Os::Windows), "gemini-web-cli.exe");
    assert_eq!(exe_name(Os::MacOs), "gemini-web-cli");
    assert_eq!(exe_name(Os::Linux), "gemini-web-cli");
}

#[test]
fn platform_keywords() {
    assert_eq!(target_keywords(Os::Windows, Arch::X86_64), ("windows", "amd64", true));
    assert_eq!(target_keywords(Os::MacOs, Arch::Aarch64), ("darwin", "arm64", false));
    assert_eq!(target_keywords(Os::Linux, Arch::Other), ("linux", "amd64", false));
}

#[test]
fn global_args_cover_every_option() {
    let opts = RunOpts {
        cookies: Some("/d/cookies.json"),
        proxy: Some("  http://127.0.0.1:7890 "),
        account_index: Some(12),
        stdin: Some("ignored"),
    };
    assert_eq!(
        global_args(&opts),
        vec![
            s("--cookies-json"),
            s("/d/cookies.json"),
            s("--proxy"),
            s("http://127.0.0.1:7890"),
            s("--account-index"),
            s("12")
        ]
    );
    let blank = RunOpts { proxy: Some("   "), ..Default::default() };
    assert!(global_args(&blank).is_empty());
    assert!(global_args(&RunOpts::default()).is_empty());
}

#[test]
fn run_args_put_options_before_the_sub_command() {
    let opts = RunOpts { account_index: Some(0), ..Default::default() };
    let sub = vec![s("status")];
    assert_eq!(run_args(&opts, &sub), vec![s("--account-index"), s("0"), s("status")]);
}

#[test]
fn failure_messages() {
    assert_eq!(fail(&out(" out ", "  err \n", 1), "生成图片"), "生成图片失败：err");
    assert_eq!(fail(&out(" out ", "  \n", 1), "下载图片"), "下载图片失败：out");
    assert_eq!(fail(&out("", "", -1), "导入 Cookie"), "导入 Cookie失败：exit code -1");
    assert_eq!(fail(&out("", "", 137), "x"), "x失败：exit code 137");
}

#[test]
fn ask_args_keep_order() {
    let refs = vec![s("/r/a.png"), s("/r/b.jpg")];
    assert_eq!(
        ask_image_args("画一只猫", "  gemini-3-pro ", &refs),
        vec![
            s("ask"),
            s("--no-stream"),
            s("--mode"),
            s("image"),
            s("--model"),
            s("gemini-3-pro"),
            s("-f"),
            s("/r/a.png"),
            s("-f"),
            s("/r/b.jpg"),
            s("画一只猫")
        ]
    );
    assert_eq!(
        ask_image_args("p", "  ", &vec![]),
        vec![s("ask"), s("--no-stream"), s("--mode"), s("image"), s("p")]
    );
}

#[test]
fn ask_results() {
    let ok = ask_image(&out("hi\n---\nGenerated images:\n 1) https://g/1\n", "", 0)).unwrap();
    assert_eq!(ok.text, "hi");
    assert_eq!(ok.images, vec![s("https://g/1")]);
    let err = ask_image(&out("", "boom", 2)).err().unwrap();
    assert_eq!(err, "生成图片失败：boom");
}

#[test]
fn download_import_and_status_commands() {
    assert_eq!(
        download_args("https://u/1", "/o/a.png"),
        vec![s("download"), s("https://u/1"), s("-o"), s("/o/a.png")]
    );
    assert!(download(&out("", "", 0)).is_ok());
    assert_eq!(download(&out("", "nope", 1)).err().unwrap(), "下载图片失败：nope");
    assert_eq!(
        import_cookies_args("/d/cookies.json"),
        vec![s("import"), s("-"), s("-o"), s("/d/cookies.json")]
    );
    let opts = import_cookies_opts("__Secure-1PSID=abc");
    assert_eq!(opts.stdin, Some("__Secure-1PSID=abc"));
    assert!(opts.cookies.is_none() && opts.proxy.is_none() && opts.account_index.is_none());
    assert!(import_cookies(&out("", "", 0)).is_ok());
    assert_eq!(import_cookies(&out("bad", "", 3)).err().unwrap(), "导入 Cookie失败：bad");
    assert_eq!(status_args(), vec![s("status")]);
    let a = status(&out("  Init: OK\n", "", 1));
    assert!(a.logged_in);
    assert_eq!(a.message, "已登录");
}

#[test]
fn versions() {
    assert_eq!(
        detect_version(true, "gemini-web-cli version v1.2.3 (built abc)\n"),
        Some(s("v1.2.3"))
    );
    assert_eq!(detect_version(true, "v0.9.0"), Some(s("v0.9.0")));
    assert_eq!(detect_version(true, "gemini-web-cli   2.0"), Some(s("2.0")));
    assert_eq!(detect_version(true, "  \n"), None);
    assert_eq!(detect_version(true, "gemini-web-cli version"), None);
    assert_eq!(detect_version(false, "v1.2.3"), None);
}

#[test]
fn candidates_in_order() {
    let c = cli_candidates("/data", Some("  /opt/cli  "), Some("/app/MacOS"), Os::MacOs);
    let got: Vec<(String, String)> = c.into_iter().map(|x| (x.path, x.source)).collect();
    assert_eq!(
        got,
        vec![
            (s("/opt/cli"), s("环境变量 GEMINI_WEB_CLI_PATH")),
            (s("/data/bin/gemini-web-cli"), s("内置（已安装）")),
            (s("/app/MacOS/gemini-web-cli"), s("应用目录")),
            (s("/app/MacOS/../Resources/gemini-web-cli"), s("应用资源目录")),
        ]
    );
    let only = cli_candidates("/data", None, None, Os::Linux);
    assert_eq!(only.len(), 1);
    assert_eq!(only[0].path, "/data/bin/gemini-web-cli");
}

#[test]
fn path_search_skips_empty_entries() {
    assert_eq!(
        path_candidates("/usr/bin::/bin:", Os::Linux),
        vec![s("/usr/bin/gemini-web-cli"), s("/bin/gemini-web-cli")]
    );
    assert!(path_candidates("", Os::Linux).is_empty());
    assert_eq!(path_candidates("/a;/b", Os::Linux), vec![s("/a;/b/gemini-web-cli")]);
}

#[test]
fn first_hit_finds_the_first_true() {
    assert_eq!(first_hit(&vec![false, true, true]), Some(1));
    assert_eq!(first_hit(&vec![false, false]), None);
    assert_eq!(first_hit(&vec![]), None);
}

#[test]
fn explicit_paths() {
    assert_eq!(explicit_cli(Some("  /x/cli ")), Some(s("/x/cli")));
    assert_eq!(explicit_cli(Some("   ")), None);
    assert_eq!(explicit_cli(None), None);
}

#[test]
fn resolution_order() {
    let cands = cli_candidates("/data", None, Some("/app"), Os::Linux);
    match resolve_cli(Some(" /hand "), true, &cands, &vec![true, true, true], Some("/p")) {
        CliPick::Use { path, source } => {
            assert_eq!(path, "/hand");
            assert_eq!(source, "手动指定");
        }
        CliPick::Missing(_) => panic!("expected a pick"),
    }
    match resolve_cli(Some("/hand"), false, &cands, &vec![true, true, true], Some("/p")) {
        CliPick::Missing(st) => {
            assert!(!st.found);
            assert_eq!(st.path.as_deref(), Some("/hand"));
            assert_eq!(st.source, "手动指定");
            assert_eq!(st.error.as_deref(), Some("配置的路径不存在"));
        }
        CliPick::Use { .. } => panic!("expected a report"),
    }
    match resolve_cli(Some("  "), false, &cands, &vec![false, true, true], Some("/p")) {
        CliPick::Use { path, source } => {
            assert_eq!(path, "/app/gemini-web-cli");
            assert_eq!(source, "应用目录");
        }
        CliPick::Missing(_) => panic!("expected a pick"),
    }
    match resolve_cli(None, false, &cands, &vec![false, false, false], Some("/p/cli")) {
        CliPick::Use { path, source } => {
            assert_eq!(path, "/p/cli");
            assert_eq!(source, "PATH");
        }
        CliPick::Missing(_) => panic!("expected a pick"),
    }
    match resolve_cli(None, false, &cands, &vec![false, false, false], None) {
        CliPick::Missing(st) => {
            assert!(!st.found);
            assert_eq!(st.path, None);
            assert_eq!(st.source, "未找到");
            assert_eq!(
                st.error.as_deref(),
                Some("未找到 gemini-web-cli，请在设置里安装或手动指定路径")
            );
        }
        CliPick::Use { .. } => panic!("expected a report"),
    }
}

#[test]
fn found_status() {
    let st = status_of(Some(s("/x")), "PATH", Some(s("v1")));
    assert!(st.found);
    assert_eq!(st.path.as_deref(), Some("/x"));
    assert_eq!(st.version.as_deref(), Some("v1"));
    assert_eq!(st.source, "PATH");
    assert_eq!(st.error, None);
    assert!(!status_of(None, "x", None).found);
}

#[test]
fn install_locations() {
    assert_eq!(
        latest_release_url(),
        format!("https://api.github.com/repos/{}/releases/latest", REPO)
    );
    assert_eq!(installed_cli_path("/d", Os::Windows), "/d/bin/gemini-web-cli.exe");
}

fn asset(name: &str, url: Option<&str>) -> JsonValue {
    let mut fields = vec![(s("name"), JsonValue::Str(s(name)))];
    if let Some(u) = url {
        fields.push((s("browser_download_url"), JsonValue::Str(s(u))));
    }
    JsonValue::Object(fields)
}

fn release(assets: Vec<JsonValue>) -> JsonValue {
    JsonValue::Object(vec![(s("tag_name"), JsonValue::Str(s("v1"))), (s("assets"), JsonValue::Array(assets))])
}

#[test]
fn release_asset_prefers_the_exact_name() {
    let body = release(vec![
        asset("gemini-web-cli-linux-amd64-musl.tar.gz", Some("https://d/musl")),
        asset("gemini-web-cli-linux-amd64.tar.gz", Some("https://d/exact")),
        asset("gemini-web-cli-linux-amd64-extra.tar.gz", Some("https://d/later")),
        asset("gemini-web-cli-darwin-amd64.tar.gz", Some("https://d/mac")),
    ]);
    assert_eq!(
        pick_release_asset(&body, Os::Linux, Arch::X86_64).unwrap(),
        (s("gemini-web-cli-linux-amd64.tar.gz"), s("https://d/exact"))
    );
}

#[test]
fn release_asset_takes_the_last_fitting_one_without_exact() {
    let body = release(vec![
        asset("gemini-web-cli-windows-amd64-a.zip", Some("https://d/a")),
        asset("gemini-web-cli-windows-amd64-b.zip", Some("https://d/b")),
        asset("gemini-web-cli-windows-amd64-c.zip", None),
        asset("gemini-web-cli-windows-arm64.zip", Some("https://d/arm")),
        asset("gemini-web-cli-windows-amd64.tar.gz", Some("https://d/tgz")),
    ]);
    assert_eq!(
        pick_release_asset(&body, Os::Windows, Arch::X86_64).unwrap(),
        (s("gemini-web-cli-windows-amd64-b.zip"), s("https://d/b"))
    );
}

#[test]
fn release_without_fitting_asset() {
    let body = release(vec![asset("gemini-web-cli-linux-amd64.tar.gz", Some("https://d/x"))]);
    assert_eq!(
        pick_release_asset(&body, Os::MacOs, Arch::Aarch64).err().unwrap(),
        "没有找到适用于 darwin-arm64 的发布包（期望后缀 .tar.gz）"
    );
    assert!(pick_release_asset(&JsonValue::Null, Os::Windows, Arch::X86_64).is_err());
    assert_eq!(
        pick_release_asset(&JsonValue::Null, Os::Windows, Arch::X86_64).err().unwrap(),
        "没有找到适用于 windows-amd64 的发布包（期望后缀 .zip）"
    );
}

#[test]
fn archive_entries_for_the_engine() {
    assert!(is_cli_entry("dist/gemini-web-cli", Os::Linux));
    assert!(is_cli_entry("gemini-web-cli.exe", Os::Windows));
    assert!(is_cli_entry("x/gemini-web-cli", Os::Windows));
    assert!(!is_cli_entry("README.md", Os::Linux));
    assert!(!is_cli_entry("gemini-web-cli.exe", Os::Linux));
}
