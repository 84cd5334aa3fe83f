//! Properties that hold of every input: what the parsers can return, the order
//! in which reference images reach the engine, and the shape of generated names.

use vstd::prelude::*;

use crate::commands::{alphanumeric, cookie_text_spec, safe_stem_spec, stem_filter, truncate_spec};
use crate::engine::{
    ask_args_spec, ask_output, ask_scan, ask_step, asset_name, asset_scan, indexed_url,
    pick_asset_spec, ref_args, ref_flag, status_output, status_scan, status_step, target_keywords_spec,
    version_spec, Arch, Os, exact_name, exe_name_spec, global_args_spec, package_ext,
    failure_detail, explicit_spec, resolve_spec, AskScan, AskView, CliPickView, Section, keeps_images,
};
use crate::generation::{gen_step, ActionView, EventView, PhaseView};
use crate::json::JsonValue;
use crate::model::ModelView;
use crate::paths::joined_path;
use crate::text::{
    contains_at, contains_seq, digits, decimal, ends_with, first_word, is_digit, is_ws, join, lemma_trim_end_idem,
    lemma_trim_shapes, plain_line, unlines,
    lemma_trim_start_idem, lemma_word_len_bounds, starts_with, trim, trim_char, trim_end,
    trim_end_char, trim_start, trim_start_char, word_len,
};

verus! {

/// No character is white space.
pub open spec fn no_ws(s: Seq<char>) -> bool {
    forall|k: int| 0 <= k < s.len() ==> !is_ws(s[k])
}

/// Neither end is white space.
pub open spec fn trimmed(s: Seq<char>) -> bool {
    s.len() > 0 ==> !is_ws(s[0]) && !is_ws(s.last())
}

proof fn lemma_trim_trimmed(s: Seq<char>)
    ensures
        trimmed(trim(s)),
{
    let u = trim_start(s);
    lemma_trim_start_idem(s);
    lemma_trim_end_idem(u);
    lemma_trim_shapes(u);
    if trim(s).len() > 0 {
        assert(trim(s)[0] == u[0]);
    }
}

proof fn lemma_first_word(s: Seq<char>)
    ensures
        first_word(s) matches Some(w) ==> w.len() > 0 && no_ws(w),
{
    let t = trim_start(s);
    lemma_trim_start_idem(s);
    lemma_word_len_bounds(t);
    if t.len() > 0 {
        lemma_word_len_bounds(t.drop_first());
        assert(word_len(t) > 0);
    }
}

/// A URL read from an indexed line starts with `http` and holds no white space.
pub proof fn indexed_url_is_a_word(line: Seq<char>)
    ensures
        indexed_url(line) matches Some(u) ==> starts_with(u, "http"@) && u.len() > 0 && no_ws(u),
{
    let t = trim(line);
    if let Some(close) = crate::text::find_char(t, ')') {
        lemma_first_word(trim(t.skip(close + 1)));
    }
}

spec fn good_images(imgs: Seq<Seq<char>>) -> bool {
    &&& imgs.no_duplicates()
    &&& forall|i: int| 0 <= i < imgs.len() ==> starts_with(#[trigger] imgs[i], "http"@) && no_ws(imgs[i])
}

proof fn lemma_ask_scan_images(ls: Seq<Seq<char>>)
    ensures
        good_images(ask_scan(ls).images),
        ask_scan(ls).chat_id matches Some(c) ==> trimmed(c),
    decreases ls.len(),
{
    if ls.len() > 0 {
        let st = ask_scan(ls.drop_last());
        lemma_ask_scan_images(ls.drop_last());
        let line = ls.last();
        let t = trim_end(line);
        indexed_url_is_a_word(t);
        if let Some(rest) = crate::text::strip_prefix(trim_start(t), "Chat ID:"@) {
            lemma_trim_trimmed(rest);
        }
        let next = ask_step(st, line);
        if next.images != st.images {
            let u = indexed_url(t)->0;
            assert(next.images == st.images.push(u));
            assert forall|i: int, j: int|
                0 <= i < next.images.len() && 0 <= j < next.images.len() && i != j implies next.images[i]
                != next.images[j] by {
                if i == st.images.len() {
                    assert(st.images[j] == next.images[j]);
                } else if j == st.images.len() {
                    assert(st.images[i] == next.images[i]);
                }
            }
        }
    }
}

/// The images `parse_ask_output` reports are distinct, each starts with
/// `http` and holds no white space; the chat id and the text carry no
/// surrounding white space at their ends.
pub proof fn ask_output_images_are_distinct_urls(stdout: Seq<char>)
    ensures
        ask_output(stdout).images.no_duplicates(),
        forall|i: int|
            0 <= i < ask_output(stdout).images.len() ==> starts_with(
                #[trigger] ask_output(stdout).images[i],
                "http"@,
            ) && no_ws(ask_output(stdout).images[i]),
        ask_output(stdout).chat_id matches Some(c) ==> trimmed(c),
        ask_output(stdout).text.len() > 0 ==> !is_ws(ask_output(stdout).text.last()),
{
    let ls = crate::text::lines(stdout);
    let te = crate::engine::rule_index(ls);
    lemma_ask_scan_images(ls.skip(te));
    lemma_trim_end_idem(crate::text::join(ls.take(te), "\n"@));
}

proof fn lemma_status_scan_models(ls: Seq<Seq<char>>)
    ensures
        forall|i: int|
            0 <= i < status_scan(ls).models.len() ==> (#[trigger] status_scan(ls).models[i]).name.len()
                > 0 && trimmed(status_scan(ls).models[i].name),
    decreases ls.len(),
{
    if ls.len() > 0 {
        let st = status_scan(ls.drop_last());
        lemma_status_scan_models(ls.drop_last());
        let t = trim(ls.last());
        if let Some(open) = crate::text::find_char(t, '(') {
            lemma_trim_trimmed(t.take(open));
        }
        let next = status_step(st, ls.last());
        assert forall|i: int| 0 <= i < next.models.len() implies (#[trigger] next.models[i]).name.len()
            > 0 && trimmed(next.models[i].name) by {
            if i < st.models.len() {
                assert(next.models[i] == st.models[i]);
            }
        }
    }
}

/// `parse_status_output` always has a message, and every model it lists has a
/// non-blank name without surrounding white space.
pub proof fn status_output_is_complete(stdout: Seq<char>)
    ensures
        status_output(stdout).message.len() > 0,
        forall|i: int|
            0 <= i < status_output(stdout).models.len() ==> (#[trigger] status_output(
                stdout,
            ).models[i]).name.len() > 0 && trimmed(status_output(stdout).models[i].name),
{
    reveal_strlit("无法获取账号信息");
    reveal_strlit("已登录");
    lemma_status_scan_models(crate::text::lines(stdout));
}

/// The failure detail of a run is never empty.
pub proof fn failure_detail_is_never_empty(stdout: Seq<char>, stderr: Seq<char>, code: int)
    ensures
        failure_detail(stdout, stderr, code).len() > 0,
{
    reveal_strlit("exit code ");
}

/// A version read from `--version` output is one non-empty word.
pub proof fn version_is_one_word(success: bool, stdout: Seq<char>)
    ensures
        version_spec(success, stdout) matches Some(v) ==> v.len() > 0 && no_ws(v),
{
    let text = trim(stdout);
    lemma_first_word(
        crate::text::replace_all(
            crate::text::replace_all(text, "gemini-web-cli version"@, Seq::empty()),
            "gemini-web-cli"@,
            Seq::empty(),
        ),
    );
}

proof fn lemma_ref_args(refs: Seq<Seq<char>>)
    ensures
        ref_args(refs).len() == 2 * refs.len(),
        forall|i: int| 0 <= i < refs.len() ==> #[trigger] ref_pair(refs, i),
    decreases refs.len(),
{
    if refs.len() > 0 {
        let init = refs.drop_last();
        lemma_ref_args(init);
        let ra = ref_args(init);
        assert(ref_args(refs) == ra + seq![ref_flag(), refs.last()]);
        assert forall|i: int| 0 <= i < refs.len() implies #[trigger] ref_pair(refs, i) by {
            if i < init.len() {
                assert(ref_pair(init, i));
                assert(refs[i] == init[i]);
                assert(ref_args(refs)[2 * i] == ra[2 * i]);
                assert(ref_args(refs)[2 * i + 1] == ra[2 * i + 1]);
            } else {
                assert(ref_args(refs)[2 * i] == seq![ref_flag(), refs.last()][0]);
                assert(ref_args(refs)[2 * i + 1] == seq![ref_flag(), refs.last()][1]);
            }
        }
    }
}

/// The arguments at `2 * i` and `2 * i + 1` hand over the `i`-th reference image.
pub open spec fn ref_pair(refs: Seq<Seq<char>>, i: int) -> bool {
    ref_args(refs)[2 * i] == ref_flag() && ref_args(refs)[2 * i + 1] == refs[i]
}

/// The arguments at `k` and `k + 1` are `-f` and the reference image `r`.
pub open spec fn hands_over(args: Seq<Seq<char>>, k: int, r: Seq<char>) -> bool {
    args[k] == ref_flag() && args[k + 1] == r
}

/// The reference images reach the engine in the order the user arranged them,
/// each after its own `-f`, and the prompt is the last argument.
pub proof fn ask_args_keep_reference_order(
    prompt: Seq<char>,
    model: Seq<char>,
    refs: Seq<Seq<char>>,
)
    ensures
        ({
            let a = ask_args_spec(prompt, model, refs);
            let m: int = if trim(model).len() > 0 {
                2
            } else {
                0
            };
            &&& a.len() == 4 + m + 2 * refs.len() + 1
            &&& a.last() == prompt
            &&& forall|i: int|
                0 <= i < refs.len() ==> hands_over(a, 4 + m + 2 * i, #[trigger] refs[i])
        }),
{
    lemma_ref_args(refs);
    let h = seq!["ask"@, "--no-stream"@, "--mode"@, "image"@];
    let mm = if trim(model).len() > 0 {
        seq!["--model"@, trim(model)]
    } else {
        Seq::empty()
    };
    let r = ref_args(refs);
    let a = ask_args_spec(prompt, model, refs);
    let m: int = if trim(model).len() > 0 {
        2
    } else {
        0
    };
    assert(mm.len() == m);
    assert(a == h + mm + r + seq![prompt]);
    assert forall|i: int| 0 <= i < refs.len() implies hands_over(a, 4 + m + 2 * i, #[trigger] refs[i])
        by {
        assert(ref_pair(refs, i));
        assert(a[4 + m + 2 * i] == r[2 * i]);
        assert(a[4 + m + 2 * i + 1] == r[2 * i + 1]);
    }
}

proof fn lemma_asset_scan(assets: Seq<JsonValue>, os_kw: Seq<char>, arch_kw: Seq<char>, ext: Seq<char>)
    ensures
        asset_scan(assets, os_kw, arch_kw, ext).pick matches Some((name, url)) ==> ends_with(name, ext)
            && contains_seq(name, os_kw) && (contains_seq(name, arch_kw) || name == exact_name(
            os_kw,
            arch_kw,
            ext,
        )),
    decreases assets.len(),
{
    if assets.len() > 0 {
        lemma_asset_scan(assets.drop_last(), os_kw, arch_kw, ext);
    }
}

/// The release package chosen for a platform has that platform's suffix and
/// names its system, and names its architecture unless it is the exact name.
pub proof fn picked_asset_fits_the_platform(body: JsonValue, os: Os, arch: Arch)
    ensures
        ({
            let (os_kw, arch_kw, is_zip) = target_keywords_spec(os, arch);
            pick_asset_spec(body, os, arch) matches Some((name, url)) ==> ends_with(
                name,
                package_ext(is_zip),
            ) && contains_seq(name, os_kw) && (contains_seq(name, arch_kw) || name == exact_name(
                os_kw,
                arch_kw,
                package_ext(is_zip),
            ))
        }),
{
    let (os_kw, arch_kw, is_zip) = target_keywords_spec(os, arch);
    lemma_asset_scan(
        crate::json::json_items(crate::json::json_get(body, "assets"@)),
        os_kw,
        arch_kw,
        package_ext(is_zip),
    );
}

proof fn lemma_stem_filter(s: Seq<char>)
    ensures
        forall|k: int| 0 <= k < stem_filter(s).len() ==> stem_char_ok(#[trigger] stem_filter(s)[k]),
    decreases s.len(),
{
    if s.len() > 0 {
        lemma_stem_filter(s.drop_last());
        let r = stem_filter(s.drop_last());
        assert forall|k: int| 0 <= k < stem_filter(s).len() implies stem_char_ok(
            #[trigger] stem_filter(s)[k],
        ) by {
            if k < r.len() {
                assert(stem_filter(s)[k] == r[k]);
            }
        }
    }
}

proof fn lemma_trim_char(s: Seq<char>, c: char)
    ensures
        trim_start_char(s, c).len() <= s.len(),
        trim_start_char(s, c) == s.skip(s.len() - trim_start_char(s, c).len()),
        trim_start_char(s, c).len() > 0 ==> trim_start_char(s, c)[0] != c,
    decreases s.len(),
{
    if s.len() > 0 && s[0] == c {
        lemma_trim_char(s.drop_first(), c);
        assert(s.drop_first().skip(s.drop_first().len() - trim_start_char(s.drop_first(), c).len())
            =~= s.skip(s.len() - trim_start_char(s, c).len()));
    } else {
        assert(s.skip(0) =~= s);
    }
}

proof fn lemma_trim_end_char(s: Seq<char>, c: char)
    ensures
        trim_end_char(s, c).len() <= s.len(),
        trim_end_char(s, c) == s.take(trim_end_char(s, c).len() as int),
    decreases s.len(),
{
    if s.len() > 0 && s.last() == c {
        lemma_trim_end_char(s.drop_last(), c);
        assert(s.drop_last().take(trim_end_char(s.drop_last(), c).len() as int) =~= s.take(
            trim_end_char(s, c).len() as int,
        ));
    } else {
        assert(s.take(s.len() as int) =~= s);
    }
}

/// A file-name stem is never empty, has at most 40 characters, never starts with
/// `_`, and is either `image` or made only of alphanumeric characters, `-` and
/// `_` (never a space).
pub proof fn safe_stem_is_a_file_name(name: Seq<char>)
    ensures
        ({
            let r = safe_stem_spec(name);
            &&& 0 < r.len() <= 40
            &&& r[0] != '_'
            &&& r == "image"@ || forall|k: int| 0 <= k < r.len() ==> stem_char_ok(#[trigger] r[k])
        }),
{
    reveal_strlit("image");
    let f = stem_filter(name);
    lemma_stem_filter(name);
    let a = trim_start_char(f, '_');
    lemma_trim_char(f, '_');
    lemma_trim_end_char(a, '_');
    let t = trim_char(f, '_');
    if t.len() > 0 {
        assert(t[0] == a[0]);
        assert forall|k: int| 0 <= k < t.len() implies stem_char_ok(#[trigger] t[k]) by {
            assert(t[k] == a[k]);
            assert(a[k] == f[f.len() - a.len() + k]);
            assert(stem_char_ok(f[f.len() - a.len() + k]));
        }
        if t.len() > 40 {
            assert forall|k: int| 0 <= k < 40 implies stem_char_ok(#[trigger] t.take(40)[k]) by {
                assert(t.take(40)[k] == t[k]);
            }
        }
    }
}

/// The characters a file-name stem is made of.
pub open spec fn stem_char_ok(c: char) -> bool {
    (alphanumeric(c) || c == '-' || c == '_') && c != ' '
}

/// Pasted cookie text is accepted exactly when, once trimmed, it is not empty
/// and names the `__Secure-1PSID` cookie; what is kept is the trimmed text.
pub proof fn accepted_cookies_name_secure_1psid(text: Seq<char>)
    ensures
        cookie_text_spec(text) is Ok <==> trim(text).len() > 0 && contains_seq(
            trim(text),
            "__Secure-1PSID"@,
        ),
        cookie_text_spec(text) matches Ok(t) ==> t == trim(text),
{
}

/// A path set by hand that is not blank decides alone: it is used when it
/// exists and reported missing otherwise, whatever else is on disk.
pub proof fn explicit_path_decides(
    explicit: Option<Seq<char>>,
    explicit_exists: bool,
    candidates: Seq<(Seq<char>, Seq<char>)>,
    exists: Seq<bool>,
    on_path: Option<Seq<char>>,
)
    requires
        explicit_spec(explicit) is Some,
    ensures
        ({
            let p = explicit_spec(explicit)->0;
            let r = resolve_spec(explicit, explicit_exists, candidates, exists, on_path);
            &&& explicit_exists ==> r == CliPickView::Use { path: p, source: "手动指定"@ }
            &&& !explicit_exists ==> (r matches CliPickView::Missing(s) && !s.found && s.path
                == Some(p))
        }),
{
}

/// A truncated text keeps its first characters: all of them when it fits, else
/// the first `max` followed by one `…`.
pub proof fn truncate_keeps_the_start(s: Seq<char>, max: nat)
    ensures
        truncate_spec(s, max).len() == (if s.len() <= max {
            s.len()
        } else {
            max + 1
        }),
        forall|k: int| 0 <= k < s.len() && k < max ==> #[trigger] truncate_spec(s, max)[k] == s[k],
{
    reveal_strlit("…");
}

/// A lower-case hexadecimal digit.
pub open spec fn is_hex_digit(c: char) -> bool {
    ('0' <= c && c <= '9') || ('a' <= c && c <= 'f')
}

proof fn lemma_hex_digits(n: nat)
    ensures
        digits(n, 16).len() > 0,
        forall|k: int| 0 <= k < digits(n, 16).len() ==> is_hex_digit(#[trigger] digits(n, 16)[k]),
    decreases n,
{
    if n >= 16 {
        assert(n / 16 < n);
        lemma_hex_digits(n / 16);
        assert(n % 16 < 16);
        let d = digits(n / 16, 16);
        assert forall|k: int| 0 <= k < digits(n, 16).len() implies is_hex_digit(
            #[trigger] digits(n, 16)[k],
        ) by {
            if k < d.len() {
                assert(digits(n, 16)[k] == d[k]);
            }
        }
    }
}

/// An id is a non-empty run of lower-case hexadecimal digits.
pub proof fn ids_are_hexadecimal(a: u64, b: u64)
    ensures
        ({
            let id = digits(a as nat, 16) + digits(b as nat, 16);
            &&& id.len() >= 2
            &&& forall|k: int| 0 <= k < id.len() ==> is_hex_digit(#[trigger] id[k])
        }),
{
    lemma_hex_digits(a as nat);
    lemma_hex_digits(b as nat);
    let x = digits(a as nat, 16);
    let y = digits(b as nat, 16);
    assert forall|k: int| 0 <= k < (x + y).len() implies is_hex_digit(#[trigger] (x + y)[k]) by {
        if k < x.len() {
            assert((x + y)[k] == x[k]);
        } else {
            assert((x + y)[k] == y[k - x.len()]);
        }
    }
}

proof fn lemma_decimal_digits(n: nat)
    ensures
        digits(n, 10).len() > 0,
        forall|k: int| 0 <= k < digits(n, 10).len() ==> is_digit(#[trigger] digits(n, 10)[k]),
    decreases n,
{
    if n >= 10 {
        assert(n / 10 < n);
        lemma_decimal_digits(n / 10);
        assert(n % 10 < 10);
        let d = digits(n / 10, 10);
        assert forall|k: int| 0 <= k < digits(n, 10).len() implies is_digit(
            #[trigger] digits(n, 10)[k],
        ) by {
            if k < d.len() {
                assert(digits(n, 10)[k] == d[k]);
            }
        }
    }
}

/// The line `ask` prints for its image number `k` (counted from zero): two
/// spaces, the number counted from one, `) ` and the URL.
pub open spec fn image_line(k: int, url: Seq<char>) -> Seq<char> {
    "  "@ + digits((k + 1) as nat, 10) + ") "@ + url
}

/// The lines of `ask` output in the shape its documentation shows: the answer,
/// a rule, the generated images, a rule and the chat id.
pub open spec fn ask_printout_lines(text: Seq<Seq<char>>, urls: Seq<Seq<char>>, chat: Seq<char>) -> Seq<
    Seq<char>,
> {
    text + seq!["---"@, "Generated images:"@] + Seq::new(urls.len(), |k: int| image_line(k, urls[k]))
        + seq!["---"@, "Chat ID: "@ + chat]
}

/// A URL as `ask` lists it: it starts with `http` and holds no white space.
pub open spec fn listed_url(u: Seq<char>) -> bool {
    starts_with(u, "http"@) && no_ws(u)
}

proof fn lemma_image_line(st: AskScan, k: int, url: Seq<char>)
    requires
        k >= 0,
        listed_url(url),
    ensures
        plain_line(image_line(k, url)),
        trim(image_line(k, url)) != "---"@,
        ask_step(st, image_line(k, url)) == (if keeps_images(st.section) && !st.images.contains(url) {
            AskScan { chat_id: st.chat_id, images: st.images.push(url), section: st.section }
        } else {
            st
        }),
{
    reveal_strlit("  ");
    reveal_strlit(") ");
    reveal_strlit("http");
    reveal_strlit("---");
    reveal_strlit("Images:");
    reveal_strlit("Generated images:");
    reveal_strlit("Generated videos:");
    reveal_strlit("Generated media:");
    reveal_strlit("Chat ID:");
    let d = digits((k + 1) as nat, 10);
    lemma_decimal_digits((k + 1) as nat);
    let line = image_line(k, url);
    let u = d + ") "@ + url;
    assert(url.take(4)[0] == url[0]);
    assert(url[0] == 'h');
    assert(line =~= "  "@ + u);
    assert(line.last() == url.last());
    assert(!is_ws(url.last()));
    assert(trim_end(line) == line);
    assert(line.drop_first() =~= seq![' '] + u);
    assert(line.drop_first().drop_first() =~= u);
    assert(u[0] == d[0]);
    assert(is_digit(d[0]));
    assert(trim_start(line.drop_first().drop_first()) == u);
    assert(line[0] == ' ' && line.drop_first()[0] == ' ');
    assert(trim_start(line.drop_first()) == u);
    assert(trim_start(line) == u);
    assert(u.last() == url.last());
    assert(trim_end(u) == u);
    assert(trim(line) == u);
    assert forall|i: int| 0 <= i < line.len() implies line[i] != '\n' by {
        if i >= 2 + d.len() + 2 {
            assert(line[i] == url[i - (2 + d.len() + 2)]);
            assert(!is_ws(url[i - (2 + d.len() + 2)]));
        } else if i >= 2 && i < 2 + d.len() {
            assert(line[i] == d[i - 2]);
            assert(is_digit(d[i - 2]));
        }
    }
    assert(plain_line(line));
    assert(u[0] != '-');
    assert(trim(line) != "---"@);
    // Not a chat id line.
    if starts_with(u, "Chat ID:"@) {
        assert(u.take(8)[0] == "Chat ID:"@[0]);
        assert(false);
    }
    // Not a heading.
    assert(u != "Images:"@);
    assert(u != "Generated images:"@);
    assert(u != "Generated videos:"@);
    assert(u != "Generated media:"@);
    assert(crate::engine::heading(u) is None);
    // The indexed URL is `url`.
    assert forall|i: int| 0 <= i < d.len() implies u[i] != ')' by {
        assert(u[i] == d[i]);
        assert(is_digit(d[i]));
    }
    assert(u[d.len() as int] == ')');
    crate::text::lemma_find_char(u, ')', d.len() as int);
    assert(u.take(d.len() as int) =~= d);
    let after = u.skip(d.len() as int + 1);
    assert(after =~= seq![' '] + url);
    assert(after.drop_first() =~= url);
    assert(trim_start(after) == trim_start(url));
    assert(trim_start(url) == url);
    assert(trim_end(url) == url);
    assert(trim(after) == url);
    crate::text::lemma_word_len(url, url.len() as int);
    assert(url.take(url.len() as int) =~= url);
    assert(first_word(url) == Some(url));
    assert(indexed_url(line) == Some(url));
}

proof fn lemma_scan_documented(urls: Seq<Seq<char>>, chat: Seq<char>, j: int)
    requires
        0 <= j <= urls.len(),
        forall|i: int| 0 <= i < urls.len() ==> listed_url(#[trigger] urls[i]),
        urls.no_duplicates(),
    ensures
        ask_scan(
            (seq!["---"@, "Generated images:"@] + Seq::new(
                urls.len(),
                |k: int| image_line(k, urls[k]),
            )).take(2 + j),
        ) == (AskScan { chat_id: None, images: urls.take(j), section: Some(Section::Generated) }),
    decreases j,
{
    reveal_strlit("---");
    reveal_strlit("Images:");
    reveal_strlit("Generated images:");
    reveal_strlit("Generated videos:");
    reveal_strlit("Generated media:");
    reveal_strlit("Chat ID:");
    let ls = seq!["---"@, "Generated images:"@] + Seq::new(urls.len(), |k: int| image_line(k, urls[k]));
    if j == 0 {
        let empty = AskScan { chat_id: None, images: Seq::empty(), section: None };
        let rule = "---"@;
        let gen = "Generated images:"@;
        assert(ls.take(2).drop_last() =~= seq![rule]);
        assert(seq![rule].drop_last() =~= Seq::<Seq<char>>::empty());
        assert(trim_end(rule) == rule);
        assert(trim_start(rule) == rule);
        assert(!starts_with(rule, "Chat ID:"@));
        assert(ask_step(empty, rule) == empty);
        assert(trim_end(gen) == gen);
        assert(trim_start(gen) == gen);
        if starts_with(gen, "Chat ID:"@) {
            assert(gen.take(8)[0] == "Chat ID:"@[0]);
        }
        assert(crate::engine::heading(gen) == Some(Some(Section::Generated)));
        assert(ask_step(empty, gen) == AskScan {
            chat_id: None,
            images: Seq::empty(),
            section: Some(Section::Generated),
        });
        assert(ask_scan(Seq::<Seq<char>>::empty()) == empty);
        assert(ask_scan(seq![rule]) == empty);
        assert(ls.take(2).last() == gen);
        assert(urls.take(0) =~= Seq::<Seq<char>>::empty());
    } else {
        lemma_scan_documented(urls, chat, j - 1);
        let prev = AskScan { chat_id: None, images: urls.take(j - 1), section: Some(Section::Generated) };
        assert(ls.take(2 + j).drop_last() =~= ls.take(2 + j - 1));
        assert(ls.take(2 + j).last() == image_line(j - 1, urls[j - 1]));
        lemma_image_line(prev, j - 1, urls[j - 1]);
        if urls.take(j - 1).contains(urls[j - 1]) {
            let i = choose|i: int| 0 <= i < j - 1 && #[trigger] urls.take(j - 1)[i] == urls[j - 1];
            assert(urls[i] == urls[j - 1]);
        }
        assert(urls.take(j - 1).push(urls[j - 1]) =~= urls.take(j));
    }
}

/// Text in the shape that the documentation of `ask` shows — answer lines, a
/// `---` rule, `Generated images:` with numbered URLs, a rule and `Chat ID:` —
/// is read back into its parts: the answer (trimmed at its end), the URLs in
/// order and the chat id.
pub proof fn ask_output_reads_the_documented_shape(
    text: Seq<Seq<char>>,
    urls: Seq<Seq<char>>,
    chat: Seq<char>,
)
    requires
        forall|i: int| 0 <= i < text.len() ==> plain_line(#[trigger] text[i]) && trim(text[i]) != "---"@,
        forall|i: int| 0 <= i < urls.len() ==> listed_url(#[trigger] urls[i]),
        urls.no_duplicates(),
        plain_line(chat),
        trim(chat) == chat,
    ensures
        ask_output(unlines(ask_printout_lines(text, urls, chat))) == (AskView {
            text: trim_end(join(text, "\n"@)),
            images: urls,
            chat_id: Some(chat),
        }),
{
    reveal_strlit("---");
    reveal_strlit("Generated images:");
    reveal_strlit("Chat ID: ");
    reveal_strlit("Chat ID:");
    let rule = "---"@;
    let gen = "Generated images:"@;
    let chat_line = "Chat ID: "@ + chat;
    let imgs = Seq::new(urls.len(), |k: int| image_line(k, urls[k]));
    let head = seq![rule, gen] + imgs;
    let rest = head + seq![rule, chat_line];
    let ls = ask_printout_lines(text, urls, chat);
    assert(ls =~= text + rest);
    // Every printed line comes back from `lines`.
    lemma_trim_shapes(chat);
    assert forall|i: int| 0 <= i < ls.len() implies plain_line(#[trigger] ls[i]) by {
        if i < text.len() {
            assert(ls[i] == text[i]);
        } else if i < text.len() + 2 {
        } else if i < text.len() + 2 + urls.len() {
            let k = i - text.len() - 2;
            assert(ls[i] == image_line(k, urls[k]));
            lemma_image_line(AskScan { chat_id: None, images: Seq::empty(), section: None }, k, urls[k]);
        } else if i == text.len() + 2 + urls.len() {
        } else {
            assert(ls[i] == chat_line);
            assert forall|q: int| 0 <= q < chat_line.len() implies chat_line[q] != '\n' by {
                if q >= 9 {
                    assert(chat_line[q] == chat[q - 9]);
                }
            }
            if chat.len() > 0 {
                assert(chat_line.last() == chat.last());
                lemma_trim_trimmed(chat);
            }
        }
    }
    crate::text::lemma_lines_unlines(ls);
    // The answer ends at the first rule.
    assert forall|k: int| 0 <= k < text.len() implies trim(ls[k]) != "---"@ by {
        assert(ls[k] == text[k]);
    }
    assert(ls[text.len() as int] == rule);
    assert(trim_start(rule) == rule);
    assert(trim_end(rule) == rule);
    crate::engine::lemma_rule_index(ls, text.len() as int);
    assert(ls.take(text.len() as int) =~= text);
    assert(ls.skip(text.len() as int) =~= rest);
    // The images.
    lemma_scan_documented(urls, chat, urls.len() as int);
    assert(head.take(2 + urls.len() as int) =~= head);
    assert(urls.take(urls.len() as int) =~= urls);
    let mid = AskScan { chat_id: None, images: urls, section: Some(Section::Generated) };
    // The closing rule.
    assert((head + seq![rule]).drop_last() =~= head);
    assert(!starts_with(rule, "Chat ID:"@));
    let closed = AskScan { chat_id: None, images: urls, section: None };
    assert(ask_step(mid, rule) == closed);
    assert(ask_scan(head + seq![rule]) == closed);
    // The chat id.
    assert(rest.drop_last() =~= head + seq![rule]);
    assert(rest.last() == chat_line);
    if chat.len() > 0 {
        lemma_trim_trimmed(chat);
        assert(chat_line.last() == chat.last());
        assert(trim_end(chat_line) == chat_line);
        assert(trim_start(chat_line) == chat_line);
        assert(chat_line.take(8) =~= "Chat ID:"@);
        assert(chat_line.skip(8) =~= seq![' '] + chat);
        assert((seq![' '] + chat).drop_first() =~= chat);
        assert(trim_start(seq![' '] + chat) == trim_start(chat));
        assert(trim(seq![' '] + chat) == trim(chat));
    } else {
        assert(chat_line =~= "Chat ID: "@);
        assert(chat_line.drop_last() =~= "Chat ID:"@);
        assert(trim_end(chat_line.drop_last()) == chat_line.drop_last());
        assert(trim_end(chat_line) =~= "Chat ID:"@);
        assert(trim_start(trim_end(chat_line)) == trim_end(chat_line));
        assert("Chat ID:"@.take(8) =~= "Chat ID:"@);
        assert("Chat ID:"@.skip(8) =~= chat);
        assert(trim(chat) == chat);
    }
    assert(ask_step(closed, chat_line) == AskScan { chat_id: Some(chat), images: urls, section: None });
}

/// Steps a generation through the events in order; the action is the last one.
pub open spec fn run_steps(p: PhaseView, es: Seq<EventView>) -> (PhaseView, ActionView)
    decreases es.len(),
{
    if es.len() == 0 {
        (p, ActionView::Ignore)
    } else if es.len() == 1 {
        gen_step(p, es[0])
    } else {
        run_steps(gen_step(p, es[0]).0, es.drop_first())
    }
}

/// The download events for these outcomes (`None` for success, else the error).
pub open spec fn download_events(results: Seq<Option<Seq<char>>>) -> Seq<EventView> {
    results.map_values(|r: Option<Seq<char>>| EventView::Downloaded(r))
}

/// Which downloads succeeded.
pub open spec fn arrived(results: Seq<Option<Seq<char>>>) -> Seq<bool> {
    results.map_values(|r: Option<Seq<char>>| r is None)
}

proof fn lemma_downloads(
    next: nat,
    count: nat,
    chat_id: Option<Seq<char>>,
    ok: Seq<bool>,
    results: Seq<Option<Seq<char>>>,
)
    requires
        next < count,
        ok.len() == next,
        results.len() == count - next,
    ensures
        run_steps(
            PhaseView::Downloading { next, count, chat_id, ok },
            download_events(results),
        ).0 == PhaseView::Over,
        run_steps(
            PhaseView::Downloading { next, count, chat_id, ok },
            download_events(results),
        ).1 matches ActionView::Finish { downloaded, .. } && downloaded == ok + arrived(results),
    decreases results.len(),
{
    let p = PhaseView::Downloading { next, count, chat_id, ok };
    let es = download_events(results);
    let ok2 = ok.push(results[0] is None);
    assert(es[0] == EventView::Downloaded(results[0]));
    if results.len() == 1 {
        assert(ok2 =~= ok + arrived(results));
    } else {
        let rest = results.drop_first();
        assert(es.drop_first() =~= download_events(rest));
        lemma_downloads(next + 1, count, chat_id, ok2, rest);
        assert(ok2 + arrived(rest) =~= ok + arrived(results));
    }
}

/// Once the engine answers with images, each is downloaded in turn whatever
/// became of the one before, and the generation ends with one outcome per
/// image, in order.
pub proof fn every_image_gets_an_outcome(
    text: Seq<char>,
    chat_id: Option<Seq<char>>,
    results: Seq<Option<Seq<char>>>,
)
    requires
        results.len() > 0,
    ensures
        ({
            let es = seq![EventView::Answered { images: results.len(), text, chat_id }]
                + download_events(results);
            &&& run_steps(PhaseView::Asking, es).0 == PhaseView::Over
            &&& run_steps(PhaseView::Asking, es).1 matches ActionView::Finish { downloaded, .. }
                && downloaded == arrived(results)
        }),
{
    let es = seq![EventView::Answered { images: results.len(), text, chat_id }] + download_events(
        results,
    );
    assert(es.drop_first() =~= download_events(results));
    assert(es[0] == EventView::Answered { images: results.len(), text, chat_id });
    lemma_downloads(0, results.len(), chat_id, Seq::empty(), results);
    assert(Seq::<bool>::empty() + arrived(results) =~= arrived(results));
}

// ---------------------------------------------------------------------------
// What the engine is handed and what its output means
// ---------------------------------------------------------------------------

proof fn lemma_indexed_line_is_no_heading(line: Seq<char>)
    requires
        indexed_url(trim_end(line)) is Some,
    ensures
        crate::text::strip_prefix(trim_start(trim_end(line)), "Chat ID:"@) is None,
        crate::engine::heading(trim(trim_end(line))) is None,
{
    reveal_strlit("---");
    reveal_strlit("Images:");
    reveal_strlit("Generated images:");
    reveal_strlit("Generated videos:");
    reveal_strlit("Generated media:");
    reveal_strlit("Chat ID:");
    let t = trim_end(line);
    let s0 = trim_start(t);
    let tt = trim(t);
    let close = crate::text::find_char(tt, ')')->0;
    crate::text::lemma_find_char_found(tt, ')');
    let idx = tt.take(close);
    assert(idx.len() > 0 && crate::engine::all_digits(idx));
    assert(is_digit(idx[0]));
    assert(tt[0] == idx[0]);
    lemma_trim_shapes(s0);
    assert(tt == s0.take(tt.len() as int));
    assert(s0[0] == tt[0]);
    if starts_with(s0, "Chat ID:"@) {
        assert(s0.take(8)[0] == "Chat ID:"@[0]);
        assert(false);
    }
    assert(tt != "---"@) by {
        if tt == "---"@ {
            assert(tt[0] == '-');
        }
    }
    assert(tt != "Images:"@) by {
        if tt == "Images:"@ {
            assert(tt[0] == 'I');
        }
    }
    assert(tt != "Generated images:"@) by {
        if tt == "Generated images:"@ {
            assert(tt[0] == 'G');
        }
    }
    assert(tt != "Generated videos:"@) by {
        if tt == "Generated videos:"@ {
            assert(tt[0] == 'G');
        }
    }
    assert(tt != "Generated media:"@) by {
        if tt == "Generated media:"@ {
            assert(tt[0] == 'G');
        }
    }
}

/// A line that lists an image while `Images:` or `Generated images:` is open
/// keeps that list open: the section and the chat id stay as they were, the
/// images before it stay first, and its URL is among the images afterwards
/// (once, even when listed again).
pub proof fn listed_image_keeps_the_list_open(st: AskScan, line: Seq<char>)
    requires
        keeps_images(st.section),
        indexed_url(trim_end(line)) is Some,
    ensures
        ({
            let u = indexed_url(trim_end(line))->0;
            let n = ask_step(st, line);
            &&& n.section == st.section
            &&& n.chat_id == st.chat_id
            &&& n.images.contains(u)
            &&& n.images.take(st.images.len() as int) == st.images
            &&& n.images.len() == st.images.len() + (if st.images.contains(u) {
                0int
            } else {
                1int
            })
        }),
{
    lemma_indexed_line_is_no_heading(line);
    let t = trim_end(line);
    let u = indexed_url(t)->0;
    let n = ask_step(st, line);
    if st.images.contains(u) {
        assert(n == st);
        assert(st.images.take(st.images.len() as int) =~= st.images);
    } else {
        assert(n.images == st.images.push(u));
        assert(n.images[st.images.len() as int] == u);
        assert(n.images.take(st.images.len() as int) =~= st.images);
    }
}

/// A model line `name (Display) tail`, where the name holds no `(` and the
/// display name no `)`, reads as the trimmed name, the trimmed display name,
/// and whether the tail says `advanced` — the tail never reaches the display
/// name, and the flag never depends on it.
pub proof fn model_line_reads_its_parts(name: Seq<char>, display: Seq<char>, tail: Seq<char>)
    requires
        forall|k: int| 0 <= k < name.len() ==> name[k] != '(',
        forall|k: int| 0 <= k < display.len() ==> display[k] != ')',
        trim(name).len() > 0,
    ensures
        crate::engine::model_line(name + seq!['('] + display + seq![')'] + tail) == Some(
            ModelView {
                name: trim(name),
                display_name: trim(display),
                advanced_only: contains_seq(tail, "advanced"@),
            },
        ),
{
    reveal_strlit("advanced");
    let p = "advanced"@;
    let t = name + seq!['('] + display + seq![')'] + tail;
    assert forall|k: int| 0 <= k < name.len() implies t[k] != '(' by {
        assert(t[k] == name[k]);
    }
    assert(t[name.len() as int] == '(');
    crate::text::lemma_find_char(t, '(', name.len() as int);
    assert(t.take(name.len() as int) =~= name);
    let rest = t.skip(name.len() as int + 1);
    assert(rest =~= display + seq![')'] + tail);
    assert forall|k: int| 0 <= k < display.len() implies rest[k] != ')' by {
        assert(rest[k] == display[k]);
    }
    assert(rest[display.len() as int] == ')');
    crate::text::lemma_find_char(rest, ')', display.len() as int);
    assert(rest.take(display.len() as int) =~= display);
    let after = rest.skip(display.len() as int);
    assert(after =~= seq![')'] + tail);
    if contains_seq(after, p) {
        let i = choose|i: int| contains_at(after, p, i);
        assert(after.subrange(i, i + 8)[0] == p[0]);
        assert(i >= 1);
        assert(tail.subrange(i - 1, i - 1 + 8) =~= after.subrange(i, i + 8));
        assert(contains_at(tail, p, i - 1));
    }
    if contains_seq(tail, p) {
        let j = choose|j: int| contains_at(tail, p, j);
        assert(after.subrange(j + 1, j + 1 + 8) =~= tail.subrange(j, j + 8));
        assert(contains_at(after, p, j + 1));
    }
}

/// The package's architecture word follows the architecture alone — `arm64`
/// for ARM, `amd64` otherwise — on every system; only Windows takes a zip.
pub proof fn arch_keyword_follows_the_architecture(os: Os, arch: Arch)
    ensures
        target_keywords_spec(os, arch).1 == (if arch is Aarch64 {
            "arm64"@
        } else {
            "amd64"@
        }),
        target_keywords_spec(os, arch).1 == target_keywords_spec(Os::Linux, arch).1,
        target_keywords_spec(os, arch).2 == (os is Windows),
{
}

/// The place the engine is installed to (`bin/` and this system's executable
/// name, as `installed_cli_path` writes it) is always among the places looked
/// at, labelled as the installed copy.
pub proof fn installed_copy_is_looked_for(
    root: Seq<char>,
    env_path: Option<Seq<char>>,
    exe_dir: Option<Seq<char>>,
    os: Os,
)
    ensures
        crate::engine::cli_candidates_spec(root, env_path, exe_dir, os).contains(
            (joined_path(joined_path(root, "bin"@), exe_name_spec(os)), "内置（已安装）"@),
        ),
{
    let c = crate::engine::cli_candidates_spec(root, env_path, exe_dir, os);
    let k: int = if env_path is Some {
        1
    } else {
        0
    };
    assert(c[k] == (joined_path(joined_path(root, "bin"@), exe_name_spec(os)), "内置（已安装）"@));
}

/// The arguments at `k` and `k + 1` are `flag` and `value`.
pub open spec fn pair_at(args: Seq<Seq<char>>, k: int, flag: Seq<char>, value: Seq<char>) -> bool {
    0 <= k && k + 1 < args.len() && args[k] == flag && args[k + 1] == value
}

/// Each global option is handed over on its own, whatever the others are: the
/// cookie file first, then a non-blank proxy (trimmed), then the account index;
/// nothing else is passed.
pub proof fn each_global_option_is_handed_over(
    cookies: Option<Seq<char>>,
    proxy: Option<Seq<char>>,
    account_index: Option<u32>,
)
    ensures
        ({
            let a = global_args_spec(cookies, proxy, account_index);
            let nc: int = if cookies is Some {
                2
            } else {
                0
            };
            let np: int = if proxy matches Some(p) && trim(p).len() > 0 {
                2
            } else {
                0
            };
            let ni: int = if account_index is Some {
                2
            } else {
                0
            };
            &&& a.len() == nc + np + ni
            &&& cookies matches Some(c) ==> pair_at(a, 0, "--cookies-json"@, c)
            &&& (proxy matches Some(p) && trim(p).len() > 0) ==> pair_at(
                a,
                nc,
                "--proxy"@,
                trim(proxy->0),
            )
            &&& account_index matches Some(i) ==> pair_at(
                a,
                nc + np,
                "--account-index"@,
                decimal(i as int),
            )
        }),
{
}

/// Why a run failed is told by what the engine said: its standard error when
/// it wrote any, else its standard output, and only when both are blank the
/// exit code.
pub proof fn failure_detail_prefers_what_the_engine_said(stdout: Seq<char>, stderr: Seq<char>, code: int)
    ensures
        trim(stderr).len() > 0 ==> failure_detail(stdout, stderr, code) == trim(stderr),
        trim(stderr).len() == 0 && trim(stdout).len() > 0 ==> failure_detail(stdout, stderr, code)
            == trim(stdout),
        trim(stderr).len() == 0 && trim(stdout).len() == 0 ==> failure_detail(stdout, stderr, code)
            == "exit code "@ + decimal(code),
{
}

proof fn lemma_first_true_found(v: Seq<bool>)
    ensures
        crate::engine::first_true(v) matches Some(i) ==> 0 <= i < v.len() && v[i] && forall|j: int|
            0 <= j < i ==> !v[j],
        crate::engine::first_true(v) is None ==> forall|j: int| 0 <= j < v.len() ==> !v[j],
    decreases v.len(),
{
    if v.len() > 0 && !v[0] {
        lemma_first_true_found(v.drop_first());
        assert forall|j: int| 0 < j < v.len() implies v[j] == v.drop_first()[j - 1] by {}
    }
}

/// Without a path set by hand, the engine used is the first place looked at
/// that exists — none before it exists — or, when none exists, the hit on
/// `PATH`; it is reported missing only when nothing was found at all.
pub proof fn first_existing_place_wins(
    explicit: Option<Seq<char>>,
    explicit_exists: bool,
    candidates: Seq<(Seq<char>, Seq<char>)>,
    exists: Seq<bool>,
    on_path: Option<Seq<char>>,
)
    requires
        explicit_spec(explicit) is None,
        exists.len() == candidates.len(),
    ensures
        match resolve_spec(explicit, explicit_exists, candidates, exists, on_path) {
            CliPickView::Use { path, source } => (exists|i: int|
                0 <= i < exists.len() && #[trigger] exists[i] && (forall|j: int|
                    0 <= j < i ==> !exists[j]) && candidates[i] == (path, source)) || ((forall|j: int|
                0 <= j < exists.len() ==> !exists[j]) && on_path == Some(path) && source == "PATH"@),
            CliPickView::Missing(st) => !st.found && on_path is None && forall|j: int|
                0 <= j < exists.len() ==> !exists[j],
        },
{
    lemma_first_true_found(exists);
    if let Some(i) = crate::engine::first_true(exists) {
        assert(exists[i]);
    }
}

/// On `PATH`, every non-empty entry is looked at, with the executable's name
/// joined to it, and nothing else is.
pub proof fn every_path_entry_is_looked_at(dirs: Seq<Seq<char>>, exe: Seq<char>)
    ensures
        forall|k: int|
            0 <= k < crate::engine::path_dirs(dirs, exe).len() ==> exists|j: int|
                0 <= j < dirs.len() && dirs[j].len() > 0 && #[trigger] crate::engine::path_dirs(
                    dirs,
                    exe,
                )[k] == joined_path(dirs[j], exe),
        forall|j: int|
            0 <= j < dirs.len() && dirs[j].len() > 0 ==> crate::engine::path_dirs(dirs, exe).contains(
                joined_path(#[trigger] dirs[j], exe),
            ),
    decreases dirs.len(),
{
    if dirs.len() > 0 {
        let init = dirs.drop_last();
        every_path_entry_is_looked_at(init, exe);
        let r = crate::engine::path_dirs(init, exe);
        let all = crate::engine::path_dirs(dirs, exe);
        assert forall|k: int| 0 <= k < all.len() implies exists|j: int|
            0 <= j < dirs.len() && dirs[j].len() > 0 && #[trigger] all[k] == joined_path(dirs[j], exe) by {
            if k < r.len() {
                assert(all[k] == r[k]);
                let j = choose|j: int| 0 <= j < init.len() && init[j].len() > 0 && r[k] == joined_path(init[j], exe);
                assert(dirs[j] == init[j]);
            } else {
                assert(all[k] == joined_path(dirs.last(), exe));
                assert(dirs[dirs.len() - 1] == dirs.last());
            }
        }
        assert forall|j: int| 0 <= j < dirs.len() && dirs[j].len() > 0 implies all.contains(
            joined_path(#[trigger] dirs[j], exe),
        ) by {
            if j < init.len() {
                assert(init[j] == dirs[j]);
                assert(r.contains(joined_path(init[j], exe)));
                let k = choose|k: int| 0 <= k < r.len() && r[k] == joined_path(init[j], exe);
                assert(all[k] == r[k]);
            } else {
                assert(all[r.len() as int] == joined_path(dirs.last(), exe));
            }
        }
    }
}

/// Each non-blank line the engine writes while working becomes one progress
/// event with that line, trimmed, as its message: an upload event for the
/// lines about uploads, a generation event for the others.
pub proof fn engine_lines_become_progress(line: Seq<char>)
    ensures
        crate::commands::stderr_progress_spec(line) is None <==> trim(line).len() == 0,
        crate::commands::stderr_progress_spec(line) matches Some(e) ==> e.1 == trim(line) && (e.0
            == "upload"@ || e.0 == "generate"@) && (e.0 == "upload"@ <==> (starts_with(
            trim(line),
            "Uploading"@,
        ) || starts_with(trim(line), "Uploaded"@))),
{
    reveal_strlit("upload");
    reveal_strlit("generate");
    assert("generate"@.len() != "upload"@.len());
    assert("generate"@ != "upload"@);
}

/// Inside the model list, a model line that is no other kind of line adds its
/// model at the end and leaves everything else, the list included, as it was.
pub proof fn listed_model_is_kept(st: crate::engine::StatusScan, line: Seq<char>)
    requires
        st.in_models,
        crate::engine::model_line(trim(line)) is Some,
        !starts_with(trim(line), "Init:"@),
        !starts_with(trim(line), "User:"@),
        !starts_with(trim(line), "Account status:"@),
        !starts_with(trim(line), "Available models"@),
        !starts_with(trim(line), "=== "@),
    ensures
        status_step(st, line) == (crate::engine::StatusScan {
            models: st.models.push(crate::engine::model_line(trim(line))->0),
            ..st
        }),
{
    let t = trim(line);
    crate::text::lemma_find_char_found(t, '(');
    assert(t.len() > 0);
}

/// Outside the model list, no line adds a model.
pub proof fn no_model_outside_the_list(st: crate::engine::StatusScan, line: Seq<char>)
    requires
        !st.in_models,
    ensures
        status_step(st, line).models == st.models,
{
}

/// An `Init:` line whose value starts with `OK` means signed in; any other
/// value keeps the sign-in state and becomes the message. A reason written as
/// `FAILED — <reason>` is the reason alone.
pub proof fn init_line_tells_the_sign_in(
    st: crate::engine::StatusScan,
    line: Seq<char>,
    rest: Seq<char>,
    reason: Seq<char>,
)
    ensures
        trim(line) == "Init:"@ + rest && starts_with(trim(rest), "OK"@) ==> status_step(
            st,
            line,
        ).logged_in && status_step(st, line).message == "已登录"@,
        trim(line) == "Init:"@ + rest && !starts_with(trim(rest), "OK"@) ==> status_step(
            st,
            line,
        ).logged_in == st.logged_in && status_step(st, line).message
            == crate::engine::failure_reason(trim(rest)),
        trim(reason) == reason ==> crate::engine::failure_reason("FAILED — "@ + reason) == reason,
{
    reveal_strlit("Init:");
    reveal_strlit("FAILED — ");
    reveal_strlit("FAILED —");
    reveal_strlit("FAILED -");
    let t = trim(line);
    if t == "Init:"@ + rest {
        assert(t.take(5) =~= "Init:"@);
        assert(t.skip(5) =~= rest);
    }
    if trim(reason) == reason {
        let s = "FAILED — "@ + reason;
        let p1 = "FAILED —"@;
        assert(s.take(8) =~= p1);
        let s1 = s.skip(8);
        assert(s1 =~= seq![' '] + reason);
        assert(!starts_with(s1, p1)) by {
            if starts_with(s1, p1) {
                assert(s1.take(8)[0] == p1[0]);
            }
        }
        assert(crate::text::trim_start_matches(s1, p1) == s1);
        assert(crate::text::trim_start_matches(s, p1) == s1);
        assert(!starts_with(s1, "FAILED -"@)) by {
            if starts_with(s1, "FAILED -"@) {
                assert(s1.take(8)[0] == "FAILED -"@[0]);
            }
        }
        assert(crate::text::trim_start_matches(s1, "FAILED -"@) == s1);
        assert(s1.drop_first() =~= reason);
        assert(trim_start(s1) == trim_start(reason));
    }
}

/// A `Chat ID:` line (after the answer) gives the chat id, trimmed, and closes
/// any list; the images stay as they were.
pub proof fn chat_id_line_sets_the_chat(st: AskScan, line: Seq<char>, rest: Seq<char>)
    requires
        trim_start(trim_end(line)) == "Chat ID:"@ + rest,
    ensures
        ask_step(st, line) == (AskScan { chat_id: Some(trim(rest)), images: st.images, section: None }),
{
    reveal_strlit("Chat ID:");
    let u = trim_start(trim_end(line));
    assert(u.take(8) =~= "Chat ID:"@);
    assert(u.skip(8) =~= rest);
}

/// A heading line opens its list (`Images:`, `Generated images:`), opens a
/// list whose lines are skipped (`Generated videos:`, `Generated media:`), or
/// closes the list (`---`); the images and the chat id stay as they were.
pub proof fn heading_line_switches_the_list(st: AskScan, line: Seq<char>)
    requires
        trim(line) == "---"@ || trim(line) == "Images:"@ || trim(line) == "Generated images:"@
            || trim(line) == "Generated videos:"@ || trim(line) == "Generated media:"@,
    ensures
        ask_step(st, line).images == st.images,
        ask_step(st, line).chat_id == st.chat_id,
        ask_step(st, line).section == (if trim(line) == "---"@ {
            None
        } else if trim(line) == "Images:"@ {
            Some(Section::Web)
        } else if trim(line) == "Generated images:"@ {
            Some(Section::Generated)
        } else {
            Some(Section::Other)
        }),
        trim(line) == "Images:"@ || trim(line) == "Generated images:"@ ==> keeps_images(
            ask_step(st, line).section,
        ),
        trim(line) == "Generated videos:"@ || trim(line) == "Generated media:"@ ==> !keeps_images(
            ask_step(st, line).section,
        ),
{
    reveal_strlit("---");
    reveal_strlit("Images:");
    reveal_strlit("Generated images:");
    reveal_strlit("Generated videos:");
    reveal_strlit("Generated media:");
    reveal_strlit("Chat ID:");
    let t = trim_end(line);
    let tt = trim(line);
    // Trimming the end first changes nothing of the trimmed line.
    lemma_trim_start_idem(line);
    lemma_trim_end_idem(t);
    lemma_trim_end_start_commute(line);
    assert(trim(t) == tt);
    let s0 = trim_start(t);
    lemma_trim_shapes(s0);
    assert(tt == s0.take(tt.len() as int));
    assert(tt.len() > 0);
    assert(s0[0] == tt[0]);
    if starts_with(s0, "Chat ID:"@) {
        assert(s0.take(8)[0] == 'C');
        assert(tt[0] != 'C');
        assert(false);
    }
    if tt == "Generated videos:"@ {
        assert(tt[10] == 'v');
        assert("Generated images:"@[10] == 'i');
        assert(tt != "Generated images:"@);
    }
}

proof fn lemma_trim_end_start_commute(s: Seq<char>)
    ensures
        trim_end(trim_start(trim_end(s))) == trim_end(trim_start(s)),
    decreases s.len(),
{
    if s.len() > 0 && is_ws(s.last()) {
        lemma_trim_end_start_commute(s.drop_last());
        // trim_start(s) and trim_start(s.drop_last()) differ at most by the
        // last, white, character.
        lemma_trim_start_drop_last(s);
    }
}

proof fn lemma_trim_start_drop_last(s: Seq<char>)
    requires
        s.len() > 0,
        is_ws(s.last()),
    ensures
        trim_end(trim_start(s)) == trim_end(trim_start(s.drop_last())),
    decreases s.len(),
{
    if is_ws(s[0]) {
        if s.len() == 1 {
            assert(s.drop_first() =~= Seq::<char>::empty());
            assert(s.drop_last() =~= Seq::<char>::empty());
        } else {
            assert(s.drop_first().drop_last() =~= s.drop_last().drop_first());
            lemma_trim_start_drop_last(s.drop_first());
        }
    } else {
        assert(trim_start(s) == s);
        assert(s.drop_last().len() == 0 || s.drop_last()[0] == s[0]);
        assert(trim_start(s.drop_last()) == s.drop_last());
    }
}

/// `User:` and `Account status:` lines give the user and the tier, trimmed,
/// and close the model list; nothing else changes.
pub proof fn user_and_tier_lines(st: crate::engine::StatusScan, line: Seq<char>, rest: Seq<char>)
    ensures
        trim(line) == "User:"@ + rest ==> status_step(st, line) == (crate::engine::StatusScan {
            user: Some(trim(rest)),
            in_models: false,
            ..st
        }),
        trim(line) == "Account status:"@ + rest ==> status_step(st, line) == (
        crate::engine::StatusScan { tier: Some(trim(rest)), in_models: false, ..st }),
{
    reveal_strlit("Init:");
    reveal_strlit("User:");
    reveal_strlit("Account status:");
    let t = trim(line);
    if t == "User:"@ + rest {
        assert(t.take(5) =~= "User:"@);
        assert(t.skip(5) =~= rest);
        if starts_with(t, "Init:"@) {
            assert(t.take(5)[0] == 'I');
        }
    }
    if t == "Account status:"@ + rest {
        assert(t.take(15) =~= "Account status:"@);
        assert(t.skip(15) =~= rest);
        if starts_with(t, "Init:"@) {
            assert(t.take(5)[0] == 'I');
        }
        if starts_with(t, "User:"@) {
            assert(t.take(5)[0] == 'U');
        }
    }
}

/// A generation without an imported login stops at once with its message and
/// never runs the engine; with one, the engine is run next.
pub proof fn no_login_no_generation(has: bool)
    ensures
        gen_step(PhaseView::Start, EventView::Cookies(has)) == (if has {
            (PhaseView::Asking, ActionView::Ask)
        } else {
            (PhaseView::Over, ActionView::Fail("还没有导入 Cookie，请先在设置里导入"@))
        }),
{
}

/// An answer without images stops the generation with the message about it;
/// an answer with images starts downloading the first of them.
pub proof fn answer_decides_the_downloads(images: nat, text: Seq<char>, chat_id: Option<Seq<char>>)
    ensures
        images == 0 ==> gen_step(PhaseView::Asking, EventView::Answered { images, text, chat_id })
            == (PhaseView::Over, ActionView::Fail(crate::commands::no_images_spec(text))),
        images > 0 ==> (gen_step(PhaseView::Asking, EventView::Answered { images, text, chat_id }).1
            matches ActionView::Download { index, .. } && index == 0),
{
}

/// A finished generation stays finished, whatever is reported after.
pub proof fn finished_generation_stays_finished(e: EventView)
    ensures
        gen_step(PhaseView::Over, e) == (PhaseView::Over, ActionView::Ignore),
{
}

/// Before the engine runs, the task is told it is ready, then — only when
/// there are reference images — how many are uploaded, then that generating
/// began; every event is for the task.
pub proof fn opening_events_in_order(task_id: Seq<char>, n_refs: nat)
    ensures
        ({
            let ev = crate::commands::opening_events_spec(task_id, n_refs);
            &&& ev.len() == (if n_refs > 0 {
                3int
            } else {
                2int
            })
            &&& ev[0].1 == "prepare"@
            &&& ev.last().1 == "generate"@
            &&& n_refs > 0 ==> ev[1] == (task_id, "upload"@, "上传 "@ + digits(n_refs, 10)
                + " 张参考图…"@)
            &&& forall|k: int| 0 <= k < ev.len() ==> (#[trigger] ev[k]).0 == task_id
        }),
{
}

proof fn lemma_trim_start_past_ws(w: Seq<char>, x: Seq<char>)
    requires
        forall|k: int| 0 <= k < w.len() ==> is_ws(#[trigger] w[k]),
    ensures
        trim_start(w + x) == trim_start(x),
    decreases w.len(),
{
    if w.len() > 0 {
        assert((w + x)[0] == w[0]);
        assert((w + x).drop_first() =~= w.drop_first() + x);
        assert forall|k: int| 0 <= k < w.drop_first().len() implies is_ws(#[trigger] w.drop_first()[k]) by {
            assert(w.drop_first()[k] == w[k + 1]);
        }
        lemma_trim_start_past_ws(w.drop_first(), x);
    } else {
        assert(w + x =~= x);
    }
}

proof fn lemma_trim_end_keeps(s: Seq<char>, i: int)
    requires
        0 <= i < s.len(),
        !is_ws(s[i]),
    ensures
        trim_end(s).len() > i,
        trim_end(s) == s.take(trim_end(s).len() as int),
    decreases s.len(),
{
    lemma_trim_shapes(s);
    if is_ws(s.last()) {
        assert(i < s.len() - 1);
        assert(s.drop_last()[i] == s[i]);
        lemma_trim_end_keeps(s.drop_last(), i);
    }
}

/// An indexed line — white space, a number, `)`, white space, the URL, and
/// either nothing or white space and a title — gives exactly its URL, whatever
/// the title says.
pub proof fn indexed_line_gives_its_url(
    lead: Seq<char>,
    num: Seq<char>,
    gap: Seq<char>,
    url: Seq<char>,
    title: Seq<char>,
)
    requires
        forall|k: int| 0 <= k < lead.len() ==> is_ws(#[trigger] lead[k]),
        forall|k: int| 0 <= k < gap.len() ==> is_ws(#[trigger] gap[k]),
        num.len() > 0,
        crate::engine::all_digits(num),
        listed_url(url),
        title.len() == 0 || is_ws(title[0]),
    ensures
        indexed_url(lead + num + seq![')'] + gap + url + title) == Some(url),
{
    reveal_strlit("http");
    let line = lead + num + seq![')'] + gap + url + title;
    let m = num + seq![')'] + gap + url + title;
    assert(line =~= lead + m);
    lemma_trim_start_past_ws(lead, m);
    assert(m[0] == num[0]);
    assert(is_digit(num[0]));
    assert(trim_start(m) == m);
    let t = trim(line);
    assert(t == trim_end(m));
    assert(url.take(4)[0] == url[0]);
    let last = num.len() + 1 + gap.len() + url.len() - 1;
    assert(m[last] == url[url.len() - 1]);
    lemma_trim_end_keeps(m, last);
    lemma_trim_shapes(m);
    assert(t.len() > last);
    assert(t == m.take(t.len() as int));
    assert forall|k: int| 0 <= k < t.len() implies t[k] == m[k] by {
        assert(m.take(t.len() as int)[k] == m[k]);
    }
    assert(t[num.len() as int] == m[num.len() as int]);
    assert forall|k: int| 0 <= k < num.len() implies t[k] != ')' by {
        assert(t[k] == m[k]);
        assert(m[k] == num[k]);
        assert(is_digit(num[k]));
    }
    assert(t[num.len() as int] == ')');
    crate::text::lemma_find_char(t, ')', num.len() as int);
    assert(t.take(num.len() as int) =~= num);
    let a = t.skip(num.len() as int + 1);
    let rest = (gap + url + title).take(a.len() as int);
    assert(a =~= rest);
    let ut = url + title.take(a.len() - gap.len() - url.len());
    assert(rest =~= gap + ut);
    lemma_trim_start_past_ws(gap, ut);
    assert(ut[0] == url[0]);
    assert(trim_start(ut) == ut);
    let ta = trim(a);
    assert(ta == trim_end(ut));
    assert(ut[url.len() - 1] == url[url.len() - 1]);
    lemma_trim_end_keeps(ut, url.len() - 1);
    lemma_trim_shapes(ut);
    assert(ta.len() >= url.len());
    assert(ta[0] == url[0]);
    assert(trim_start(ta) == ta);
    assert forall|k: int| 0 <= k < url.len() implies !is_ws(ta[k]) by {
        assert(ta[k] == ut[k]);
        assert(ut[k] == url[k]);
    }
    if url.len() < ta.len() {
        assert(ta[url.len() as int] == ut[url.len() as int]);
        assert(ut[url.len() as int] == title[0]);
    }
    crate::text::lemma_word_len(ta, url.len() as int);
    assert(ta.take(url.len() as int) =~= url);
    assert(first_word(ta) == Some(url));
}

/// An asset's download URL, when it has one.
pub open spec fn asset_url(a: JsonValue) -> Option<Seq<char>> {
    crate::json::json_str(crate::json::json_get(a, "browser_download_url"@))
}

proof fn lemma_exact_fits(os_kw: Seq<char>, arch_kw: Seq<char>, ext: Seq<char>)
    ensures
        ends_with(exact_name(os_kw, arch_kw, ext), ext),
        contains_seq(exact_name(os_kw, arch_kw, ext), os_kw),
{
    reveal_strlit("gemini-web-cli-");
    reveal_strlit("-");
    let e = exact_name(os_kw, arch_kw, ext);
    assert(e.skip(e.len() - ext.len()) =~= ext);
    assert(e.subrange(15, 15 + os_kw.len() as int) =~= os_kw);
    assert(contains_at(e, os_kw, 15));
}

proof fn lemma_asset_exact(assets: Seq<JsonValue>, os_kw: Seq<char>, arch_kw: Seq<char>, ext: Seq<char>)
    ensures
        ({
            let sc = asset_scan(assets, os_kw, arch_kw, ext);
            let ex = exact_name(os_kw, arch_kw, ext);
            &&& sc.done ==> (sc.pick matches Some(p) && p.0 == ex)
            &&& (exists|j: int|
                0 <= j < assets.len() && asset_name(#[trigger] assets[j]) == ex && asset_url(
                    assets[j],
                ) is Some) ==> sc.done
            &&& sc.pick matches Some(p) ==> exists|j: int|
                0 <= j < assets.len() && asset_name(#[trigger] assets[j]) == p.0 && asset_url(
                    assets[j],
                ) == Some(p.1)
        }),
    decreases assets.len(),
{
    lemma_exact_fits(os_kw, arch_kw, ext);
    if assets.len() > 0 {
        let init = assets.drop_last();
        lemma_asset_exact(init, os_kw, arch_kw, ext);
        let ex = exact_name(os_kw, arch_kw, ext);
        let prev = asset_scan(init, os_kw, arch_kw, ext);
        let sc = asset_scan(assets, os_kw, arch_kw, ext);
        let a = assets.last();
        assert(sc == crate::engine::asset_step(prev, a, os_kw, arch_kw, ext));
        if exists|j: int|
            0 <= j < assets.len() && asset_name(#[trigger] assets[j]) == ex && asset_url(assets[j]) is Some {
            let j = choose|j: int|
                0 <= j < assets.len() && asset_name(#[trigger] assets[j]) == ex && asset_url(
                    assets[j],
                ) is Some;
            if j < init.len() {
                assert(init[j] == assets[j]);
                assert(prev.done);
            } else {
                assert(assets[j] == a);
            }
        }
        if sc.pick != prev.pick {
            assert(assets[assets.len() - 1] == a);
        } else if let Some(p) = prev.pick {
            let j = choose|j: int|
                0 <= j < init.len() && asset_name(#[trigger] init[j]) == p.0 && asset_url(init[j])
                    == Some(p.1);
            assert(init[j] == assets[j]);
        }
    }
}

/// The release package chosen is one of the release's assets, with its own
/// download URL; and when the release has the package named exactly for this
/// platform (with a URL), that is the one chosen.
pub proof fn exact_package_is_preferred(body: JsonValue, os: Os, arch: Arch)
    ensures
        ({
            let (os_kw, arch_kw, is_zip) = target_keywords_spec(os, arch);
            let assets = crate::json::json_items(crate::json::json_get(body, "assets"@));
            let ex = exact_name(os_kw, arch_kw, package_ext(is_zip));
            &&& pick_asset_spec(body, os, arch) matches Some(p) ==> exists|j: int|
                0 <= j < assets.len() && asset_name(#[trigger] assets[j]) == p.0 && asset_url(
                    assets[j],
                ) == Some(p.1)
            &&& (exists|j: int|
                0 <= j < assets.len() && asset_name(#[trigger] assets[j]) == ex && asset_url(
                    assets[j],
                ) is Some) ==> (pick_asset_spec(body, os, arch) matches Some(p) && p.0 == ex)
        }),
{
    let (os_kw, arch_kw, is_zip) = target_keywords_spec(os, arch);
    lemma_asset_exact(
        crate::json::json_items(crate::json::json_get(body, "assets"@)),
        os_kw,
        arch_kw,
        package_ext(is_zip),
    );
}

/// A login is a non-empty `__Secure-1PSID` string in the cookie table: the
/// `cookies` member when the document has one (the top level is then not
/// looked at), else the document itself.
pub proof fn login_is_the_secure_1psid_cookie(doc: JsonValue)
    ensures
        crate::json::json_get(doc, "cookies"@) matches Some(t) ==> (crate::commands::has_cookies_spec(
            Some(doc),
        ) == (crate::json::json_str(crate::json::json_get(t, "__Secure-1PSID"@)) matches Some(v)
            && v.len() > 0)),
        crate::json::json_get(doc, "cookies"@) is None ==> crate::commands::has_cookies_spec(
            Some(doc),
        ) == (crate::json::json_str(crate::json::json_get(doc, "__Secure-1PSID"@)) matches Some(v)
            && v.len() > 0),
        !crate::commands::has_cookies_spec(None),
{
}

/// The executable is the content of the first entry named like it, provided
/// every entry before it could be read; entries after it do not matter.
pub proof fn first_executable_entry_is_taken(
    before: Seq<crate::archive::ItemView>,
    name: Seq<char>,
    data: Seq<u8>,
    after: Seq<crate::archive::ItemView>,
    os: Os,
)
    requires
        forall|k: int|
            0 <= k < before.len() ==> ((#[trigger] before[k]) matches Some(e)
                && !crate::engine::is_cli_entry_spec(e.0, os)),
        crate::engine::is_cli_entry_spec(name, os),
    ensures
        crate::archive::search(
            before + seq![Some((name, Some(data)))] + after,
            os,
        ) == crate::archive::SearchView::Found(data),
    decreases before.len(),
{
    let items = before + seq![Some((name, Some(data)))] + after;
    if before.len() == 0 {
        assert(items[0] == Some((name, Some(data))));
    } else {
        assert(items[0] == before[0]);
        assert(items.drop_first() =~= before.drop_first() + seq![Some((name, Some(data)))] + after);
        assert forall|k: int| 0 <= k < before.drop_first().len() implies ((#[trigger] before.drop_first()[k]) matches Some(e)
            && !crate::engine::is_cli_entry_spec(e.0, os)) by {
            assert(before.drop_first()[k] == before[k + 1]);
        }
        first_executable_entry_is_taken(before.drop_first(), name, data, after, os);
    }
}

/// An entry is the executable when its path ends in the system's executable
/// name, or in `gemini-web-cli` on any system.
pub proof fn executable_entry_names(dir: Seq<char>, os: Os)
    ensures
        crate::engine::is_cli_entry_spec(dir + exe_name_spec(os), os),
        crate::engine::is_cli_entry_spec(dir + "gemini-web-cli"@, os),
{
    let a = dir + exe_name_spec(os);
    let b = dir + "gemini-web-cli"@;
    assert(a.skip(a.len() - exe_name_spec(os).len()) =~= exe_name_spec(os));
    assert(b.skip(b.len() - "gemini-web-cli"@.len()) =~= "gemini-web-cli"@);
}

proof fn lemma_split_last(x: Seq<char>, c: char, rest: Seq<char>)
    requires
        forall|k: int| 0 <= k < rest.len() ==> rest[k] != c,
    ensures
        crate::text::split_char(x + seq![c] + rest, c).last() == rest,
    decreases x.len(),
{
    let s = x + seq![c] + rest;
    crate::text::lemma_find_char_found(s, c);
    assert(s[x.len() as int] == c);
    assert(crate::text::find_char(s, c) is Some);
    let i = crate::text::find_char(s, c)->0;
    crate::text::lemma_find_char_found(rest, c);
    assert(crate::text::find_char(rest, c) is None);
    assert(crate::text::split_char(rest, c) == seq![rest]);
    if i < x.len() {
        assert(s[i] == x[i]);
        assert(s.skip(i + 1) =~= x.skip(i + 1) + seq![c] + rest);
        lemma_split_last(x.skip(i + 1), c, rest);
    } else {
        if i > x.len() {
            assert(s[x.len() as int] == c);
            assert(false);
        }
        assert(s.skip(i + 1) =~= rest);
    }
}

/// A reference image sent as a data URL hands over what follows its last
/// comma, trimmed; one sent as bare Base64 (no comma) is taken whole, trimmed.
pub proof fn data_url_payload(head: Seq<char>, body: Seq<char>)
    requires
        forall|k: int| 0 <= k < body.len() ==> body[k] != ',',
    ensures
        crate::commands::ref_payload_spec(head + seq![','] + body) == trim(body),
        crate::commands::ref_payload_spec(body) == trim(body),
{
    lemma_split_last(head, ',', body);
    crate::text::lemma_find_char_found(body, ',');
    assert(crate::text::split_char(body, ',') == seq![body]);
}

/// A failed `--version` run, or one that printed nothing, gives no version.
pub proof fn no_version_without_output(success: bool, stdout: Seq<char>)
    ensures
        !success ==> version_spec(success, stdout) is None,
        trim(stdout).len() == 0 ==> version_spec(success, stdout) is None,
{
}

proof fn lemma_digit_char_injective(d: nat, e: nat)
    requires
        d < 10,
        e < 10,
        crate::text::digit_char(d) == crate::text::digit_char(e),
    ensures
        d == e,
{
}

proof fn lemma_digits_injective(a: nat, b: nat)
    requires
        digits(a, 10) == digits(b, 10),
    ensures
        a == b,
    decreases a,
{
    lemma_decimal_digits(a);
    lemma_decimal_digits(b);
    if a < 10 && b < 10 {
        assert(digits(a, 10) == seq![crate::text::digit_char(a)]);
        assert(digits(b, 10) == seq![crate::text::digit_char(b)]);
        let ca = crate::text::digit_char(a);
        let cb = crate::text::digit_char(b);
        assert(seq![ca][0] == ca);
        assert(seq![cb][0] == cb);
        assert(ca == cb);
        lemma_digit_char_injective(a, b);
    } else if a < 10 {
        assert(b / 10 < b);
        lemma_decimal_digits(b / 10);
        assert(digits(b, 10).len() >= 2);
    } else if b < 10 {
        assert(a / 10 < a);
        lemma_decimal_digits(a / 10);
        assert(digits(a, 10).len() >= 2);
    } else {
        let da = digits(a, 10);
        let db = digits(b, 10);
        assert(da.last() == db.last());
        assert(a % 10 < 10 && b % 10 < 10);
        assert(da.last() == crate::text::digit_char(a % 10));
        assert(db.last() == crate::text::digit_char(b % 10));
        lemma_digit_char_injective(a % 10, b % 10);
        assert(da.drop_last() =~= digits(a / 10, 10));
        assert(db.drop_last() =~= digits(b / 10, 10));
        assert(a / 10 < a);
        lemma_digits_injective(a / 10, b / 10);
        assert(a == 10 * (a / 10) + a % 10);
        assert(b == 10 * (b / 10) + b % 10);
    }
}

/// Each image of a generation is saved under its own file name: the names of
/// two different images differ, and every name is the stem, the time, the
/// image's number and `.png`.
pub proof fn result_files_are_distinct(stem: Seq<char>, now: int, i: nat, j: nat)
    ensures
        i != j ==> crate::commands::result_file_spec(stem, now, i) != crate::commands::result_file_spec(
            stem,
            now,
            j,
        ),
        ends_with(crate::commands::result_file_spec(stem, now, i), ".png"@),
        starts_with(crate::commands::result_file_spec(stem, now, i), stem + "-"@),
{
    reveal_strlit(".png");
    reveal_strlit("-");
    let head = stem + "-"@ + decimal(now) + "-"@;
    let a = crate::commands::result_file_spec(stem, now, i);
    let b = crate::commands::result_file_spec(stem, now, j);
    assert(a =~= head + digits(i + 1, 10) + ".png"@);
    assert(b =~= head + digits(j + 1, 10) + ".png"@);
    if i != j && a == b {
        assert(digits(i + 1, 10).len() == digits(j + 1, 10).len());
        assert(a.subrange(head.len() as int, head.len() + digits(i + 1, 10).len() as int) =~= digits(
            i + 1,
            10,
        ));
        assert(b.subrange(head.len() as int, head.len() + digits(j + 1, 10).len() as int) =~= digits(
            j + 1,
            10,
        ));
        lemma_digits_injective(i + 1, j + 1);
    }
    assert(a.skip(a.len() - 4) =~= ".png"@);
    assert(a.take((stem + "-"@).len() as int) =~= stem + "-"@);
}

/// Outside a kept list (before any heading, or under `Generated videos:` /
/// `Generated media:`), an indexed line changes nothing.
pub proof fn indexed_line_outside_a_list_is_skipped(st: AskScan, line: Seq<char>)
    requires
        !keeps_images(st.section),
        indexed_url(trim_end(line)) is Some,
    ensures
        ask_step(st, line) == st,
{
    lemma_indexed_line_is_no_heading(line);
}

/// `Available models` opens the model list; inside it, a blank line or a
/// `=== ` line closes it without adding a model.
pub proof fn model_list_opens_and_closes(st: crate::engine::StatusScan, line: Seq<char>)
    ensures
        starts_with(trim(line), "Available models"@) ==> status_step(st, line) == (
        crate::engine::StatusScan { in_models: true, ..st }),
        st.in_models && (trim(line).len() == 0 || starts_with(trim(line), "=== "@)) ==> status_step(
            st,
            line,
        ) == (crate::engine::StatusScan { in_models: false, ..st }),
{
    reveal_strlit("Init:");
    reveal_strlit("User:");
    reveal_strlit("Account status:");
    reveal_strlit("Available models");
    reveal_strlit("=== ");
    let t = trim(line);
    if starts_with(t, "Init:"@) {
        assert(t.take(5)[0] == 'I');
        if starts_with(t, "Available models"@) {
            assert(t.take(16)[0] == 'A');
        }
        if starts_with(t, "=== "@) {
            assert(t.take(4)[0] == '=');
        }
    }
    if starts_with(t, "User:"@) {
        assert(t.take(5)[0] == 'U');
        if starts_with(t, "Available models"@) {
            assert(t.take(16)[0] == 'A');
        }
        if starts_with(t, "=== "@) {
            assert(t.take(4)[0] == '=');
        }
    }
    if starts_with(t, "Account status:"@) {
        assert(t.take(15)[8] == 's');
        if starts_with(t, "Available models"@) {
            assert(t.take(16)[8] == 'm');
        }
        if starts_with(t, "=== "@) {
            assert(t.take(4)[0] == '=');
        }
    }
    if starts_with(t, "Available models"@) && starts_with(t, "=== "@) {
        assert(t.take(4)[0] == '=');
        assert(t.take(16)[0] == 'A');
    }
}

/// Downloads go one image after the other: after image `next` ends, well or
/// not, image `next + 1` is downloaded if there is one, and otherwise the
/// generation finishes.
pub proof fn downloads_go_in_order(
    next: nat,
    count: nat,
    chat_id: Option<Seq<char>>,
    ok: Seq<bool>,
    err: Option<Seq<char>>,
)
    requires
        next < count,
    ensures
        ({
            let r = gen_step(
                PhaseView::Downloading { next, count, chat_id, ok },
                EventView::Downloaded(err),
            );
            &&& next + 1 < count ==> (r.1 matches ActionView::Download { index, .. } && index == next
                + 1)
            &&& next + 1 == count ==> (r.0 == PhaseView::Over && r.1 is Finish)
        }),
{
}

} // verus!
