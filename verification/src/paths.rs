//! Layout of the app's data directory:
//! `config.json`, `tasks.json`, `cookies.json`, `refs/`, `output/` and `bin/`.

use vstd::prelude::*;

use crate::text::{chars_of, trim, trim_of};

verus! {

/// What `Path::join` gives for `base` and `part`, as text.
pub uninterp spec fn joined_path(base: Seq<char>, part: Seq<char>) -> Seq<char>;

/// `std::path::Path::join` of `base` and `part`, read back as a string. The
/// contract names the result and claims nothing of its shape: whether a
/// separator is added, and which, is left to the platform's rules.
#[verifier::external_body]
pub(crate) fn path_join(base: &str, part: &str) -> (r: String)
    ensures
        r@ == joined_path(base@, part@),
{
    std::path::Path::new(base).join(part).to_string_lossy().into_owned()
}

/// `dirs::data_dir`: the user's data directory, which depends on the system
/// and its environment. Nothing is claimed of the value.
#[verifier::external_body]
fn user_data_dir() -> (r: Option<String>) {
    match dirs::data_dir() {
        Some(p) => Some(p.to_string_lossy().into_owned()),
        None => None,
    }
}

/// The app's data directory inside the user's data directory, or the error
/// when the system has none.
pub fn data_dir_in(base: Option<String>) -> (r: Result<String, String>)
    ensures
        match r {
            Ok(p) => base is Some && p@ == joined_path(base->0@, "gemini-draw"@),
            Err(e) => base is None && e@ == "无法确定应用数据目录"@,
        },
{
    match base {
        Some(b) => Ok(path_join(b.as_str(), "gemini-draw")),
        None => Err(String::from_str("无法确定应用数据目录")),
    }
}

/// The app's data directory: `gemini-draw` under the user's data directory
/// (`%APPDATA%` on Windows, `~/Library/Application Support` on macOS).
pub fn data_dir() -> (r: Result<String, String>)
    ensures
        match r {
            Ok(p) => exists|b: Seq<char>| p@ == joined_path(b, "gemini-draw"@),
            Err(e) => e@ == "无法确定应用数据目录"@,
        },
{
    data_dir_in(user_data_dir())
}

pub fn config_path(root: &str) -> (r: String)
    ensures
        r@ == joined_path(root@, "config.json"@),
{
    path_join(root, "config.json")
}

pub fn tasks_path(root: &str) -> (r: String)
    ensures
        r@ == joined_path(root@, "tasks.json"@),
{
    path_join(root, "tasks.json")
}

pub fn cookies_path(root: &str) -> (r: String)
    ensures
        r@ == joined_path(root@, "cookies.json"@),
{
    path_join(root, "cookies.json")
}

pub fn bin_dir(root: &str) -> (r: String)
    ensures
        r@ == joined_path(root@, "bin"@),
{
    path_join(root, "bin")
}

/// The directories that must exist: the data directory, `refs/`, `output/`
/// and `bin/`, in the order they are created.
pub fn layout_dirs(root: &str) -> (r: Vec<String>)
    ensures
        r@.len() == 4,
        r@[0]@ == root@,
        r@[1]@ == joined_path(root@, "refs"@),
        r@[2]@ == joined_path(root@, "output"@),
        r@[3]@ == joined_path(root@, "bin"@),
{
    let mut v: Vec<String> = Vec::new();
    v.push(String::from_str(root));
    v.push(path_join(root, "refs"));
    v.push(path_join(root, "output"));
    v.push(bin_dir(root));
    v
}

/// The directory holding the copies of one task's reference images.
pub fn refs_dir(root: &str, task_id: &str) -> (r: String)
    ensures
        r@ == joined_path(joined_path(root@, "refs"@), task_id@),
{
    let refs = path_join(root, "refs");
    path_join(refs.as_str(), task_id)
}

/// Where generated images go: the configured directory when it is set and not
/// blank, else `output/` under the data directory.
pub fn output_dir(root: &str, configured: Option<&str>) -> (r: String)
    ensures
        r@ == (match configured {
            Some(p) => if trim(p@).len() > 0 {
                p@
            } else {
                joined_path(root@, "output"@)
            },
            None => joined_path(root@, "output"@),
        }),
{
    match configured {
        Some(p) => {
            let chars = chars_of(p);
            if trim_of(chars.as_slice()).len() > 0 {
                return String::from_str(p);
            }
        },
        None => {},
    }
    path_join(root, "output")
}

} // verus!
