//! Configuration, tasks, and what the engine reports, with their abstract views.

use vstd::prelude::*;

verus! {

/// The view of an optional string.
pub open spec fn opt_view(o: Option<String>) -> Option<Seq<char>> {
    match o {
        Some(s) => Some(s@),
        None => None,
    }
}

/// The views of a list of strings.
pub open spec fn strings(v: Seq<String>) -> Seq<Seq<char>> {
    v.map_values(|s: String| s@)
}

/// A copy of an optional string.
pub fn clone_opt(o: &Option<String>) -> (r: Option<String>)
    ensures
        opt_view(r) == opt_view(*o),
{
    match o {
        Some(s) => Some(s.clone()),
        None => None,
    }
}

/// User settings.
#[derive(Debug, Clone)]
pub struct Config {
    /// Path of `gemini-web-cli` set by hand; looked up when absent.
    pub cli_path: Option<String>,
    /// Model name handed to `--model`.
    pub model: String,
    /// Where generated images are saved; the app's own directory when absent.
    pub output_dir: Option<String>,
    /// HTTP or SOCKS proxy.
    pub proxy: Option<String>,
    /// Account number (`/u/N`) for several signed-in accounts.
    pub account_index: Option<u32>,
}

impl Default for Config {
    fn default() -> (r: Self)
        ensures
            r.cli_path is None,
            r.model@ == "unspecified"@,
            r.output_dir is None,
            r.proxy is None,
            r.account_index is None,
    {
        Config {
            cli_path: None,
            model: String::from_str("unspecified"),
            output_dir: None,
            proxy: None,
            account_index: None,
        }
    }
}

/// A reference image stored with a task.
#[derive(Debug, Clone)]
pub struct RefImage {
    pub id: String,
    pub name: String,
    /// Path of the copy inside the app's data directory.
    pub path: String,
    pub size: u64,
}

/// An image that a generation returned.
#[derive(Debug, Clone)]
pub struct ResultImage {
    pub id: String,
    /// The URL on Google's side.
    pub url: String,
    /// Where it was downloaded to, if the download succeeded.
    pub path: Option<String>,
    pub created_at: i64,
}

/// A drawing task: prompt, reference images, and results.
#[derive(Debug, Clone)]
pub struct Task {
    pub id: String,
    pub title: String,
    pub prompt: String,
    pub model: Option<String>,
    pub refs: Vec<RefImage>,
    pub results: Vec<ResultImage>,
    pub chat_id: Option<String>,
    pub status: String,
    pub error: Option<String>,
    pub created_at: i64,
    pub updated_at: i64,
}

/// Where `gemini-web-cli` was found, if anywhere.
#[derive(Debug, Clone)]
pub struct CliStatus {
    pub found: bool,
    pub path: Option<String>,
    pub version: Option<String>,
    pub source: String,
    pub error: Option<String>,
}

pub struct CliStatusView {
    pub found: bool,
    pub path: Option<Seq<char>>,
    pub version: Option<Seq<char>>,
    pub source: Seq<char>,
    pub error: Option<Seq<char>>,
}

impl View for CliStatus {
    type V = CliStatusView;

    open spec fn view(&self) -> CliStatusView {
        CliStatusView {
            found: self.found,
            path: opt_view(self.path),
            version: opt_view(self.version),
            source: self.source@,
            error: opt_view(self.error),
        }
    }
}

/// The account as `gemini-web-cli status` reports it.
#[derive(Debug, Clone)]
pub struct AccountInfo {
    pub logged_in: bool,
    pub message: String,
    pub user: Option<String>,
    pub tier: Option<String>,
    pub models: Vec<ModelInfo>,
}

/// A model the account may use.
#[derive(Debug, Clone)]
pub struct ModelInfo {
    pub name: String,
    pub display_name: String,
    pub advanced_only: bool,
}

pub struct ModelView {
    pub name: Seq<char>,
    pub display_name: Seq<char>,
    pub advanced_only: bool,
}

impl View for ModelInfo {
    type V = ModelView;

    open spec fn view(&self) -> ModelView {
        ModelView {
            name: self.name@,
            display_name: self.display_name@,
            advanced_only: self.advanced_only,
        }
    }
}

pub struct AccountView {
    pub logged_in: bool,
    pub message: Seq<char>,
    pub user: Option<Seq<char>>,
    pub tier: Option<Seq<char>>,
    pub models: Seq<ModelView>,
}

impl View for AccountInfo {
    type V = AccountView;

    open spec fn view(&self) -> AccountView {
        AccountView {
            logged_in: self.logged_in,
            message: self.message@,
            user: opt_view(self.user),
            tier: opt_view(self.tier),
            models: self.models@.map_values(|m: ModelInfo| m@),
        }
    }
}

/// Everything the front end shows on start.
#[derive(Debug, Clone)]
pub struct AppSnapshot {
    pub app_version: String,
    pub data_dir: String,
    pub config: Config,
    pub cli: CliStatus,
    pub has_cookies: bool,
}

/// Progress of a generation, sent to the front end.
#[derive(Debug, Clone)]
pub struct ProgressEvent {
    pub task_id: String,
    pub stage: String,
    pub message: String,
}

} // verus!
