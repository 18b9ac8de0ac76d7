//! Global settings and per-application recipes.
use crate::text::{
    before_char, chars_of, eq, is_prefix, lit, push_all, string_of,
};
use vstd::prelude::*;

verus! {

/// The view of an optional string.
pub open spec fn opt_view(o: Option<String>) -> Option<Seq<char>> {
    match o {
        Some(s) => Some(s@),
        None => None,
    }
}

/// The views of a vector of strings.
pub open spec fn strings_view(v: Seq<String>) -> Seq<Seq<char>> {
    Seq::new(v.len(), |i: int| v[i]@)
}

/// Proxy URL prefix or prefixes to route GitHub API requests.
#[derive(Clone)]
pub enum GithubProxyPrefixes {
    /// A single proxy URL prefix string.
    Single(String),
    /// A list of proxy URL prefix strings tried in order.
    Multiple(Vec<String>),
}

impl GithubProxyPrefixes {
    /// The prefixes as a list, in order.
    pub open spec fn prefixes(self) -> Seq<Seq<char>> {
        match self {
            GithubProxyPrefixes::Single(p) => seq![p@],
            GithubProxyPrefixes::Multiple(ps) => strings_view(ps@),
        }
    }

    /// The prefixes as a vector.
    pub fn into_vec(self) -> (v: Vec<String>)
        ensures
            strings_view(v@) == self.prefixes(),
    {
        match self {
            GithubProxyPrefixes::Single(prefix) => {
                let mut v = Vec::new();
                v.push(prefix);
                assert(strings_view(v@) =~= self.prefixes());
                v
            },
            GithubProxyPrefixes::Multiple(prefixes) => prefixes,
        }
    }

    /// A copy of these prefixes.
    pub fn duplicate(&self) -> (r: GithubProxyPrefixes)
        ensures
            r.prefixes() == self.prefixes(),
    {
        match self {
            GithubProxyPrefixes::Single(p) => GithubProxyPrefixes::Single(p.clone()),
            GithubProxyPrefixes::Multiple(ps) => GithubProxyPrefixes::Multiple(copy_strings(ps)),
        }
    }
}

/// A copy of a vector of strings.
pub fn copy_strings(v: &Vec<String>) -> (r: Vec<String>)
    ensures
        strings_view(r@) == strings_view(v@),
{
    let mut r: Vec<String> = Vec::new();
    let mut i: usize = 0;
    while i < v.len()
        invariant
            i <= v.len(),
            strings_view(r@) == strings_view(v@).take(i as int),
        decreases v.len() - i,
    {
        let c: String = v[i].clone();
        let ghost old_r = r@;
        proof {
            assert(strings_view(old_r).len() == i);
            assert(old_r.len() == i);
            assert(c@ == v@[i as int]@);
        }
        r.push(c);
        proof {
            assert(r@.len() == i + 1);
            assert forall|k: int| 0 <= k < r@.len() implies #[trigger] strings_view(r@)[k]
                == strings_view(v@).take(i + 1)[k] by {
                if k < old_r.len() {
                    assert(r@[k] == old_r[k]);
                    assert(strings_view(old_r)[k] == strings_view(v@).take(i as int)[k]);
                } else {
                    assert(r@[k] == c);
                    assert(strings_view(v@).take(i + 1)[k] == v@[i as int]@);
                }
            }
            assert(strings_view(r@) =~= strings_view(v@).take(i + 1));
        }
        i = i + 1;
    }
    assert(strings_view(v@).take(v.len() as int) =~= strings_view(v@));
    r
}

/// A copy of an optional string.
pub fn copy_opt_string(o: &Option<String>) -> (r: Option<String>)
    ensures
        opt_view(r) == opt_view(*o),
{
    match o {
        Some(s) => Some(s.clone()),
        None => None,
    }
}

/// Global configuration for the updater.
#[derive(Clone)]
pub struct GlobalConfig {
    /// Directory where downloaded AppImage binaries are saved.
    pub storage_dir: String,
    /// Directory where symlinks to active AppImages are created.
    pub symlink_dir: String,
    /// Naming format for AppImage files. Supports `{name}` placeholder.
    pub naming_format: String,
    /// Extract and integrate desktop shortcuts (.desktop) and application icons.
    pub manage_desktop_files: bool,
    /// Automatically create binary symlinks in the symlink directory.
    pub create_symlinks: bool,
    /// Use segmented multi-connection HTTP range downloads for faster speed.
    pub segmented_downloads: bool,
    /// Show all configured apps in check/update output, including up-to-date ones.
    pub show_all: bool,
    /// Skip checking or updating apps when a rate limit window is active.
    pub respect_rate_limits: bool,
    /// Fall back to a proxy if direct GitHub API requests are rate limited.
    pub github_proxy: bool,
    /// Proxy URL prefix or list of prefixes to try when routing GitHub API queries.
    pub github_proxy_prefix: GithubProxyPrefixes,
    /// Custom template for the GitHub release API URL.
    pub github_release_api_url: Option<String>,
    /// Custom template for GitHub release web pages.
    pub github_release_web_url: Option<String>,
    /// Custom template for the GitLab release API URL.
    pub gitlab_release_api_url: Option<String>,
    /// Custom template for GitLab release web pages.
    pub gitlab_release_web_url: Option<String>,
    /// Automatically check and update the updater binary itself.
    pub auto_self_update: bool,
    /// GitHub token used for API requests (from the environment or `secrets.yml`).
    pub github_token: Option<String>,
}

impl Default for GlobalConfig {
    fn default() -> (r: Self)
        ensures
            r.storage_dir@ == "~/.local/bin/AppImages"@,
            r.symlink_dir@ == "~/.local/bin"@,
            r.naming_format@ == "{name}.AppImage"@,
            r.manage_desktop_files,
            !r.create_symlinks,
            r.segmented_downloads,
            !r.show_all,
            r.respect_rate_limits,
            r.github_proxy,
            r.github_proxy_prefix.prefixes() == seq!["https://gh-proxy.com/"@],
            r.github_release_api_url is None,
            r.github_release_web_url is None,
            r.gitlab_release_api_url is None,
            r.gitlab_release_web_url is None,
            !r.auto_self_update,
            r.github_token is None,
    {
        let r = GlobalConfig {
            storage_dir: String::from_str("~/.local/bin/AppImages"),
            symlink_dir: String::from_str("~/.local/bin"),
            naming_format: String::from_str("{name}.AppImage"),
            manage_desktop_files: true,
            create_symlinks: false,
            segmented_downloads: true,
            show_all: false,
            respect_rate_limits: default_respect_rate_limits(),
            github_proxy: default_github_proxy(),
            github_proxy_prefix: default_github_proxy_prefix(),
            github_release_api_url: None,
            github_release_web_url: None,
            gitlab_release_api_url: None,
            gitlab_release_web_url: None,
            auto_self_update: false,
            github_token: None,
        };
        r
    }
}

/// A path component is acceptable: one normal component, no separator, no NUL.
///
/// This follows how `Path::components` reads `value`: the first segment must be a
/// plain name (not empty, `.` or `..`), and every later segment must be empty or `.`.
pub open spec fn is_safe_path_component(v: Seq<char>) -> bool {
    let first = before_char(v, '/');
    &&& first.len() > 0
    &&& first != "."@
    &&& first != ".."@
    &&& forall|i: int| 0 <= i < v.len() ==> v[i] != '\0'
    &&& forall|i: int|
        first.len() <= i < v.len() ==> #[trigger] v[i] == '/' || (v[i] == '.' && v[i - 1] == '/' && (i + 1
            == v.len() || v[i + 1] == '/'))
}

/// Accepts `value` only if it is a single path component.
pub fn ensure_safe_path_component(value: &str, label: &str) -> (r: Result<(), String>)
    ensures
        r is Ok <==> is_safe_path_component(value@),
        r matches Err(m) ==> m@ == "Invalid "@ + label@ + " '"@ + value@ + "': must be a single path component without separators"@,
{
    let v = chars_of(value);
    let first = before_char_exec(&v);
    let ok = first_ok(&first, &v);
    if ok {
        Ok(())
    } else {
        let mut m = lit("Invalid ");
        push_all(&mut m, &chars_of(label));
        push_all(&mut m, &lit(" '"));
        push_all(&mut m, &v);
        push_all(&mut m, &lit("'"));
        push_all(&mut m, &lit(": must be a single path component without separators"));
        proof {
            reveal_strlit("'");
            reveal_strlit(": must be a single path component without separators");
            reveal_strlit("': must be a single path component without separators");
            assert("'"@ + ": must be a single path component without separators"@
                =~= "': must be a single path component without separators"@);
            assert(m@ =~= "Invalid "@ + label@ + " '"@ + value@ + "': must be a single path component without separators"@);
        }
        Err(string_of(&m))
    }
}

fn before_char_exec(v: &Vec<char>) -> (r: Vec<char>)
    ensures
        r@ == before_char(v@, '/'),
{
    crate::text::before_char_exec(v, '/')
}

fn first_ok(first: &Vec<char>, v: &Vec<char>) -> (ok: bool)
    requires
        first@ == before_char(v@, '/'),
    ensures
        ok == is_safe_path_component(v@),
{
    proof {
        reveal_strlit(".");
        reveal_strlit("..");
    }
    if first.len() == 0 || eq(first, &lit(".")) || eq(first, &lit("..")) {
        return false;
    }
    let mut i: usize = 0;
    while i < v.len()
        invariant
            i <= v.len(),
            forall|j: int| 0 <= j < i ==> v@[j] != '\0',
        decreases v.len() - i,
    {
        if v[i] == '\0' {
            return false;
        }
        i = i + 1;
    }
    proof {
        assert(first@.len() <= v@.len());
    }
    let mut k: usize = first.len();
    while k < v.len()
        invariant
            first@.len() <= k <= v.len(),
            first@ == before_char(v@, '/'),
            forall|i: int|
                first@.len() <= i < k ==> #[trigger] v@[i] == '/' || (v@[i] == '.' && v@[i - 1] == '/' && (i
                    + 1 == v@.len() || v@[i + 1] == '/')),
        decreases v.len() - k,
    {
        let c = v[k];
        if c == '/' {
        } else if c == '.' && k > 0 && v[k - 1] == '/' && (k + 1 == v.len() || v[k + 1] == '/') {
        } else {
            return false;
        }
        k = k + 1;
    }
    true
}

/// Sensitive credentials, typically stored in `secrets.yml`.
#[derive(Clone)]
pub struct SecretsConfig {
    pub github_token: Option<String>,
}

impl Default for SecretsConfig {
    fn default() -> (r: Self)
        ensures
            r.github_token is None,
    {
        SecretsConfig { github_token: None }
    }
}

/// Rate limits are respected unless configured otherwise.
pub fn default_respect_rate_limits() -> (r: bool)
    ensures
        r,
{
    true
}

/// The GitHub proxy fallback is on unless configured otherwise.
pub fn default_github_proxy() -> (r: bool)
    ensures
        r,
{
    true
}

/// By default the GitHub metadata is proxied through `https://gh-proxy.com/`.
pub fn default_github_proxy_prefix() -> (r: GithubProxyPrefixes)
    ensures
        r.prefixes() == seq!["https://gh-proxy.com/"@],
{
    GithubProxyPrefixes::Single(String::from_str("https://gh-proxy.com/"))
}

/// A forge recipe matches every asset name unless configured otherwise.
pub fn default_forge_asset_match() -> (r: String)
    ensures
        r@ == "*"@,
{
    String::from_str("*")
}

/// Individual application recipe configuration.
#[derive(Clone)]
pub struct AppConfig {
    /// Directory that holds the recipe file.
    pub config_dir: String,
    /// Unique name of the application.
    pub name: String,
    /// Skip checking or updating this application.
    pub ignore: Option<bool>,
    /// Zsync delta updates configuration.
    pub zsync: Option<ZsyncConfig>,
    /// Per-app override: extract and integrate desktop entries and icons.
    pub integration: Option<bool>,
    /// Per-app override: create a binary symlink in the symlink directory.
    pub create_symlink: Option<bool>,
    /// Per-app override: use segmented downloads.
    pub segmented_downloads: Option<bool>,
    /// Per-app override: respect API rate limits.
    pub respect_rate_limits: Option<bool>,
    /// Per-app override: fall back to a proxy if GitHub API rate limits are hit.
    pub github_proxy: Option<bool>,
    /// Per-app override: proxy URL prefix or list of prefixes to try.
    pub github_proxy_prefix: Option<GithubProxyPrefixes>,
    /// Per-app override: custom storage directory.
    pub storage_dir: Option<String>,
    /// Per-app override: custom AppImage binary filename format.
    pub naming_format: Option<String>,
    /// Wildcard pattern to locate a specific AppImage inside a downloaded .zip.
    pub inner_asset_match: Option<String>,
    /// Update resolution strategy.
    pub strategy: StrategyConfig,
}

/// Per-app zsync manifest configuration.
#[derive(Clone)]
pub enum ZsyncConfig {
    /// Derive the manifest URL from the resolved download URL when `true`.
    Enabled(bool),
    /// Use an explicit zsync manifest URL.
    Url(String),
}

/// Strategy used to locate and download updates.
#[derive(Clone)]
pub enum StrategyConfig {
    /// Download from a forge release repository (GitHub, GitLab, Gitea, Forgejo).
    Forge { repository: String, asset_match: String, asset_match_regex: Option<String> },
    /// Download from a direct URL.
    Direct { url: String, check_method: CheckMethod },
    /// Download using an external resolution script.
    Script { script_path: String },
}

/// HTTP method used to detect changes in direct downloads.
#[derive(Clone, Copy, Debug, PartialEq, Eq, Structural)]
pub enum CheckMethod {
    /// Use the HTTP ETag header.
    Etag,
    /// Use the HTTP Last-Modified header.
    LastModified,
}

/// The GitHub token in effect: the `GITHUB_TOKEN` variable, else the one in
/// `secrets.yml`, else the one in the global configuration.
pub fn effective_github_token(env_token: Option<&str>, secrets_token: Option<String>, config_token: Option<String>) -> (r: Option<String>)
    ensures
        opt_view(r) == match env_token {
            Some(t) => Some(t@),
            None => match opt_view(secrets_token) {
                Some(s) => Some(s),
                None => opt_view(config_token),
            },
        },
{
    match env_token {
        Some(t) => Some(String::from_str(t)),
        None => match secrets_token {
            Some(s) => Some(s),
            None => config_token,
        },
    }
}

} // verus!
